use svlog::cache::Cache;
use svlog::error::SvLogError;
use svlog::logfile::LogFile;
use svlog::logline::LogLine;
use svlog::pattern::build_regex;
use svlog::printer::LineLimit;
use svlog::printer::LogPrinter;
use svlog::printer::apply_line_limit;
use svlog::printer::merge_lines;
use svlog::priority::LogPriority;
use svlog::service::check_services;
use svlog::service::file_patterns;
use svlog::service::service_log_files;
use svlog::settings::LogFilterSettings;
use svlog::timestamp::Timestamp;
use svlog::zone::zone_from_link_path;

fn ts(year: u32, month: u32, day: u32, hour: u32, minute: u32, second: u32, nanos: u32) -> Timestamp {
    Timestamp { year, month, day, hour, minute, second, nanos }
}

fn open_settings() -> LogFilterSettings {
    LogFilterSettings {
        re: None,
        since: None,
        until: None,
        tz: None,
        min_priority: LogPriority::min(),
        max_priority: LogPriority::max(),
    }
}

fn line(raw: &str) -> LogLine {
    LogLine::new(raw.to_string()).unwrap()
}

#[test]
fn add_item() {
    let mut stk: Cache<u32> = Cache::new(2);
    assert!(stk.push(1));
    assert_eq!(stk.len(), 1);
}

#[test]
fn add_same_item() {
    let mut stk: Cache<u32> = Cache::new(2);
    assert!(stk.push(1));
    assert!(!stk.push(1));
    assert_eq!(stk.len(), 1);
}

#[test]
fn size_limit() {
    let mut stk: Cache<u32> = Cache::new(2);
    stk.push(1);
    stk.push(2);
    stk.push(3);
    assert_eq!(stk.len(), 2);
    assert!(stk.push(1)) // i.e. 1 was not in the list
}

#[test]
fn test_string() {
    let mut stk: Cache<String> = Cache::new(2);
    let item1 = "asdf".to_string();
    stk.push(item1);
    let item2 = "asdf".to_string();
    assert!(!stk.push(item2)); // item was already in list
}

#[test]
fn cache_moves_a_reseen_item_to_the_front() {
    // capacity 2: a, b, a again (false, moved to front), then c evicts the
    // least recently touched item b, not a
    let mut cache: Cache<String> = Cache::new(2);
    assert!(cache.push("a".to_string()));
    assert!(cache.push("b".to_string()));
    assert!(!cache.push("a".to_string()));
    assert!(cache.push("c".to_string()));
    assert!(!cache.push("a".to_string())); // a survived
    assert!(cache.push("b".to_string())); // b was evicted
}

#[test]
fn merge_keeps_global_chronological_order() {
    // one file holds records at T1 and T2, another a record at T1.5:
    // the merged stream is strictly ordered T1, T1.5, T2
    let a = vec![
        line("2021-12-11T09:00:00.00000 kern.info first"),
        line("2021-12-11T11:00:00.00000 kern.info third"),
    ];
    let b = vec![line("2021-12-11T10:00:00.00000 kern.info second")];
    let merged = merge_lines(a, b);
    assert_eq!(merged.len(), 3);
    assert_eq!(merged[0].content, "kern.info first");
    assert_eq!(merged[1].content, "kern.info second");
    assert_eq!(merged[2].content, "kern.info third");
    assert!(merged[0].lt(&merged[1]) && merged[1].lt(&merged[2]));
}

#[test]
fn merge_collapses_identical_records() {
    let a = vec![line("2021-12-11T09:00:00.00000 kern.info same")];
    let b = vec![line("2021-12-11T09:00:00.00000 kern.info same")];
    let merged = merge_lines(a, b);
    assert_eq!(merged.len(), 1);
}

#[test]
fn extract_filters_and_advances_the_cursor() {
    let mut file = LogFile::new("current".to_string());
    let lines = vec![
        "garbage".to_string(),
        "2021-12-11T09:00:00.00000 kern.err bad".to_string(),
        "2021-12-11T10:00:00.00000 kern.info fine".to_string(),
    ];
    let mut settings = open_settings();
    settings.min_priority = LogPriority::from_str("emerg").unwrap();
    settings.max_priority = LogPriority::from_str("err").unwrap();
    let out = file.extract_loglines(&lines, 420, &settings);
    assert_eq!(out.len(), 1);
    assert_eq!(out[0].content, "kern.err bad");
    assert_eq!(file.position, 420);
}

#[test]
fn priority_window_is_inclusive_on_both_bounds() {
    // range alert..err (1..3) admits exactly severities 1, 2 and 3
    let lo = LogPriority::from_str("alert").unwrap();
    let hi = LogPriority::from_str("err").unwrap();
    let by_severity = [
        line("2021-12-11T09:00:00.00000 a.emerg m"),
        line("2021-12-11T09:00:00.00001 a.alert m"),
        line("2021-12-11T09:00:00.00002 a.crit m"),
        line("2021-12-11T09:00:00.00003 a.err m"),
        line("2021-12-11T09:00:00.00004 a.warn m"),
    ];
    let admitted: Vec<u8> = by_severity
        .iter()
        .filter(|l| l.has_priority(&lo, &hi))
        .map(|l| l.priority.value())
        .collect();
    assert_eq!(admitted, vec![1, 2, 3]);
}

#[test]
fn time_window_is_inclusive() {
    let l = line("2021-12-11T09:00:00.00000 x");
    let at = ts(2021, 12, 11, 9, 0, 0, 0);
    assert!(l.is_between(&Some(at), &Some(at)));
    assert!(l.is_between(&None, &None));
    let later = ts(2021, 12, 11, 9, 0, 0, 1);
    assert!(!l.is_between(&Some(later), &None));
    assert!(!l.is_between(&None, &Some(ts(2021, 12, 11, 8, 59, 59, 0))));
}

#[test]
fn pattern_applies_to_content_only() {
    let re = build_regex(&Some("kern".to_string()), false);
    assert!(re.is_some());
    let matching = line("2021-12-11T09:00:00.00000 kern.info m");
    let other = line("2021-12-11T09:00:00.00000 daemon.info m");
    assert!(matching.is_match(&re));
    assert!(!other.is_match(&re));
    // the timestamp text never matches the pattern
    let re_digits = build_regex(&Some("2021-12-11".to_string()), false);
    assert!(!other.is_match(&re_digits));
    assert!(other.is_match(&None));
}

#[test]
fn pattern_case_insensitivity_is_configurable() {
    let strict = build_regex(&Some("KERN".to_string()), false);
    let lax = build_regex(&Some("KERN".to_string()), true);
    let l = line("2021-12-11T09:00:00.00000 kern.info m");
    assert!(!l.is_match(&strict));
    assert!(l.is_match(&lax));
}

#[test]
fn bad_pattern_builds_nothing() {
    assert!(build_regex(&Some("(".to_string()), true).is_none());
    assert!(build_regex(&None, true).is_none());
}

#[test]
fn render_without_zone_reuses_the_raw_timestamp() {
    let l = line("2021-12-11T09:12:45.35141 kern.info message");
    let out = l.format_with_tz(&None).unwrap();
    assert_eq!(out, "2021-12-11T09:12:45.35141Z kern.info message");
}

#[test]
fn render_in_zone_shows_the_offset() {
    // Berlin is one hour east of UTC in December
    let l = line("2021-12-11T09:12:45.35141 kern.info message");
    let out = l.format_with_tz(&Some("Europe/Berlin".to_string())).unwrap();
    assert_eq!(out, "2021-12-11T10:12:45.35141+01:00 kern.info message");
    // and two in July
    let summer = line("2021-07-11T23:30:00.00000 kern.info late");
    let out2 = summer.format_with_tz(&Some("Europe/Berlin".to_string())).unwrap();
    assert_eq!(out2, "2021-07-12T01:30:00.00000+02:00 kern.info late");
}

#[test]
fn render_in_unknown_zone_fails() {
    let l = line("2021-12-11T09:12:45.35141 kern.info message");
    assert!(matches!(
        l.format_with_tz(&Some("Nowhere/Special".to_string())),
        Err(SvLogError::TimeZoneError { .. })
    ));
}

#[test]
fn batch_returns_the_last_n_in_ascending_order() {
    let mut printer = LogPrinter::new(
        "/var/log/socklog/".to_string(),
        service_log_files(&vec!["a/current".to_string(), "b/current".to_string()]),
        open_settings(),
    );
    let contents = vec![
        (
            vec![
                "2021-12-11T09:00:00.00000 kern.info one".to_string(),
                "2021-12-11T11:00:00.00000 kern.info three".to_string(),
            ],
            90,
        ),
        (vec!["2021-12-11T10:00:00.00000 kern.info two".to_string()], 45),
    ];
    let out = printer.print_logs(&contents, &LineLimit::Last(2)).unwrap();
    assert_eq!(
        out,
        vec![
            "2021-12-11T10:00:00.00000Z kern.info two".to_string(),
            "2021-12-11T11:00:00.00000Z kern.info three".to_string(),
        ]
    );
    assert_eq!(printer.log_files[0].position, 90);
    assert_eq!(printer.log_files[1].position, 45);
    // fewer matches than asked for: all of them
    let out_all = printer.print_logs(&contents, &LineLimit::Last(10)).unwrap();
    assert_eq!(out_all.len(), 3);
}

#[test]
fn batch_limit_zero_skips_to_the_end() {
    let mut printer = LogPrinter::new(
        "/var/log/socklog/".to_string(),
        service_log_files(&vec!["a/current".to_string()]),
        open_settings(),
    );
    let contents = vec![(Vec::new(), 1234)];
    let out = printer.print_logs(&contents, &LineLimit::SkipToEnd).unwrap();
    assert!(out.is_empty());
    assert_eq!(printer.log_files[0].position, 1234);
}

#[test]
fn line_limit_tail_semantics() {
    let v = vec![
        line("2021-12-11T09:00:00.00000 a"),
        line("2021-12-11T10:00:00.00000 b"),
        line("2021-12-11T11:00:00.00000 c"),
    ];
    let tail = apply_line_limit(v, &LineLimit::Last(2));
    assert_eq!(tail.len(), 2);
    assert_eq!(tail[0].content, "b");
    assert_eq!(tail[1].content, "c");
}

#[test]
fn follow_resets_a_truncated_cursor() {
    // between two events the file shrank below the cursor: the next read
    // starts at zero, not at the stale offset
    let mut printer = LogPrinter::new(
        "/var/log/socklog/".to_string(),
        service_log_files(&vec!["a/current".to_string()]),
        open_settings(),
    );
    let grown = printer.plan_read(0, 100);
    assert_eq!(grown, 0); // first read starts at the beginning
    let emitted = printer.process_new_lines(
        0,
        &vec!["2021-12-11T09:00:00.00000 kern.info one".to_string()],
        100,
    );
    assert_eq!(emitted.len(), 1);
    assert_eq!(printer.log_files[0].position, 100);
    // the file shrank to 10 bytes: truncation detected, cursor reset
    let start = printer.plan_read(0, 10);
    assert_eq!(start, 0);
    assert_eq!(printer.log_files[0].position, 0);
    // a growing file is read from the old cursor
    let mut other = LogPrinter::new(
        "/var/log/socklog/".to_string(),
        service_log_files(&vec!["a/current".to_string()]),
        open_settings(),
    );
    other.jump_to_end(&vec![50]);
    assert_eq!(other.plan_read(0, 80), 50);
}

#[test]
fn follow_suppresses_recent_duplicates() {
    let mut printer = LogPrinter::new(
        "/var/log/socklog/".to_string(),
        service_log_files(&vec!["a/current".to_string()]),
        open_settings(),
    );
    let batch = vec![
        "2021-12-11T09:00:00.00000 kern.info one".to_string(),
        "2021-12-11T09:00:01.00000 kern.info two".to_string(),
    ];
    let first = printer.process_new_lines(0, &batch, 80);
    assert_eq!(first.len(), 2);
    // the same two lines delivered again by a duplicate notification
    let again = printer.process_new_lines(0, &batch, 80);
    assert!(again.is_empty());
    // a genuinely new line still comes through
    let fresh = printer.process_new_lines(
        0,
        &vec!["2021-12-11T09:00:02.00000 kern.info three".to_string()],
        120,
    );
    assert_eq!(fresh, vec!["2021-12-11T09:00:02.00000Z kern.info three".to_string()]);
    assert_eq!(printer.log_files[0].position, 120);
}

#[test]
fn follow_filters_but_ignores_the_time_window() {
    let mut settings = open_settings();
    settings.since = Some(ts(2030, 1, 1, 0, 0, 0, 0)); // far future window
    settings.max_priority = LogPriority::from_str("err").unwrap();
    let mut printer = LogPrinter::new(
        "/var/log/socklog/".to_string(),
        service_log_files(&vec!["a/current".to_string()]),
        settings,
    );
    let out = printer.process_new_lines(
        0,
        &vec![
            "2021-12-11T09:00:00.00000 kern.err boom".to_string(),
            "2021-12-11T09:00:01.00000 kern.info chatter".to_string(),
            "not a log line".to_string(),
        ],
        200,
    );
    // the time window is not reapplied; the priority window is; the
    // malformed line is skipped silently
    assert_eq!(out, vec!["2021-12-11T09:00:00.00000Z kern.err boom".to_string()]);
}

#[test]
fn find_log_file_matches_exact_paths_only() {
    let printer = LogPrinter::new(
        "/var/log/socklog/".to_string(),
        service_log_files(&vec!["a/current".to_string(), "b/current".to_string()]),
        open_settings(),
    );
    assert_eq!(printer.find_log_file("b/current"), Some(1));
    assert_eq!(printer.find_log_file("c/current"), None);
}

#[test]
fn settings_from_parts_boot_window() {
    let boots = vec![
        (Some(ts(2022, 9, 2, 8, 0, 0, 0)), None),
        (Some(ts(2022, 9, 1, 10, 0, 0, 0)), None),
    ];
    let s = LogFilterSettings::from_parts(
        None,
        None,
        false,
        Some(1),
        &boots,
        None,
        None,
        LogPriority::min(),
        LogPriority::max(),
    )
    .unwrap();
    assert_eq!(s.since, Some(ts(2022, 9, 1, 10, 0, 0, 0)));
    assert_eq!(s.until, Some(ts(2022, 9, 2, 7, 59, 59, 999_999_999)));
    let beyond = LogFilterSettings::from_parts(
        None,
        None,
        false,
        Some(7),
        &boots,
        None,
        None,
        LogPriority::min(),
        LogPriority::max(),
    );
    assert!(matches!(beyond, Err(SvLogError::BootTimeNotFound)));
}

#[test]
fn settings_from_parts_converts_local_bounds() {
    // 10:00 on a Berlin winter morning is 09:00 UTC
    let s = LogFilterSettings::from_parts(
        None,
        Some("Europe/Berlin".to_string()),
        false,
        None,
        &Vec::new(),
        Some(ts(2021, 12, 11, 10, 0, 0, 0)),
        None,
        LogPriority::min(),
        LogPriority::max(),
    )
    .unwrap();
    assert_eq!(s.since, Some(ts(2021, 12, 11, 9, 0, 0, 0)));
    assert_eq!(s.until, None);
}

#[test]
fn settings_from_parts_utc_passthrough() {
    let since = Some(ts(2021, 12, 11, 10, 0, 0, 0));
    let s = LogFilterSettings::from_parts(
        None,
        None,
        false,
        None,
        &Vec::new(),
        since,
        None,
        LogPriority::min(),
        LogPriority::max(),
    )
    .unwrap();
    assert_eq!(s.since, since);
}

#[test]
fn check_services_rejects_unknown_names() {
    let all = vec!["kernel".to_string(), "daemon".to_string()];
    assert!(check_services(&all, &vec!["kernel".to_string()]).is_ok());
    assert!(check_services(&all, &Vec::new()).is_ok());
    match check_services(&all, &vec!["kernel".to_string(), "yoyoyo".to_string()]) {
        Err(SvLogError::ServiceNotFoundError { service }) => assert_eq!(service, "yoyoyo"),
        _ => panic!("expected the unknown service to be refused"),
    }
}

#[test]
fn file_patterns_cover_current_and_rotated() {
    let pats = file_patterns("/var/log/socklog/", &vec!["kernel".to_string()]);
    assert_eq!(
        pats,
        vec![
            "/var/log/socklog/kernel/current".to_string(),
            "/var/log/socklog/kernel/*.[su]".to_string(),
        ]
    );
    let all = file_patterns("/var/log/socklog/", &Vec::new());
    assert_eq!(
        all,
        vec![
            "/var/log/socklog/**/current".to_string(),
            "/var/log/socklog/**/*.[su]".to_string(),
        ]
    );
}

#[test]
fn service_log_files_start_at_zero() {
    let files = service_log_files(&vec!["a/current".to_string(), "a/old.s".to_string()]);
    assert_eq!(files.len(), 2);
    assert_eq!(files[0].name, "a/current");
    assert_eq!(files[1].position, 0);
}

#[test]
fn error_messages_name_their_cause() {
    let e = SvLogError::BootTimeNotFound;
    assert_eq!(e.message(), "boot time not found");
    let e2 = SvLogError::ServiceNotFoundError { service: "x".to_string() };
    assert_eq!(e2.message(), "service not found: x");
}

#[test]
fn zone_name_from_symlink_target() {
    assert_eq!(zone_from_link_path("/usr/share/zoneinfo/Europe/Berlin"), "Europe/Berlin");
    assert_eq!(zone_from_link_path("Europe/Berlin"), "Europe/Berlin");
    assert_eq!(zone_from_link_path("/a/zoneinfo/posix/zoneinfo/UTC"), "UTC");
}

#[test]
fn cache_with_zero_capacity_holds_nothing() {
    let mut cache: Cache<String> = Cache::new(0);
    assert!(cache.push("a".to_string()));
    assert_eq!(cache.len(), 0);
    assert!(cache.push("a".to_string())); // never cached, so always fresh
}

#[test]
fn render_at_the_era_edge() {
    // converting the era's last evening eastward crosses into the one
    // representable carry year
    let l = line("9999-12-31T23:30:00.00000 kern.info end");
    let out = l.format_with_tz(&Some("Europe/Berlin".to_string())).unwrap();
    assert_eq!(out, "10000-01-01T00:30:00.00000+01:00 kern.info end");
}

#[test]
fn truncated_file_reread_is_deduplicated() {
    // after a truncation reset, the full re-read delivers old lines again;
    // the recency cache keeps them from being emitted twice
    let mut printer = LogPrinter::new(
        "/var/log/socklog/".to_string(),
        service_log_files(&vec!["a/current".to_string()]),
        open_settings(),
    );
    let old_line = "2021-12-11T09:00:00.00000 kern.info kept".to_string();
    let first = printer.process_new_lines(0, &vec![old_line.clone()], 40);
    assert_eq!(first.len(), 1);
    // the file shrank: cursor resets, the next read starts at zero
    assert_eq!(printer.plan_read(0, 10), 0);
    // the re-read sees the old line plus a genuinely new one
    let second = printer.process_new_lines(
        0,
        &vec![old_line, "2021-12-11T09:00:05.00000 kern.info fresh".to_string()],
        90,
    );
    assert_eq!(second, vec!["2021-12-11T09:00:05.00000Z kern.info fresh".to_string()]);
    assert_eq!(printer.log_files[0].position, 90);
}
