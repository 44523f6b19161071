use svlog::boottime::boot_time_lines;
use svlog::timearg::parse_ndt_since;
use svlog::timearg::parse_ndt_until;
use svlog::boottime::boot_time_tuple;
use svlog::boottime::boot_times;
use svlog::error::SvLogError;
use svlog::logline::LogLine;
use svlog::priority::LogPriority;
use svlog::priority::parse_priorities;
use svlog::priority::priority_value;
use svlog::timestamp::Timestamp;

fn ts(year: u32, month: u32, day: u32, hour: u32, minute: u32, second: u32, nanos: u32) -> Timestamp {
    Timestamp { year, month, day, hour, minute, second, nanos }
}

#[test]
fn parse_ok() {
    let ll_str = "2021-12-11T09:12:45.35141 kern.info message";
    let ll: Result<LogLine, _> = LogLine::new(ll_str.to_string());
    assert!(ll.is_ok());
    let log_line = ll.unwrap();
    assert_eq!(log_line.content, String::from("kern.info message"));
    assert_eq!(log_line.priority, LogPriority::from_str("info").unwrap());
    assert_eq!(log_line.date_str, "2021-12-11T09:12:45.35141");
}

#[test]
fn parse_ok_smallest_possible_content() {
    let ll_str = "2021-12-11T09:12:45.35141 x";
    let ll: Result<LogLine, _> = LogLine::new(ll_str.to_string());
    assert!(ll.is_ok());
    let log_line = ll.unwrap();
    assert_eq!(log_line.content, String::from("x"));
    assert_eq!(log_line.priority, LogPriority::max());
    assert_eq!(log_line.date_str, "2021-12-11T09:12:45.35141");
}

#[test]
fn parse_ok_only_date() {
    let ll_str = "2021-12-11T09:12:45.35141";
    let ll: Result<LogLine, _> = LogLine::new(ll_str.to_string());
    assert!(ll.is_ok());
    let log_line = ll.unwrap();
    assert_eq!(log_line.content, String::from(""));
    assert_eq!(log_line.priority, LogPriority::max());
    assert_eq!(log_line.date_str, "2021-12-11T09:12:45.35141");
}

#[test]
fn parse_err_too_short_timestamp() {
    let ll_str = "2021-12-11T09:12:45.3514";
    let ll: Result<LogLine, _> = LogLine::new(ll_str.to_string());
    assert!(ll.is_err());
}

#[test]
fn parse_ok_spaces_1() {
    let ll_str = "2021-12-11T09:12:45.35141  x";
    let ll: Result<LogLine, _> = LogLine::new(ll_str.to_string());
    assert!(ll.is_ok());
    let log_line = ll.unwrap();
    assert_eq!(log_line.content, String::from("x"));
    assert_eq!(log_line.priority, LogPriority::max());
    assert_eq!(log_line.date_str, "2021-12-11T09:12:45.35141");
}

#[test]
fn parse_ok_spaces_2() {
    let ll_str = "2021-12-11T09:12:45.35141  ";
    let ll: Result<LogLine, _> = LogLine::new(ll_str.to_string());
    assert!(ll.is_ok());
    let log_line = ll.unwrap();
    assert_eq!(log_line.content, String::from(""));
    assert_eq!(log_line.priority, LogPriority::max());
    assert_eq!(log_line.date_str, "2021-12-11T09:12:45.35141");
}

#[test]
fn parse_ok_spaces_3() {
    let ll_str = "2021-12-11T09:12:45.35141\u{2009}x\u{2009}y";
    let ll: Result<LogLine, _> = LogLine::new(ll_str.to_string());
    assert!(ll.is_ok());
    let log_line = ll.unwrap();
    assert_eq!(log_line.content, String::from("x\u{2009}y"));
    assert_eq!(log_line.priority, LogPriority::max());
    assert_eq!(log_line.date_str, "2021-12-11T09:12:45.35141");
}

#[test]
fn parse_ok_tab() {
    let ll_str = "2021-12-11T09:12:45.35141\u{0009}kernel.err\u{0009}y";
    let ll: Result<LogLine, _> = LogLine::new(ll_str.to_string());
    assert!(ll.is_ok());
    let log_line = ll.unwrap();
    assert_eq!(log_line.content, String::from("kernel.err\u{0009}y"));
    assert_eq!(log_line.priority, LogPriority::from_str("err").unwrap());
    assert_eq!(log_line.date_str, "2021-12-11T09:12:45.35141");
}

#[test]
fn priority_empty_string() {
    let s = "";
    let prio = LogLine::read_priority(s);
    assert_eq!(prio, LogPriority::max());
}

#[test]
fn priority_err() {
    let s = "kern.err: x y z";
    let prio = LogLine::read_priority(s);
    assert_eq!(prio, LogPriority::from_str("err").unwrap());
}

#[test]
fn priority_err_without_colon() {
    let s = "kern.err x y z";
    let prio = LogLine::read_priority(s);
    assert_eq!(prio, LogPriority::from_str("err").unwrap());
}

#[test]
fn priority_err_2() {
    let s = ".err: x y z";
    let prio = LogLine::read_priority(s);
    assert_eq!(prio, LogPriority::from_str("err").unwrap());
}

#[test]
fn priority_no_dot() {
    let s = "kernel: x y z";
    let prio = LogLine::read_priority(s);
    assert_eq!(prio, LogPriority::max());
}

#[test]
fn priority_ambiguous() {
    let s = "kernel.ambiguous: x y z";
    let prio = LogLine::read_priority(s);
    assert_eq!(prio, LogPriority::max());
}

#[test]
fn parse_reads_the_instant() {
    let ll = LogLine::new("2021-12-11T09:12:45.35141 kern.info: message".to_string()).unwrap();
    assert_eq!(ll.date, ts(2021, 12, 11, 9, 12, 45, 351_410_000));
    assert_eq!(ll.priority.value(), 6);
}

#[test]
fn parse_priority_of_numeral_token() {
    let ll = LogLine::new("2021-12-11T09:12:45.35141 daemon.5: hello".to_string()).unwrap();
    assert_eq!(ll.priority.value(), 5);
}

#[test]
fn parse_err_bad_calendar_date() {
    // a 25-character prefix that is no real date must fail with the
    // timestamp error, carrying the line
    let ll = LogLine::new("2021-02-30T09:12:45.35141 x".to_string());
    match ll {
        Err(SvLogError::ParsingTimestampError { line }) => {
            assert_eq!(line, "2021-02-30T09:12:45.35141 x");
        },
        _ => panic!("expected a timestamp parse failure"),
    }
}

#[test]
fn parse_err_short_line_kind() {
    match LogLine::new("too short".to_string()) {
        Err(SvLogError::ParsingLogLineError { line }) => assert_eq!(line, "too short"),
        _ => panic!("expected the malformed-record failure"),
    }
}

#[test]
fn parse_accepts_leap_day() {
    assert!(LogLine::new("2020-02-29T00:00:00.00000 x".to_string()).is_ok());
    assert!(LogLine::new("2021-02-29T00:00:00.00000 x".to_string()).is_err());
}

#[test]
fn priority_value_names_and_numerals() {
    assert_eq!(priority_value("emerg"), Some(0));
    assert_eq!(priority_value("0"), Some(0));
    assert_eq!(priority_value("alert"), Some(1));
    assert_eq!(priority_value("crit"), Some(2));
    assert_eq!(priority_value("err"), Some(3));
    assert_eq!(priority_value("warn"), Some(4));
    assert_eq!(priority_value("notice"), Some(5));
    assert_eq!(priority_value("info"), Some(6));
    assert_eq!(priority_value("debug"), Some(7));
    assert_eq!(priority_value("7"), Some(7));
    assert_eq!(priority_value("verbose"), None);
}

#[test]
fn parse_priorities_single_and_ranges() {
    let (lo, hi) = parse_priorities("warn").unwrap();
    assert_eq!((lo.value(), hi.value()), (4, 4));
    let (lo, hi) = parse_priorities("alert..err").unwrap();
    assert_eq!((lo.value(), hi.value()), (1, 3));
    let (lo, hi) = parse_priorities("..5").unwrap();
    assert_eq!((lo.value(), hi.value()), (0, 5));
    let (lo, hi) = parse_priorities("2..").unwrap();
    assert_eq!((lo.value(), hi.value()), (2, 7));
    let (lo, hi) = parse_priorities("..").unwrap();
    assert_eq!((lo.value(), hi.value()), (0, 7));
    assert!(parse_priorities("1..2..3").is_none());
    assert!(parse_priorities("loud").is_none());
    assert!(parse_priorities("").is_none());
}

#[test]
fn boot_tuple_reads_fixed_offsets() {
    // columns as `last` prints them: the start timestamp begins at character
    // 22, the end timestamp at character 50
    let line = "reboot   system boot  2022-09-01T10:00:00 -       2022-09-01T12:00:00  (02:00)";
    let (start, end) = boot_time_tuple(line).unwrap();
    assert_eq!(start, Some(ts(2022, 9, 1, 10, 0, 0, 0)));
    assert_eq!(end, Some(ts(2022, 9, 1, 12, 0, 0, 0)));
}

#[test]
fn boot_tuple_without_shutdown_column() {
    let line = "reboot   system boot  2022-09-01T10:00:00 still running";
    let (start, end) = boot_time_tuple(line).unwrap();
    assert_eq!(start, Some(ts(2022, 9, 1, 10, 0, 0, 0)));
    assert_eq!(end, None);
}

#[test]
fn boot_tuple_too_short() {
    assert!(matches!(boot_time_tuple("reboot"), Err(SvLogError::BootTimeNotFound)));
}

#[test]
fn boot_lines_keeps_only_boot_markers() {
    let lines = vec![
        "alice    pts/0        host  2022-09-01T09:00:00".to_string(),
        "reboot   system boot  2022-09-01T10:00:00 -       2022-09-01T12:00:00".to_string(),
        "wtmp begins".to_string(),
    ];
    let kept = boot_time_lines(&lines);
    assert_eq!(kept.len(), 1);
    assert!(kept[0].contains("system boot"));
}

#[test]
fn boot_offset_without_shutdown_falls_back() {
    // boot 1 has no recorded shutdown: its window ends one nanosecond before
    // boot 0 started
    let boots = vec![
        (Some(ts(2022, 9, 2, 8, 0, 0, 0)), None),
        (Some(ts(2022, 9, 1, 10, 0, 0, 0)), None),
    ];
    let (since, until) = boot_times(&boots, 1).unwrap();
    assert_eq!(since, Some(ts(2022, 9, 1, 10, 0, 0, 0)));
    assert_eq!(until, Some(ts(2022, 9, 2, 7, 59, 59, 999_999_999)));
}

#[test]
fn boot_offset_with_shutdown_keeps_it() {
    let boots = vec![
        (Some(ts(2022, 9, 2, 8, 0, 0, 0)), None),
        (Some(ts(2022, 9, 1, 10, 0, 0, 0)), Some(ts(2022, 9, 1, 12, 0, 0, 0))),
    ];
    let (since, until) = boot_times(&boots, 1).unwrap();
    assert_eq!(since, Some(ts(2022, 9, 1, 10, 0, 0, 0)));
    assert_eq!(until, Some(ts(2022, 9, 1, 12, 0, 0, 0)));
}

#[test]
fn boot_offset_beyond_history() {
    let boots = vec![(Some(ts(2022, 9, 2, 8, 0, 0, 0)), None)];
    assert!(matches!(boot_times(&boots, 3), Err(SvLogError::BootTimeNotFound)));
}

#[test]
fn minus_one_nanosecond_borrows_across_midnight() {
    let t = ts(2022, 3, 1, 0, 0, 0, 0);
    let u = t.minus_one_nanosecond().unwrap();
    assert_eq!(u, ts(2022, 2, 28, 23, 59, 59, 999_999_999));
    let leap = ts(2020, 3, 1, 0, 0, 0, 0);
    let v = leap.minus_one_nanosecond().unwrap();
    assert_eq!(v, ts(2020, 2, 29, 23, 59, 59, 999_999_999));
}

#[test]
fn timestamp_order_is_chronological() {
    let a = ts(2021, 12, 11, 9, 12, 45, 351_410_000);
    let b = ts(2021, 12, 11, 9, 12, 45, 351_420_000);
    assert!(a.lt(&b));
    assert!(!b.lt(&a));
    assert!(a.le(&a));
}

#[test]
fn time_arg_shapes() {
    let today = ts(2022, 9, 2, 13, 37, 53, 123);
    assert_eq!(parse_ndt_since("today", &today), Some(ts(2022, 9, 2, 0, 0, 0, 0)));
    assert_eq!(parse_ndt_since("yesterday", &today), Some(ts(2022, 9, 1, 0, 0, 0, 0)));
    assert_eq!(parse_ndt_since("2022-09-02 13:37:53", &today), Some(ts(2022, 9, 2, 13, 37, 53, 0)));
    assert_eq!(parse_ndt_since("2022-09-02 13:37", &today), Some(ts(2022, 9, 2, 13, 37, 0, 0)));
    assert_eq!(parse_ndt_since("2022-09-02", &today), Some(ts(2022, 9, 2, 0, 0, 0, 0)));
    assert_eq!(parse_ndt_since("13:37:53", &today), Some(ts(2022, 9, 2, 13, 37, 53, 0)));
    assert_eq!(parse_ndt_since("13:37", &today), Some(ts(2022, 9, 2, 13, 37, 0, 0)));
    assert_eq!(parse_ndt_since("13:99", &today), None);
    assert_eq!(parse_ndt_since("someday", &today), None);
    // an upper bound is the last instant of the named span
    assert_eq!(
        parse_ndt_until("2022-09-02", &today),
        Some(ts(2022, 9, 2, 23, 59, 59, 999_999_999))
    );
    assert_eq!(
        parse_ndt_until("13:37", &today),
        Some(ts(2022, 9, 2, 13, 37, 59, 999_999_999))
    );
    assert_eq!(
        parse_ndt_until("13:37:53", &today),
        Some(ts(2022, 9, 2, 13, 37, 53, 999_999_999))
    );
}

#[test]
fn boot_tuple_length_boundaries() {
    // exactly 41 characters: the whole start field, no room for an end
    let exact_start = "reboot   system boot  2022-09-01T10:00:00";
    assert_eq!(exact_start.len(), 41);
    let (start, end) = boot_time_tuple(exact_start).unwrap();
    assert_eq!(start, Some(ts(2022, 9, 1, 10, 0, 0, 0)));
    assert_eq!(end, None);
    // exactly 69 characters: the whole end field too
    let exact_end = "reboot   system boot  2022-09-01T10:00:00 -       2022-09-01T12:00:00";
    assert_eq!(exact_end.len(), 69);
    let (_, end2) = boot_time_tuple(exact_end).unwrap();
    assert_eq!(end2, Some(ts(2022, 9, 1, 12, 0, 0, 0)));
    // one character short of the start field still fails
    assert!(matches!(boot_time_tuple(&exact_start[..40]), Err(SvLogError::BootTimeNotFound)));
}
