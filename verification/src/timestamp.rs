//! Timestamps of the on-disk record format.
//!
//! A record line begins with the 25 characters `YYYY-MM-DDTHH:MM:SS.fffff`
//! (five fractional digits); boot-history lines carry the 19-character form
//! without the fraction. Values are held as plain calendar fields in UTC, so
//! ordering, window tests and calendar arithmetic are ordinary integer logic.

use vstd::prelude::*;

verus! {

/// The decimal digit character for `d` (0 to 9).
pub open spec fn dig(d: int) -> char {
    ((48 + d) as u8) as char
}

/// `x` (below 100) as two decimal digits.
pub open spec fn two_digits(x: int) -> Seq<char> {
    seq![dig(x / 10), dig(x % 10)]
}

/// `x` (below 10000) as four decimal digits.
pub open spec fn four_digits(x: int) -> Seq<char> {
    two_digits(x / 100) + two_digits(x % 100)
}

/// `x` (below 100000) as five decimal digits.
pub open spec fn five_digits(x: int) -> Seq<char> {
    seq![dig(x / 10000)] + four_digits(x % 10000)
}

/// A year as text: four digits within the era, "10000" for the one value the
/// era's edge can carry into.
pub open spec fn year_chars(y: int) -> Seq<char> {
    if y <= 9999 {
        four_digits(y)
    } else {
        seq!['1', '0', '0', '0', '0']
    }
}

/// A UTC offset (seconds east, within a day of zero) as `+HH:MM` / `-HH:MM`.
pub open spec fn offset_text(o: int) -> Seq<char> {
    let sign = if o < 0 {
        '-'
    } else {
        '+'
    };
    let a = if o < 0 {
        -o
    } else {
        o
    };
    seq![sign] + two_digits(a / 3600) + seq![':'] + two_digits((a % 3600) / 60)
}

/// Appends the decimal digit character for `d`.
pub fn push_digit(out: &mut String, d: u32)
    requires
        d < 10,
    ensures
        final(out)@ == old(out)@.push(dig(d as int)),
{
    let c = ((48 + d) as u8) as char;
    out.push(c);
}

/// Appends `x` as two decimal digits.
pub fn push_two_digits(out: &mut String, x: u32)
    requires
        x < 100,
    ensures
        final(out)@ == old(out)@ + two_digits(x as int),
{
    push_digit(out, x / 10);
    push_digit(out, x % 10);
    proof {
        assert(out@ =~= old(out)@ + two_digits(x as int));
    }
}

/// Appends `x` as four decimal digits.
pub fn push_four_digits(out: &mut String, x: u32)
    requires
        x < 10000,
    ensures
        final(out)@ == old(out)@ + four_digits(x as int),
{
    push_two_digits(out, x / 100);
    push_two_digits(out, x % 100);
    proof {
        assert(out@ =~= old(out)@ + four_digits(x as int));
    }
}

/// Appends `x` as five decimal digits.
pub fn push_five_digits(out: &mut String, x: u32)
    requires
        x < 100000,
    ensures
        final(out)@ == old(out)@ + five_digits(x as int),
{
    push_digit(out, x / 10000);
    push_four_digits(out, x % 10000);
    proof {
        assert(out@ =~= old(out)@ + five_digits(x as int));
    }
}

/// Appends a UTC offset as `+HH:MM` / `-HH:MM`.
pub fn push_offset_text(out: &mut String, o: i32)
    requires
        -86400 < o < 86400,
    ensures
        final(out)@ == old(out)@ + offset_text(o as int),
{
    let a: u32 = if o < 0 {
        out.push('-');
        (-o) as u32
    } else {
        out.push('+');
        o as u32
    };
    push_two_digits(out, a / 3600);
    out.push(':');
    push_two_digits(out, (a % 3600) / 60);
    proof {
        assert(out@ =~= old(out)@ + offset_text(o as int));
    }
}

/// A UTC instant, as calendar fields plus nanoseconds within the second.
#[derive(PartialEq, Eq, Structural, Clone, Copy, Debug)]
pub struct Timestamp {
    pub year: u32,
    pub month: u32,
    pub day: u32,
    pub hour: u32,
    pub minute: u32,
    pub second: u32,
    pub nanos: u32,
}

pub open spec fn spec_is_leap_year(y: int) -> bool {
    (y % 4 == 0 && y % 100 != 0) || y % 400 == 0
}

pub open spec fn spec_days_in_month(y: int, m: int) -> int {
    if m == 2 {
        if spec_is_leap_year(y) {
            29
        } else {
            28
        }
    } else if m == 4 || m == 6 || m == 9 || m == 11 {
        30
    } else {
        31
    }
}

pub fn is_leap_year(y: u32) -> (r: bool)
    ensures
        r == spec_is_leap_year(y as int),
{
    (y % 4 == 0 && y % 100 != 0) || y % 400 == 0
}

pub fn days_in_month(y: u32, m: u32) -> (r: u32)
    ensures
        r == spec_days_in_month(y as int, m as int),
{
    if m == 2 {
        if is_leap_year(y) {
            29
        } else {
            28
        }
    } else if m == 4 || m == 6 || m == 9 || m == 11 {
        30
    } else {
        31
    }
}

impl Timestamp {
    /// A well-formed calendar instant of the four-digit-year era.
    pub open spec fn valid(self) -> bool {
        &&& self.year <= 9999
        &&& 1 <= self.month <= 12
        &&& 1 <= self.day <= spec_days_in_month(self.year as int, self.month as int)
        &&& self.hour < 24
        &&& self.minute < 60
        &&& self.second < 60
        &&& self.nanos < 1_000_000_000
    }

    pub fn check_valid(&self) -> (r: bool)
        ensures
            r == self.valid(),
    {
        self.year <= 9999 && 1 <= self.month && self.month <= 12 && 1 <= self.day && self.day
            <= days_in_month(self.year, self.month) && self.hour < 24 && self.minute < 60
            && self.second < 60 && self.nanos < 1_000_000_000
    }

    /// Strict chronological order: lexicographic over the fields.
    pub open spec fn spec_lt(self, other: Timestamp) -> bool {
        if self.year != other.year {
            self.year < other.year
        } else if self.month != other.month {
            self.month < other.month
        } else if self.day != other.day {
            self.day < other.day
        } else if self.hour != other.hour {
            self.hour < other.hour
        } else if self.minute != other.minute {
            self.minute < other.minute
        } else if self.second != other.second {
            self.second < other.second
        } else {
            self.nanos < other.nanos
        }
    }

    pub open spec fn spec_le(self, other: Timestamp) -> bool {
        self.spec_lt(other) || self == other
    }

    pub fn lt(&self, other: &Timestamp) -> (r: bool)
        ensures
            r == self.spec_lt(*other),
    {
        if self.year != other.year {
            self.year < other.year
        } else if self.month != other.month {
            self.month < other.month
        } else if self.day != other.day {
            self.day < other.day
        } else if self.hour != other.hour {
            self.hour < other.hour
        } else if self.minute != other.minute {
            self.minute < other.minute
        } else if self.second != other.second {
            self.second < other.second
        } else {
            self.nanos < other.nanos
        }
    }

    pub fn le(&self, other: &Timestamp) -> (r: bool)
        ensures
            r == self.spec_le(*other),
    {
        !other.lt(self)
    }
}

/// The chronological order is a strict total order: asymmetric, transitive,
/// and any two instants that neither precede one another are the same.
pub proof fn lemma_ts_order_total(a: Timestamp, b: Timestamp, c: Timestamp)
    ensures
        !a.spec_lt(b) && !b.spec_lt(a) ==> a == b,
        !(a.spec_lt(b) && b.spec_lt(a)),
        a.spec_lt(b) && b.spec_lt(c) ==> a.spec_lt(c),
{
}

// ---------------------------------------------------------------------------
// Parsing the fixed-position formats.
// ---------------------------------------------------------------------------

pub open spec fn is_digit(c: char) -> bool {
    '0' as u32 <= c as u32 && c as u32 <= '9' as u32
}

pub open spec fn spec_digit(c: char) -> int {
    c as u32 - '0' as u32
}

pub open spec fn num2(s: Seq<char>, i: int) -> int {
    10 * spec_digit(s[i]) + spec_digit(s[i + 1])
}

pub open spec fn num4(s: Seq<char>, i: int) -> int {
    1000 * spec_digit(s[i]) + 100 * spec_digit(s[i + 1]) + 10 * spec_digit(s[i + 2]) + spec_digit(
        s[i + 3],
    )
}

pub open spec fn num5(s: Seq<char>, i: int) -> int {
    10000 * spec_digit(s[i]) + 1000 * spec_digit(s[i + 1]) + 100 * spec_digit(s[i + 2]) + 10
        * spec_digit(s[i + 3]) + spec_digit(s[i + 4])
}

/// The characters at `off` have the shape `YYYY-MM-DDTHH:MM:SS`.
pub open spec fn ts19_shape_at(s: Seq<char>, off: int) -> bool {
    &&& is_digit(s[off]) && is_digit(s[off + 1]) && is_digit(s[off + 2]) && is_digit(s[off + 3])
    &&& s[off + 4] == '-'
    &&& is_digit(s[off + 5]) && is_digit(s[off + 6])
    &&& s[off + 7] == '-'
    &&& is_digit(s[off + 8]) && is_digit(s[off + 9])
    &&& s[off + 10] == 'T'
    &&& is_digit(s[off + 11]) && is_digit(s[off + 12])
    &&& s[off + 13] == ':'
    &&& is_digit(s[off + 14]) && is_digit(s[off + 15])
    &&& s[off + 16] == ':'
    &&& is_digit(s[off + 17]) && is_digit(s[off + 18])
}

/// The field values read from a 19-character prefix at `off` (fraction zero).
pub open spec fn ts19_value_at(s: Seq<char>, off: int) -> Timestamp {
    Timestamp {
        year: num4(s, off) as u32,
        month: num2(s, off + 5) as u32,
        day: num2(s, off + 8) as u32,
        hour: num2(s, off + 11) as u32,
        minute: num2(s, off + 14) as u32,
        second: num2(s, off + 17) as u32,
        nanos: 0,
    }
}

/// What parsing `YYYY-MM-DDTHH:MM:SS` at `off` yields: the instant, or
/// nothing when the shape is wrong or the fields are no real calendar date.
pub open spec fn spec_parse_ts19(s: Seq<char>, off: int) -> Option<Timestamp> {
    if 0 <= off && off + 19 <= s.len() && ts19_shape_at(s, off) && ts19_value_at(s, off).valid() {
        Some(ts19_value_at(s, off))
    } else {
        None
    }
}

/// The field values read from a 25-character prefix at `off`: the 19-character
/// form plus five fractional digits, scaled to nanoseconds.
pub open spec fn ts25_value_at(s: Seq<char>, off: int) -> Timestamp {
    Timestamp { nanos: (num5(s, off + 20) * 10000) as u32, ..ts19_value_at(s, off) }
}

/// What parsing `YYYY-MM-DDTHH:MM:SS.fffff` at `off` yields.
pub open spec fn spec_parse_ts25(s: Seq<char>, off: int) -> Option<Timestamp> {
    if 0 <= off && off + 25 <= s.len() && ts19_shape_at(s, off) && s[off + 19] == '.' && is_digit(
        s[off + 20],
    ) && is_digit(s[off + 21]) && is_digit(s[off + 22]) && is_digit(s[off + 23]) && is_digit(
        s[off + 24],
    ) && ts25_value_at(s, off).valid() {
        Some(ts25_value_at(s, off))
    } else {
        None
    }
}

fn digit_of(c: char) -> (r: Option<u32>)
    ensures
        r matches Some(v) ==> is_digit(c) && v == spec_digit(c),
        r is None ==> !is_digit(c),
{
    let u = c as u32;
    if '0' as u32 <= u && u <= '9' as u32 {
        Some(u - '0' as u32)
    } else {
        None
    }
}

pub(crate) fn num2_of(v: &Vec<char>, i: usize) -> (r: Option<u32>)
    requires
        i + 2 <= v.len(),
    ensures
        r matches Some(x) ==> is_digit(v@[i as int]) && is_digit(v@[i + 1]) && x == num2(
            v@,
            i as int,
        ),
        r is None ==> !(is_digit(v@[i as int]) && is_digit(v@[i + 1])),
{
    match (digit_of(v[i]), digit_of(v[i + 1])) {
        (Some(a), Some(b)) => Some(10 * a + b),
        _ => None,
    }
}

pub(crate) fn num4_of(v: &Vec<char>, i: usize) -> (r: Option<u32>)
    requires
        i + 4 <= v.len(),
    ensures
        r matches Some(x) ==> is_digit(v@[i as int]) && is_digit(v@[i + 1]) && is_digit(v@[i + 2])
            && is_digit(v@[i + 3]) && x == num4(v@, i as int),
        r is None ==> !(is_digit(v@[i as int]) && is_digit(v@[i + 1]) && is_digit(v@[i + 2])
            && is_digit(v@[i + 3])),
{
    match (num2_of(v, i), num2_of(v, i + 2)) {
        (Some(a), Some(b)) => Some(100 * a + b),
        _ => None,
    }
}

fn num5_of(v: &Vec<char>, i: usize) -> (r: Option<u32>)
    requires
        i + 5 <= v.len(),
    ensures
        r matches Some(x) ==> is_digit(v@[i as int]) && is_digit(v@[i + 1]) && is_digit(v@[i + 2])
            && is_digit(v@[i + 3]) && is_digit(v@[i + 4]) && x == num5(v@, i as int),
        r is None ==> !(is_digit(v@[i as int]) && is_digit(v@[i + 1]) && is_digit(v@[i + 2])
            && is_digit(v@[i + 3]) && is_digit(v@[i + 4])),
{
    match (num4_of(v, i), digit_of(v[i + 4])) {
        (Some(a), Some(b)) => Some(10 * a + b),
        _ => None,
    }
}

/// Parses the 19-character `YYYY-MM-DDTHH:MM:SS` form at `off`.
pub fn parse_ts19(v: &Vec<char>, off: usize) -> (r: Option<Timestamp>)
    requires
        off + 19 <= v.len(),
    ensures
        r == spec_parse_ts19(v@, off as int),
{
    if !(v[off + 4] == '-' && v[off + 7] == '-' && v[off + 10] == 'T' && v[off + 13] == ':' && v[off
        + 16] == ':') {
        return None;
    }
    let year = num4_of(v, off);
    let month = num2_of(v, off + 5);
    let day = num2_of(v, off + 8);
    let hour = num2_of(v, off + 11);
    let minute = num2_of(v, off + 14);
    let second = num2_of(v, off + 17);
    match (year, month, day, hour, minute, second) {
        (Some(y), Some(mo), Some(d), Some(h), Some(mi), Some(s)) => {
            let t = Timestamp {
                year: y,
                month: mo,
                day: d,
                hour: h,
                minute: mi,
                second: s,
                nanos: 0,
            };
            if t.check_valid() {
                Some(t)
            } else {
                None
            }
        },
        _ => None,
    }
}

/// Parses the 25-character `YYYY-MM-DDTHH:MM:SS.fffff` form at `off`.
pub fn parse_ts25(v: &Vec<char>, off: usize) -> (r: Option<Timestamp>)
    requires
        off + 25 <= v.len(),
    ensures
        r == spec_parse_ts25(v@, off as int),
{
    if !(v[off + 4] == '-' && v[off + 7] == '-' && v[off + 10] == 'T' && v[off + 13] == ':' && v[off
        + 16] == ':' && v[off + 19] == '.') {
        return None;
    }
    let year = num4_of(v, off);
    let month = num2_of(v, off + 5);
    let day = num2_of(v, off + 8);
    let hour = num2_of(v, off + 11);
    let minute = num2_of(v, off + 14);
    let second = num2_of(v, off + 17);
    let frac = num5_of(v, off + 20);
    match (year, month, day, hour, minute, second, frac) {
        (Some(y), Some(mo), Some(d), Some(h), Some(mi), Some(s), Some(f)) => {
            let t = Timestamp {
                year: y,
                month: mo,
                day: d,
                hour: h,
                minute: mi,
                second: s,
                nanos: f * 10000,
            };
            if t.check_valid() {
                Some(t)
            } else {
                None
            }
        },
        _ => None,
    }
}

// ---------------------------------------------------------------------------
// Calendar arithmetic.
// ---------------------------------------------------------------------------

/// The calendar date after (y, m, d).
pub open spec fn spec_next_date(y: int, m: int, d: int) -> (int, int, int) {
    if d < spec_days_in_month(y, m) {
        (y, m, d + 1)
    } else if m < 12 {
        (y, m + 1, 1)
    } else {
        (y + 1, 1, 1)
    }
}

/// The calendar date before (y, m, d), when one exists in the era.
pub open spec fn spec_prev_date(y: int, m: int, d: int) -> Option<(int, int, int)> {
    if d > 1 {
        Some((y, m, d - 1))
    } else if m > 1 {
        Some((y, m - 1, spec_days_in_month(y, m - 1)))
    } else if y > 0 {
        Some((y - 1, 12, 31))
    } else {
        None
    }
}

pub open spec fn compose_ts(y: int, m: int, d: int, day_secs: int, nanos: int) -> Timestamp {
    Timestamp {
        year: y as u32,
        month: m as u32,
        day: d as u32,
        hour: (day_secs / 3600) as u32,
        minute: ((day_secs / 60) % 60) as u32,
        second: (day_secs % 60) as u32,
        nanos: nanos as u32,
    }
}

/// The instant `off` seconds after `t` (negative `off` moves back), or
/// nothing when it would fall before the start of the era.
pub open spec fn spec_add_seconds(t: Timestamp, off: int) -> Option<Timestamp> {
    let ds = t.hour * 3600 + t.minute * 60 + t.second + off;
    if ds >= 86400 {
        let (y, m, d) = spec_next_date(t.year as int, t.month as int, t.day as int);
        Some(compose_ts(y, m, d, ds - 86400, t.nanos as int))
    } else if ds >= 0 {
        Some(compose_ts(t.year as int, t.month as int, t.day as int, ds, t.nanos as int))
    } else {
        match spec_prev_date(t.year as int, t.month as int, t.day as int) {
            Some((y, m, d)) => Some(compose_ts(y, m, d, ds + 86400, t.nanos as int)),
            None => None,
        }
    }
}

fn next_date(y: u32, m: u32, d: u32) -> (r: (u32, u32, u32))
    requires
        y <= 9999,
        1 <= m <= 12,
        1 <= d <= spec_days_in_month(y as int, m as int),
    ensures
        (r.0 as int, r.1 as int, r.2 as int) == spec_next_date(y as int, m as int, d as int),
{
    if d < days_in_month(y, m) {
        (y, m, d + 1)
    } else if m < 12 {
        (y, m + 1, 1)
    } else {
        (y + 1, 1, 1)
    }
}

fn prev_date(y: u32, m: u32, d: u32) -> (r: Option<(u32, u32, u32)>)
    requires
        y <= 9999,
        1 <= m <= 12,
        1 <= d <= spec_days_in_month(y as int, m as int),
    ensures
        match r {
            Some(p) => spec_prev_date(y as int, m as int, d as int) == Some(
                (p.0 as int, p.1 as int, p.2 as int),
            ),
            None => spec_prev_date(y as int, m as int, d as int) is None,
        },
{
    if d > 1 {
        Some((y, m, d - 1))
    } else if m > 1 {
        Some((y, m - 1, days_in_month(y, m - 1)))
    } else if y > 0 {
        Some((y - 1, 12, 31))
    } else {
        None
    }
}

impl Timestamp {
    /// Nearly valid: as `valid`, except that the year may have carried one
    /// step past the four-digit era (the result of adding seconds to a valid
    /// instant late on the era's last day).
    pub open spec fn valid_carried(self) -> bool {
        &&& self.year <= 10000
        &&& 1 <= self.month <= 12
        &&& 1 <= self.day <= spec_days_in_month(self.year as int, self.month as int)
        &&& self.hour < 24
        &&& self.minute < 60
        &&& self.second < 60
        &&& self.nanos < 1_000_000_000
    }

    /// Moves the instant by `off` seconds (at most a day in either
    /// direction); fails only before the start of the era.
    pub fn add_seconds(&self, off: i32) -> (r: Option<Timestamp>)
        requires
            self.valid(),
            -86400 < off < 86400,
        ensures
            r == spec_add_seconds(*self, off as int),
            r matches Some(u) ==> u.valid_carried() && u.nanos == self.nanos,
    {
        let ds: i64 = (self.hour as i64) * 3600 + (self.minute as i64) * 60 + (self.second as i64)
            + (off as i64);
        if ds >= 86400 {
            let (y, m, d) = next_date(self.year, self.month, self.day);
            let ds2 = ds - 86400;
            Some(
                Timestamp {
                    year: y,
                    month: m,
                    day: d,
                    hour: (ds2 / 3600) as u32,
                    minute: ((ds2 / 60) % 60) as u32,
                    second: (ds2 % 60) as u32,
                    nanos: self.nanos,
                },
            )
        } else if ds >= 0 {
            Some(
                Timestamp {
                    year: self.year,
                    month: self.month,
                    day: self.day,
                    hour: (ds / 3600) as u32,
                    minute: ((ds / 60) % 60) as u32,
                    second: (ds % 60) as u32,
                    nanos: self.nanos,
                },
            )
        } else {
            match prev_date(self.year, self.month, self.day) {
                Some((y, m, d)) => {
                    let ds2 = ds + 86400;
                    Some(
                        Timestamp {
                            year: y,
                            month: m,
                            day: d,
                            hour: (ds2 / 3600) as u32,
                            minute: ((ds2 / 60) % 60) as u32,
                            second: (ds2 % 60) as u32,
                            nanos: self.nanos,
                        },
                    )
                },
                None => None,
            }
        }
    }

    /// This instant's date and time-of-day as `YYYY-MM-DDTHH:MM:SS`.
    pub open spec fn spec_ts_text(self) -> Seq<char> {
        year_chars(self.year as int) + seq!['-'] + two_digits(self.month as int) + seq!['-']
            + two_digits(self.day as int) + seq!['T'] + two_digits(self.hour as int) + seq![':']
            + two_digits(self.minute as int) + seq![':'] + two_digits(self.second as int)
    }

    /// Appends `YYYY-MM-DDTHH:MM:SS` for this instant.
    pub fn push_ts_text(&self, out: &mut String)
        requires
            self.valid_carried(),
        ensures
            final(out)@ == old(out)@ + self.spec_ts_text(),
    {
        if self.year <= 9999 {
            push_four_digits(out, self.year);
        } else {
            out.push('1');
            push_four_digits(out, 0);
            proof {
                assert(dig(0) == '0');
                assert(seq!['1'] + four_digits(0) =~= year_chars(self.year as int));
            }
        }
        out.push('-');
        push_two_digits(out, self.month);
        out.push('-');
        push_two_digits(out, self.day);
        out.push('T');
        push_two_digits(out, self.hour);
        out.push(':');
        push_two_digits(out, self.minute);
        out.push(':');
        push_two_digits(out, self.second);
        proof {
            assert(out@ =~= old(out)@ + self.spec_ts_text());
        }
    }

    /// The instant one nanosecond earlier, or nothing at the era's origin.
    pub open spec fn spec_minus_one_nanosecond(self) -> Option<Timestamp> {
        if self.nanos > 0 {
            Some(Timestamp { nanos: (self.nanos - 1) as u32, ..self })
        } else {
            match spec_add_seconds(self, -1) {
                Some(u) => Some(Timestamp { nanos: 999_999_999, ..u }),
                None => None,
            }
        }
    }

    /// One nanosecond earlier; fails only at the very origin of the era.
    pub fn minus_one_nanosecond(&self) -> (r: Option<Timestamp>)
        requires
            self.valid(),
        ensures
            r == self.spec_minus_one_nanosecond(),
            r matches Some(u) ==> u.valid(),
    {
        if self.nanos > 0 {
            Some(Timestamp { nanos: self.nanos - 1, ..*self })
        } else {
            match self.add_seconds(-1) {
                Some(u) => Some(Timestamp { nanos: 999_999_999, ..u }),
                None => None,
            }
        }
    }
}

} // verus!
