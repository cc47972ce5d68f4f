//! Calendar dates and datetimes as plain values, with the two fixed upstream
//! text formats the importers parse, and the constant timezone shift one
//! source needs.
use vstd::prelude::*;
use vstd::string::StrSliceExecFns;

use crate::numbers::{all_digits, digits_val, is_digit};

verus! {

/// A calendar date.
#[derive(Clone, Copy, Debug, PartialEq, Eq, Structural)]
pub struct Date {
    pub year: i64,
    pub month: u8,
    pub day: u8,
}

/// A calendar date with a time of day.
#[derive(Clone, Copy, Debug, PartialEq, Eq, Structural)]
pub struct DateTime {
    pub date: Date,
    pub hour: u8,
    pub minute: u8,
    pub second: u8,
}

pub open spec fn spec_is_leap_year(y: int) -> bool {
    (y % 4 == 0 && y % 100 != 0) || y % 400 == 0
}

pub open spec fn spec_days_in_month(y: int, m: int) -> int {
    if m == 2 {
        if spec_is_leap_year(y) {
            29
        } else {
            28
        }
    } else if m == 4 || m == 6 || m == 9 || m == 11 {
        30
    } else {
        31
    }
}

impl Date {
    /// A real calendar date: a nonnegative year, a month that exists, and a
    /// day that falls inside it.
    pub open spec fn wf(self) -> bool {
        0 <= self.year && 1 <= self.month <= 12 && 1 <= self.day <= spec_days_in_month(
            self.year as int,
            self.month as int,
        )
    }
}

impl DateTime {
    pub open spec fn wf(self) -> bool {
        self.date.wf() && self.hour < 24 && self.minute < 60 && self.second < 60
    }
}

/// Checks that a datetime is a real calendar moment.
pub fn datetime_wf(dt: &DateTime) -> (r: bool)
    ensures
        r == dt.wf(),
{
    dt.date.year >= 0 && dt.date.month >= 1 && dt.date.month <= 12 && dt.date.day >= 1
        && dt.date.day <= days_in_month(dt.date.year, dt.date.month) && dt.hour < 24 && dt.minute
        < 60 && dt.second < 60
}

pub fn is_leap_year(y: i64) -> (r: bool)
    requires
        0 <= y,
    ensures
        r == spec_is_leap_year(y as int),
{
    (y % 4 == 0 && y % 100 != 0) || y % 400 == 0
}

pub fn days_in_month(y: i64, m: u8) -> (r: u8)
    requires
        0 <= y,
    ensures
        r as int == spec_days_in_month(y as int, m as int),
{
    if m == 2 {
        if is_leap_year(y) {
            29
        } else {
            28
        }
    } else if m == 4 || m == 6 || m == 9 || m == 11 {
        30
    } else {
        31
    }
}

/// The calendar day before the given date.
pub open spec fn spec_prev_day(d: Date) -> Date {
    if d.day > 1 {
        Date { year: d.year, month: d.month, day: (d.day - 1) as u8 }
    } else if d.month > 1 {
        Date {
            year: d.year,
            month: (d.month - 1) as u8,
            day: spec_days_in_month(d.year as int, d.month - 1) as u8,
        }
    } else {
        Date { year: (d.year - 1) as i64, month: 12, day: 31 }
    }
}

/// The same moment shifted back by a whole number of hours (less than a day):
/// the constant offset correction one upstream source needs.
pub open spec fn spec_shift_back_hours(dt: DateTime, h: int) -> DateTime {
    if dt.hour >= h {
        DateTime { date: dt.date, hour: (dt.hour - h) as u8, ..dt }
    } else {
        DateTime { date: spec_prev_day(dt.date), hour: (dt.hour + 24 - h) as u8, ..dt }
    }
}

fn prev_day(d: Date) -> (r: Date)
    requires
        d.wf(),
        d.year >= 1,
    ensures
        r == spec_prev_day(d),
        r.wf(),
{
    if d.day > 1 {
        Date { year: d.year, month: d.month, day: d.day - 1 }
    } else if d.month > 1 {
        Date { year: d.year, month: d.month - 1, day: days_in_month(d.year, d.month - 1) }
    } else {
        Date { year: d.year - 1, month: 12, day: 31 }
    }
}

/// Shifts a datetime back by `h` whole hours, rolling the date over when the
/// shift crosses midnight.
pub fn shift_back_hours(dt: DateTime, h: u8) -> (r: DateTime)
    requires
        dt.wf(),
        h < 24,
        dt.date.year >= 1,
    ensures
        r == spec_shift_back_hours(dt, h as int),
        r.wf(),
{
    if dt.hour >= h {
        DateTime { date: dt.date, hour: dt.hour - h, ..dt }
    } else {
        DateTime { date: prev_day(dt.date), hour: dt.hour + 24 - h, ..dt }
    }
}

/// Whether `p` is a prefix of `s`.
pub open spec fn is_prefix(p: Seq<char>, s: Seq<char>) -> bool {
    p.len() <= s.len() && s.take(p.len() as int) == p
}

/// The length of the longest all-digit prefix.
pub open spec fn digit_prefix_len(s: Seq<char>) -> int
    decreases s.len(),
{
    if s.len() > 0 && is_digit(s[0]) {
        1 + digit_prefix_len(s.skip(1))
    } else {
        0
    }
}

proof fn lemma_digit_prefix_len(s: Seq<char>, j: int)
    requires
        0 <= j <= s.len(),
        forall|k: int| 0 <= k < j ==> is_digit(s[k]),
        j == s.len() || !is_digit(s[j]),
    ensures
        digit_prefix_len(s) == j,
    decreases j,
{
    if j == 0 {
    } else {
        assert(is_digit(s[0]));
        lemma_digit_prefix_len(s.skip(1), j - 1);
    }
}

/// The index just past the run of digits starting at `i`.
#[verifier::loop_isolation(false)]
fn digit_run_end(s: &str, i: usize, n: usize) -> (j: usize)
    requires
        n == s@.len(),
        n <= usize::MAX,
        i <= n,
    ensures
        i <= j <= n,
        j - i == digit_prefix_len(s@.skip(i as int)),
        forall|k: int| i <= k < j ==> is_digit(s@[k]),
        j == n || !is_digit(s@[j as int]),
{
    let mut j = i;
    while j < n && crate::numbers::is_digit_exec(s.get_char(j))
        invariant
            i <= j <= n,
            forall|k: int| i <= k < j ==> is_digit(s@[k]),
        decreases n - j,
    {
        j += 1;
    }
    proof {
        let rest = s@.skip(i as int);
        assert(forall|k: int| 0 <= k < j - i ==> is_digit(#[trigger] rest[k]));
        lemma_digit_prefix_len(rest, j - i);
    }
    j
}

/// The month whose English name, followed by a space, begins the string,
/// with the length of that prefix.
pub open spec fn spec_month_prefix(s: Seq<char>) -> Option<(int, int)> {
    if is_prefix("January "@, s) {
        Some((1int, 8int))
    } else if is_prefix("February "@, s) {
        Some((2int, 9int))
    } else if is_prefix("March "@, s) {
        Some((3int, 6int))
    } else if is_prefix("April "@, s) {
        Some((4int, 6int))
    } else if is_prefix("May "@, s) {
        Some((5int, 4int))
    } else if is_prefix("June "@, s) {
        Some((6int, 5int))
    } else if is_prefix("July "@, s) {
        Some((7int, 5int))
    } else if is_prefix("August "@, s) {
        Some((8int, 7int))
    } else if is_prefix("September "@, s) {
        Some((9int, 10int))
    } else if is_prefix("October "@, s) {
        Some((10int, 8int))
    } else if is_prefix("November "@, s) {
        Some((11int, 9int))
    } else if is_prefix("December "@, s) {
        Some((12int, 9int))
    } else {
        None
    }
}

fn try_month(s: &str, n: usize, name: &str, len: usize) -> (r: bool)
    requires
        n == s@.len(),
        n <= usize::MAX,
        len == name@.len(),
    ensures
        r == is_prefix(name@, s@),
{
    if len <= n {
        let m = crate::text::matches_at(s, 0, name, len);
        proof {
            assert(s@.subrange(0, len as int) =~= s@.take(len as int));
        }
        m
    } else {
        false
    }
}

fn month_prefix(s: &str, n: usize) -> (r: Option<(u8, usize)>)
    requires
        n == s@.len(),
        n <= usize::MAX,
    ensures
        match r {
            Some((m, off)) => spec_month_prefix(s@) == Some((m as int, off as int)) && off <= n
                && 1 <= m <= 12,
            None => spec_month_prefix(s@) is None,
        },
{
    proof {
        reveal_strlit("January ");
        reveal_strlit("February ");
        reveal_strlit("March ");
        reveal_strlit("April ");
        reveal_strlit("May ");
        reveal_strlit("June ");
        reveal_strlit("July ");
        reveal_strlit("August ");
        reveal_strlit("September ");
        reveal_strlit("October ");
        reveal_strlit("November ");
        reveal_strlit("December ");
    }
    if try_month(s, n, "January ", 8) {
        Some((1, 8))
    } else if try_month(s, n, "February ", 9) {
        Some((2, 9))
    } else if try_month(s, n, "March ", 6) {
        Some((3, 6))
    } else if try_month(s, n, "April ", 6) {
        Some((4, 6))
    } else if try_month(s, n, "May ", 4) {
        Some((5, 4))
    } else if try_month(s, n, "June ", 5) {
        Some((6, 5))
    } else if try_month(s, n, "July ", 5) {
        Some((7, 5))
    } else if try_month(s, n, "August ", 7) {
        Some((8, 7))
    } else if try_month(s, n, "September ", 10) {
        Some((9, 10))
    } else if try_month(s, n, "October ", 8) {
        Some((10, 8))
    } else if try_month(s, n, "November ", 9) {
        Some((11, 9))
    } else if try_month(s, n, "December ", 9) {
        Some((12, 9))
    } else {
        None
    }
}

/// How a date in the batch export's format parses: an English month name,
/// a one- or two-digit day, a comma, and a four-digit year — for example
/// `January 2, 2023`. The day must exist in that month and year.
pub open spec fn spec_parse_gsheets_date(s: Seq<char>) -> Option<Date> {
    match spec_month_prefix(s) {
        None => None,
        Some((m, off)) => {
            let rest = s.skip(off);
            let dl = digit_prefix_len(rest);
            if 1 <= dl <= 2 {
                let day = digits_val(rest.take(dl));
                let tail = rest.skip(dl);
                if tail.len() == 6 && tail[0] == ',' && tail[1] == ' ' && all_digits(
                    tail.skip(2),
                ) {
                    let year = digits_val(tail.skip(2));
                    let d = Date { year: year as i64, month: m as u8, day: day as u8 };
                    if d.wf() {
                        Some(d)
                    } else {
                        None
                    }
                } else {
                    None
                }
            } else {
                None
            }
        },
    }
}

/// Parses a date of the batch export's fixed format (`January 2, 2023`).
#[verifier::loop_isolation(false)]
pub fn parse_gsheets_date(s: &str) -> (r: Option<Date>)
    ensures
        r == spec_parse_gsheets_date(s@),
        r matches Some(d) ==> d.wf(),
{
    let n = s.unicode_len();
    let (m, off) = match month_prefix(s, n) {
        None => {
            return None;
        },
        Some(p) => p,
    };
    let ghost rest = s@.skip(off as int);
    let de = digit_run_end(s, off, n);
    proof {
        assert(rest =~= s@.subrange(off as int, n as int));
        assert(forall|k: int| 0 <= k < rest.len() ==> rest[k] == s@[off + k]);
        assert(forall|k: int| off <= k < de ==> is_digit(#[trigger] s@[k]));
        assert(forall|k: int| 0 <= k < de - off ==> is_digit(#[trigger] rest[k]));
        lemma_digit_prefix_len(rest, de - off);
    }
    let dl = de - off;
    if dl < 1 || dl > 2 {
        return None;
    }
    proof {
        assert(s@.subrange(off as int, off + dl) =~= rest.take(dl as int));
        assert(forall|k: int|
            0 <= k < dl ==> is_digit(#[trigger] s@.subrange(off as int, off + dl)[k]));
    }
    let day64 = crate::numbers::digits_value_at(s, off, dl);
    let ghost tail = rest.skip(dl as int);
    proof {
        assert(tail =~= s@.subrange(de as int, n as int));
    }
    if n - de != 6 {
        return None;
    }
    if s.get_char(de) != ',' || s.get_char(de + 1) != ' ' {
        return None;
    }
    proof {
        assert(tail.skip(2) =~= s@.subrange(de + 2, n as int));
    }
    let mut k = de + 2;
    while k < n
        invariant
            de + 2 <= k <= n,
            n == s@.len(),
            forall|j: int| de + 2 <= j < k ==> is_digit(s@[j]),
        decreases n - k,
    {
        if !crate::numbers::is_digit_exec(s.get_char(k)) {
            proof {
                assert(!is_digit(tail.skip(2)[k - de - 2]));
            }
            return None;
        }
        k += 1;
    }
    proof {
        assert(forall|j: int| 0 <= j < 4 ==> is_digit(#[trigger] tail.skip(2)[j]));
        assert(all_digits(s@.subrange(de + 2, n as int)));
    }
    let year64 = crate::numbers::digits_value_at(s, de + 2, 4);
    proof {
        assert(rest.take(dl as int) =~= s@.subrange(off as int, off + dl));
        assert(tail.skip(2) =~= s@.subrange(de + 2, n as int));
        crate::numbers::lemma_digits_val_below(rest.take(dl as int));
        crate::numbers::lemma_digits_val_below(tail.skip(2));
    }
    let d = Date { year: year64 as i64, month: m, day: day64 as u8 };
    if d.day >= 1 && d.day <= days_in_month(d.year, d.month) {
        Some(d)
    } else {
        None
    }
}

/// A one- or two-digit numeric field and what follows it.
pub open spec fn spec_field(s: Seq<char>) -> Option<(int, Seq<char>)> {
    let dl = digit_prefix_len(s);
    if 1 <= dl <= 2 {
        Some((digits_val(s.take(dl)), s.skip(dl)))
    } else {
        None
    }
}

fn read_field(s: &str, i: usize, n: usize) -> (r: Option<(u64, usize)>)
    requires
        n == s@.len(),
        n <= usize::MAX,
        i <= n,
    ensures
        match r {
            None => spec_field(s@.skip(i as int)) is None,
            Some((v, j)) => i < j <= n && v <= 99 && spec_field(s@.skip(i as int)) == Some(
                (v as int, s@.skip(j as int)),
            ),
        },
{
    let de = digit_run_end(s, i, n);
    let ghost rest = s@.skip(i as int);
    proof {
        assert(rest =~= s@.subrange(i as int, n as int));
    }
    let dl = de - i;
    if dl < 1 || dl > 2 {
        return None;
    }
    proof {
        assert(rest.take(dl as int) =~= s@.subrange(i as int, de as int));
        assert(forall|k: int| 0 <= k < dl ==> is_digit(#[trigger] rest.take(dl as int)[k]));
        crate::numbers::lemma_digits_val_below(rest.take(dl as int));
        assert(rest.skip(dl as int) =~= s@.skip(de as int));
    }
    let v = crate::numbers::digits_value_at(s, i, dl);
    proof {
        assert(digit_prefix_len(rest) == dl);
        assert(v == digits_val(rest.take(dl as int)));
        assert(spec_field(rest) == Some((v as int, rest.skip(dl as int))));
    }
    Some((v, de))
}

/// The six numeric fields of the streamed source's legacy datetime format
/// and what follows them: `month/day/year hour:minute:second` with one- or
/// two-digit fields and a four-digit year.
pub open spec fn spec_mdy_fields(s: Seq<char>) -> Option<(int, int, int, int, int, int, Seq<
    char,
>)> {
    match spec_field(s) {
        None => None,
        Some((mo, r1)) => if r1.len() > 0 && r1[0] == '/' {
            match spec_field(r1.skip(1)) {
                None => None,
                Some((dy, r2)) => if r2.len() > 0 && r2[0] == '/' {
                    let r3 = r2.skip(1);
                    if r3.len() >= 4 && all_digits(r3.take(4)) && (r3.len() == 4 || !is_digit(
                        r3[4],
                    )) {
                        let year = digits_val(r3.take(4));
                        let r4 = r3.skip(4);
                        if r4.len() > 0 && r4[0] == ' ' {
                            match spec_field(r4.skip(1)) {
                                None => None,
                                Some((hr, r5)) => if r5.len() > 0 && r5[0] == ':' {
                                    match spec_field(r5.skip(1)) {
                                        None => None,
                                        Some((mi, r6)) => if r6.len() > 0 && r6[0] == ':' {
                                            match spec_field(r6.skip(1)) {
                                                None => None,
                                                Some((sec, r7)) => Some(
                                                    (mo, dy, year, hr, mi, sec, r7),
                                                ),
                                            }
                                        } else {
                                            None
                                        },
                                    }
                                } else {
                                    None
                                },
                            }
                        } else {
                            None
                        }
                    } else {
                        None
                    }
                } else {
                    None
                },
            }
        } else {
            None
        },
    }
}

/// How a datetime in the streamed source's legacy export format parses:
/// `month/day/year hour:minute:second AM|PM` with one- or two-digit numeric
/// fields, a four-digit year from 1 on, and a 12-hour clock — for example
/// `1/2/2023 11:59:07 PM`.
pub open spec fn spec_parse_mdy_datetime(s: Seq<char>) -> Option<DateTime> {
    match spec_mdy_fields(s) {
        None => None,
        Some((mo, dy, year, hr, mi, sec, r7)) => spec_finish_mdy(year, mo, dy, hr, mi, sec, r7),
    }
}

/// The validity checks and 12-hour conversion at the end of the datetime
/// grammar: the tail must be a space and `AM` or `PM`, the fields must be in
/// range, and the date must exist.
pub open spec fn spec_finish_mdy(
    year: int,
    mo: int,
    dy: int,
    hr: int,
    mi: int,
    sec: int,
    r7: Seq<char>,
) -> Option<DateTime> {
    if r7.len() == 3 && r7[0] == ' ' && (r7.skip(1) == "AM"@ || r7.skip(1) == "PM"@) {
        let pm = r7.skip(1) == "PM"@;
        if 1 <= hr <= 12 && mi <= 59 && sec <= 59 && 1 <= year {
            let h24 = if pm {
                if hr == 12 {
                    12int
                } else {
                    hr + 12
                }
            } else {
                if hr == 12 {
                    0int
                } else {
                    hr
                }
            };
            let d = Date { year: year as i64, month: mo as u8, day: dy as u8 };
            if d.wf() {
                Some(DateTime { date: d, hour: h24 as u8, minute: mi as u8, second: sec as u8 })
            } else {
                None
            }
        } else {
            None
        }
    } else {
        None
    }
}

/// Reads the six numeric fields of the legacy datetime format.
#[verifier::loop_isolation(false)]
#[verifier::rlimit(100)]
fn parse_mdy_fields(s: &str, n: usize) -> (r: Option<(u64, u64, u64, u64, u64, u64, usize)>)
    requires
        n == s@.len(),
        n <= usize::MAX,
    ensures
        match r {
            None => spec_mdy_fields(s@) is None,
            Some((mo, dy, yr, hr, mi, sec, p7)) => p7 <= n && mo <= 99 && dy <= 99 && yr <= 9999
                && hr <= 99 && mi <= 99 && sec <= 99 && spec_mdy_fields(s@) == Some(
                (
                    mo as int,
                    dy as int,
                    yr as int,
                    hr as int,
                    mi as int,
                    sec as int,
                    s@.skip(p7 as int),
                ),
            ),
        },
{
    proof {
        assert(s@.skip(0) =~= s@);
    }
    let (mo, p1) = match read_field(s, 0, n) {
        None => {
            return None;
        },
        Some(x) => x,
    };
    let ghost r1 = s@.skip(p1 as int);
    if p1 >= n || s.get_char(p1) != '/' {
        return None;
    }
    proof {
        assert(r1.skip(1) =~= s@.skip(p1 + 1));
    }
    let (dy, p2) = match read_field(s, p1 + 1, n) {
        None => {
            return None;
        },
        Some(x) => x,
    };
    let ghost r2 = s@.skip(p2 as int);
    if p2 >= n || s.get_char(p2) != '/' {
        return None;
    }
    let ghost r3 = s@.skip(p2 + 1);
    proof {
        assert(r2.skip(1) =~= r3);
    }
    // exactly four year digits
    let ye = digit_run_end(s, p2 + 1, n);
    proof {
        assert(r3 =~= s@.subrange(p2 + 1, n as int));
        assert(forall|k: int| 0 <= k < ye - p2 - 1 ==> is_digit(#[trigger] r3[k]));
        lemma_digit_prefix_len(r3, ye - p2 - 1);
    }
    if ye - (p2 + 1) != 4 {
        proof {
            if r3.len() >= 4 && all_digits(r3.take(4)) && (r3.len() == 4 || !is_digit(r3[4])) {
                // a digit run of another length refutes the grammar here
                lemma_digit_prefix_len_exact(r3);
            }
        }
        return None;
    }
    proof {
        assert(r3.take(4) =~= s@.subrange(p2 + 1, ye as int));
        assert(all_digits(r3.take(4)));
        if r3.len() > 4 {
            assert(!is_digit(r3[4]));
        }
        crate::numbers::lemma_digits_val_below(r3.take(4));
    }
    let yr = crate::numbers::digits_value_at(s, p2 + 1, 4);
    let ghost r4 = r3.skip(4);
    proof {
        assert(r4 =~= s@.skip(ye as int));
    }
    if ye >= n || s.get_char(ye) != ' ' {
        return None;
    }
    proof {
        assert(r4.skip(1) =~= s@.skip(ye + 1));
    }
    let (hr, p5) = match read_field(s, ye + 1, n) {
        None => {
            return None;
        },
        Some(x) => x,
    };
    let ghost r5 = s@.skip(p5 as int);
    if p5 >= n || s.get_char(p5) != ':' {
        return None;
    }
    proof {
        assert(r5.skip(1) =~= s@.skip(p5 + 1));
    }
    let (mi, p6) = match read_field(s, p5 + 1, n) {
        None => {
            return None;
        },
        Some(x) => x,
    };
    let ghost r6 = s@.skip(p6 as int);
    if p6 >= n || s.get_char(p6) != ':' {
        return None;
    }
    proof {
        assert(r6.skip(1) =~= s@.skip(p6 + 1));
    }
    let (sec, p7) = match read_field(s, p6 + 1, n) {
        None => {
            return None;
        },
        Some(x) => x,
    };
    Some((mo, dy, yr, hr, mi, sec, p7))
}

/// Parses a datetime of the streamed source's legacy format
/// (`1/2/2023 11:59:07 PM`).
#[verifier::loop_isolation(false)]
pub fn parse_mdy_datetime(s: &str) -> (r: Option<DateTime>)
    ensures
        r == spec_parse_mdy_datetime(s@),
        r matches Some(dt) ==> dt.wf() && dt.date.year >= 1,
{
    let n = s.unicode_len();
    let (mo, dy, yr, hr, mi, sec, p7) = match parse_mdy_fields(s, n) {
        None => {
            return None;
        },
        Some(x) => x,
    };
    let ghost r7 = s@.skip(p7 as int);
    if n - p7 != 3 || s.get_char(p7) != ' ' {
        return None;
    }
    let c1 = s.get_char(p7 + 1);
    let c2 = s.get_char(p7 + 2);
    proof {
        reveal_strlit("AM");
        reveal_strlit("PM");
    }
    if c2 != 'M' || (c1 != 'A' && c1 != 'P') {
        proof {
            assert(r7.skip(1)[0] == c1);
            assert(r7.skip(1)[1] == c2);
            assert(r7.skip(1) != "AM"@ && r7.skip(1) != "PM"@);
        }
        return None;
    }
    let pm = c1 == 'P';
    proof {
        assert("AM"@[0] == 'A');
        assert("PM"@[0] == 'P');
        if pm {
            assert(r7.skip(1) =~= "PM"@);
            assert(r7.skip(1) != "AM"@);
        } else {
            assert(r7.skip(1) =~= "AM"@);
            assert(r7.skip(1) != "PM"@);
        }
    }
    if !(1 <= hr && hr <= 12 && mi <= 59 && sec <= 59 && 1 <= yr) {
        return None;
    }
    let h24: u8 = if pm {
        if hr == 12 {
            12
        } else {
            (hr as u8) + 12
        }
    } else {
        if hr == 12 {
            0
        } else {
            hr as u8
        }
    };
    let d = Date { year: yr as i64, month: mo as u8, day: dy as u8 };
    if d.day >= 1 && d.month >= 1 && d.month <= 12 && d.day <= days_in_month(d.year, d.month) {
        Some(DateTime { date: d, hour: h24, minute: mi as u8, second: sec as u8 })
    } else {
        None
    }
}

/// When a sequence starts with four digits and its fifth character (if any)
/// is not a digit, the digit prefix has length exactly four.
proof fn lemma_digit_prefix_len_exact(s: Seq<char>)
    requires
        s.len() >= 4,
        all_digits(s.take(4)),
        s.len() == 4 || !is_digit(s[4]),
    ensures
        digit_prefix_len(s) == 4,
{
    assert(forall|k: int| 0 <= k < 4 ==> is_digit(s[k])) by {
        assert(forall|k: int| 0 <= k < 4 ==> s.take(4)[k] == s[k]);
    }
    lemma_digit_prefix_len(s, 4);
}

/// The constant offset correction: the streamed source's legacy timestamps
/// are six hours ahead of the convention the catalog stores, so a parsed
/// datetime is shifted back six hours.
pub open spec fn spec_parse_offset_datetime(s: Seq<char>) -> Option<DateTime> {
    match spec_parse_mdy_datetime(s) {
        None => None,
        Some(dt) => Some(spec_shift_back_hours(dt, 6)),
    }
}

/// Parses a legacy-format timestamp and applies the six-hour offset
/// correction.
pub fn parse_offset_datetime(s: &str) -> (r: Option<DateTime>)
    ensures
        r == spec_parse_offset_datetime(s@),
        r matches Some(dt) ==> dt.wf(),
{
    match parse_mdy_datetime(s) {
        None => None,
        Some(dt) => Some(shift_back_hours(dt, 6)),
    }
}

} // verus!
