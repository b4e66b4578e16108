//! Text and time in the shapes that the Windows API and file names want.

use vstd::prelude::*;

use crate::order::ordered;
use crate::text;
use crate::text::{decimal, joined, pad_left, views};
use crate::utf16;
use crate::utf16::{encoded, is_scalar};

verus! {

/// Widens a string into a NUL-terminated UTF-16 buffer.
pub fn wide(text: &str) -> (units: Vec<u16>)
    ensures
        units@ == encoded(text@).push(0),
{
    let mut units = utf16::encode(text);
    units.push(0);
    units
}

/// The event type of a key press or release.
pub const KEY_EVENT: u32 = 1;

/// The character of a console input record: that of a pressed key which has
/// one. A code unit that is no character of its own counts as none.
pub fn poll_key(event_type: u32, key_down: bool, code: u16) -> (key: Option<char>)
    ensures
        key is Some <==> event_type == KEY_EVENT && key_down && code != 0 && is_scalar(
            code as u32,
        ),
        key matches Some(c) ==> c as u32 == code,
{
    if event_type != KEY_EVENT || !key_down || code == 0 {
        return None;
    }
    char::from_u32(code as u32)
}

/// A text with every double quote doubled.
pub open spec fn doubled(s: Seq<char>) -> Seq<char>
    decreases s.len(),
{
    if s.len() == 0 {
        Seq::empty()
    } else if s.last() == '"' {
        doubled(s.drop_last()).push('"').push('"')
    } else {
        doubled(s.drop_last()).push(s.last())
    }
}

/// One argument as it stands on a command line: between double quotes, and its
/// own quotes doubled.
pub open spec fn quoted(arg: Seq<char>) -> Seq<char> {
    "\""@ + doubled(arg) + "\""@
}

/// Several arguments as they stand on a command line.
pub open spec fn all_quoted(args: Seq<Seq<char>>) -> Seq<Seq<char>> {
    Seq::new(args.len(), |i: int| quoted(args[i]))
}

fn quote(arg: &str) -> (r: String)
    ensures
        r@ == quoted(arg@),
{
    let v = text::chars(arg);
    let mut body = String::new();
    let mut i: usize = 0;
    assert(v@.take(0) =~= Seq::<char>::empty());
    while i < v.len()
        invariant
            i <= v@.len(),
            body@ == doubled(v@.take(i as int)),
        decreases v@.len() - i,
    {
        assert(v@.take(i + 1).drop_last() =~= v@.take(i as int));
        if v[i] == '"' {
            body.push('"');
            body.push('"');
        } else {
            body.push(v[i]);
        }
        i = i + 1;
    }
    assert(v@.take(v@.len() as int) =~= v@);
    "\"".to_owned().concat(body.as_str()).concat("\"")
}

/// The command line that hands these arguments on to an elevated copy of the
/// program.
pub fn command_line(args: &Vec<String>) -> (line: String)
    ensures
        line@ == joined(all_quoted(views(args@)), " "@),
{
    let mut parts: Vec<String> = Vec::new();
    let mut i: usize = 0;
    while i < args.len()
        invariant
            i <= args@.len(),
            parts@.len() == i,
            forall|k: int| 0 <= k < i ==> (#[trigger] parts@[k])@ == quoted(args@[k]@),
        decreases args@.len() - i,
    {
        parts.push(quote(args[i].as_str()));
        i = i + 1;
    }
    assert(views(parts@) =~= all_quoted(views(args@)));
    text::join(&parts, " ")
}

// ---------------------------------------------------------------------------
// The calendar
// ---------------------------------------------------------------------------

/// True of the leap years of the Gregorian calendar.
pub open spec fn is_leap(year: int) -> bool {
    year % 4 == 0 && (year % 100 != 0 || year % 400 == 0)
}

/// The length of a month.
pub open spec fn month_length(year: int, month: int) -> int {
    if month == 2 {
        if is_leap(year) {
            29
        } else {
            28
        }
    } else if month == 4 || month == 6 || month == 9 || month == 11 {
        30
    } else {
        31
    }
}

/// How many days of the year come before a month.
pub open spec fn days_before_month(year: int, month: int) -> int
    decreases month,
{
    if month <= 1 {
        0
    } else {
        days_before_month(year, month - 1) + month_length(year, month - 1)
    }
}

/// How many leap days the years before `year` have, counted from year 1.
pub open spec fn leap_days_before(year: int) -> int {
    (year - 1) / 4 - (year - 1) / 100 + (year - 1) / 400
}

/// The number of a day, counted from 1970-01-01.
pub open spec fn day_number(year: int, month: int, day: int) -> int {
    365 * (year - 1970) + leap_days_before(year) - leap_days_before(1970) + days_before_month(
        year,
        month,
    ) + day - 1
}

/// True of the dates that exist.
pub open spec fn is_date(year: int, month: int, day: int) -> bool {
    1 <= month <= 12 && 1 <= day <= month_length(year, month)
}

/// The parts of a date within its era of 400 years, the year counted from
/// March: year of the era and day of that year.
proof fn year_of_era(doe: int, yoe: int)
    requires
        0 <= doe <= 146_096,
        yoe == (doe - doe / 1460 + doe / 36_524 - doe / 146_096) / 365,
    ensures
        0 <= yoe <= 399,
        0 <= doe - (365 * yoe + yoe / 4 - yoe / 100) <= 365,
        doe - (365 * yoe + yoe / 4 - yoe / 100) == 365 ==> is_leap(yoe + 1),
{
}

/// The days before each month, written out.
proof fn months_table(year: int)
    ensures
        days_before_month(year, 1) == 0,
        days_before_month(year, 2) == 31,
        days_before_month(year, 3) == 59 + leap_day(year),
        days_before_month(year, 4) == 90 + leap_day(year),
        days_before_month(year, 5) == 120 + leap_day(year),
        days_before_month(year, 6) == 151 + leap_day(year),
        days_before_month(year, 7) == 181 + leap_day(year),
        days_before_month(year, 8) == 212 + leap_day(year),
        days_before_month(year, 9) == 243 + leap_day(year),
        days_before_month(year, 10) == 273 + leap_day(year),
        days_before_month(year, 11) == 304 + leap_day(year),
        days_before_month(year, 12) == 334 + leap_day(year),
        days_before_month(year, 13) == 365 + leap_day(year),
{
    reveal_with_fuel(days_before_month, 14);
}

/// The leap day of a year, if it has one.
pub open spec fn leap_day(year: int) -> int {
    if is_leap(year) {
        1
    } else {
        0
    }
}

/// The months that follow a day of a year counted from March.
proof fn month_of_year(doy: int, mp: int)
    requires
        0 <= doy <= 365,
        mp == (5 * doy + 2) / 153,
    ensures
        0 <= mp <= 11,
        1 <= doy - (153 * mp + 2) / 5 + 1 <= 31,
        mp == 1 || mp == 3 || mp == 6 || mp == 8 ==> doy - (153 * mp + 2) / 5 + 1 <= 30,
        mp == 11 ==> doy - (153 * mp + 2) / 5 + 1 <= 29,
        mp == 11 && doy < 365 ==> doy - (153 * mp + 2) / 5 + 1 <= 28,
{
}

/// The leap days up to and with a year.
pub proof fn leap_days_grow(year: int)
    ensures
        leap_days_before(year + 1) == leap_days_before(year) + leap_day(year),
{
    assert(year / 4 == (year - 1) / 4 + if year % 4 == 0 {
        1int
    } else {
        0int
    });
    assert(year / 100 == (year - 1) / 100 + if year % 100 == 0 {
        1int
    } else {
        0int
    });
    assert(year / 400 == (year - 1) / 400 + if year % 400 == 0 {
        1int
    } else {
        0int
    });
    assert(year % 400 == 0 ==> year % 100 == 0);
    assert(year % 100 == 0 ==> year % 4 == 0);
}

proof fn leap_days_of_era(era: int, yoe: int)
    requires
        0 <= yoe <= 399,
    ensures
        leap_days_before(yoe + era * 400 + 1) == 97 * era + yoe / 4 - yoe / 100,
        is_leap(yoe + era * 400) == is_leap(yoe),
        is_leap(yoe + era * 400 + 1) == is_leap(yoe + 1),
{
    shifted(yoe, 100 * era, 4);
    shifted(yoe, 4 * era, 100);
    shifted(yoe, era, 400);
    shifted(yoe + 1, 100 * era, 4);
    shifted(yoe + 1, 4 * era, 100);
    shifted(yoe + 1, era, 400);
}

proof fn shifted(n: int, k: int, d: nat)
    requires
        d > 0,
    ensures
        (n + k * d) / (d as int) == n / (d as int) + k,
        (n + k * d) % (d as int) == n % (d as int),
{
    vstd::arithmetic::div_mod::lemma_hoist_over_denominator(n, k, d);
    vstd::arithmetic::div_mod::lemma_mod_multiples_vanish(k, n, d as int);
    assert(d as int * k + n == n + k * d) by (nonlinear_arith);
}

/// The date of a day that is given by its era, its year of the era and its day
/// of the year, counted from March.
proof fn date_of_march_year(era: int, yoe: int, doy: int, mp: int)
    requires
        0 <= yoe <= 399,
        0 <= doy <= 365,
        doy == 365 ==> is_leap(yoe + 1),
        mp == (5 * doy + 2) / 153,
    ensures
        ({
            let day = doy - (153 * mp + 2) / 5 + 1;
            let month = if mp < 10 {
                mp + 3
            } else {
                mp - 9
            };
            let year = yoe + era * 400 + if month <= 2 {
                1int
            } else {
                0int
            };
            &&& is_date(year, month, day)
            &&& day_number(year, month, day) == era * 146_097 + 365 * yoe + yoe / 4 - yoe / 100
                + doy - 719_468
        }),
{
    let march = yoe + era * 400;
    month_of_year(doy, mp);
    leap_days_of_era(era, yoe);
    leap_days_grow(march);
    months_table(march);
    months_table(march + 1);
    assert(leap_days_before(1970) == 477);
    let base = 365 * (march - 1970) + 97 * era + yoe / 4 - yoe / 100 - 477;
    assert(base == era * 146_097 + 365 * yoe + yoe / 4 - yoe / 100 - 719_527);
    if mp == 0 {
    } else if mp == 1 {
    } else if mp == 2 {
    } else if mp == 3 {
    } else if mp == 4 {
    } else if mp == 5 {
    } else if mp == 6 {
    } else if mp == 7 {
    } else if mp == 8 {
    } else if mp == 9 {
    } else if mp == 10 {
    } else {
        assert(mp == 11);
    }
}

/// Howard Hinnant's civil-from-days algorithm: the date of a day.
pub fn civil_from_days(days: i64) -> (date: (i64, i64, i64))
    requires
        days <= i64::MAX - 719_468,
    ensures
        is_date(date.0 as int, date.1 as int, date.2 as int),
        day_number(date.0 as int, date.1 as int, date.2 as int) == days,
{
    let z: i64 = days + 719_468;
    let era: i64 = if z >= 0 {
        z / 146_097
    } else {
        -((146_096 - z) / 146_097)
    };
    assert(era == (z as int) / 146_097);
    let doe: i64 = z - era * 146_097;
    assert(0 <= doe <= 146_096);
    let yoe: i64 = (doe - doe / 1460 + doe / 36_524 - doe / 146_096) / 365;
    proof {
        year_of_era(doe as int, yoe as int);
    }
    let doy: i64 = doe - (365 * yoe + yoe / 4 - yoe / 100);
    let mp: i64 = (5 * doy + 2) / 153;
    proof {
        month_of_year(doy as int, mp as int);
    }
    let day: i64 = doy - (153 * mp + 2) / 5 + 1;
    let month: i64 = if mp < 10 {
        mp + 3
    } else {
        mp - 9
    };
    let year: i64 = yoe + era * 400 + if month <= 2 {
        1
    } else {
        0
    };
    proof {
        date_of_march_year(era as int, yoe as int, doy as int, mp as int);
    }
    (year, month, day)
}

/// One date comes before another.
pub open spec fn earlier(y1: int, m1: int, d1: int, y2: int, m2: int, d2: int) -> bool {
    y1 < y2 || (y1 == y2 && (m1 < m2 || (m1 == m2 && d1 < d2)))
}

proof fn months_in_order(year: int, m1: int, m2: int)
    requires
        1 <= m1 < m2 <= 13,
    ensures
        days_before_month(year, m1) + month_length(year, m1) <= days_before_month(year, m2),
    decreases m2,
{
    if m1 < m2 - 1 {
        months_in_order(year, m1, m2 - 1);
    }
}

proof fn years_in_order(y1: int, y2: int)
    requires
        y1 <= y2,
    ensures
        day_number(y1, 1, 1) <= day_number(y2, 1, 1),
    decreases y2 - y1,
{
    if y1 < y2 {
        years_in_order(y1, y2 - 1);
        leap_days_grow(y2 - 1);
    }
}

/// Days are numbered in the order of their dates; so a day has one date only.
pub proof fn days_are_in_order(y1: int, m1: int, d1: int, y2: int, m2: int, d2: int)
    requires
        is_date(y1, m1, d1),
        is_date(y2, m2, d2),
        earlier(y1, m1, d1, y2, m2, d2),
    ensures
        day_number(y1, m1, d1) < day_number(y2, m2, d2),
{
    if y1 < y2 {
        months_table(y1);
        if m1 < 13 {
            months_in_order(y1, m1, 13);
        }
        assert(day_number(y1, m1, d1) < day_number(y1 + 1, 1, 1)) by {
            leap_days_grow(y1);
        }
        years_in_order(y1 + 1, y2);
        assert(days_before_month(y2, m2) >= 0) by {
            months_table(y2);
            if m2 > 1 {
                months_in_order(y2, 1, m2);
            }
        }
    } else if m1 < m2 {
        months_in_order(y1, m1, m2);
    }
}

/// The second `unix`, counted from 1970-01-01, falls on this date.
pub open spec fn falls_on(unix: int, year: int, month: int, day: int) -> bool {
    is_date(year, month, day) && day_number(year, month, day) == unix / 86_400
}

/// A number in a field of `width` digits.
pub open spec fn field(n: int, width: nat) -> Seq<char> {
    pad_left(decimal(n as nat), width, '0')
}

/// The time of day of a second.
pub open spec fn time_text(second: int) -> Seq<char> {
    field(second / 3600, 2) + field((second % 3600) / 60, 2) + field(second % 60, 2)
}

/// A date and a second of it, as `YYYY-MM-DD-HHMMSS`.
pub open spec fn stamp_text(year: int, month: int, day: int, second: int) -> Seq<char> {
    field(year, 4) + "-"@ + field(month, 2) + "-"@ + field(day, 2) + "-"@ + time_text(second)
}

/// Compact `YYYY-MM-DD-HHMMSS` timestamp for file names, of a second counted
/// from 1970-01-01 without leap seconds.
pub fn timestamp_compact(unix: u64) -> (stamp: String)
    ensures
        exists|year: int, month: int, day: int| #[trigger]
            falls_on(unix as int, year, month, day) && stamp@ == stamp_text(
                year,
                month,
                day,
                unix as int % 86_400,
            ),
{
    let days: u64 = unix / 86_400;
    assert(days <= 213_503_982_334_601) by {
        assert(unix <= 18_446_744_073_709_551_615);
    }
    let (year, month, day) = civil_from_days(days as i64);
    proof {
        years_start_at_epoch(year as int, month as int, day as int);
    }
    let rem: u64 = unix % 86_400;
    let hour: u64 = rem / 3600;
    let minute: u64 = (rem % 3600) / 60;
    let second: u64 = rem % 60;
    let y = text::dec_zero(year as u64, 4);
    let m = text::dec_zero(month as u64, 2);
    let d = text::dec_zero(day as u64, 2);
    let h = text::dec_zero(hour, 2);
    let mi = text::dec_zero(minute, 2);
    let s = text::dec_zero(second, 2);
    let time = h.concat(mi.as_str()).concat(s.as_str());
    let stamp = y.concat("-").concat(m.as_str()).concat("-").concat(d.as_str()).concat("-").concat(
        time.as_str(),
    );
    assert(falls_on(unix as int, year as int, month as int, day as int));
    stamp
}

proof fn years_start_at_epoch(year: int, month: int, day: int)
    requires
        is_date(year, month, day),
        day_number(year, month, day) >= 0,
    ensures
        year >= 1970,
{
    if year < 1970 {
        assert(day_number(1970, 1, 1) == 0);
        days_are_in_order(year, month, day, 1970, 1, 1);
    }
}

/// A digit as a character.
spec fn digit(d: int) -> char {
    (48 + d) as char
}

proof fn field_of_two(n: int)
    requires
        0 <= n < 100,
    ensures
        field(n, 2) == seq![digit(n / 10), digit(n % 10)],
{
    reveal_with_fuel(decimal, 3);
    assert(field(n, 2) =~= seq![digit(n / 10), digit(n % 10)]);
}

proof fn field_of_four(n: int)
    requires
        0 <= n < 10_000,
    ensures
        field(n, 4) == seq![
            digit(n / 1000),
            digit((n / 100) % 10),
            digit((n / 10) % 10),
            digit(n % 10),
        ],
{
    reveal_with_fuel(decimal, 5);
    assert((n / 10) / 10 == n / 100);
    assert((n / 100) / 10 == n / 1000);
    assert(field(n, 4) =~= seq![
        digit(n / 1000),
        digit((n / 100) % 10),
        digit((n / 10) % 10),
        digit(n % 10),
    ]);
}

proof fn prefix_decides(a: Seq<char>, b: Seq<char>, x: Seq<char>, y: Seq<char>)
    requires
        a.len() == b.len(),
        a != b,
        ordered(a, b),
    ensures
        ordered(a + x, b + y),
    decreases a.len(),
{
    if a.len() == 0 {
        assert(a =~= b);
    } else if a[0] == b[0] {
        if a.skip(1) == b.skip(1) {
            assert(a =~= seq![a[0]] + a.skip(1));
            assert(b =~= seq![b[0]] + b.skip(1));
        }
        prefix_decides(a.skip(1), b.skip(1), x, y);
        assert((a + x).skip(1) =~= a.skip(1) + x);
        assert((b + y).skip(1) =~= b.skip(1) + y);
    }
}

proof fn prefix_is_passed_over(a: Seq<char>, x: Seq<char>, y: Seq<char>)
    requires
        ordered(x, y),
    ensures
        ordered(a + x, a + y),
    decreases a.len(),
{
    if a.len() == 0 {
        assert(a + x =~= x);
        assert(a + y =~= y);
    } else {
        prefix_is_passed_over(a.skip(1), x, y);
        assert((a + x).skip(1) =~= a.skip(1) + x);
        assert((a + y).skip(1) =~= a.skip(1) + y);
    }
}

proof fn first_difference_decides(a: Seq<char>, b: Seq<char>, k: int)
    requires
        a.len() == b.len(),
        0 <= k < a.len(),
        forall|i: int| 0 <= i < k ==> a[i] == b[i],
        a[k] < b[k],
    ensures
        ordered(a, b),
        a != b,
    decreases k,
{
    if k > 0 {
        assert forall|i: int| 0 <= i < k - 1 implies a.skip(1)[i] == b.skip(1)[i] by {
            assert(a[i + 1] == b[i + 1]);
        }
        first_difference_decides(a.skip(1), b.skip(1), k - 1);
    }
}

proof fn two_digits_in_order(n: int, m: int)
    requires
        0 <= n < m < 100,
    ensures
        ordered(field(n, 2), field(m, 2)),
        field(n, 2) != field(m, 2),
        field(n, 2).len() == field(m, 2).len(),
{
    field_of_two(n);
    field_of_two(m);
    first_difference_decides(
        seq![digit(n / 10), digit(n % 10)],
        seq![digit(m / 10), digit(m % 10)],
        if n / 10 == m / 10 {
            1
        } else {
            0
        },
    );
}

proof fn four_digits_in_order(n: int, m: int)
    requires
        0 <= n < m < 10_000,
    ensures
        ordered(field(n, 4), field(m, 4)),
        field(n, 4) != field(m, 4),
        field(n, 4).len() == field(m, 4).len(),
{
    field_of_four(n);
    field_of_four(m);
    let (n3, m3) = (n / 1000, m / 1000);
    let (n2, m2) = (n / 100, m / 100);
    let (n1, m1) = (n / 10, m / 10);
    assert(n2 / 10 == n3 && m2 / 10 == m3 && n1 / 10 == n2 && m1 / 10 == m2);
    first_difference_decides(
        field(n, 4),
        field(m, 4),
        if n3 != m3 {
            0
        } else if n2 != m2 {
            1
        } else if n1 != m1 {
            2
        } else {
            3
        },
    );
}

/// A smaller number in a field of the same width comes first, whatever
/// follows; where the numbers are the same, what follows decides.
proof fn field_orders(n: int, m: int, width: nat, x: Seq<char>, y: Seq<char>)
    requires
        width == 2 || width == 4,
        0 <= n <= m,
        width == 2 ==> m < 100,
        width == 4 ==> m < 10_000,
        n == m ==> ordered(x, y),
    ensures
        ordered(field(n, width) + x, field(m, width) + y),
{
    if n == m {
        prefix_is_passed_over(field(n, width), x, y);
    } else {
        if width == 2 {
            two_digits_in_order(n, m);
        } else {
            four_digits_in_order(n, m);
        }
        prefix_decides(field(n, width), field(m, width), x, y);
    }
}

/// The parts of a second of the day.
proof fn clock_parts(s: int)
    requires
        0 <= s < 86_400,
    ensures
        s == (s / 3600) * 3600 + ((s % 3600) / 60) * 60 + s % 60,
        0 <= s / 3600 < 24,
        0 <= (s % 3600) / 60 < 60,
        0 <= s % 60 < 60,
{
    let rest = s % 3600;
    assert(s == (s / 3600) * 3600 + rest);
    assert(rest == (rest / 60) * 60 + rest % 60);
    assert(s == ((s / 3600) * 60 + rest / 60) * 60 + rest % 60);
    assert(s % 60 == rest % 60);
}

proof fn times_are_in_order(s1: int, s2: int)
    requires
        0 <= s1 <= s2 < 86_400,
    ensures
        ordered(time_text(s1), time_text(s2)),
{
    let (h1, m1, c1) = (s1 / 3600, (s1 % 3600) / 60, s1 % 60);
    let (h2, m2, c2) = (s2 / 3600, (s2 % 3600) / 60, s2 % 60);
    clock_parts(s1);
    clock_parts(s2);
    assert(h1 <= h2);
    assert(h1 == h2 ==> m1 <= m2);
    assert(h1 == h2 && m1 == m2 ==> c1 <= c2);
    let last1 = field(c1, 2);
    let last2 = field(c2, 2);
    let e = Seq::<char>::empty();
    if h1 == h2 && m1 == m2 {
        field_orders(c1, c2, 2, e, e);
        assert(last1 + e =~= last1);
        assert(last2 + e =~= last2);
    }
    if h1 == h2 {
        field_orders(m1, m2, 2, last1, last2);
    }
    field_orders(h1, h2, 2, field(m1, 2) + last1, field(m2, 2) + last2);
    assert(time_text(s1) =~= field(h1, 2) + (field(m1, 2) + last1));
    assert(time_text(s2) =~= field(h2, 2) + (field(m2, 2) + last2));
}

/// Timestamps stand in the order of time: a later second has a later stamp, as
/// long as its year has four digits.
pub proof fn stamps_are_in_order(
    u1: int,
    y1: int,
    m1: int,
    d1: int,
    u2: int,
    y2: int,
    m2: int,
    d2: int,
)
    requires
        0 <= u1 <= u2,
        falls_on(u1, y1, m1, d1),
        falls_on(u2, y2, m2, d2),
        y2 <= 9999,
    ensures
        ordered(
            stamp_text(y1, m1, d1, u1 % 86_400),
            stamp_text(y2, m2, d2, u2 % 86_400),
        ),
{
    years_start_at_epoch(y1, m1, d1);
    if earlier(y2, m2, d2, y1, m1, d1) {
        days_are_in_order(y2, m2, d2, y1, m1, d1);
    }
    assert(u1 == (u1 / 86_400) * 86_400 + u1 % 86_400);
    assert(u2 == (u2 / 86_400) * 86_400 + u2 % 86_400);
    if y1 == y2 && m1 == m2 && d1 == d2 {
        times_are_in_order(u1 % 86_400, u2 % 86_400);
    }
    fields_in_order(
        y1,
        m1,
        d1,
        time_text(u1 % 86_400),
        y2,
        m2,
        d2,
        time_text(u2 % 86_400),
    );
    assert(stamp_text(y1, m1, d1, u1 % 86_400) == dated(
        field(y1, 4),
        field(m1, 2),
        field(d1, 2),
        time_text(u1 % 86_400),
    )) by {
        dated_is_flat(field(y1, 4), field(m1, 2), field(d1, 2), time_text(u1 % 86_400));
    }
    assert(stamp_text(y2, m2, d2, u2 % 86_400) == dated(
        field(y2, 4),
        field(m2, 2),
        field(d2, 2),
        time_text(u2 % 86_400),
    )) by {
        dated_is_flat(field(y2, 4), field(m2, 2), field(d2, 2), time_text(u2 % 86_400));
    }
}

/// The parts of a stamp with dashes in between.
spec fn dated(y: Seq<char>, m: Seq<char>, d: Seq<char>, t: Seq<char>) -> Seq<char> {
    y + ("-"@ + (m + ("-"@ + (d + ("-"@ + t)))))
}

proof fn dated_is_flat(y: Seq<char>, m: Seq<char>, d: Seq<char>, t: Seq<char>)
    ensures
        y + "-"@ + m + "-"@ + d + "-"@ + t == dated(y, m, d, t),
{
    assert(y + "-"@ + m + "-"@ + d + "-"@ + t =~= dated(y, m, d, t));
}

proof fn fields_in_order(
    y1: int,
    m1: int,
    d1: int,
    t1: Seq<char>,
    y2: int,
    m2: int,
    d2: int,
    t2: Seq<char>,
)
    requires
        0 <= y1 <= y2 < 10_000,
        0 <= m1 < 100,
        0 <= m2 < 100,
        0 <= d1 < 100,
        0 <= d2 < 100,
        y1 == y2 ==> m1 <= m2,
        y1 == y2 && m1 == m2 ==> d1 <= d2,
        y1 == y2 && m1 == m2 && d1 == d2 ==> ordered(t1, t2),
    ensures
        ordered(
            dated(field(y1, 4), field(m1, 2), field(d1, 2), t1),
            dated(field(y2, 4), field(m2, 2), field(d2, 2), t2),
        ),
{
    let dash = "-"@;
    let r1 = dash + t1;
    let r2 = dash + t2;
    if y1 == y2 && m1 == m2 && d1 == d2 {
        prefix_is_passed_over(dash, t1, t2);
    }
    let q1 = dash + (field(d1, 2) + r1);
    let q2 = dash + (field(d2, 2) + r2);
    if y1 == y2 && m1 == m2 {
        field_orders(d1, d2, 2, r1, r2);
        prefix_is_passed_over(dash, field(d1, 2) + r1, field(d2, 2) + r2);
    }
    if y1 == y2 {
        field_orders(m1, m2, 2, q1, q2);
        prefix_is_passed_over(dash, field(m1, 2) + q1, field(m2, 2) + q2);
    }
    field_orders(y1, y2, 4, dash + (field(m1, 2) + q1), dash + (field(m2, 2) + q2));
}

} // verus!
