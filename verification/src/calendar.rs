use vstd::prelude::*;

use crate::text::has_prefix;

verus! {

/// A day of the proleptic Gregorian calendar, as plain numbers.
#[derive(Clone, Copy, Debug, PartialEq, Eq, Structural)]
pub struct CalendarDate {
    pub year: i32,
    pub month: u32,
    pub day: u32,
}

/// The earliest year that the date library represents.
pub open spec fn first_supported_year() -> int {
    -262143
}

/// The latest year that the date library represents.
pub open spec fn last_supported_year() -> int {
    262142
}

pub open spec fn is_leap_year(y: int) -> bool {
    y % 4 == 0 && (y % 100 != 0 || y % 400 == 0)
}

pub open spec fn days_in_month(y: int, m: int) -> int {
    if m == 2 {
        if is_leap_year(y) {
            29
        } else {
            28
        }
    } else if m == 4 || m == 6 || m == 9 || m == 11 {
        30
    } else {
        31
    }
}

pub open spec fn days_in_year(y: int) -> int {
    if is_leap_year(y) {
        366
    } else {
        365
    }
}

/// The number of leap years among the years before `y`, counted from an
/// arbitrary fixed origin (only differences of this count matter).
pub open spec fn leap_years_before(y: int) -> int {
    (y - 1) / 4 - (y - 1) / 100 + (y - 1) / 400
}

/// Days from 1970-01-01 to January 1st of year `y` (negative before 1970).
pub open spec fn days_before_year(y: int) -> int {
    365 * (y - 1970) + leap_years_before(y) - leap_years_before(1970)
}

/// Days from January 1st of year `y` to the first day of month `m`.
pub open spec fn days_before_month(y: int, m: int) -> int {
    let common: int = if m <= 1 {
        0
    } else if m == 2 {
        31
    } else if m == 3 {
        59
    } else if m == 4 {
        90
    } else if m == 5 {
        120
    } else if m == 6 {
        151
    } else if m == 7 {
        181
    } else if m == 8 {
        212
    } else if m == 9 {
        243
    } else if m == 10 {
        273
    } else if m == 11 {
        304
    } else {
        334
    };
    if m > 2 && is_leap_year(y) {
        common + 1
    } else {
        common
    }
}

impl CalendarDate {
    /// The date exists in the calendar and lies in the range the date library supports.
    pub open spec fn is_valid(self) -> bool {
        &&& first_supported_year() <= self.year <= last_supported_year()
        &&& 1 <= self.month <= 12
        &&& 1 <= self.day <= days_in_month(self.year as int, self.month as int)
    }

    /// The number of days from 1970-01-01 to this date.
    pub open spec fn day_number(self) -> int {
        days_before_year(self.year as int) + days_before_month(self.year as int, self.month as int)
            + self.day - 1
    }

    /// The day of the week counted from Monday = 0 (1970-01-01 was a Thursday).
    pub open spec fn weekday_index(self) -> int {
        (self.day_number() + 3) % 7
    }
}

/// The first day that the date library represents.
pub open spec fn first_supported_date() -> CalendarDate {
    CalendarDate { year: -262143i32, month: 1u32, day: 1u32 }
}

/// The last day that the date library represents.
pub open spec fn last_supported_date() -> CalendarDate {
    CalendarDate { year: 262142i32, month: 12u32, day: 31u32 }
}

/// A day number that a date of the supported range has.
pub open spec fn day_number_in_range(n: int) -> bool {
    first_supported_date().day_number() <= n <= last_supported_date().day_number()
}

pub open spec fn digit_char(v: int) -> char {
    (v + 48) as char
}

/// The decimal digits of `n`, most significant first, without leading zeros.
pub open spec fn decimal_digits(n: nat) -> Seq<char>
    decreases n,
{
    if n < 10 {
        seq![digit_char(n as int)]
    } else {
        decimal_digits(n / 10).push(digit_char((n % 10) as int))
    }
}

/// The decimal digits of `n`, left-padded with '0' to at least `width` characters.
pub open spec fn zero_padded(n: nat, width: nat) -> Seq<char> {
    let digits = decimal_digits(n);
    if digits.len() < width {
        Seq::new((width - digits.len()) as nat, |i: int| '0') + digits
    } else {
        digits
    }
}

/// How `%Y` renders a year: four digits at least, with a sign outside 0..=9999.
pub open spec fn year_text(y: int) -> Seq<char> {
    if 0 <= y <= 9999 {
        zero_padded(y as nat, 4)
    } else if y > 9999 {
        seq!['+'] + zero_padded(y as nat, 4)
    } else {
        seq!['-'] + zero_padded((-y) as nat, 4)
    }
}

/// The `%Y-%m` rendering of the month that holds `d`, e.g. "2024-03".
pub open spec fn year_month_text(d: CalendarDate) -> Seq<char> {
    year_text(d.year as int) + seq!['-'] + zero_padded(d.month as nat, 2)
}

/// The `%Y-%m-%d` rendering of `d`, e.g. "2024-03-07".
pub open spec fn date_text(d: CalendarDate) -> Seq<char> {
    year_month_text(d) + seq!['-'] + zero_padded(d.day as nat, 2)
}

/// The first second since the epoch whose local day, under any time-zone
/// offset of less than a day, the date library represents: the start of the
/// day after its first day.
pub const LOCAL_DAY_FIRST_SECOND: i64 = -8334601142400;

/// The last second since the epoch whose local day, under any time-zone offset
/// of less than a day, the date library represents: the end of the day before
/// its last day.
pub const LOCAL_DAY_LAST_SECOND: i64 = 8210266790399;

/// The seconds from `LOCAL_DAY_FIRST_SECOND` to `LOCAL_DAY_LAST_SECOND` are
/// those whose day, and the days on either side of it, the library represents.
pub proof fn lemma_local_day_seconds()
    ensures
        LOCAL_DAY_FIRST_SECOND == (first_supported_date().day_number() + 1) * 86400,
        LOCAL_DAY_LAST_SECOND == last_supported_date().day_number() * 86400 - 1,
{
    assert(leap_years_before(-262143) == -65536 + 2622 - 656) by (nonlinear_arith);
    assert(leap_years_before(262142) == 65535 - 2621 + 655) by (nonlinear_arith);
    assert(leap_years_before(1970) == 492 - 19 + 4) by (nonlinear_arith);
}

/// Calls `chrono::DateTime::from_timestamp` and takes the local calendar day
/// with `DateTime::with_timezone(&Local)` and `date_naive`. Within the bounds
/// the timestamp is always representable and its local day lies in the
/// supported range whatever the offset, so a day is always found; which day
/// depends on the machine's time zone, and all that is claimed is that it is a
/// day the date library represents, at most one day from the UTC day of the
/// timestamp, as every offset the library accepts is less than a day. The
/// time-zone lookup of the library panics
/// only on time-zone data that yield no local time type or an offset of a day
/// or more, which no `requires` over the arguments can rule out; that is left
/// unsaid.
#[verifier::external_body]
pub(crate) fn local_day_at(seconds: i64, nanos: u32) -> (r: CalendarDate)
    requires
        LOCAL_DAY_FIRST_SECOND <= seconds <= LOCAL_DAY_LAST_SECOND,
        nanos < 1_000_000_000,
    ensures
        r.is_valid(),
        seconds as int / 86400 - 1 <= r.day_number() <= seconds as int / 86400 + 1,
{
    let utc = chrono::DateTime::from_timestamp(seconds, nanos).unwrap();
    let day = utc.with_timezone(&chrono::Local).date_naive();
    CalendarDate {
        year: chrono::Datelike::year(&day),
        month: chrono::Datelike::month(&day),
        day: chrono::Datelike::day(&day),
    }
}

/// Calls `chrono::NaiveDate::weekday` and converts the weekday with
/// `Weekday::num_days_from_monday`. Claimed: Monday is 0, the days of the
/// proleptic Gregorian calendar follow each other in weekly turn, and
/// 1970-01-01 was a Thursday.
#[verifier::external_body]
pub(crate) fn weekday_from_monday(d: &CalendarDate) -> (r: u32)
    requires
        d.is_valid(),
    ensures
        r == d.weekday_index(),
{
    let date = chrono::NaiveDate::from_ymd_opt(d.year, d.month, d.day).unwrap();
    chrono::Datelike::weekday(&date).num_days_from_monday()
}

/// Calls `chrono::NaiveDate::checked_add_signed` with a whole number of days.
/// Claimed: the result is the date `days` days later (earlier when negative),
/// and `None` exactly when that date lies outside the supported range.
#[verifier::external_body]
pub(crate) fn add_days(d: &CalendarDate, days: i32) -> (r: Option<CalendarDate>)
    requires
        d.is_valid(),
    ensures
        r is Some <==> day_number_in_range(d.day_number() + days),
        r matches Some(e) ==> e.is_valid() && e.day_number() == d.day_number() + days,
{
    let date = chrono::NaiveDate::from_ymd_opt(d.year, d.month, d.day).unwrap();
    date.checked_add_signed(chrono::TimeDelta::days(days as i64)).map(|e| CalendarDate {
        year: chrono::Datelike::year(&e),
        month: chrono::Datelike::month(&e),
        day: chrono::Datelike::day(&e),
    })
}

/// Calls `chrono::NaiveDate::format` with `pattern`, one of `%Y-%m-%d` and
/// `%Y-%m`, and renders it with `to_string`. Claimed: the zero-padded
/// rendering that the date library documents, where `%Y` has four digits at
/// least and a sign outside 0..=9999.
#[verifier::external_body]
pub(crate) fn format_date(d: &CalendarDate, pattern: &str) -> (r: String)
    requires
        d.is_valid(),
        pattern@ == "%Y-%m-%d"@ || pattern@ == "%Y-%m"@,
    ensures
        pattern@ == "%Y-%m-%d"@ ==> r@ == date_text(*d),
        pattern@ == "%Y-%m"@ ==> r@ == year_month_text(*d),
{
    let date = chrono::NaiveDate::from_ymd_opt(d.year, d.month, d.day).unwrap();
    date.format(pattern).to_string()
}

} // verus!

verus! {

proof fn lemma_leap_count_step(y: int)
    ensures
        leap_years_before(y + 1) - leap_years_before(y) == if is_leap_year(y) {
            1int
        } else {
            0int
        },
{
    assert(y / 4 - (y - 1) / 4 == if y % 4 == 0 { 1int } else { 0int }) by (nonlinear_arith);
    assert(y / 100 - (y - 1) / 100 == if y % 100 == 0 { 1int } else { 0int }) by (nonlinear_arith);
    assert(y / 400 - (y - 1) / 400 == if y % 400 == 0 { 1int } else { 0int }) by (nonlinear_arith);
    assert(y % 400 == 0 ==> y % 100 == 0) by (nonlinear_arith);
    assert(y % 100 == 0 ==> y % 4 == 0) by (nonlinear_arith);
}

} // verus!

verus! {

proof fn lemma_year_step(y: int)
    ensures
        days_before_year(y + 1) == days_before_year(y) + days_in_year(y),
{
    lemma_leap_count_step(y);
}

proof fn lemma_years_ordered(y1: int, y2: int)
    requires
        y1 < y2,
    ensures
        days_before_year(y1) + days_in_year(y1) <= days_before_year(y2),
    decreases y2 - y1,
{
    lemma_year_step(y1);
    if y1 + 1 < y2 {
        lemma_years_ordered(y1 + 1, y2);
    }
}

proof fn lemma_offset_in_year(d: CalendarDate)
    requires
        d.is_valid(),
    ensures
        0 <= days_before_month(d.year as int, d.month as int) + d.day - 1 < days_in_year(d.year as int),
{
}

proof fn lemma_same_year_same_offset(a: CalendarDate, b: CalendarDate)
    requires
        a.is_valid(),
        b.is_valid(),
        a.year == b.year,
        days_before_month(a.year as int, a.month as int) + a.day == days_before_month(
            b.year as int,
            b.month as int,
        ) + b.day,
    ensures
        a == b,
{
}

/// A valid date is determined by its day number.
pub proof fn lemma_day_number_injective(a: CalendarDate, b: CalendarDate)
    requires
        a.is_valid(),
        b.is_valid(),
        a.day_number() == b.day_number(),
    ensures
        a == b,
{
    lemma_offset_in_year(a);
    lemma_offset_in_year(b);
    if a.year < b.year {
        lemma_years_ordered(a.year as int, b.year as int);
    } else if b.year < a.year {
        lemma_years_ordered(b.year as int, a.year as int);
    } else {
        lemma_same_year_same_offset(a, b);
    }
}

/// Days `n` apart lie `n` places apart in the weekly turn.
pub proof fn lemma_weekday_shift(d: int, i: int)
    requires
        0 <= i < 7,
    ensures
        (d - (d + 3) % 7 + i + 3) % 7 == i,
{
    let x = d + 3;
    assert(x - x % 7 == 7 * (x / 7)) by (nonlinear_arith);
    assert((7 * (x / 7) + i) % 7 == i) by (nonlinear_arith)
        requires
            0 <= i < 7,
    ;
}

} // verus!

verus! {

spec fn is_digit(c: char) -> bool {
    48 <= c as int <= 57
}

spec fn all_digits(s: Seq<char>) -> bool {
    forall|i: int| 0 <= i < s.len() ==> is_digit(#[trigger] s[i])
}

/// The number that a string of decimal digits denotes.
spec fn digits_value(s: Seq<char>) -> int
    decreases s.len(),
{
    if s.len() == 0 {
        0
    } else {
        10 * digits_value(s.drop_last()) + (s.last() as int - 48)
    }
}

proof fn lemma_digit_char(v: int)
    requires
        0 <= v < 10,
    ensures
        digit_char(v) as int == v + 48,
{
}

proof fn lemma_decimal_digits(n: nat)
    ensures
        decimal_digits(n).len() >= 1,
        all_digits(decimal_digits(n)),
        digits_value(decimal_digits(n)) == n,
        n < 10 ==> decimal_digits(n).len() == 1,
        10 <= n < 100 ==> decimal_digits(n).len() == 2,
    decreases n,
{
    lemma_digit_char((n % 10) as int);
    if n >= 10 {
        lemma_decimal_digits(n / 10);
        let s = decimal_digits(n);
        assert(s.drop_last() =~= decimal_digits(n / 10));
        assert(n == 10 * (n / 10) + n % 10);
        assert(s.last() == digit_char((n % 10) as int));
        assert(digits_value(s) == 10 * digits_value(s.drop_last()) + (s.last() as int - 48));
        if n < 100 {
            assert(n / 10 < 10);
        }
    } else {
        assert(decimal_digits(n).drop_last() =~= Seq::<char>::empty());
        assert(digits_value(Seq::<char>::empty()) == 0);
    }
}

proof fn lemma_leading_zeros(k: nat, s: Seq<char>)
    ensures
        digits_value(Seq::new(k, |i: int| '0') + s) == digits_value(s),
    decreases s.len(), k,
{
    let zeros = Seq::new(k, |i: int| '0');
    if s.len() == 0 {
        assert(zeros + s =~= zeros);
        if k > 0 {
            lemma_leading_zeros((k - 1) as nat, s);
            assert(zeros.drop_last() =~= Seq::new((k - 1) as nat, |i: int| '0'));
            assert(Seq::new((k - 1) as nat, |i: int| '0') + s =~= zeros.drop_last());
        }
    } else {
        lemma_leading_zeros(k, s.drop_last());
        assert((zeros + s).drop_last() =~= zeros + s.drop_last());
    }
}

proof fn lemma_zero_padded(n: nat, width: nat)
    ensures
        all_digits(zero_padded(n, width)),
        digits_value(zero_padded(n, width)) == n,
        zero_padded(n, width).len() >= width,
        zero_padded(n, width).len() >= 1,
        n < 100 && width == 2 ==> zero_padded(n, width).len() == 2,
{
    lemma_decimal_digits(n);
    let digits = decimal_digits(n);
    if digits.len() < width {
        lemma_leading_zeros((width - digits.len()) as nat, digits);
        let padded = zero_padded(n, width);
        assert forall|i: int| 0 <= i < padded.len() implies is_digit(#[trigger] padded[i]) by {
            if i >= width - digits.len() {
                assert(padded[i] == digits[i - (width - digits.len())]);
            }
        }
    }
}

proof fn lemma_year_text_injective(y1: int, y2: int)
    requires
        year_text(y1) == year_text(y2),
    ensures
        y1 == y2,
{
    lemma_zero_padded(if y1 >= 0 { y1 as nat } else { (-y1) as nat }, 4);
    lemma_zero_padded(if y2 >= 0 { y2 as nat } else { (-y2) as nat }, 4);
    let t = year_text(y1);
    let tail = t.drop_first();
    if 0 <= y1 <= 9999 {
        assert(is_digit(t[0]));
        if 0 <= y2 <= 9999 {
        } else if y2 > 9999 {
            assert(t[0] == '+');
        } else {
            assert(t[0] == '-');
        }
    } else if y1 > 9999 {
        assert(tail =~= zero_padded(y1 as nat, 4));
        if 0 <= y2 <= 9999 {
            assert(is_digit(year_text(y2)[0]));
        } else if y2 > 9999 {
            assert(tail =~= zero_padded(y2 as nat, 4));
        } else {
            assert(year_text(y2)[0] == '-');
        }
    } else {
        assert(tail =~= zero_padded((-y1) as nat, 4));
        if 0 <= y2 <= 9999 {
            assert(is_digit(year_text(y2)[0]));
        } else if y2 > 9999 {
            assert(year_text(y2)[0] == '+');
        } else {
            assert(tail =~= zero_padded((-y2) as nat, 4));
        }
    }
}

/// Valid dates with the same `%Y-%m-%d` rendering are the same date.
pub proof fn lemma_date_text_injective(a: CalendarDate, b: CalendarDate)
    requires
        a.is_valid(),
        b.is_valid(),
        date_text(a) == date_text(b),
    ensures
        a == b,
{
    lemma_zero_padded(a.month as nat, 2);
    lemma_zero_padded(b.month as nat, 2);
    lemma_zero_padded(a.day as nat, 2);
    lemma_zero_padded(b.day as nat, 2);
    let ya = year_text(a.year as int);
    let yb = year_text(b.year as int);
    let ta = date_text(a);
    let n = ta.len();
    assert(n == ya.len() + 6);
    assert(n == yb.len() + 6);
    assert(ta.subrange(0, ya.len() as int) =~= ya);
    assert(date_text(b).subrange(0, yb.len() as int) =~= yb);
    lemma_year_text_injective(a.year as int, b.year as int);
    assert(ta.subrange(n - 5, n - 3) =~= zero_padded(a.month as nat, 2));
    assert(date_text(b).subrange(n - 5, n - 3) =~= zero_padded(b.month as nat, 2));
    assert(ta.subrange(n - 2, n as int) =~= zero_padded(a.day as nat, 2));
    assert(date_text(b).subrange(n - 2, n as int) =~= zero_padded(b.day as nat, 2));
}

} // verus!

verus! {

proof fn lemma_year_text_shape(y: int)
    ensures
        year_text(y).len() >= 4,
        forall|i: int| 1 <= i < year_text(y).len() ==> is_digit(#[trigger] year_text(y)[i]),
{
    let n: nat = if y >= 0 { y as nat } else { (-y) as nat };
    lemma_zero_padded(n, 4);
    let t = year_text(y);
    if !(0 <= y <= 9999) {
        assert forall|i: int| 1 <= i < t.len() implies is_digit(#[trigger] t[i]) by {
            assert(t[i] == zero_padded(n, 4)[i - 1]);
        }
    }
}

/// The `%Y-%m` text of a day's month begins the `%Y-%m-%d` text of exactly the
/// days of that month and year: a day of another year or month never matches.
pub proof fn lemma_month_prefix_matches_same_month(today: CalendarDate, d: CalendarDate)
    requires
        today.is_valid(),
        d.is_valid(),
    ensures
        has_prefix(date_text(d), year_month_text(today)) <==> (d.year == today.year && d.month
            == today.month),
{
    let p = year_month_text(today);
    let full = date_text(d);
    let a = year_text(today.year as int);
    let b = year_text(d.year as int);
    lemma_zero_padded(today.month as nat, 2);
    lemma_zero_padded(d.month as nat, 2);
    lemma_zero_padded(d.day as nat, 2);
    lemma_year_text_shape(today.year as int);
    lemma_year_text_shape(d.year as int);
    assert(p.len() == a.len() + 3);
    assert(full.len() == b.len() + 6);
    if d.year == today.year && d.month == today.month {
        assert(full.subrange(0, p.len() as int) =~= p);
    }
    if has_prefix(full, p) {
        let q = full.subrange(0, p.len() as int);
        assert(q == p);
        if a.len() < b.len() {
            assert(full[a.len() as int] == b[a.len() as int]);
            assert(p[a.len() as int] == '-');
            assert(q[a.len() as int] == full[a.len() as int]);
        } else if b.len() < a.len() {
            assert(full[b.len() as int] == '-');
            assert(p[b.len() as int] == a[b.len() as int]);
            assert(q[b.len() as int] == full[b.len() as int]);
        }
        assert(a.len() == b.len());
        assert(full.subrange(0, b.len() as int) =~= b);
        assert(p.subrange(0, a.len() as int) =~= a);
        assert(q.subrange(0, a.len() as int) =~= full.subrange(0, b.len() as int));
        lemma_year_text_injective(today.year as int, d.year as int);
        let n = a.len() as int;
        assert(p.subrange(n + 1, n + 3) =~= zero_padded(today.month as nat, 2));
        assert(full.subrange(n + 1, n + 3) =~= zero_padded(d.month as nat, 2));
        assert(q.subrange(n + 1, n + 3) =~= full.subrange(n + 1, n + 3));
    }
}

} // verus!
