//! The proleptic Gregorian calendar, counted in seconds from
//! 1970-01-01 00:00:00, and the `%Y-%m-%d %H:%M:%S` text of a date and time.
use vstd::prelude::*;
use crate::text::{decimal, digit, pow10, zero_padded};

verus! {

// ── The calendar ─────────────────────────────────────────────────────

/// Whether `year` has a 29th of February.
pub open spec fn is_leap_year(year: int) -> bool {
    year % 4 == 0 && (year % 100 != 0 || year % 400 == 0)
}

/// The number of days of `month` (1 to 12) in `year`.
pub open spec fn days_in_month(year: int, month: int) -> int {
    if month == 2 {
        if is_leap_year(year) {
            29
        } else {
            28
        }
    } else if month == 4 || month == 6 || month == 9 || month == 11 {
        30
    } else {
        31
    }
}

/// The leap years among the years before `year`, counted from a fixed
/// origin: the multiples of 4, less those of 100, plus those of 400.
pub open spec fn leap_years_before(year: int) -> int {
    (year - 1) / 4 - (year - 1) / 100 + (year - 1) / 400
}

/// The number of days from 1970-01-01 to the first of January of `year`
/// (negative before 1970).
pub open spec fn days_before_year(year: int) -> int {
    365 * (year - 1970) + leap_years_before(year) - leap_years_before(1970)
}

/// The number of days of `year` before the first of `month`.
pub open spec fn days_before_month(year: int, month: int) -> int {
    let common: int = if month <= 1 {
        0
    } else if month == 2 {
        31
    } else if month == 3 {
        59
    } else if month == 4 {
        90
    } else if month == 5 {
        120
    } else if month == 6 {
        151
    } else if month == 7 {
        181
    } else if month == 8 {
        212
    } else if month == 9 {
        243
    } else if month == 10 {
        273
    } else if month == 11 {
        304
    } else {
        334
    };
    common + if month > 2 && is_leap_year(year) {
        1int
    } else {
        0int
    }
}

/// The number of the day `year-month-day`, counted from 1970-01-01 (day 0).
pub open spec fn day_number(year: int, month: int, day: int) -> int {
    days_before_year(year) + days_before_month(year, month) + day - 1
}

/// The second `hour:minute:second` of the day `year-month-day`, counted
/// from 1970-01-01 00:00:00.
pub open spec fn instant_of(year: int, month: int, day: int, hour: int, minute: int, second: int) -> int {
    day_number(year, month, day) * 86400 + hour * 3600 + minute * 60 + second
}

/// Whether the fields name a date of the calendar and a second of a day.
pub open spec fn valid_fields(year: int, month: int, day: int, hour: int, minute: int, second: int) -> bool {
    &&& 1 <= month <= 12
    &&& 1 <= day <= days_in_month(year, month)
    &&& 0 <= hour < 24
    &&& 0 <= minute < 60
    &&& 0 <= second < 60
}

// ── The text ─────────────────────────────────────────────────────────

/// The year as `%Y` writes it: four digits from 0 to 9999, otherwise with
/// a sign (`+` above 9999, `-` below 0), zero-padded to four digits.
pub open spec fn year_text(year: int) -> Seq<char> {
    if 0 <= year <= 9999 {
        zero_padded(year as nat, 4)
    } else if year > 9999 {
        seq!['+'] + decimal(year as nat)
    } else if -year <= 9999 {
        seq!['-'] + zero_padded((-year) as nat, 4)
    } else {
        seq!['-'] + decimal((-year) as nat)
    }
}

/// The text after the year: `-%m-%d %H:%M:%S`, each field two digits.
pub open spec fn rest_text(month: int, day: int, hour: int, minute: int, second: int) -> Seq<char> {
    seq![
        '-',
        digit((month / 10) as nat),
        digit((month % 10) as nat),
        '-',
        digit((day / 10) as nat),
        digit((day % 10) as nat),
        ' ',
        digit((hour / 10) as nat),
        digit((hour % 10) as nat),
        ':',
        digit((minute / 10) as nat),
        digit((minute % 10) as nat),
        ':',
        digit((second / 10) as nat),
        digit((second % 10) as nat),
    ]
}

/// The text `%Y-%m-%d %H:%M:%S` of a date and time.
pub open spec fn datetime_text(year: int, month: int, day: int, hour: int, minute: int, second: int) -> Seq<char> {
    year_text(year) + rest_text(month, day, hour, minute, second)
}

/// Whether `text` is the `%Y-%m-%d %H:%M:%S` text of the second `instant`
/// (counted from 1970-01-01 00:00:00).
pub open spec fn renders(instant: int, text: Seq<char>) -> bool {
    exists|year: int, month: int, day: int, hour: int, minute: int, second: int|
        valid_fields(year, month, day, hour, minute, second)
            && instant_of(year, month, day, hour, minute, second) == instant
            && text == #[trigger] datetime_text(year, month, day, hour, minute, second)
}

// ── Laws ─────────────────────────────────────────────────────────────

/// Day 0 is the first of January 1970, and every valid date is followed
/// by the next day number: the next day of the month, the first of the
/// next month after a month's last day, the first of January after the
/// 31st of December.
pub proof fn days_follow_one_another(year: int, month: int, day: int)
    requires
        1 <= month <= 12,
        1 <= day <= days_in_month(year, month),
    ensures
        day_number(1970, 1, 1) == 0,
        day < days_in_month(year, month) ==> day_number(year, month, day + 1) == day_number(year, month, day) + 1,
        day == days_in_month(year, month) && month < 12 ==> day_number(year, month + 1, 1) == day_number(year, month, day) + 1,
        day == days_in_month(year, month) && month == 12 ==> day_number(year + 1, 1, 1) == day_number(year, month, day) + 1,
{
    if day == days_in_month(year, month) && month == 12 {
        year_length(year);
    }
}

/// A year has 366 days when it is a leap year and 365 otherwise.
proof fn year_length(year: int)
    ensures
        days_before_year(year + 1) - days_before_year(year) == if is_leap_year(year) {
            366int
        } else {
            365int
        },
{
    let y = year;
    assert(y / 4 - (y - 1) / 4 == if y % 4 == 0 { 1int } else { 0int });
    assert(y / 100 - (y - 1) / 100 == if y % 100 == 0 { 1int } else { 0int });
    assert(y / 400 - (y - 1) / 400 == if y % 400 == 0 { 1int } else { 0int });
    assert(y % 100 == 0 ==> y % 4 == 0);
    assert(y % 400 == 0 ==> y % 100 == 0);
}

/// A `%Y-%m-%d %H:%M:%S` text names one second only: two seconds with the
/// same text are the same second.
pub proof fn text_names_one_instant(a: int, b: int, text: Seq<char>)
    requires
        renders(a, text),
        renders(b, text),
    ensures
        a == b,
{
    let (y1, mo1, d1, h1, mi1, s1) = choose|year: int, month: int, day: int, hour: int, minute: int, second: int|
        valid_fields(year, month, day, hour, minute, second)
            && instant_of(year, month, day, hour, minute, second) == a
            && text == #[trigger] datetime_text(year, month, day, hour, minute, second);
    let (y2, mo2, d2, h2, mi2, s2) = choose|year: int, month: int, day: int, hour: int, minute: int, second: int|
        valid_fields(year, month, day, hour, minute, second)
            && instant_of(year, month, day, hour, minute, second) == b
            && text == #[trigger] datetime_text(year, month, day, hour, minute, second);
    datetime_text_injective(y1, mo1, d1, h1, mi1, s1, y2, mo2, d2, h2, mi2, s2);
}

/// Two instants with their text: the start of 1970, and the second
/// 1 700 000 000 seconds later.
pub proof fn known_instants()
    ensures
        renders(0, "1970-01-01 00:00:00"@),
        renders(1_700_000_000, "2023-11-14 22:13:20"@),
{
    reveal_strlit("1970-01-01 00:00:00");
    reveal_strlit("2023-11-14 22:13:20");
    reveal_with_fuel(zero_padded, 5);
    assert(instant_of(1970, 1, 1, 0, 0, 0) == 0);
    assert(datetime_text(1970, 1, 1, 0, 0, 0) =~= "1970-01-01 00:00:00"@);
    assert(instant_of(2023, 11, 14, 22, 13, 20) == 1_700_000_000);
    assert(datetime_text(2023, 11, 14, 22, 13, 20) =~= "2023-11-14 22:13:20"@);
}

// ── Lemmas on the text ───────────────────────────────────────────────

spec fn is_digit(c: char) -> bool {
    c == '0' || c == '1' || c == '2' || c == '3' || c == '4' || c == '5' || c == '6' || c == '7'
        || c == '8' || c == '9'
}

proof fn two_digits_injective(a: int, b: int)
    requires
        0 <= a < 100,
        0 <= b < 100,
        digit((a / 10) as nat) == digit((b / 10) as nat),
        digit((a % 10) as nat) == digit((b % 10) as nat),
    ensures
        a == b,
{
    assert(a / 10 == b / 10);
    assert(a % 10 == b % 10);
}

proof fn zero_padded_facts(n: nat, w: nat)
    ensures
        zero_padded(n, w).len() == w,
        w > 0 ==> is_digit(zero_padded(n, w)[0]),
    decreases w,
{
    if w > 0 {
        zero_padded_facts(n / 10, (w - 1) as nat);
    }
}

proof fn zero_padded_injective(a: nat, b: nat, w: nat)
    requires
        a < pow10(w),
        b < pow10(w),
        zero_padded(a, w) == zero_padded(b, w),
    ensures
        a == b,
    decreases w,
{
    if w > 0 {
        let pa = zero_padded(a / 10, (w - 1) as nat);
        let pb = zero_padded(b / 10, (w - 1) as nat);
        zero_padded_facts(a / 10, (w - 1) as nat);
        zero_padded_facts(b / 10, (w - 1) as nat);
        assert(zero_padded(a, w) == pa.push(digit(a % 10)));
        assert(zero_padded(a, w)[w - 1] == digit(a % 10));
        assert(zero_padded(b, w)[w - 1] == digit(b % 10));
        assert(a % 10 == b % 10);
        assert(pa =~= zero_padded(a, w).drop_last());
        assert(pb =~= zero_padded(b, w).drop_last());
        assert(a / 10 < pow10((w - 1) as nat));
        assert(b / 10 < pow10((w - 1) as nat));
        zero_padded_injective(a / 10, b / 10, (w - 1) as nat);
    }
}

proof fn decimal_facts(n: nat)
    ensures
        decimal(n).len() >= 1,
        is_digit(decimal(n)[0]),
        n >= 10 ==> decimal(n).len() >= 2,
        n >= 100 ==> decimal(n).len() >= 3,
        n >= 1000 ==> decimal(n).len() >= 4,
        n >= 10000 ==> decimal(n).len() >= 5,
    decreases n,
{
    if n >= 10 {
        decimal_facts(n / 10);
    }
}

proof fn decimal_injective(a: nat, b: nat)
    requires
        decimal(a) == decimal(b),
    ensures
        a == b,
    decreases a,
{
    decimal_facts(a);
    decimal_facts(b);
    if a >= 10 {
        decimal_facts(a / 10);
    }
    if b >= 10 {
        decimal_facts(b / 10);
    }
    if a < 10 && b < 10 {
    } else if a >= 10 && b >= 10 {
        let da = decimal(a);
        assert(da[da.len() - 1] == digit(a % 10));
        assert(decimal(b)[da.len() - 1] == digit(b % 10));
        assert(decimal(a / 10) =~= da.drop_last());
        assert(decimal(b / 10) =~= decimal(b).drop_last());
        decimal_injective(a / 10, b / 10);
    } else {
        assert(decimal(a).len() != decimal(b).len());
    }
}

proof fn year_text_injective(a: int, b: int)
    requires
        year_text(a) == year_text(b),
    ensures
        a == b,
{
    let ta = year_text(a);
    assert(pow10(4) == 10000) by {
        reveal_with_fuel(pow10, 5);
    }
    if 0 <= a <= 9999 {
        zero_padded_facts(a as nat, 4);
    } else if a > 9999 {
        assert(ta[0] == '+');
    } else {
        assert(ta[0] == '-');
    }
    if 0 <= b <= 9999 {
        zero_padded_facts(b as nat, 4);
    } else if b > 9999 {
        assert(year_text(b)[0] == '+');
    } else {
        assert(year_text(b)[0] == '-');
    }
    if 0 <= a <= 9999 && 0 <= b <= 9999 {
        zero_padded_injective(a as nat, b as nat, 4);
    } else if a > 9999 && b > 9999 {
        assert(decimal(a as nat) =~= ta.drop_first());
        assert(decimal(b as nat) =~= year_text(b).drop_first());
        decimal_injective(a as nat, b as nat);
    } else if a < 0 && b < 0 {
        let ra = ta.drop_first();
        let rb = year_text(b).drop_first();
        if -a <= 9999 {
            assert(ra =~= zero_padded((-a) as nat, 4));
            zero_padded_facts((-a) as nat, 4);
        } else {
            assert(ra =~= decimal((-a) as nat));
            decimal_facts((-a) as nat);
        }
        if -b <= 9999 {
            assert(rb =~= zero_padded((-b) as nat, 4));
            zero_padded_facts((-b) as nat, 4);
        } else {
            assert(rb =~= decimal((-b) as nat));
            decimal_facts((-b) as nat);
        }
        if -a <= 9999 && -b <= 9999 {
            zero_padded_injective((-a) as nat, (-b) as nat, 4);
        } else if -a > 9999 && -b > 9999 {
            decimal_injective((-a) as nat, (-b) as nat);
        }
    }
}

proof fn datetime_text_injective(
    y1: int,
    mo1: int,
    d1: int,
    h1: int,
    mi1: int,
    s1: int,
    y2: int,
    mo2: int,
    d2: int,
    h2: int,
    mi2: int,
    s2: int,
)
    requires
        valid_fields(y1, mo1, d1, h1, mi1, s1),
        valid_fields(y2, mo2, d2, h2, mi2, s2),
        datetime_text(y1, mo1, d1, h1, mi1, s1) == datetime_text(y2, mo2, d2, h2, mi2, s2),
    ensures
        instant_of(y1, mo1, d1, h1, mi1, s1) == instant_of(y2, mo2, d2, h2, mi2, s2),
{
    let t = datetime_text(y1, mo1, d1, h1, mi1, s1);
    let ya = year_text(y1);
    let yb = year_text(y2);
    let ra = rest_text(mo1, d1, h1, mi1, s1);
    let rb = rest_text(mo2, d2, h2, mi2, s2);
    assert(ya =~= t.subrange(0, t.len() - 15));
    assert(yb =~= t.subrange(0, t.len() - 15));
    year_text_injective(y1, y2);
    assert(ra =~= t.subrange(t.len() - 15, t.len() as int));
    assert(rb =~= t.subrange(t.len() - 15, t.len() as int));
    assert(ra[1] == rb[1] && ra[2] == rb[2]);
    two_digits_injective(mo1, mo2);
    assert(ra[4] == rb[4] && ra[5] == rb[5]);
    two_digits_injective(d1, d2);
    assert(ra[7] == rb[7] && ra[8] == rb[8]);
    two_digits_injective(h1, h2);
    assert(ra[10] == rb[10] && ra[11] == rb[11]);
    two_digits_injective(mi1, mi2);
    assert(ra[13] == rb[13] && ra[14] == rb[14]);
    two_digits_injective(s1, s2);
}

} // verus!
