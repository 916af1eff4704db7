//! The fixed, non-ISO date formats of the wire protocol, as explicit
//! encode/decode pairs: `"YYYY/MM/DD,HH:MM:SS"` timestamps, `"DD Month YYYY"`
//! dates, and `"Month DD, YYYY"` dates.

use vstd::prelude::*;

use crate::text::{digit_char, digit_value, is_digit, digit_str, digit_of_char};

verus! {

/// A calendar timestamp, held as plain fields. The wire form is the fixed
/// `"YYYY/MM/DD,HH:MM:SS"` layout.
#[derive(Clone, Copy, Debug, PartialEq, Eq, Structural)]
pub struct DateTime {
    pub year: u16,
    pub month: u8,
    pub day: u8,
    pub hour: u8,
    pub minute: u8,
    pub second: u8,
}

/// A calendar date, held as plain fields.
#[derive(Clone, Copy, Debug, PartialEq, Eq, Structural)]
pub struct Date {
    pub year: u16,
    pub month: u8,
    pub day: u8,
}

pub open spec fn is_leap_year(y: int) -> bool {
    y % 4 == 0 && (y % 100 != 0 || y % 400 == 0)
}

pub open spec fn days_in_month(y: int, m: int) -> int {
    if m == 2 {
        if is_leap_year(y) {
            29
        } else {
            28
        }
    } else if m == 4 || m == 6 || m == 9 || m == 11 {
        30
    } else {
        31
    }
}

/// A proleptic-Gregorian calendar date that the four-digit year field can
/// hold.
pub open spec fn valid_date_parts(y: int, m: int, d: int) -> bool {
    &&& 0 <= y <= 9999
    &&& 1 <= m <= 12
    &&& 1 <= d <= days_in_month(y, m)
}

pub open spec fn valid_date(d: Date) -> bool {
    valid_date_parts(d.year as int, d.month as int, d.day as int)
}

pub open spec fn valid_datetime(dt: DateTime) -> bool {
    &&& valid_date_parts(dt.year as int, dt.month as int, dt.day as int)
    &&& 0 <= dt.hour < 24
    &&& 0 <= dt.minute < 60
    &&& 0 <= dt.second < 60
}

/// A number under one hundred, zero-padded to two digits.
pub open spec fn two_digits(n: int) -> Seq<char> {
    seq![digit_char(n / 10), digit_char(n % 10)]
}

/// A number under ten thousand, zero-padded to four digits.
pub open spec fn four_digits(n: int) -> Seq<char> {
    two_digits(n / 100) + two_digits(n % 100)
}

/// The number written in a two-character digit sequence.
pub open spec fn two_val(s: Seq<char>) -> int {
    digit_value(s[0]) * 10 + digit_value(s[1])
}

/// The number written in a four-character digit sequence.
pub open spec fn four_val(s: Seq<char>) -> int {
    two_val(s.subrange(0, 2)) * 100 + two_val(s.subrange(2, 4))
}

/// The wire form of a timestamp: `YYYY/MM/DD,HH:MM:SS`.
pub open spec fn datetime_str(dt: DateTime) -> Seq<char> {
    four_digits(dt.year as int) + seq!['/'] + two_digits(dt.month as int) + seq!['/'] + two_digits(
        dt.day as int,
    ) + seq![','] + two_digits(dt.hour as int) + seq![':'] + two_digits(dt.minute as int)
        + seq![':'] + two_digits(dt.second as int)
}

proof fn lemma_two_digits(n: int)
    requires
        0 <= n < 100,
    ensures
        is_digit(two_digits(n)[0]),
        is_digit(two_digits(n)[1]),
        two_val(two_digits(n)) == n,
{
}

proof fn lemma_four_digits(n: int)
    requires
        0 <= n < 10000,
    ensures
        forall|i: int| 0 <= i < 4 ==> is_digit(#[trigger] four_digits(n)[i]),
        four_val(four_digits(n)) == n,
{
    lemma_two_digits(n / 100);
    lemma_two_digits(n % 100);
    assert(four_digits(n).subrange(0, 2) =~= two_digits(n / 100));
    assert(four_digits(n).subrange(2, 4) =~= two_digits(n % 100));
}

/// Every timestamp encodes to nineteen characters.
pub proof fn lemma_datetime_str_len(dt: DateTime)
    ensures
        datetime_str(dt).len() == 19,
{
}

/// Where the separators and the digit groups of an encoded timestamp sit,
/// and which field each group spells.
proof fn lemma_datetime_str_parts(dt: DateTime)
    requires
        valid_datetime(dt),
    ensures
        datetime_str(dt).len() == 19,
        datetime_str(dt)[4] == '/',
        datetime_str(dt)[7] == '/',
        datetime_str(dt)[10] == ',',
        datetime_str(dt)[13] == ':',
        datetime_str(dt)[16] == ':',
        four_val(datetime_str(dt).subrange(0, 4)) == dt.year,
        two_val(datetime_str(dt).subrange(5, 7)) == dt.month,
        two_val(datetime_str(dt).subrange(8, 10)) == dt.day,
        two_val(datetime_str(dt).subrange(11, 13)) == dt.hour,
        two_val(datetime_str(dt).subrange(14, 16)) == dt.minute,
        two_val(datetime_str(dt).subrange(17, 19)) == dt.second,
        forall|i: int|
            0 <= i < 19 && i != 4 && i != 7 && i != 10 && i != 13 && i != 16 ==> is_digit(
                #[trigger] datetime_str(dt)[i],
            ),
{
    let s = datetime_str(dt);
    lemma_four_digits(dt.year as int);
    lemma_two_digits(dt.month as int);
    lemma_two_digits(dt.day as int);
    lemma_two_digits(dt.hour as int);
    lemma_two_digits(dt.minute as int);
    lemma_two_digits(dt.second as int);
    assert(s.subrange(0, 4) =~= four_digits(dt.year as int));
    assert(s.subrange(5, 7) =~= two_digits(dt.month as int));
    assert(s.subrange(8, 10) =~= two_digits(dt.day as int));
    assert(s.subrange(11, 13) =~= two_digits(dt.hour as int));
    assert(s.subrange(14, 16) =~= two_digits(dt.minute as int));
    assert(s.subrange(17, 19) =~= two_digits(dt.second as int));
}

/// Two timestamps with one wire form are the same timestamp.
pub proof fn lemma_datetime_str_injective(a: DateTime, b: DateTime)
    requires
        valid_datetime(a),
        valid_datetime(b),
        datetime_str(a) == datetime_str(b),
    ensures
        a == b,
{
    lemma_datetime_str_parts(a);
    lemma_datetime_str_parts(b);
    assert(datetime_str(a).subrange(0, 4) == datetime_str(b).subrange(0, 4));
    assert(datetime_str(a).subrange(5, 7) == datetime_str(b).subrange(5, 7));
    assert(datetime_str(a).subrange(8, 10) == datetime_str(b).subrange(8, 10));
    assert(datetime_str(a).subrange(11, 13) == datetime_str(b).subrange(11, 13));
    assert(datetime_str(a).subrange(14, 16) == datetime_str(b).subrange(14, 16));
    assert(datetime_str(a).subrange(17, 19) == datetime_str(b).subrange(17, 19));
}

/// A number under one hundred, written zero-padded to two digits.
pub fn two_digit_string(n: u8) -> (r: String)
    requires
        n < 100,
    ensures
        r@ == two_digits(n as int),
{
    let mut s = digit_str((n / 10) as u32);
    let low = digit_str((n % 10) as u32);
    s.append(low.as_str());
    proof {
        assert(s@ =~= two_digits(n as int));
    }
    s
}

/// A number under ten thousand, written zero-padded to four digits.
pub fn four_digit_string(n: u16) -> (r: String)
    requires
        n < 10000,
    ensures
        r@ == four_digits(n as int),
{
    let mut s = two_digit_string((n / 100) as u8);
    let low = two_digit_string((n % 100) as u8);
    s.append(low.as_str());
    proof {
        assert(s@ =~= four_digits(n as int));
    }
    s
}

/// The number of days of a month, on the proleptic Gregorian calendar.
pub fn days_in_month_exec(y: u16, m: u8) -> (r: u8)
    ensures
        r == days_in_month(y as int, m as int),
{
    if m == 2 {
        if y % 4 == 0 && (y % 100 != 0 || y % 400 == 0) {
            29
        } else {
            28
        }
    } else if m == 4 || m == 6 || m == 9 || m == 11 {
        30
    } else {
        31
    }
}

/// Encodes a timestamp in the `"YYYY/MM/DD,HH:MM:SS"` wire layout.
pub fn encode_datetime(dt: &DateTime) -> (r: String)
    requires
        valid_datetime(*dt),
    ensures
        r@ == datetime_str(*dt),
{
    let mut s = four_digit_string(dt.year);
    s.append("/");
    let part = two_digit_string(dt.month);
    s.append(part.as_str());
    s.append("/");
    let part = two_digit_string(dt.day);
    s.append(part.as_str());
    s.append(",");
    let part = two_digit_string(dt.hour);
    s.append(part.as_str());
    s.append(":");
    let part = two_digit_string(dt.minute);
    s.append(part.as_str());
    s.append(":");
    let part = two_digit_string(dt.second);
    s.append(part.as_str());
    proof {
        reveal_strlit("/");
        reveal_strlit(",");
        reveal_strlit(":");
        assert(s@ =~= datetime_str(*dt));
    }
    s
}

/// Decodes the `"YYYY/MM/DD,HH:MM:SS"` wire layout, checking the calendar:
/// exactly the wire forms of valid timestamps are accepted.
pub fn decode_datetime(s: &str) -> (r: Option<DateTime>)
    ensures
        match r {
            Some(dt) => valid_datetime(dt) && s@ == datetime_str(dt),
            None => forall|dt: DateTime| valid_datetime(dt) ==> s@ != datetime_str(dt),
        },
{
    let n = s.unicode_len();
    if n != 19 {
        proof {
            assert forall|dt: DateTime| valid_datetime(dt) implies s@ != datetime_str(dt) by {
                lemma_datetime_str_len(dt);
            }
        }
        return None;
    }
    let v0 = digit_of_char(s.get_char(0));
    let v1 = digit_of_char(s.get_char(1));
    let v2 = digit_of_char(s.get_char(2));
    let v3 = digit_of_char(s.get_char(3));
    let v5 = digit_of_char(s.get_char(5));
    let v6 = digit_of_char(s.get_char(6));
    let v8 = digit_of_char(s.get_char(8));
    let v9 = digit_of_char(s.get_char(9));
    let v11 = digit_of_char(s.get_char(11));
    let v12 = digit_of_char(s.get_char(12));
    let v14 = digit_of_char(s.get_char(14));
    let v15 = digit_of_char(s.get_char(15));
    let v17 = digit_of_char(s.get_char(17));
    let v18 = digit_of_char(s.get_char(18));
    let digits_ok = v0 < 10 && v1 < 10 && v2 < 10 && v3 < 10 && v5 < 10 && v6 < 10 && v8 < 10 && v9
        < 10 && v11 < 10 && v12 < 10 && v14 < 10 && v15 < 10 && v17 < 10 && v18 < 10;
    let seps_ok = s.get_char(4) == '/' && s.get_char(7) == '/' && s.get_char(10) == ',' && s.get_char(
        13,
    ) == ':' && s.get_char(16) == ':';
    let year = (v0 * 1000 + v1 * 100 + v2 * 10 + v3) as u16;
    let month = (v5 * 10 + v6) as u8;
    let day = (v8 * 10 + v9) as u8;
    let hour = (v11 * 10 + v12) as u8;
    let minute = (v14 * 10 + v15) as u8;
    let second = (v17 * 10 + v18) as u8;
    let ranges_ok = digits_ok && 1 <= month && month <= 12 && 1 <= day && day <= days_in_month_exec(
        year,
        month,
    ) && hour < 24 && minute < 60 && second < 60;
    if !(digits_ok && seps_ok && ranges_ok) {
        proof {
            assert forall|dt: DateTime| valid_datetime(dt) implies s@ != datetime_str(dt) by {
                lemma_datetime_str_parts(dt);
                if s@ == datetime_str(dt) {
                    assert(two_val(s@.subrange(5, 7)) == dt.month);
                    assert(s@.subrange(5, 7)[0] == s@[5]);
                    assert(s@.subrange(5, 7)[1] == s@[6]);
                    assert(s@.subrange(8, 10)[0] == s@[8]);
                    assert(s@.subrange(8, 10)[1] == s@[9]);
                    assert(s@.subrange(11, 13)[0] == s@[11]);
                    assert(s@.subrange(11, 13)[1] == s@[12]);
                    assert(s@.subrange(14, 16)[0] == s@[14]);
                    assert(s@.subrange(14, 16)[1] == s@[15]);
                    assert(s@.subrange(17, 19)[0] == s@[17]);
                    assert(s@.subrange(17, 19)[1] == s@[18]);
                    assert(four_val(s@.subrange(0, 4)) == dt.year);
                    assert(s@.subrange(0, 4).subrange(0, 2) =~= s@.subrange(0, 2));
                    assert(s@.subrange(0, 4).subrange(2, 4) =~= s@.subrange(2, 4));
                    assert(s@.subrange(0, 2)[0] == s@[0]);
                    assert(s@.subrange(0, 2)[1] == s@[1]);
                    assert(s@.subrange(2, 4)[0] == s@[2]);
                    assert(s@.subrange(2, 4)[1] == s@[3]);
                }
            }
        }
        return None;
    }
    let dt = DateTime { year, month, day, hour, minute, second };
    proof {
        assert(digit_value(s@[0]) == v0 && digit_value(s@[1]) == v1 && digit_value(s@[2]) == v2
            && digit_value(s@[3]) == v3);
        crate::text::lemma_digit_round_trip(s@[0]);
        crate::text::lemma_digit_round_trip(s@[1]);
        crate::text::lemma_digit_round_trip(s@[2]);
        crate::text::lemma_digit_round_trip(s@[3]);
        crate::text::lemma_digit_round_trip(s@[5]);
        crate::text::lemma_digit_round_trip(s@[6]);
        crate::text::lemma_digit_round_trip(s@[8]);
        crate::text::lemma_digit_round_trip(s@[9]);
        crate::text::lemma_digit_round_trip(s@[11]);
        crate::text::lemma_digit_round_trip(s@[12]);
        crate::text::lemma_digit_round_trip(s@[14]);
        crate::text::lemma_digit_round_trip(s@[15]);
        crate::text::lemma_digit_round_trip(s@[17]);
        crate::text::lemma_digit_round_trip(s@[18]);
        lemma_two_digits_decompose(v5 as int, v6 as int);
        lemma_two_digits_decompose(v8 as int, v9 as int);
        lemma_two_digits_decompose(v11 as int, v12 as int);
        lemma_two_digits_decompose(v14 as int, v15 as int);
        lemma_two_digits_decompose(v17 as int, v18 as int);
        lemma_four_digits_decompose(v0 as int, v1 as int, v2 as int, v3 as int);
        assert(s@ =~= datetime_str(dt));
    }
    Some(dt)
}

/// The full English month name used by the date formats.
pub open spec fn month_name(m: int) -> Seq<char> {
    if m == 1 {
        "January"@
    } else if m == 2 {
        "February"@
    } else if m == 3 {
        "March"@
    } else if m == 4 {
        "April"@
    } else if m == 5 {
        "May"@
    } else if m == 6 {
        "June"@
    } else if m == 7 {
        "July"@
    } else if m == 8 {
        "August"@
    } else if m == 9 {
        "September"@
    } else if m == 10 {
        "October"@
    } else if m == 11 {
        "November"@
    } else {
        "December"@
    }
}

proof fn reveal_month_names()
    ensures
        forall|m: int| 1 <= m <= 12 ==> 3 <= (#[trigger] month_name(m)).len() <= 9,
        forall|m: int, i: int|
            1 <= m <= 12 && 0 <= i < month_name(m).len() ==> #[trigger] month_name(m)[i] != ' ',
{
    reveal_strlit("January");
    reveal_strlit("February");
    reveal_strlit("March");
    reveal_strlit("April");
    reveal_strlit("May");
    reveal_strlit("June");
    reveal_strlit("July");
    reveal_strlit("August");
    reveal_strlit("September");
    reveal_strlit("October");
    reveal_strlit("November");
    reveal_strlit("December");
    assert forall|m: int, i: int|
        1 <= m <= 12 && 0 <= i < month_name(m).len() implies #[trigger] month_name(m)[i] != ' ' by {
        if m == 1 {
            assert(month_name(m) == "January"@);
        }
    }
}

/// Two months with one name are the same month.
pub proof fn lemma_month_name_injective(m1: int, m2: int)
    requires
        1 <= m1 <= 12,
        1 <= m2 <= 12,
        month_name(m1) == month_name(m2),
    ensures
        m1 == m2,
{
    reveal_strlit("January");
    reveal_strlit("February");
    reveal_strlit("March");
    reveal_strlit("April");
    reveal_strlit("May");
    reveal_strlit("June");
    reveal_strlit("July");
    reveal_strlit("August");
    reveal_strlit("September");
    reveal_strlit("October");
    reveal_strlit("November");
    reveal_strlit("December");
    assert(month_name(m1).len() == month_name(m2).len());
    assert(month_name(m1)[0] == month_name(m2)[0]);
    assert(month_name(m1)[2] == month_name(m2)[2]);
    if m1 == 1 {
        assert(month_name(m1) == "January"@);
        assert(month_name(m2).len() == 7);
        assert(month_name(m2)[0] == 'J');
        assert(m2 == 1);
    } else if m1 == 2 {
        assert(month_name(m1) == "February"@);
        assert(month_name(m2).len() == 8);
        assert(month_name(m2)[0] == 'F');
        assert(m2 == 2);
    } else if m1 == 3 {
        assert(month_name(m1) == "March"@);
        assert(month_name(m2).len() == 5);
        assert(month_name(m2)[0] == 'M');
        assert(m2 == 3);
    } else if m1 == 4 {
        assert(month_name(m1) == "April"@);
        assert(month_name(m2).len() == 5);
        assert(month_name(m2)[0] == 'A');
        assert(m2 == 4);
    } else if m1 == 5 {
        assert(month_name(m1) == "May"@);
        assert(month_name(m2).len() == 3);
        assert(m2 == 5);
    } else if m1 == 6 {
        assert(month_name(m1) == "June"@);
        assert(month_name(m2).len() == 4);
        assert(month_name(m2)[2] == 'n');
        assert(m2 == 6);
    } else if m1 == 7 {
        assert(month_name(m1) == "July"@);
        assert(month_name(m2).len() == 4);
        assert(month_name(m2)[2] == 'l');
        assert(m2 == 7);
    } else if m1 == 8 {
        assert(month_name(m1) == "August"@);
        assert(month_name(m2).len() == 6);
        assert(m2 == 8);
    } else if m1 == 9 {
        assert(month_name(m1) == "September"@);
        assert(month_name(m2).len() == 9);
        assert(m2 == 9);
    } else if m1 == 10 {
        assert(month_name(m1) == "October"@);
        assert(month_name(m2).len() == 7);
        assert(month_name(m2)[0] == 'O');
        assert(m2 == 10);
    } else if m1 == 11 {
        assert(month_name(m1) == "November"@);
        assert(month_name(m2).len() == 8);
        assert(month_name(m2)[0] == 'N');
        assert(m2 == 11);
    } else {
        assert(month_name(m1) == "December"@);
        assert(month_name(m2).len() == 8);
        assert(month_name(m2)[0] == 'D');
        assert(m2 == 12);
    }
}

/// The name of a month.
pub fn month_name_string(m: u8) -> (r: String)
    requires
        1 <= m <= 12,
    ensures
        r@ == month_name(m as int),
{
    match m {
        1 => String::from_str("January"),
        2 => String::from_str("February"),
        3 => String::from_str("March"),
        4 => String::from_str("April"),
        5 => String::from_str("May"),
        6 => String::from_str("June"),
        7 => String::from_str("July"),
        8 => String::from_str("August"),
        9 => String::from_str("September"),
        10 => String::from_str("October"),
        11 => String::from_str("November"),
        _ => String::from_str("December"),
    }
}

/// The month a name names, case-sensitively.
pub fn month_from_name(name: &str) -> (r: Option<u8>)
    ensures
        match r {
            Some(m) => 1 <= m <= 12 && month_name(m as int) == name@,
            None => forall|m: int| 1 <= m <= 12 ==> month_name(m) != name@,
        },
{
    if crate::text::str_eq(name, "January") {
        Some(1)
    } else if crate::text::str_eq(name, "February") {
        Some(2)
    } else if crate::text::str_eq(name, "March") {
        Some(3)
    } else if crate::text::str_eq(name, "April") {
        Some(4)
    } else if crate::text::str_eq(name, "May") {
        Some(5)
    } else if crate::text::str_eq(name, "June") {
        Some(6)
    } else if crate::text::str_eq(name, "July") {
        Some(7)
    } else if crate::text::str_eq(name, "August") {
        Some(8)
    } else if crate::text::str_eq(name, "September") {
        Some(9)
    } else if crate::text::str_eq(name, "October") {
        Some(10)
    } else if crate::text::str_eq(name, "November") {
        Some(11)
    } else if crate::text::str_eq(name, "December") {
        Some(12)
    } else {
        None
    }
}

/// The `"DD Month YYYY"` wire form of a date.
pub open spec fn date_dmy_str(d: Date) -> Seq<char> {
    two_digits(d.day as int) + seq![' '] + month_name(d.month as int) + seq![' '] + four_digits(
        d.year as int,
    )
}

/// The `"Month DD, YYYY"` wire form of a date.
pub open spec fn date_mdy_str(d: Date) -> Seq<char> {
    month_name(d.month as int) + seq![' '] + two_digits(d.day as int) + seq![','] + seq![' ']
        + four_digits(d.year as int)
}

/// Where the pieces of a `"DD Month YYYY"` encoding sit.
proof fn lemma_date_dmy_parts(d: Date)
    requires
        valid_date(d),
    ensures
        ({
            let s = date_dmy_str(d);
            let name_len = month_name(d.month as int).len() as int;
            &&& 3 <= name_len <= 9
            &&& s.len() == name_len + 8
            &&& is_digit(s[0]) && is_digit(s[1])
            &&& two_val(s.subrange(0, 2)) == d.day
            &&& s[2] == ' '
            &&& forall|j: int| 3 <= j < 3 + name_len ==> s[j] != ' '
            &&& s.subrange(3, 3 + name_len) == month_name(d.month as int)
            &&& s[3 + name_len] == ' '
            &&& four_val(s.subrange(name_len + 4, name_len + 8)) == d.year
            &&& forall|j: int| name_len + 4 <= j < name_len + 8 ==> is_digit(#[trigger] s[j])
        }),
{
    let s = date_dmy_str(d);
    let name = month_name(d.month as int);
    let name_len = name.len() as int;
    reveal_month_names();
    lemma_two_digits(d.day as int);
    lemma_four_digits(d.year as int);
    assert(s.subrange(0, 2) =~= two_digits(d.day as int));
    assert(s.subrange(3, 3 + name_len) =~= name);
    assert(s.subrange(name_len + 4, name_len + 8) =~= four_digits(d.year as int));
    assert forall|j: int| 3 <= j < 3 + name_len implies s[j] != ' ' by {
        assert(s[j] == name[j - 3]);
    }
    assert forall|j: int| name_len + 4 <= j < name_len + 8 implies is_digit(#[trigger] s[j]) by {
        assert(s[j] == four_digits(d.year as int)[j - (name_len + 4)]);
    }
}

/// Where the pieces of a `"Month DD, YYYY"` encoding sit.
proof fn lemma_date_mdy_parts(d: Date)
    requires
        valid_date(d),
    ensures
        ({
            let s = date_mdy_str(d);
            let name_len = month_name(d.month as int).len() as int;
            &&& 3 <= name_len <= 9
            &&& s.len() == name_len + 9
            &&& forall|j: int| 0 <= j < name_len ==> s[j] != ' '
            &&& s.subrange(0, name_len) == month_name(d.month as int)
            &&& s[name_len] == ' '
            &&& is_digit(s[name_len + 1]) && is_digit(s[name_len + 2])
            &&& two_val(s.subrange(name_len + 1, name_len + 3)) == d.day
            &&& s[name_len + 3] == ','
            &&& s[name_len + 4] == ' '
            &&& four_val(s.subrange(name_len + 5, name_len + 9)) == d.year
            &&& forall|j: int| name_len + 5 <= j < name_len + 9 ==> is_digit(#[trigger] s[j])
        }),
{
    let s = date_mdy_str(d);
    let name = month_name(d.month as int);
    let name_len = name.len() as int;
    reveal_month_names();
    lemma_two_digits(d.day as int);
    lemma_four_digits(d.year as int);
    assert(s.subrange(0, name_len) =~= name);
    assert(s.subrange(name_len + 1, name_len + 3) =~= two_digits(d.day as int));
    assert(s.subrange(name_len + 5, name_len + 9) =~= four_digits(d.year as int));
    assert forall|j: int| 0 <= j < name_len implies s[j] != ' ' by {
        assert(s[j] == name[j]);
    }
    assert forall|j: int| name_len + 5 <= j < name_len + 9 implies is_digit(#[trigger] s[j]) by {
        assert(s[j] == four_digits(d.year as int)[j - (name_len + 5)]);
    }
}

/// Encodes a date in the `"DD Month YYYY"` wire layout.
pub fn encode_date_dmy(d: &Date) -> (r: String)
    requires
        valid_date(*d),
    ensures
        r@ == date_dmy_str(*d),
{
    let mut s = two_digit_string(d.day);
    s.append(" ");
    let name = month_name_string(d.month);
    s.append(name.as_str());
    s.append(" ");
    let year = four_digit_string(d.year);
    s.append(year.as_str());
    proof {
        reveal_strlit(" ");
        assert(s@ =~= date_dmy_str(*d));
    }
    s
}

/// Encodes a date in the `"Month DD, YYYY"` wire layout.
pub fn encode_date_mdy(d: &Date) -> (r: String)
    requires
        valid_date(*d),
    ensures
        r@ == date_mdy_str(*d),
{
    let mut s = month_name_string(d.month);
    s.append(" ");
    let day = two_digit_string(d.day);
    s.append(day.as_str());
    s.append(", ");
    let year = four_digit_string(d.year);
    s.append(year.as_str());
    proof {
        reveal_strlit(" ");
        reveal_strlit(", ");
        assert(s@ =~= date_mdy_str(*d));
    }
    s
}

/// Where the pieces of an encoded `"DD Month YYYY"` string sit, phrased
/// around the position of its first space at or after the month's start.
proof fn lemma_dmy_at(s: Seq<char>, d: Date, i: int)
    requires
        valid_date(d),
        s == date_dmy_str(d),
        3 <= i <= s.len(),
        forall|j: int| 3 <= j < i ==> s[j] != ' ',
        i < s.len() ==> s[i] == ' ',
    ensures
        i == 3 + month_name(d.month as int).len(),
        6 <= i <= 12,
        s.len() == i + 5,
        s.subrange(3, i) == month_name(d.month as int),
        is_digit(s[0]) && is_digit(s[1]),
        digit_value(s[0]) * 10 + digit_value(s[1]) == d.day,
        s[2] == ' ',
        is_digit(s[i + 1]) && is_digit(s[i + 2]) && is_digit(s[i + 3]) && is_digit(s[i + 4]),
        digit_value(s[i + 1]) * 1000 + digit_value(s[i + 2]) * 100 + digit_value(s[i + 3]) * 10
            + digit_value(s[i + 4]) == d.year,
{
    lemma_date_dmy_parts(d);
    let name_len = month_name(d.month as int).len() as int;
    assert(s[3 + name_len] == ' ');
    assert(i <= 3 + name_len);
    assert(i == 3 + name_len);
    assert(s.subrange(3, i) =~= month_name(d.month as int));
    assert(s.subrange(0, 2)[0] == s[0]);
    assert(s.subrange(0, 2)[1] == s[1]);
    let ys = s.subrange(name_len + 4, name_len + 8);
    assert(ys.subrange(0, 2) =~= s.subrange(name_len + 4, name_len + 6));
    assert(ys.subrange(2, 4) =~= s.subrange(name_len + 6, name_len + 8));
    assert(ys.subrange(0, 2)[0] == s[name_len + 4]);
    assert(ys.subrange(0, 2)[1] == s[name_len + 5]);
    assert(ys.subrange(2, 4)[0] == s[name_len + 6]);
    assert(ys.subrange(2, 4)[1] == s[name_len + 7]);
}

/// Decodes the `"DD Month YYYY"` wire layout, checking the calendar:
/// exactly the wire forms of valid dates are accepted.
#[verifier::rlimit(100)]
#[verifier::spinoff_prover]
pub fn decode_date_dmy(s: &str) -> (r: Option<Date>)
    ensures
        match r {
            Some(d) => valid_date(d) && s@ == date_dmy_str(d),
            None => forall|d: Date| valid_date(d) ==> s@ != date_dmy_str(d),
        },
{
    let n = s.unicode_len();
    if n < 11 || n > 17 {
        proof {
            assert forall|d: Date| valid_date(d) implies s@ != date_dmy_str(d) by {
                lemma_date_dmy_parts(d);
            }
        }
        return None;
    }
    let v0 = digit_of_char(s.get_char(0));
    let v1 = digit_of_char(s.get_char(1));
    if !(v0 < 10 && v1 < 10 && s.get_char(2) == ' ') {
        proof {
            assert forall|d: Date| valid_date(d) implies s@ != date_dmy_str(d) by {
                lemma_date_dmy_parts(d);
                if s@ == date_dmy_str(d) {
                    assert(s@.subrange(0, 2)[0] == s@[0]);
                    assert(s@.subrange(0, 2)[1] == s@[1]);
                }
            }
        }
        return None;
    }
    let mut i: usize = 3;
    loop
        invariant
            3 <= i <= n,
            n == s@.len(),
            forall|j: int| 3 <= j < i ==> s@[j] != ' ',
        ensures
            3 <= i <= n,
            forall|j: int| 3 <= j < i ==> s@[j] != ' ',
            i < n ==> s@[i as int] == ' ',
        decreases n - i,
    {
        if i == n {
            break;
        }
        if s.get_char(i) == ' ' {
            break;
        }
        i += 1;
    }
    if i == n || n - i != 5 || i == 3 {
        proof {
            assert forall|d: Date| valid_date(d) implies s@ != date_dmy_str(d) by {
                if s@ == date_dmy_str(d) {
                    lemma_dmy_at(s@, d, i as int);
                }
            }
        }
        return None;
    }
    let name = s.substring_char(3, i);
    let month = match month_from_name(name) {
        Some(m) => m,
        None => {
            proof {
                assert forall|d: Date| valid_date(d) implies s@ != date_dmy_str(d) by {
                    if s@ == date_dmy_str(d) {
                        lemma_dmy_at(s@, d, i as int);
                        assert(name@ =~= month_name(d.month as int));
                    }
                }
            }
            return None;
        },
    };
    let w0 = digit_of_char(s.get_char(i + 1));
    let w1 = digit_of_char(s.get_char(i + 2));
    let w2 = digit_of_char(s.get_char(i + 3));
    let w3 = digit_of_char(s.get_char(i + 4));
    let day = (v0 * 10 + v1) as u8;
    let year = (w0 * 1000 + w1 * 100 + w2 * 10 + w3) as u16;
    let digits_ok = w0 < 10 && w1 < 10 && w2 < 10 && w3 < 10;
    let ranges_ok = 1 <= day && day <= days_in_month_exec(year, month);
    if !(digits_ok && ranges_ok) {
        proof {
            assert forall|d: Date| valid_date(d) implies s@ != date_dmy_str(d) by {
                if s@ == date_dmy_str(d) {
                    lemma_dmy_at(s@, d, i as int);
                    assert(name@ =~= month_name(d.month as int));
                    lemma_month_name_injective(month as int, d.month as int);
                }
            }
        }
        return None;
    }
    let d = Date { year, month, day };
    proof {
        crate::text::lemma_digit_round_trip(s@[0]);
        crate::text::lemma_digit_round_trip(s@[1]);
        crate::text::lemma_digit_round_trip(s@[i + 1]);
        crate::text::lemma_digit_round_trip(s@[i + 2]);
        crate::text::lemma_digit_round_trip(s@[i + 3]);
        crate::text::lemma_digit_round_trip(s@[i + 4]);
        lemma_two_digits_decompose(v0 as int, v1 as int);
        lemma_four_digits_decompose(w0 as int, w1 as int, w2 as int, w3 as int);
        assert(s@ =~= date_dmy_str(d));
    }
    Some(d)
}

/// Where the pieces of an encoded `"Month DD, YYYY"` string sit, phrased
/// around the position of its first space.
proof fn lemma_mdy_at(s: Seq<char>, d: Date, i: int)
    requires
        valid_date(d),
        s == date_mdy_str(d),
        0 <= i <= s.len(),
        forall|j: int| 0 <= j < i ==> s[j] != ' ',
        i < s.len() ==> s[i] == ' ',
    ensures
        i == month_name(d.month as int).len(),
        3 <= i <= 9,
        s.len() == i + 9,
        s.subrange(0, i) == month_name(d.month as int),
        is_digit(s[i + 1]) && is_digit(s[i + 2]),
        digit_value(s[i + 1]) * 10 + digit_value(s[i + 2]) == d.day,
        s[i + 3] == ',',
        s[i + 4] == ' ',
        is_digit(s[i + 5]) && is_digit(s[i + 6]) && is_digit(s[i + 7]) && is_digit(s[i + 8]),
        digit_value(s[i + 5]) * 1000 + digit_value(s[i + 6]) * 100 + digit_value(s[i + 7]) * 10
            + digit_value(s[i + 8]) == d.year,
{
    lemma_date_mdy_parts(d);
    let name_len = month_name(d.month as int).len() as int;
    assert(s[name_len] == ' ');
    assert(i <= name_len);
    assert(i == name_len);
    assert(s.subrange(0, i) =~= month_name(d.month as int));
    assert(s.subrange(name_len + 1, name_len + 3)[0] == s[name_len + 1]);
    assert(s.subrange(name_len + 1, name_len + 3)[1] == s[name_len + 2]);
    let ys = s.subrange(name_len + 5, name_len + 9);
    assert(ys.subrange(0, 2) =~= s.subrange(name_len + 5, name_len + 7));
    assert(ys.subrange(2, 4) =~= s.subrange(name_len + 7, name_len + 9));
    assert(ys.subrange(0, 2)[0] == s[name_len + 5]);
    assert(ys.subrange(0, 2)[1] == s[name_len + 6]);
    assert(ys.subrange(2, 4)[0] == s[name_len + 7]);
    assert(ys.subrange(2, 4)[1] == s[name_len + 8]);
}

/// Decodes the `"Month DD, YYYY"` wire layout, checking the calendar:
/// exactly the wire forms of valid dates are accepted.
#[verifier::rlimit(100)]
#[verifier::spinoff_prover]
pub fn decode_date_mdy(s: &str) -> (r: Option<Date>)
    ensures
        match r {
            Some(d) => valid_date(d) && s@ == date_mdy_str(d),
            None => forall|d: Date| valid_date(d) ==> s@ != date_mdy_str(d),
        },
{
    let n = s.unicode_len();
    if n < 12 || n > 18 {
        proof {
            assert forall|d: Date| valid_date(d) implies s@ != date_mdy_str(d) by {
                lemma_date_mdy_parts(d);
            }
        }
        return None;
    }
    let mut i: usize = 0;
    loop
        invariant
            i <= n,
            n == s@.len(),
            forall|j: int| 0 <= j < i ==> s@[j] != ' ',
        ensures
            i <= n,
            forall|j: int| 0 <= j < i ==> s@[j] != ' ',
            i < n ==> s@[i as int] == ' ',
        decreases n - i,
    {
        if i == n {
            break;
        }
        if s.get_char(i) == ' ' {
            break;
        }
        i += 1;
    }
    if i == n || n - i != 9 || i == 0 {
        proof {
            assert forall|d: Date| valid_date(d) implies s@ != date_mdy_str(d) by {
                if s@ == date_mdy_str(d) {
                    lemma_mdy_at(s@, d, i as int);
                }
            }
        }
        return None;
    }
    let name = s.substring_char(0, i);
    let month = match month_from_name(name) {
        Some(m) => m,
        None => {
            proof {
                assert forall|d: Date| valid_date(d) implies s@ != date_mdy_str(d) by {
                    if s@ == date_mdy_str(d) {
                        lemma_mdy_at(s@, d, i as int);
                        assert(name@ =~= month_name(d.month as int));
                    }
                }
            }
            return None;
        },
    };
    let v0 = digit_of_char(s.get_char(i + 1));
    let v1 = digit_of_char(s.get_char(i + 2));
    let seps_ok = s.get_char(i + 3) == ',' && s.get_char(i + 4) == ' ';
    let w0 = digit_of_char(s.get_char(i + 5));
    let w1 = digit_of_char(s.get_char(i + 6));
    let w2 = digit_of_char(s.get_char(i + 7));
    let w3 = digit_of_char(s.get_char(i + 8));
    let day = (v0 * 10 + v1) as u8;
    let year = (w0 * 1000 + w1 * 100 + w2 * 10 + w3) as u16;
    let digits_ok = v0 < 10 && v1 < 10 && w0 < 10 && w1 < 10 && w2 < 10 && w3 < 10;
    let ranges_ok = 1 <= day && day <= days_in_month_exec(year, month);
    if !(digits_ok && seps_ok && ranges_ok) {
        proof {
            assert forall|d: Date| valid_date(d) implies s@ != date_mdy_str(d) by {
                if s@ == date_mdy_str(d) {
                    lemma_mdy_at(s@, d, i as int);
                    assert(name@ =~= month_name(d.month as int));
                    lemma_month_name_injective(month as int, d.month as int);
                }
            }
        }
        return None;
    }
    let d = Date { year, month, day };
    proof {
        crate::text::lemma_digit_round_trip(s@[i + 1]);
        crate::text::lemma_digit_round_trip(s@[i + 2]);
        crate::text::lemma_digit_round_trip(s@[i + 5]);
        crate::text::lemma_digit_round_trip(s@[i + 6]);
        crate::text::lemma_digit_round_trip(s@[i + 7]);
        crate::text::lemma_digit_round_trip(s@[i + 8]);
        lemma_two_digits_decompose(v0 as int, v1 as int);
        lemma_four_digits_decompose(w0 as int, w1 as int, w2 as int, w3 as int);
        assert(name@ =~= month_name(month as int));
        assert(s@ =~= date_mdy_str(d));
    }
    Some(d)
}

/// Writing two digit values and reading them back gives the same number.
proof fn lemma_two_digits_decompose(a: int, b: int)
    requires
        0 <= a < 10,
        0 <= b < 10,
    ensures
        two_digits(a * 10 + b) =~= seq![digit_char(a), digit_char(b)],
{
    assert((a * 10 + b) / 10 == a);
    assert((a * 10 + b) % 10 == b);
}

/// Writing four digit values and reading them back gives the same number.
proof fn lemma_four_digits_decompose(a: int, b: int, c: int, d: int)
    requires
        0 <= a < 10,
        0 <= b < 10,
        0 <= c < 10,
        0 <= d < 10,
    ensures
        four_digits(a * 1000 + b * 100 + c * 10 + d) =~= seq![
            digit_char(a),
            digit_char(b),
            digit_char(c),
            digit_char(d),
        ],
{
    let n = a * 1000 + b * 100 + c * 10 + d;
    assert(n / 100 == a * 10 + b);
    assert(n % 100 == c * 10 + d);
    lemma_two_digits_decompose(a, b);
    lemma_two_digits_decompose(c, d);
}

/// A value that the wire wraps in an object under a single `key` field.
#[derive(Clone, Debug, PartialEq, Eq)]
pub struct KeyedValue<T> {
    pub key: T,
}

} // verus!

