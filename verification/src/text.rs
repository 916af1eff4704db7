//! Character-level helpers shared by the identifier parsers: splitting a
//! string at a separator, string equality, and decimal numbers.

use vstd::prelude::*;

verus! {

/// The pieces of `s` between occurrences of the separator `c`, empties kept:
/// splitting `"a:b"` at `':'` gives `["a", "b"]`, splitting `""` gives `[""]`.
pub open spec fn split_char(s: Seq<char>, c: char) -> Seq<Seq<char>>
    decreases s.len(),
{
    if s.len() == 0 {
        seq![Seq::<char>::empty()]
    } else if s[0] == c {
        seq![Seq::<char>::empty()] + split_char(s.drop_first(), c)
    } else {
        let rest = split_char(s.drop_first(), c);
        seq![seq![s[0]] + rest[0]] + rest.drop_first()
    }
}

pub proof fn lemma_split_char_len(s: Seq<char>, c: char)
    ensures
        split_char(s, c).len() >= 1,
    decreases s.len(),
{
    if s.len() != 0 {
        lemma_split_char_len(s.drop_first(), c);
    }
}

/// If the first `i` characters of `s` are not the separator, and position `i`
/// (when inside `s`) holds the separator, the split starts with `s[..i]` and
/// goes on with the split of `s[i+1..]`.
pub proof fn lemma_split_char_first(s: Seq<char>, c: char, i: int)
    requires
        0 <= i <= s.len(),
        forall|j: int| 0 <= j < i ==> s[j] != c,
        i < s.len() ==> s[i] == c,
    ensures
        i == s.len() ==> split_char(s, c) =~~= seq![s],
        i < s.len() ==> split_char(s, c) =~~= seq![s.subrange(0, i)] + split_char(
            s.subrange(i + 1, s.len() as int),
            c,
        ),
    decreases s.len(),
{
    lemma_split_char_len(s, c);
    if s.len() == 0 {
        assert(split_char(s, c) =~~= seq![s]);
    } else if i == 0 {
        if i < s.len() {
            assert(s.drop_first() =~= s.subrange(1, s.len() as int));
            assert(s.subrange(0, 0) =~= Seq::<char>::empty());
        }
    } else {
        let t = s.drop_first();
        lemma_split_char_first(t, c, i - 1);
        lemma_split_char_len(t, c);
        if i == s.len() {
            assert(split_char(t, c) =~~= seq![t]);
            assert(seq![s[0]] + t =~= s);
        } else {
            assert(t.subrange(0, i - 1) =~= s.subrange(1, i));
            assert(seq![s[0]] + s.subrange(1, i) =~= s.subrange(0, i));
            assert(t.subrange(i, t.len() as int) =~= s.subrange(i + 1, s.len() as int));
        }
    }
}

/// Whether two string slices hold the same characters.
pub fn str_eq(a: &str, b: &str) -> (r: bool)
    ensures
        r == (a@ == b@),
{
    let n = a.unicode_len();
    if n != b.unicode_len() {
        return false;
    }
    let mut i: usize = 0;
    while i < n
        invariant
            n == a@.len(),
            n == b@.len(),
            i <= n,
            forall|j: int| 0 <= j < i ==> a@[j] == b@[j],
        decreases n - i,
    {
        if a.get_char(i) != b.get_char(i) {
            return false;
        }
        i += 1;
    }
    proof {
        assert(a@ =~= b@);
    }
    true
}

/// The pieces of `s` between occurrences of `c`, empties kept, as owned
/// strings: the executable face of [`split_char`].
pub fn split_string(s: &str, c: char) -> (r: Vec<String>)
    ensures
        r@.map_values(|p: String| p@) == split_char(s@, c),
{
    let n = s.unicode_len();
    let mut out: Vec<String> = Vec::new();
    let mut start: usize = 0;
    proof {
        assert(s@.subrange(0, n as int) =~= s@);
        assert(out@.map_values(|p: String| p@) =~= Seq::<Seq<char>>::empty());
    }
    loop
        invariant
            n == s@.len(),
            start <= n,
            split_char(s@, c) =~~= out@.map_values(|p: String| p@) + split_char(
                s@.subrange(start as int, n as int),
                c,
            ),
        decreases n - start,
    {
        let ghost rem = s@.subrange(start as int, n as int);
        let mut i: usize = start;
        loop
            invariant
                n == s@.len(),
                start <= i <= n,
                forall|j: int| start <= j < i ==> s@[j] != c,
            ensures
                start <= i <= n,
                forall|j: int| start <= j < i ==> s@[j] != c,
                i < n ==> s@[i as int] == c,
            decreases n - i,
        {
            if i == n {
                break;
            }
            if s.get_char(i) == c {
                break;
            }
            i += 1;
        }
        let piece = s.substring_char(start, i);
        proof {
            lemma_split_char_first(rem, c, i - start);
            assert(rem.subrange(0, i - start) =~= s@.subrange(start as int, i as int));
            assert(piece@ == s@.subrange(start as int, i as int));
        }
        let mut piece_string = String::new();
        piece_string.append(piece);
        out.push(piece_string);
        if i < n {
            proof {
                assert(rem[i - start] == c);
                assert(rem.subrange(i - start + 1, rem.len() as int) =~= s@.subrange(
                    i as int + 1,
                    n as int,
                ));
            }
            start = i + 1;
        } else {
            proof {
                assert(s@.subrange(start as int, n as int) =~= rem);
                assert(out@.map_values(|p: String| p@) + Seq::<Seq<char>>::empty()
                    =~= out@.map_values(|p: String| p@));
            }
            return out;
        }
    }
}

/// A string that splits into one piece is that piece: it holds no
/// separator.
pub proof fn lemma_split_one(s: Seq<char>, c: char)
    requires
        split_char(s, c).len() == 1,
    ensures
        s =~= split_char(s, c)[0],
    decreases s.len(),
{
    if s.len() == 0 {
    } else if s[0] == c {
        lemma_split_char_len(s.drop_first(), c);
    } else {
        let rest = split_char(s.drop_first(), c);
        lemma_split_char_len(s.drop_first(), c);
        lemma_split_one(s.drop_first(), c);
        assert(s =~= seq![s[0]] + s.drop_first());
    }
}

/// A string that splits into two pieces is the two pieces joined with the
/// separator: re-serializing a two-part split gives back the input.
pub proof fn lemma_split_two(s: Seq<char>, c: char)
    requires
        split_char(s, c).len() == 2,
    ensures
        s =~= split_char(s, c)[0] + seq![c] + split_char(s, c)[1],
    decreases s.len(),
{
    if s.len() == 0 {
    } else if s[0] == c {
        lemma_split_one(s.drop_first(), c);
        assert(s =~= seq![c] + s.drop_first());
    } else {
        let rest = split_char(s.drop_first(), c);
        lemma_split_char_len(s.drop_first(), c);
        lemma_split_two(s.drop_first(), c);
        assert(s =~= seq![s[0]] + s.drop_first());
    }
}

/// The digit character for a value below ten.
pub open spec fn digit_char(d: int) -> char {
    if d == 0 {
        '0'
    } else if d == 1 {
        '1'
    } else if d == 2 {
        '2'
    } else if d == 3 {
        '3'
    } else if d == 4 {
        '4'
    } else if d == 5 {
        '5'
    } else if d == 6 {
        '6'
    } else if d == 7 {
        '7'
    } else if d == 8 {
        '8'
    } else {
        '9'
    }
}

/// The value of a digit character, or ten for any other character.
pub open spec fn digit_value(c: char) -> int {
    if c == '0' {
        0
    } else if c == '1' {
        1
    } else if c == '2' {
        2
    } else if c == '3' {
        3
    } else if c == '4' {
        4
    } else if c == '5' {
        5
    } else if c == '6' {
        6
    } else if c == '7' {
        7
    } else if c == '8' {
        8
    } else if c == '9' {
        9
    } else {
        10
    }
}

pub open spec fn is_digit(c: char) -> bool {
    digit_value(c) < 10
}

pub proof fn lemma_digit_round_trip(c: char)
    requires
        is_digit(c),
    ensures
        digit_char(digit_value(c)) == c,
{
}

/// The value of a sequence of digit characters read as a decimal number.
pub open spec fn dec_value(s: Seq<char>) -> int
    decreases s.len(),
{
    if s.len() == 0 {
        0
    } else {
        dec_value(s.drop_last()) * 10 + digit_value(s.last())
    }
}

pub open spec fn all_digits(s: Seq<char>) -> bool {
    forall|i: int| 0 <= i < s.len() ==> is_digit(#[trigger] s[i])
}

/// Reads the value of one digit character, ten for any other character.
pub fn digit_of_char(c: char) -> (d: u32)
    ensures
        d == digit_value(c),
{
    match c {
        '0' => 0,
        '1' => 1,
        '2' => 2,
        '3' => 3,
        '4' => 4,
        '5' => 5,
        '6' => 6,
        '7' => 7,
        '8' => 8,
        '9' => 9,
        _ => 10,
    }
}

/// Parses a non-empty, all-digit decimal string into a `u32`; anything else,
/// and any value above `u32::MAX`, is refused.
pub fn parse_u32(s: &str) -> (r: Option<u32>)
    ensures
        match r {
            Some(n) => s@.len() > 0 && all_digits(s@) && n == dec_value(s@),
            None => s@.len() == 0 || !all_digits(s@) || dec_value(s@) > u32::MAX,
        },
{
    let n = s.unicode_len();
    if n == 0 {
        return None;
    }
    let mut value: u32 = 0;
    let mut i: usize = 0;
    while i < n
        invariant
            n == s@.len(),
            i <= n,
            all_digits(s@.subrange(0, i as int)),
            value == dec_value(s@.subrange(0, i as int)),
        decreases n - i,
    {
        let c = s.get_char(i);
        let d = digit_of_char(c);
        if d >= 10 {
            assert(!is_digit(s@[i as int]));
            return None;
        }
        if value > (u32::MAX - d) / 10 {
            proof {
                assert(s@.subrange(0, i as int + 1).drop_last() =~= s@.subrange(0, i as int));
                assert(dec_value(s@.subrange(0, i as int + 1)) > u32::MAX);
                if all_digits(s@) {
                    lemma_dec_value_grows(s@.subrange(0, i as int + 1), s@);
                }
            }
            return None;
        }
        proof {
            assert(s@.subrange(0, i as int + 1).drop_last() =~= s@.subrange(0, i as int));
        }
        value = value * 10 + d;
        i += 1;
    }
    proof {
        assert(s@.subrange(0, n as int) =~= s@);
    }
    Some(value)
}

/// The decimal digits of a non-negative number, without leading zeros
/// (except for the number zero itself).
pub open spec fn dec_str(n: int) -> Seq<char>
    decreases n,
{
    if n < 10 {
        seq![digit_char(n)]
    } else {
        dec_str(n / 10).push(digit_char(n % 10))
    }
}

/// One digit as a string.
pub fn digit_str(d: u32) -> (r: String)
    requires
        d < 10,
    ensures
        r@ =~= seq![digit_char(d as int)],
{
    let r = match d {
        0 => String::from_str("0"),
        1 => String::from_str("1"),
        2 => String::from_str("2"),
        3 => String::from_str("3"),
        4 => String::from_str("4"),
        5 => String::from_str("5"),
        6 => String::from_str("6"),
        7 => String::from_str("7"),
        8 => String::from_str("8"),
        _ => String::from_str("9"),
    };
    proof {
        reveal_strlit("0");
        reveal_strlit("1");
        reveal_strlit("2");
        reveal_strlit("3");
        reveal_strlit("4");
        reveal_strlit("5");
        reveal_strlit("6");
        reveal_strlit("7");
        reveal_strlit("8");
        reveal_strlit("9");
    }
    r
}

/// Writes a number in decimal, the executable face of [`dec_str`].
pub fn u32_dec_string(n: u32) -> (r: String)
    ensures
        r@ == dec_str(n as int),
    decreases n,
{
    if n < 10 {
        digit_str(n)
    } else {
        let mut s = u32_dec_string(n / 10);
        let last = digit_str(n % 10);
        s.append(last.as_str());
        proof {
            assert(s@ =~= dec_str((n / 10) as int).push(digit_char((n % 10) as int)));
        }
        s
    }
}

/// A longer digit string never has a smaller value: the value of a prefix is
/// at most the value of the whole.
pub proof fn lemma_dec_value_grows(p: Seq<char>, s: Seq<char>)
    requires
        p.len() <= s.len(),
        forall|i: int| 0 <= i < p.len() ==> p[i] == s[i],
        all_digits(s),
    ensures
        dec_value(p) <= dec_value(s),
    decreases s.len(),
{
    if p.len() == s.len() {
        assert(p =~= s);
    } else {
        lemma_dec_value_grows(p, s.drop_last());
        lemma_dec_value_nonneg(s.drop_last());
        assert(forall|i: int| 0 <= i < s.drop_last().len() ==> is_digit(#[trigger] s.drop_last()[i]));
    }
}

pub proof fn lemma_dec_value_nonneg(s: Seq<char>)
    ensures
        dec_value(s) >= 0,
    decreases s.len(),
{
    if s.len() > 0 {
        lemma_dec_value_nonneg(s.drop_last());
        if digit_value(s.last()) >= 0 {
        }
    }
}

} // verus!

