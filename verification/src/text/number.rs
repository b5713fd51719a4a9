//! Decimal and hexadecimal rendering of integers, and reading them back.

use vstd::prelude::*;

use crate::text::basic::chars_of;

verus! {

/// The character of a decimal digit.
pub open spec fn digit_char(d: int) -> char {
    if d == 0 {
        '0'
    } else if d == 1 {
        '1'
    } else if d == 2 {
        '2'
    } else if d == 3 {
        '3'
    } else if d == 4 {
        '4'
    } else if d == 5 {
        '5'
    } else if d == 6 {
        '6'
    } else if d == 7 {
        '7'
    } else if d == 8 {
        '8'
    } else if d == 9 {
        '9'
    } else if d == 10 {
        'a'
    } else if d == 11 {
        'b'
    } else if d == 12 {
        'c'
    } else if d == 13 {
        'd'
    } else if d == 14 {
        'e'
    } else {
        'f'
    }
}

/// The decimal digits of `n`, without leading zeros.
pub open spec fn decimal(n: nat) -> Seq<char>
    decreases n,
{
    if n < 10 {
        seq![digit_char(n as int)]
    } else {
        decimal(n / 10).push(digit_char((n % 10) as int))
    }
}

/// The decimal digits of an integer, behind a minus sign where it is negative.
pub open spec fn decimal_int(n: int) -> Seq<char> {
    if n < 0 {
        seq!['-'] + decimal((-n) as nat)
    } else {
        decimal(n as nat)
    }
}

/// The last `width` hexadecimal digits of `n`, lower case.
pub open spec fn hex(n: nat, width: nat) -> Seq<char>
    decreases width,
{
    if width == 0 {
        Seq::empty()
    } else {
        hex(n / 16, (width - 1) as nat).push(digit_char((n % 16) as int))
    }
}

/// The character of a digit below 16.
pub fn digit_of(d: u64) -> (r: char)
    requires
        d < 16,
    ensures
        r == digit_char(d as int),
{
    match d {
        0 => '0',
        1 => '1',
        2 => '2',
        3 => '3',
        4 => '4',
        5 => '5',
        6 => '6',
        7 => '7',
        8 => '8',
        9 => '9',
        10 => 'a',
        11 => 'b',
        12 => 'c',
        13 => 'd',
        14 => 'e',
        _ => 'f',
    }
}

/// The decimal digits of `n`.
pub fn decimal_text(n: u64) -> (r: String)
    ensures
        r@ == decimal(n as nat),
    decreases n,
{
    if n < 10 {
        let mut r = String::new();
        r.push(digit_of(n));
        assert(r@ =~= decimal(n as nat));
        r
    } else {
        let mut r = decimal_text(n / 10);
        r.push(digit_of(n % 10));
        r
    }
}

/// The decimal digits of `n`, signed.
pub fn decimal_int_text(n: i64) -> (r: String)
    ensures
        r@ == decimal_int(n as int),
{
    if n < 0 {
        let m: u64 = (-(n as i128)) as u64;
        let mut r = String::new();
        r.push('-');
        r.append(decimal_text(m).as_str());
        assert(r@ =~= decimal_int(n as int));
        r
    } else {
        decimal_text(n as u64)
    }
}

/// The last `width` hexadecimal digits of `n`.
pub fn hex_text(n: u64, width: usize) -> (r: String)
    ensures
        r@ == hex(n as nat, width as nat),
    decreases width,
{
    if width == 0 {
        let r = String::new();
        assert(r@ =~= hex(n as nat, 0));
        r
    } else {
        let mut r = hex_text(n / 16, width - 1);
        r.push(digit_of(n % 16));
        r
    }
}

/// A hexadecimal rendering has the width that was asked for, and only digits.
pub proof fn lemma_hex(n: nat, width: nat)
    ensures
        hex(n, width).len() == width,
        forall|i: int| 0 <= i < width ==> is_hex_digit(#[trigger] hex(n, width)[i]),
    decreases width,
{
    if width > 0 {
        lemma_hex(n / 16, (width - 1) as nat);
        assert(n % 16 < 16);
    }
}

/// The lower-case hexadecimal digits.
pub open spec fn is_hex_digit(c: char) -> bool {
    ('0' <= c && c <= '9') || ('a' <= c && c <= 'f')
}

/// The value of a decimal digit.
pub open spec fn digit_value(c: char) -> Option<nat> {
    if '0' <= c && c <= '9' {
        Some((c as u32 - '0' as u32) as nat)
    } else {
        None
    }
}

/// The value of a run of decimal digits; none where it is empty or where a
/// character is no digit.
pub open spec fn digits_value(s: Seq<char>) -> Option<nat>
    decreases s.len(),
{
    if s.len() == 0 {
        None
    } else if s.len() == 1 {
        digit_value(s[0])
    } else {
        match (digits_value(s.drop_last()), digit_value(s.last())) {
            (Some(v), Some(d)) => Some(v * 10 + d),
            _ => None,
        }
    }
}

/// The value that a text denotes as an unsigned 32-bit number: decimal digits
/// behind at most one plus sign, within range.
pub open spec fn parsed_u32(s: Seq<char>) -> Option<nat> {
    let d = if s.len() > 0 && s[0] == '+' {
        s.drop_first()
    } else {
        s
    };
    match digits_value(d) {
        Some(v) => if v <= u32::MAX {
            Some(v)
        } else {
            None
        },
        None => None,
    }
}

/// A number's digits read back as the number.
pub proof fn lemma_decimal_reads_back(n: nat)
    ensures
        digits_value(decimal(n)) == Some(n),
        decimal(n).len() >= 1,
        forall|i: int| 0 <= i < decimal(n).len() ==> '0' <= #[trigger] decimal(n)[i] <= '9',
    decreases n,
{
    if n >= 10 {
        lemma_decimal_reads_back(n / 10);
        assert(decimal(n).drop_last() =~= decimal(n / 10));
        assert(n == (n / 10) * 10 + n % 10);
    }
}

/// Every number is rendered by its digits: they read back as the number, and a
/// negative number has a minus sign in front of them.
pub proof fn law_decimal_round_trip(n: nat)
    ensures
        digits_value(decimal(n)) == Some(n),
        decimal_int(n as int) == decimal(n),
        n > 0 ==> decimal_int(-(n as int)) == seq!['-'] + decimal(n),
        decimal(n).len() > 1 ==> decimal(n)[0] != '0',
    decreases n,
{
    lemma_decimal_reads_back(n);
    if n >= 10 {
        law_decimal_round_trip(n / 10);
        if decimal(n / 10).len() == 1 {
            assert(n / 10 < 10) by {
                if n / 10 >= 10 {
                    lemma_decimal_reads_back(n / 10 / 10);
                }
            }
        }
    }
}

/// A number in hexadecimal takes exactly its width, the lower digits last, and
/// numbers that differ in those digits differ in their texts.
pub proof fn law_hex_tells_apart(a: nat, b: nat, width: nat)
    ensures
        hex(a, width).len() == width,
        width > 0 ==> hex(a, width).last() == digit_char((a % 16) as int),
        width > 0 ==> hex(a, width).drop_last() == hex(a / 16, (width - 1) as nat),
        width > 0 && a % 16 != b % 16 ==> hex(a, width) != hex(b, width),
    decreases width,
{
    if width > 0 {
        law_hex_tells_apart(a / 16, b / 16, (width - 1) as nat);
        assert(hex(a, width).drop_last() =~= hex(a / 16, (width - 1) as nat));
        if a % 16 != b % 16 && hex(a, width) == hex(b, width) {
            assert(hex(a, width).last() == hex(b, width).last());
        }
    }
}

/// Reading what was rendered gives the number back.
pub proof fn law_u32_round_trip(n: u32)
    ensures
        parsed_u32(decimal(n as nat)) == Some(n as nat),
{
    lemma_decimal_reads_back(n as nat);
    assert('0' <= decimal(n as nat)[0] <= '9');
}

/// A longer run of digits has no smaller value.
pub proof fn lemma_digits_prefix(s: Seq<char>, i: int)
    requires
        1 <= i <= s.len(),
    ensures
        digits_value(s) is Some ==> digits_value(s.take(i)) is Some && digits_value(s.take(i))->0
            <= digits_value(s)->0,
    decreases s.len(),
{
    if i < s.len() {
        lemma_digits_prefix(s.drop_last(), i);
        assert(s.drop_last().take(i) =~= s.take(i));
    } else {
        assert(s.take(i) =~= s);
    }
}

/// The unsigned 32-bit number that a text denotes.
pub fn parse_u32(s: &str) -> (r: Option<u32>)
    ensures
        match r {
            Some(v) => parsed_u32(s@) == Some(v as nat),
            None => parsed_u32(s@) is None,
        },
{
    let cs = chars_of(s);
    let start: usize = if cs.len() > 0 && cs[0] == '+' {
        1
    } else {
        0
    };
    let ghost d = s@.subrange(start as int, s@.len() as int);
    assert(start == 1 ==> d =~= s@.drop_first());
    assert(start == 0 ==> d =~= s@);
    if start == cs.len() {
        return None;
    }
    let mut v: u64 = 0;
    let mut i: usize = start;
    while i < cs.len()
        invariant
            cs@ == s@,
            start <= i <= cs@.len(),
            d == s@.subrange(start as int, s@.len() as int),
            i > start ==> digits_value(d.take(i - start)) == Some(v as nat),
            i == start ==> v == 0,
            v <= u32::MAX,
            parsed_u32(s@) == (match digits_value(d) {
                Some(x) => if x <= u32::MAX {
                    Some(x)
                } else {
                    None
                },
                None => None,
            }),
        decreases cs@.len() - i,
    {
        let c = cs[i];
        let ghost t = d.take(i + 1 - start);
        assert(t.drop_last() =~= d.take(i - start));
        assert(t.last() == c);
        proof {
            lemma_digits_prefix(d, i + 1 - start);
        }
        if !('0' <= c && c <= '9') {
            assert(digits_value(t) is None);
            return None;
        }
        v = v * 10 + (c as u32 as u64 - '0' as u32 as u64);
        assert(digits_value(t) == Some(v as nat));
        if v > u32::MAX as u64 {
            return None;
        }
        i = i + 1;
    }
    assert(d.take(d.len() as int) =~= d);
    Some(v as u32)
}

} // verus!
