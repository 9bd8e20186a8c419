//! Numbers in text: decimal and hexadecimal digits, and integers written as text.

use vstd::prelude::*;

use crate::text::chars_of;

verus! {

// ---------------------------------------------------------------------------
// Decimal numerals
// ---------------------------------------------------------------------------

/// Whether `c` is one of `0` to `9`.
pub open spec fn is_digit(c: char) -> bool {
    '0' <= c <= '9'
}

/// What the digit `c` stands for.
pub open spec fn digit_value(c: char) -> int {
    c as int - '0' as int
}

/// Whether every character of `s` is a digit.
pub open spec fn all_digits(s: Seq<char>) -> bool {
    forall|i: int| 0 <= i < s.len() ==> is_digit(#[trigger] s[i])
}

/// What the digits `s` stand for, in base ten.
pub open spec fn decimal_value(s: Seq<char>) -> int
    decreases s.len(),
{
    if s.len() == 0 {
        0
    } else {
        10 * decimal_value(s.drop_last()) + digit_value(s.last())
    }
}

/// The number that `s` writes: digits, at least one, of a value of at most `max`.
pub open spec fn numeral(s: Seq<char>, max: int) -> Option<int> {
    if s.len() > 0 && all_digits(s) && decimal_value(s) <= max {
        Some(decimal_value(s))
    } else {
        None
    }
}

/// An unsigned integer of at most `max`, with an optional plus sign.
pub open spec fn unsigned(s: Seq<char>, max: int) -> Option<int> {
    if s.len() > 0 && s[0] == '+' {
        numeral(s.skip(1), max)
    } else {
        numeral(s, max)
    }
}

/// A 64-bit signed integer, with an optional sign.
pub open spec fn signed64(s: Seq<char>) -> Option<int> {
    if s.len() > 0 && s[0] == '-' {
        match numeral(s.skip(1), -(i64::MIN as int)) {
            Some(n) => Some(-n),
            None => None,
        }
    } else {
        unsigned(s, i64::MAX as int)
    }
}

/// A longer numeral never stands for less.
proof fn lemma_value_grows(s: Seq<char>, n: int)
    requires
        all_digits(s),
        0 <= n <= s.len(),
    ensures
        0 <= decimal_value(s.take(n)) <= decimal_value(s),
    decreases s.len(),
{
    if s.len() == 0 {
        assert(s.take(n) =~= s);
    } else if n == s.len() {
        assert(s.take(n) =~= s);
        lemma_value_grows(s.drop_last(), n - 1);
        assert(s.drop_last().take(n - 1) =~= s.drop_last());
        assert(is_digit(s.last()));
    } else {
        lemma_value_grows(s.drop_last(), n);
        assert(s.drop_last().take(n) =~= s.take(n));
        assert(is_digit(s.last()));
    }
}

/// Reads the numeral that `v[from..]` writes.
fn parse_numeral(v: &Vec<char>, from: usize, max: u64) -> (r: Option<u64>)
    requires
        from <= v@.len(),
    ensures
        match r {
            Some(n) => numeral(v@.skip(from as int), max as int) == Some(n as int),
            None => numeral(v@.skip(from as int), max as int) is None,
        },
{
    let ghost s = v@.skip(from as int);
    if from == v.len() {
        return None;
    }
    let mut n: u64 = 0;
    let mut i: usize = from;
    assert(s.take(0) =~= Seq::<char>::empty());
    while i < v.len()
        invariant
            s == v@.skip(from as int),
            from <= i <= v@.len(),
            n <= max,
            all_digits(s.take(i - from)),
            n == decimal_value(s.take(i - from)),
        decreases v@.len() - i,
    {
        let c = v[i];
        let ghost k = i - from;
        assert(s[k] == c);
        if !('0' <= c && c <= '9') {
            assert(!is_digit(s[k]));
            return None;
        }
        let d: u64 = c as u64 - '0' as u64;
        assert(s.take(k + 1).drop_last() =~= s.take(k));
        assert(all_digits(s.take(k + 1))) by {
            assert forall|j: int| 0 <= j < k + 1 implies is_digit(#[trigger] s.take(k + 1)[j]) by {
                if j < k {
                    assert(s.take(k)[j] == s.take(k + 1)[j]);
                }
            }
        }
        if d > max || n > max / 10 || n * 10 > max - d {
            proof {
                assert(decimal_value(s.take(k + 1)) > max);
                if all_digits(s) {
                    lemma_value_grows(s, k + 1);
                }
            }
            return None;
        }
        n = n * 10 + d;
        i = i + 1;
    }
    assert(s.take(i - from) =~= s);
    Some(n)
}

/// Reads an unsigned integer of at most `max`.
fn parse_unsigned(s: &str, max: u64) -> (r: Option<u64>)
    ensures
        match r {
            Some(n) => unsigned(s@, max as int) == Some(n as int),
            None => unsigned(s@, max as int) is None,
        },
{
    let v = chars_of(s);
    assert(v@.skip(0) =~= v@);
    if v.len() > 0 && v[0] == '+' {
        parse_numeral(&v, 1, max)
    } else {
        parse_numeral(&v, 0, max)
    }
}

/// Reads a `u64`.
pub fn parse_u64(s: &str) -> (r: Option<u64>)
    ensures
        match r {
            Some(n) => unsigned(s@, u64::MAX as int) == Some(n as int),
            None => unsigned(s@, u64::MAX as int) is None,
        },
{
    parse_unsigned(s, u64::MAX)
}

/// What digits stand for is not negative.
pub proof fn lemma_unsigned_not_negative(s: Seq<char>, max: int)
    ensures
        unsigned(s, max) matches Some(n) ==> 0 <= n <= max,
{
    lemma_decimal_not_negative(s);
    if s.len() > 0 {
        lemma_decimal_not_negative(s.skip(1));
    }
}

proof fn lemma_decimal_not_negative(s: Seq<char>)
    ensures
        all_digits(s) ==> decimal_value(s) >= 0,
    decreases s.len(),
{
    if s.len() > 0 && all_digits(s) {
        assert forall|i: int| 0 <= i < s.drop_last().len() implies is_digit(
            #[trigger] s.drop_last()[i],
        ) by {
            assert(s.drop_last()[i] == s[i]);
        }
        lemma_decimal_not_negative(s.drop_last());
        assert(is_digit(s[s.len() - 1]));
    }
}

/// Reads a `u32`.
pub fn parse_u32(s: &str) -> (r: Option<u32>)
    ensures
        match r {
            Some(n) => unsigned(s@, u32::MAX as int) == Some(n as int),
            None => unsigned(s@, u32::MAX as int) is None,
        },
{
    match parse_unsigned(s, 0xffff_ffff) {
        Some(n) => Some(n as u32),
        None => None,
    }
}

/// Reads a `u16`.
pub fn parse_u16(s: &str) -> (r: Option<u16>)
    ensures
        match r {
            Some(n) => unsigned(s@, u16::MAX as int) == Some(n as int),
            None => unsigned(s@, u16::MAX as int) is None,
        },
{
    match parse_unsigned(s, 0xffff) {
        Some(n) => Some(n as u16),
        None => None,
    }
}

/// Reads an `i64`.
pub fn parse_i64(s: &str) -> (r: Option<i64>)
    ensures
        match r {
            Some(n) => signed64(s@) == Some(n as int),
            None => signed64(s@) is None,
        },
{
    let v = chars_of(s);
    if v.len() > 0 && v[0] == '-' {
        match parse_numeral(&v, 1, 0x8000_0000_0000_0000) {
            Some(n) => if n == 0x8000_0000_0000_0000 {
                Some(i64::MIN)
            } else {
                Some(-(n as i64))
            },
            None => None,
        }
    } else {
        match parse_unsigned(s, 0x7fff_ffff_ffff_ffff) {
            Some(n) => Some(n as i64),
            None => None,
        }
    }
}

/// The character that writes the digit `d` of base sixteen.
pub open spec fn hex_char(d: int) -> char {
    if d < 10 {
        ('0' as int + d) as char
    } else {
        ('a' as int + (d - 10)) as char
    }
}

/// The numeral of `n` in base ten, without leading zeros.
pub open spec fn decimal(n: int) -> Seq<char>
    decreases n,
{
    if n < 10 {
        seq![hex_char(n)]
    } else {
        decimal(n / 10).push(hex_char(n % 10))
    }
}

/// The `width` last digits of `n` in base sixteen.
pub open spec fn hex(n: int, width: nat) -> Seq<char>
    decreases width,
{
    if width == 0 {
        Seq::empty()
    } else {
        hex(n / 16, (width - 1) as nat).push(hex_char(n % 16))
    }
}

fn hex_digit(d: u64) -> (c: char)
    requires
        d < 16,
    ensures
        c == hex_char(d as int),
{
    if d < 10 {
        (48u8 + d as u8) as char
    } else {
        (97u8 + (d as u8 - 10u8)) as char
    }
}

/// Writes `n` in base ten.
pub fn to_decimal(n: u64) -> (s: String)
    ensures
        s@ == decimal(n as int),
    decreases n,
{
    if n < 10 {
        let mut s = String::new();
        s.push(hex_digit(n));
        assert(s@ =~= seq![hex_char(n as int)]);
        s
    } else {
        let mut s = to_decimal(n / 10);
        s.push(hex_digit(n % 10));
        s
    }
}

/// Writes the `width` last digits of `n` in base sixteen.
fn to_hex(n: u64, width: u8) -> (s: String)
    ensures
        s@ == hex(n as int, width as nat),
    decreases width,
{
    if width == 0 {
        String::new()
    } else {
        let mut s = to_hex(n / 16, width - 1);
        s.push(hex_digit(n % 16));
        s
    }
}

/// Writes `n` as sixteen digits of base sixteen.
pub fn to_hex16(n: u64) -> (s: String)
    ensures
        s@ == hex(n as int, 16),
{
    to_hex(n, 16)
}

/// Numerals of a given width determine the number: two numbers that differ and fit
/// the width have different numerals.
pub proof fn lemma_hex_injective(m: int, n: int, width: nat)
    requires
        0 <= m < vstd::arithmetic::power::pow(16, width),
        0 <= n < vstd::arithmetic::power::pow(16, width),
        hex(m, width) == hex(n, width),
    ensures
        m == n,
    decreases width,
{
    reveal(vstd::arithmetic::power::pow);
    if width > 0 {
        let a = hex(m / 16, (width - 1) as nat);
        let b = hex(n / 16, (width - 1) as nat);
        assert(hex(m, width).drop_last() =~= a);
        assert(hex(n, width).drop_last() =~= b);
        assert(hex(m, width).last() == hex_char(m % 16));
        assert(hex(n, width).last() == hex_char(n % 16));
        lemma_hex_injective(m / 16, n / 16, (width - 1) as nat);
    }
}

/// A number's decimal numeral reads back as that number.
pub proof fn lemma_decimal_reads_back(n: int)
    requires
        n >= 0,
    ensures
        all_digits(decimal(n)),
        decimal(n).len() > 0,
        decimal_value(decimal(n)) == n,
    decreases n,
{
    if n < 10 {
        let s = decimal(n);
        assert(s.drop_last() =~= Seq::<char>::empty());
        assert(decimal_value(s.drop_last()) == 0);
    } else {
        lemma_decimal_reads_back(n / 10);
        let s = decimal(n);
        assert(s.drop_last() =~= decimal(n / 10));
        assert forall|i: int| 0 <= i < s.len() implies is_digit(#[trigger] s[i]) by {
            if i < s.len() - 1 {
                assert(s[i] == decimal(n / 10)[i]);
            }
        }
    }
}

/// Numbers with the same numeral are the same.
pub proof fn lemma_decimal_injective(m: int, n: int)
    requires
        m >= 0,
        n >= 0,
        decimal(m) == decimal(n),
    ensures
        m == n,
{
    lemma_decimal_reads_back(m);
    lemma_decimal_reads_back(n);
}

/// What the digits `s` stand for, in base sixteen.
pub open spec fn hex_value(s: Seq<char>) -> int
    decreases s.len(),
{
    if s.len() == 0 {
        0
    } else {
        16 * hex_value(s.drop_last()) + (if is_digit(s.last()) {
            digit_value(s.last())
        } else {
            s.last() as int - 'a' as int + 10
        })
    }
}

/// A number's hexadecimal numeral has its width, is made of digits and the letters `a` to `f`, and
/// reads back as that number where it fits.
pub proof fn law_hex_reads_back(n: int, width: nat)
    requires
        0 <= n < vstd::arithmetic::power::pow(16, width),
    ensures
        hex(n, width).len() == width,
        hex_value(hex(n, width)) == n,
        forall|i: int|
            0 <= i < width ==> is_digit(#[trigger] hex(n, width)[i]) || 'a' <= hex(n, width)[i]
                <= 'f',
    decreases width,
{
    reveal(vstd::arithmetic::power::pow);
    if width > 0 {
        let front = hex(n / 16, (width - 1) as nat);
        let s = hex(n, width);
        law_hex_reads_back(n / 16, (width - 1) as nat);
        assert(s.drop_last() =~= front);
        assert forall|i: int| 0 <= i < width implies is_digit(#[trigger] s[i]) || 'a' <= s[i]
            <= 'f' by {
            if i < width - 1 {
                assert(s[i] == front[i]);
            }
        }
    }
}

/// A number that is written reads back as that number, with or without a plus sign, where it is
/// not too large; and so does its negative.
pub proof fn law_written_numbers_are_read(n: int, max: int)
    requires
        0 <= n,
    ensures
        n <= max ==> unsigned(decimal(n), max) == Some(n),
        n <= max ==> unsigned(seq!['+'] + decimal(n), max) == Some(n),
        n > max ==> unsigned(decimal(n), max) is None,
        n <= i64::MAX ==> signed64(decimal(n)) == Some(n),
        n <= -(i64::MIN as int) ==> signed64(seq!['-'] + decimal(n)) == Some(-n),
{
    lemma_decimal_reads_back(n);
    let s = decimal(n);
    assert(is_digit(s[0]));
    assert((seq!['+'] + s).skip(1) =~= s);
    assert((seq!['-'] + s).skip(1) =~= s);
}

/// A text that is empty, or holds anything but digits after its sign, is no number.
pub proof fn law_other_texts_are_no_numbers(s: Seq<char>, i: int, max: int)
    requires
        s.len() == 0 || (0 < i < s.len() && !is_digit(s[i])),
    ensures
        unsigned(s, max) is None,
        signed64(s) is None,
{
    if s.len() > 0 {
        assert(s.skip(1)[i - 1] == s[i]);
    }
}

} // verus!
