//! Numbers written out as text.

use vstd::prelude::*;

verus! {

/// The digits of every base up to sixteen, in lower case.
pub const DIGITS: &'static str = "0123456789abcdef";

/// The character that stands for the digit `d`, where `0 <= d < 16`.
pub open spec fn digit_char(d: int) -> char {
    DIGITS@[d]
}

/// `n` in decimal, most significant digit first, with no zero in front
/// (`0` itself is one digit).
pub open spec fn decimal_digits(n: nat) -> Seq<char>
    decreases n,
{
    if n < 10 {
        seq![digit_char(n as int)]
    } else {
        decimal_digits(n / 10).push(digit_char((n % 10) as int))
    }
}

/// `count` zeros.
pub open spec fn zeros(count: nat) -> Seq<char> {
    Seq::new(count, |i: int| '0')
}

/// `n` in decimal, with zeros in front where it has fewer than `width`
/// digits. A number with more digits is written in full.
pub open spec fn zero_padded(n: nat, width: nat) -> Seq<char> {
    let digits = decimal_digits(n);
    if digits.len() < width {
        zeros((width - digits.len()) as nat) + digits
    } else {
        digits
    }
}

/// The sixteen hexadecimal digits of `v`, most significant first, in lower
/// case.
pub open spec fn hex_digits(v: u64) -> Seq<char> {
    Seq::new(16, |i: int| digit_char(nibble(v, i) as int))
}

/// The `i`-th group of four bits of `v`, counted from the most significant.
pub open spec fn nibble(v: u64, i: int) -> u64 {
    (v >> ((60 - 4 * i) as u64)) & 0xf
}

/// Whether `c` is one of `0` to `9`.
pub open spec fn is_decimal_digit(c: char) -> bool {
    '0' <= c <= '9'
}

/// The digits below ten are the characters `0` to `9`, in order; those from
/// ten on are `a` to `f`.
pub proof fn lemma_digit_chars()
    ensures
        DIGITS@.len() == 16,
        DIGITS.is_ascii(),
        digit_char(0) == '0',
        digit_char(1) == '1',
        digit_char(2) == '2',
        digit_char(3) == '3',
        digit_char(4) == '4',
        digit_char(5) == '5',
        digit_char(6) == '6',
        digit_char(7) == '7',
        digit_char(8) == '8',
        digit_char(9) == '9',
        digit_char(10) == 'a',
        digit_char(11) == 'b',
        digit_char(12) == 'c',
        digit_char(13) == 'd',
        digit_char(14) == 'e',
        digit_char(15) == 'f',
        forall|d: int| 0 <= d < 10 ==> is_decimal_digit(#[trigger] digit_char(d)),
{
    reveal_strlit("0123456789abcdef");
}

/// A number below `10^k` has at most `k` decimal digits, for the widths that
/// a date uses; and every one of them is a decimal digit.
pub proof fn lemma_decimal_digits(n: nat)
    ensures
        decimal_digits(n).len() >= 1,
        n < 10 ==> decimal_digits(n).len() == 1,
        10 <= n < 100 ==> decimal_digits(n).len() == 2,
        100 <= n < 1000 ==> decimal_digits(n).len() == 3,
        1000 <= n < 10000 ==> decimal_digits(n).len() == 4,
        10000 <= n ==> decimal_digits(n).len() >= 5,
        forall|i: int|
            0 <= i < decimal_digits(n).len() ==> is_decimal_digit(#[trigger] decimal_digits(n)[i]),
    decreases n,
{
    lemma_digit_chars();
    if n >= 10 {
        lemma_decimal_digits(n / 10);
    }
}

/// A zero-padded number is at least `width` long, exactly so when the number
/// has no more than `width` digits, and holds decimal digits only.
pub proof fn lemma_zero_padded(n: nat, width: nat)
    ensures
        zero_padded(n, width).len() == if decimal_digits(n).len() < width {
            width
        } else {
            decimal_digits(n).len()
        },
        forall|i: int|
            0 <= i < zero_padded(n, width).len() ==> is_decimal_digit(
                #[trigger] zero_padded(n, width)[i],
            ),
{
    lemma_decimal_digits(n);
}

/// The digit `d` as a string of one character.
fn digit_str(d: u8) -> (s: &'static str)
    requires
        d < 16,
    ensures
        s@ == seq![digit_char(d as int)],
{
    proof {
        lemma_digit_chars();
    }
    let from: usize = d as usize;
    let s = DIGITS.substring_ascii(from, from + 1);
    assert(s@ =~= seq![digit_char(d as int)]);
    s
}

/// The digits of `low`, which holds the least significant first, as text
/// with the most significant first.
spec fn most_significant_first(low: Seq<u8>) -> Seq<char> {
    Seq::new(low.len(), |i: int| digit_char(low[low.len() - 1 - i] as int))
}

/// The digits of `n` without the value zero: nothing at all for `0`.
spec fn leading_digits(n: nat) -> Seq<char> {
    if n == 0 {
        Seq::empty()
    } else {
        decimal_digits(n)
    }
}

/// Appends `n` in decimal to `out`, with zeros in front where it has fewer
/// than `width` digits.
pub fn push_decimal(out: &mut String, n: u64, width: usize)
    ensures
        final(out)@ == old(out)@ + zero_padded(n as nat, width as nat),
{
    let mut low: Vec<u8> = Vec::new();
    low.push((n % 10) as u8);
    let mut rest: u64 = n / 10;
    assert(decimal_digits(n as nat) =~= leading_digits(rest as nat) + most_significant_first(
        low@,
    ));
    while rest > 0
        invariant
            1 <= low@.len(),
            forall|i: int| 0 <= i < low@.len() ==> low@[i] < 10,
            decimal_digits(n as nat) == leading_digits(rest as nat) + most_significant_first(
                low@,
            ),
        decreases rest,
    {
        let ghost before = low@;
        low.push((rest % 10) as u8);
        assert(most_significant_first(low@) =~= seq![digit_char((rest % 10) as int)]
            + most_significant_first(before));
        assert(leading_digits(rest as nat) =~= leading_digits((rest / 10) as nat).push(
            digit_char((rest % 10) as int),
        ));
        rest = rest / 10;
    }
    let digits: usize = low.len();
    let mut written: usize = digits;
    while written < width
        invariant
            digits <= written,
            written <= width || written == digits,
            out@ == old(out)@ + zeros((written - digits) as nat),
        decreases width - written,
    {
        proof {
            reveal_strlit("0");
        }
        out.append("0");
        written = written + 1;
        assert(out@ =~= old(out)@ + zeros((written - digits) as nat));
    }
    let ghost padded = out@;
    let mut i: usize = digits;
    while i > 0
        invariant
            i <= digits,
            digits == low@.len(),
            forall|k: int| 0 <= k < low@.len() ==> low@[k] < 10,
            out@ == padded + most_significant_first(low@).take(digits - i),
        decreases i,
    {
        i = i - 1;
        out.append(digit_str(low[i]));
        assert(out@ =~= padded + most_significant_first(low@).take(digits - i));
    }
    assert(out@ =~= old(out)@ + zero_padded(n as nat, width as nat));
}

/// Appends the sixteen hexadecimal digits of `v` to `out`.
pub fn push_hex(out: &mut String, v: u64)
    ensures
        final(out)@ == old(out)@ + hex_digits(v),
{
    let mut i: u64 = 0;
    while i < 16
        invariant
            i <= 16,
            out@ == old(out)@ + hex_digits(v).take(i as int),
        decreases 16 - i,
    {
        let shift: u64 = 60 - 4 * i;
        let group: u64 = (v >> shift) & 0xf;
        assert(group < 16) by (bit_vector)
            requires
                group == (v >> shift) & 0xf,
        ;
        out.append(digit_str(group as u8));
        i = i + 1;
        assert(out@ =~= old(out)@ + hex_digits(v).take(i as int));
    }
    assert(hex_digits(v).take(16) =~= hex_digits(v));
}

} // verus!
