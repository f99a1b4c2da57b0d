//! Numbers as text: decimal digits, a fixed number of decimals, and padding
//! to a column.

use vstd::prelude::*;

verus! {

/// `String::push` appends one character to the end of the string.
pub assume_specification[ String::push ](s: &mut String, ch: char)
    ensures
        final(s)@ == old(s)@.push(ch),
;

/// The character of a decimal digit.
pub open spec fn digit_char(d: nat) -> char {
    if d == 0 {
        '0'
    } else if d == 1 {
        '1'
    } else if d == 2 {
        '2'
    } else if d == 3 {
        '3'
    } else if d == 4 {
        '4'
    } else if d == 5 {
        '5'
    } else if d == 6 {
        '6'
    } else if d == 7 {
        '7'
    } else if d == 8 {
        '8'
    } else {
        '9'
    }
}

/// The decimal digits of `n`, without leading zeros.
pub open spec fn digits(n: nat) -> Seq<char>
    decreases n,
{
    if n < 10 {
        seq![digit_char(n)]
    } else {
        digits(n / 10).push(digit_char(n % 10))
    }
}

/// The last `width` decimal digits of `n`, with leading zeros.
pub open spec fn padded_digits(n: nat, width: nat) -> Seq<char>
    decreases width,
{
    if width == 0 {
        Seq::empty()
    } else {
        padded_digits(n / 10, (width - 1) as nat).push(digit_char(n % 10))
    }
}

/// Ten to the power of `decimals`.
pub open spec fn pow10(decimals: nat) -> nat
    decreases decimals,
{
    if decimals == 0 {
        1
    } else {
        10 * pow10((decimals - 1) as nat)
    }
}

/// The text of `scaled / 10^decimals`: the whole part, and after a point
/// `decimals` decimals. Without decimals there is no point.
pub open spec fn fixed_text(scaled: nat, decimals: nat) -> Seq<char> {
    if decimals == 0 {
        digits(scaled)
    } else {
        digits(scaled / pow10(decimals)).push('.') + padded_digits(
            scaled % pow10(decimals),
            decimals,
        )
    }
}

/// `count` spaces.
pub open spec fn spaces(count: nat) -> Seq<char> {
    Seq::new(count, |i: int| ' ')
}

/// `text` at the right of a column of `width` characters; a longer text is
/// left as it is.
pub open spec fn right_aligned(text: Seq<char>, width: nat) -> Seq<char> {
    if text.len() < width {
        spaces((width - text.len()) as nat) + text
    } else {
        text
    }
}

/// `text` at the left of a column of `width` characters; a longer text is
/// left as it is.
pub open spec fn left_aligned(text: Seq<char>, width: nat) -> Seq<char> {
    if text.len() < width {
        text + spaces((width - text.len()) as nat)
    } else {
        text
    }
}

/// The character of the decimal digit `d`.
pub fn digit(d: u8) -> (c: char)
    requires
        d < 10,
    ensures
        c == digit_char(d as nat),
{
    if d == 0 {
        '0'
    } else if d == 1 {
        '1'
    } else if d == 2 {
        '2'
    } else if d == 3 {
        '3'
    } else if d == 4 {
        '4'
    } else if d == 5 {
        '5'
    } else if d == 6 {
        '6'
    } else if d == 7 {
        '7'
    } else if d == 8 {
        '8'
    } else {
        '9'
    }
}

/// Appends the decimal digits of `n`.
pub fn push_digits(out: &mut String, n: u128)
    ensures
        final(out)@ == old(out)@ + digits(n as nat),
    decreases n,
{
    if n >= 10 {
        push_digits(out, n / 10);
    }
    out.push(digit((n % 10) as u8));
    assert(out@ =~= old(out)@ + digits(n as nat));
}

/// Appends the last `width` decimal digits of `n`, with leading zeros.
pub fn push_padded_digits(out: &mut String, n: u128, width: u32)
    ensures
        final(out)@ == old(out)@ + padded_digits(n as nat, width as nat),
    decreases width,
{
    if width > 0 {
        push_padded_digits(out, n / 10, width - 1);
        out.push(digit((n % 10) as u8));
    }
    assert(out@ =~= old(out)@ + padded_digits(n as nat, width as nat));
}

/// Ten to the power of `decimals`, for at most 38 decimals.
pub fn power_of_ten(decimals: u32) -> (p: u128)
    requires
        decimals <= 38,
    ensures
        p == pow10(decimals as nat),
        p > 0,
{
    let mut p: u128 = 1;
    let mut i: u32 = 0;
    proof {
        lemma_pow10_monotonic(0, 38);
    }
    while i < decimals
        invariant
            i <= decimals <= 38,
            p == pow10(i as nat),
            0 < p <= pow10(38),
        decreases decimals - i,
    {
        proof {
            lemma_pow10_monotonic((i + 1) as nat, 38);
            lemma_pow10_38();
        }
        p = p * 10;
        i = i + 1;
    }
    p
}

/// Ten to the power of 38, the largest that fits in 128 bits.
pub proof fn lemma_pow10_38()
    ensures
        pow10(38) == 100_000_000_000_000_000_000_000_000_000_000_000_000,
{
    reveal_with_fuel(pow10, 39);
}

/// A larger exponent gives a power of ten that is not smaller.
pub proof fn lemma_pow10_monotonic(a: nat, b: nat)
    requires
        a <= b,
    ensures
        0 < pow10(a) <= pow10(b),
    decreases b,
{
    if b == 0 {
    } else if a == b {
        lemma_pow10_monotonic((a - 1) as nat, (b - 1) as nat);
    } else {
        lemma_pow10_monotonic(a, (b - 1) as nat);
    }
}

/// Appends the text of `scaled / 10^decimals` with `decimals` decimals.
pub fn push_fixed(out: &mut String, scaled: u128, decimals: u32)
    requires
        decimals <= 38,
    ensures
        final(out)@ == old(out)@ + fixed_text(scaled as nat, decimals as nat),
{
    if decimals == 0 {
        push_digits(out, scaled);
    } else {
        let unit = power_of_ten(decimals);
        push_digits(out, scaled / unit);
        out.push('.');
        push_padded_digits(out, scaled % unit, decimals);
        assert(out@ =~= old(out)@ + fixed_text(scaled as nat, decimals as nat));
    }
}

/// Appends `count` spaces.
pub fn push_spaces(out: &mut String, count: usize)
    ensures
        final(out)@ == old(out)@ + spaces(count as nat),
{
    let mut i: usize = 0;
    assert(out@ =~= old(out)@ + spaces(0));
    while i < count
        invariant
            i <= count,
            out@ == old(out)@ + spaces(i as nat),
        decreases count - i,
    {
        out.push(' ');
        i = i + 1;
        assert(out@ =~= old(out)@ + spaces(i as nat));
    }
}

/// Appends `text` at the right of a column of `width` characters.
pub fn push_right_aligned(out: &mut String, text: &str, width: usize)
    ensures
        final(out)@ == old(out)@ + right_aligned(text@, width as nat),
{
    let len = text.unicode_len();
    if len < width {
        push_spaces(out, width - len);
    }
    out.append(text);
    assert(out@ =~= old(out)@ + right_aligned(text@, width as nat));
}

/// Appends `text` at the left of a column of `width` characters.
pub fn push_left_aligned(out: &mut String, text: &str, width: usize)
    ensures
        final(out)@ == old(out)@ + left_aligned(text@, width as nat),
{
    let len = text.unicode_len();
    out.append(text);
    if len < width {
        push_spaces(out, width - len);
    }
    assert(out@ =~= old(out)@ + left_aligned(text@, width as nat));
}

} // verus!
