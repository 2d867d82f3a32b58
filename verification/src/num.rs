//! Decimal text for the integer fields of the wire format: how a number is
//! rendered, what a digit run is worth, and the facts relating the two.

use vstd::prelude::*;

verus! {

/// The character for one decimal digit value.
pub open spec fn spec_digit_char(d: int) -> char {
    if d == 0 { '0' }
    else if d == 1 { '1' }
    else if d == 2 { '2' }
    else if d == 3 { '3' }
    else if d == 4 { '4' }
    else if d == 5 { '5' }
    else if d == 6 { '6' }
    else if d == 7 { '7' }
    else if d == 8 { '8' }
    else { '9' }
}

/// Whether a character is a decimal digit.
pub open spec fn is_digit(c: char) -> bool {
    '0' <= c && c <= '9'
}

/// The value of a digit character.
pub open spec fn digit_val(c: char) -> int {
    c as int - '0' as int
}

/// The decimal rendering of a nonnegative number, most significant digit
/// first, with no leading zeros (a lone zero for zero itself).
pub open spec fn spec_udec(n: nat) -> Seq<char>
    decreases n,
{
    if n < 10 {
        seq![spec_digit_char(n as int)]
    } else {
        spec_udec(n / 10) + seq![spec_digit_char((n % 10) as int)]
    }
}

/// The decimal rendering of an integer: a minus sign before the magnitude
/// when negative.
pub open spec fn spec_idec(n: int) -> Seq<char> {
    if n < 0 {
        seq!['-'] + spec_udec((-n) as nat)
    } else {
        spec_udec(n as nat)
    }
}

/// The value of a digit run read as a decimal numeral.
pub open spec fn spec_digits_val(d: Seq<char>) -> int
    decreases d.len(),
{
    if d.len() == 0 {
        0
    } else {
        spec_digits_val(d.drop_last()) * 10 + digit_val(d.last())
    }
}

/// Ten to the given power.
pub open spec fn pow10(k: nat) -> int
    decreases k,
{
    if k == 0 {
        1
    } else {
        10 * pow10((k - 1) as nat)
    }
}

/// Powers of ten are at least one and grow with the exponent.
pub proof fn lemma_pow10_mono(a: nat, b: nat)
    requires
        a <= b,
    ensures
        1 <= pow10(a) <= pow10(b),
    decreases b,
{
    if b == 0 {
    } else if a == b {
        lemma_pow10_mono(0, (b - 1) as nat);
    } else {
        lemma_pow10_mono(a, (b - 1) as nat);
    }
}

/// A rendered number is one or more digits, and never starts with a zero
/// unless it is the single digit zero.
pub proof fn lemma_udec_shape(n: nat)
    ensures
        spec_udec(n).len() >= 1,
        forall|i: int| 0 <= i < spec_udec(n).len() ==> is_digit(#[trigger] spec_udec(n)[i]),
        n >= 1 ==> spec_udec(n)[0] != '0',
        n < 10 ==> spec_udec(n).len() == 1,
    decreases n,
{
    if n >= 10 {
        lemma_udec_shape(n / 10);
    }
}

/// Reading back the rendering of a number yields the number.
pub proof fn lemma_udec_val(n: nat)
    ensures
        spec_digits_val(spec_udec(n)) == n,
    decreases n,
{
    if n < 10 {
        let d = spec_udec(n);
        assert(d == seq![spec_digit_char(n as int)]);
        assert(d.drop_last() =~= Seq::<char>::empty());
        assert(spec_digits_val(Seq::<char>::empty()) == 0);
        assert(spec_digits_val(d) == spec_digits_val(d.drop_last()) * 10 + digit_val(d.last()));
        assert(digit_val(spec_digit_char(n as int)) == n);
    } else {
        lemma_udec_val(n / 10);
        let a = spec_udec(n / 10);
        let x = spec_digit_char((n % 10) as int);
        assert(spec_udec(n) == a + seq![x]);
        assert((a + seq![x]).drop_last() =~= a);
        assert((a + seq![x]).last() == x);
        assert(spec_digits_val(a + seq![x]) == spec_digits_val(a) * 10 + digit_val(x));
        assert(digit_val(x) == n % 10);
        assert((n / 10) * 10 + n % 10 == n) by (nonlinear_arith);
    }
}

/// A digit run's value is nonnegative and below ten to its length.
pub proof fn lemma_digits_val_bounds(d: Seq<char>)
    requires
        forall|i: int| 0 <= i < d.len() ==> is_digit(#[trigger] d[i]),
    ensures
        0 <= spec_digits_val(d) < pow10(d.len()),
    decreases d.len(),
{
    if d.len() > 0 {
        lemma_digits_val_bounds(d.drop_last());
    }
}

/// A digit run that does not start with a zero is worth at least ten to the
/// power of one less than its length.
pub proof fn lemma_digits_val_lower(d: Seq<char>)
    requires
        d.len() >= 1,
        forall|i: int| 0 <= i < d.len() ==> is_digit(#[trigger] d[i]),
        d[0] != '0',
    ensures
        spec_digits_val(d) >= pow10((d.len() - 1) as nat),
    decreases d.len(),
{
    if d.len() == 1 {
        assert(is_digit(d[0]));
        assert(d.drop_last().len() == 0);
        assert(spec_digits_val(d.drop_last()) == 0);
        assert(spec_digits_val(d) == digit_val(d[0]));
        assert(digit_val(d[0]) >= 1);
    } else {
        let dl = d.drop_last();
        assert(dl[0] == d[0]);
        assert forall|i: int| 0 <= i < dl.len() implies is_digit(#[trigger] dl[i]) by {
            assert(dl[i] == d[i]);
        }
        lemma_digits_val_lower(dl);
        assert(is_digit(d.last()));
        assert(digit_val(d.last()) >= 0);
        assert(pow10((d.len() - 1) as nat) == 10 * pow10((d.len() - 2) as nat));
        assert(spec_digits_val(d) == spec_digits_val(dl) * 10 + digit_val(d.last()));
        assert(spec_digits_val(dl) * 10 >= pow10((d.len() - 2) as nat) * 10) by (nonlinear_arith)
            requires spec_digits_val(dl) >= pow10((d.len() - 2) as nat);
    }
}

/// The exec counterpart of `spec_digit_char`.
pub fn digit_char(d: u32) -> (c: char)
    requires
        d < 10,
    ensures
        c == spec_digit_char(d as int),
{
    match d {
        0 => '0',
        1 => '1',
        2 => '2',
        3 => '3',
        4 => '4',
        5 => '5',
        6 => '6',
        7 => '7',
        8 => '8',
        _ => '9',
    }
}

/// Appends the decimal rendering of a nonnegative number to a buffer.
pub fn push_u32_dec(buf: &mut Vec<char>, n: u32)
    ensures
        final(buf)@ == old(buf)@ + spec_udec(n as nat),
    decreases n,
{
    if n >= 10 {
        push_u32_dec(buf, n / 10);
    }
    let c = digit_char(n % 10);
    buf.push(c);
    proof {
        if n < 10 {
            assert(buf@ =~= old(buf)@ + spec_udec(n as nat));
        } else {
            assert(buf@ =~= old(buf)@ + (spec_udec((n / 10) as nat) + seq![
                spec_digit_char((n % 10) as int),
            ]));
        }
    }
}

/// Appends the decimal rendering of a signed number to a buffer.
pub fn push_i32_dec(buf: &mut Vec<char>, n: i32)
    ensures
        final(buf)@ == old(buf)@ + spec_idec(n as int),
{
    if n < 0 {
        buf.push('-');
        let mag: u32 = (-(n as i64)) as u32;
        assert(mag as nat == (-(n as int)) as nat);
        push_u32_dec(buf, mag);
        assert(buf@ =~= old(buf)@ + (seq!['-'] + spec_udec((-(n as int)) as nat)));
    } else {
        push_u32_dec(buf, n as u32);
    }
}

} // verus!
