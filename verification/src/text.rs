//! Small text helpers shared by the naming and response modules: the set of
//! characters a stored filename may contain, decimal rendering of integers,
//! and appending single characters to a `String`.

use vstd::prelude::*;

verus! {

/// Characters a stored filename may contain: ASCII letters, digits,
/// `.`, `-` and `_`.
pub open spec fn is_allowed_char(c: char) -> bool {
    let u = c as u32;
    (48 <= u && u <= 57)  // '0'..='9'
    || (65 <= u && u <= 90)  // 'A'..='Z'
    || (97 <= u && u <= 122)  // 'a'..='z'
    || u == 46  // '.'
    || u == 45  // '-'
    || u == 95  // '_'
}

/// The character for one decimal digit value.
pub open spec fn digit_char_spec(d: nat) -> char {
    if d == 0 {
        '0'
    } else if d == 1 {
        '1'
    } else if d == 2 {
        '2'
    } else if d == 3 {
        '3'
    } else if d == 4 {
        '4'
    } else if d == 5 {
        '5'
    } else if d == 6 {
        '6'
    } else if d == 7 {
        '7'
    } else if d == 8 {
        '8'
    } else {
        '9'
    }
}

/// The usual decimal rendering of `n`, most significant digit first, with no
/// leading zeros (and `0` itself rendered as "0").
pub open spec fn dec_digits(n: nat) -> Seq<char>
    decreases n,
{
    if n < 10 {
        seq![digit_char_spec(n)]
    } else {
        dec_digits(n / 10).push(digit_char_spec(n % 10))
    }
}

/// Digit characters carry their digit value, shifted by the code of '0'.
pub proof fn lemma_digit_char_val(d: nat)
    requires
        d < 10,
    ensures
        digit_char_spec(d) as u32 == 48 + d,
{
}

/// Distinct digit values render as distinct characters.
pub proof fn lemma_digit_char_injective(a: nat, b: nat)
    requires
        a < 10,
        b < 10,
        digit_char_spec(a) == digit_char_spec(b),
    ensures
        a == b,
{
    lemma_digit_char_val(a);
    lemma_digit_char_val(b);
}

/// A decimal rendering has at least one character, and every character is a
/// decimal digit (hence an allowed filename character).
pub proof fn lemma_dec_digits_shape(n: nat)
    ensures
        dec_digits(n).len() >= 1,
        forall|i: int|
            0 <= i < dec_digits(n).len() ==> is_allowed_char(#[trigger] dec_digits(n)[i]),
    decreases n,
{
    if n < 10 {
        lemma_digit_char_val(n);
    } else {
        lemma_dec_digits_shape(n / 10);
        lemma_digit_char_val(n % 10);
    }
}

/// Decimal rendering is injective: equal renderings come from equal numbers.
pub proof fn lemma_dec_digits_injective(a: nat, b: nat)
    requires
        dec_digits(a) == dec_digits(b),
    ensures
        a == b,
    decreases a + b,
{
    lemma_dec_digits_shape(a);
    lemma_dec_digits_shape(b);
    if a < 10 && b < 10 {
        assert(dec_digits(a)[0] == digit_char_spec(a));
        assert(dec_digits(b)[0] == digit_char_spec(b));
        lemma_digit_char_injective(a, b);
    } else if a < 10 {
        lemma_dec_digits_shape(b / 10);
        assert(dec_digits(b).len() >= 2);
    } else if b < 10 {
        lemma_dec_digits_shape(a / 10);
        assert(dec_digits(a).len() >= 2);
    } else {
        assert(dec_digits(a).last() == digit_char_spec(a % 10));
        assert(dec_digits(b).last() == digit_char_spec(b % 10));
        lemma_digit_char_injective(a % 10, b % 10);
        assert(dec_digits(a).drop_last() =~= dec_digits(a / 10));
        assert(dec_digits(b).drop_last() =~= dec_digits(b / 10));
        lemma_dec_digits_injective(a / 10, b / 10);
        vstd::arithmetic::div_mod::lemma_fundamental_div_mod(a as int, 10);
        vstd::arithmetic::div_mod::lemma_fundamental_div_mod(b as int, 10);
    }
}

/// Relies on `String::push`: appends exactly the given character.
#[verifier::external_body]
pub(crate) fn push_char(s: &mut String, c: char)
    ensures
        final(s)@ == old(s)@ + seq![c],
{
    s.push(c)
}

/// One decimal digit value as a character.
fn digit_char(d: u64) -> (c: char)
    requires
        d < 10,
    ensures
        c == digit_char_spec(d as nat),
{
    match d {
        0 => '0',
        1 => '1',
        2 => '2',
        3 => '3',
        4 => '4',
        5 => '5',
        6 => '6',
        7 => '7',
        8 => '8',
        _ => '9',
    }
}

/// Renders `n` in decimal.
pub fn u64_to_string(n: u64) -> (s: String)
    ensures
        s@ == dec_digits(n as nat),
{
    let mut digits: Vec<char> = Vec::new();
    let mut m: u64 = n;
    if m == 0 {
        digits.push('0');
        assert(digits@.reverse() =~= dec_digits(n as nat));
    }
    while m > 0
        invariant
            m > 0 ==> dec_digits(n as nat) == dec_digits(m as nat) + digits@.reverse(),
            m == 0 ==> dec_digits(n as nat) == digits@.reverse(),
        decreases m,
    {
        let d = m % 10;
        let c = digit_char(d);
        let ghost old_digits = digits@;
        digits.push(c);
        assert(digits@.reverse() =~= seq![c] + old_digits.reverse());
        if m < 10 {
            assert(dec_digits(m as nat) =~= seq![c]);
            assert(dec_digits(n as nat) =~= digits@.reverse());
        } else {
            assert(dec_digits(m as nat) =~= dec_digits((m / 10) as nat).push(c));
            assert(dec_digits((m / 10) as nat) + digits@.reverse() =~= dec_digits(m as nat)
                + old_digits.reverse());
        }
        m = m / 10;
    }
    let mut s = String::new();
    let mut k: usize = 0;
    while k < digits.len()
        invariant
            k <= digits.len(),
            dec_digits(n as nat) == digits@.reverse(),
            s@ == digits@.reverse().subrange(0, k as int),
        decreases digits.len() - k,
    {
        let c = digits[digits.len() - 1 - k];
        push_char(&mut s, c);
        assert(s@ =~= digits@.reverse().subrange(0, k + 1 as int));
        k = k + 1;
    }
    assert(s@ =~= digits@.reverse());
    s
}

} // verus!
