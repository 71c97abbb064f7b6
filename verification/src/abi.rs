//! Framing of values as 32-byte words written in hex, as an ABI decoder reads
//! them: integers as 64 zero-padded hex digits, byte strings padded with zero
//! bytes up to a whole number of blocks.

use vstd::prelude::*;
use crate::hexcode::{hex_char, hex_value};
use vstd::arithmetic::power::{pow, lemma_pow_positive};
use vstd::arithmetic::div_mod::lemma_breakdown;
use vstd::arithmetic::div_mod::lemma_small_mod;

verus! {

/// Number of hex digits in one word.
pub const WORD_DIGITS: usize = 64;

/// The last `k` hex digits of `n`, most significant first.
pub open spec fn hex_digits(n: nat, k: nat) -> Seq<char>
    decreases k,
{
    if k == 0 {
        Seq::empty()
    } else {
        hex_digits(n / 16, (k - 1) as nat).push(hex_char(n % 16))
    }
}

/// One word: `n` as 64 lowercase hex digits, padded on the left with `0`.
pub open spec fn word(n: nat) -> Seq<char> {
    hex_digits(n, 64)
}

/// `k` copies of the digit `0`.
pub open spec fn zeros(k: nat) -> Seq<char> {
    Seq::new(k, |i: int| '0')
}

/// `s` padded on the right with `0` up to `width` characters; longer text is kept whole.
pub open spec fn pad_right(s: Seq<char>, width: nat) -> Seq<char> {
    if s.len() < width {
        s + zeros((width - s.len()) as nat)
    } else {
        s
    }
}

/// How many units must follow `n` to reach the next multiple of 64.
pub open spec fn padding_len(n: nat) -> nat {
    if n % 64 == 0 {
        0
    } else {
        (64 - n % 64) as nat
    }
}

/// `b` followed by zero bytes up to the next multiple of 64 bytes.
pub open spec fn pad_block(b: Seq<u8>) -> Seq<u8> {
    b + Seq::new(padding_len(b.len()), |i: int| 0u8)
}

/// Padding reaches a multiple of 64, adds fewer than 64 units, and adds none
/// to a length that is already a multiple of 64.
pub proof fn lemma_padding_aligns(n: nat)
    ensures
        (n + padding_len(n)) % 64 == 0,
        padding_len(n) < 64,
        padding_len(n) == 0 <==> n % 64 == 0,
{
}

/// A word is always 64 digits long.
pub proof fn lemma_hex_digits_len(n: nat, k: nat)
    ensures
        hex_digits(n, k).len() == k,
    decreases k,
{
    if k > 0 {
        lemma_hex_digits_len(n / 16, (k - 1) as nat);
    }
}

/// The number that hex digits spell, most significant first.
pub open spec fn hex_number(s: Seq<char>) -> nat
    decreases s.len(),
{
    if s.len() == 0 {
        0
    } else {
        hex_number(s.drop_last()) * 16 + match hex_value(s.last()) {
            Some(d) => d,
            None => 0,
        }
    }
}

/// `k` hex digits spell `n` modulo `16^k`.
pub proof fn lemma_hex_digits_value(n: nat, k: nat)
    ensures
        hex_number(hex_digits(n, k)) as int == (n as int) % pow(16, k),
    decreases k,
{
    reveal(pow);
    lemma_pow_positive(16, k);
    if k == 0 {
        assert(hex_digits(n, 0) =~= Seq::<char>::empty());
        assert(pow(16, 0) == 1);
        lemma_mod_one(n as int);
    } else {
        let m = pow(16, (k - 1) as nat);
        lemma_hex_digits_value(n / 16, (k - 1) as nat);
        let s = hex_digits(n, k);
        assert(s.drop_last() =~= hex_digits(n / 16, (k - 1) as nat));
        assert(s.last() == hex_char(n % 16));
        assert(hex_value(hex_char(n % 16)) == Some(n % 16));
        lemma_pow_positive(16, (k - 1) as nat);
        assert(pow(16, k) == 16 * m);
        lemma_breakdown(n as int, 16, m);
        assert((n / 16) as int == (n as int) / 16);
        assert(hex_number(s) == hex_number(s.drop_last()) * 16 + n % 16);
    }
}

proof fn lemma_mod_one(x: int)
    ensures
        x % 1 == 0,
{
}

/// A word spells the number it was written from, for every number below `16^64`.
pub proof fn lemma_word_value(n: nat)
    requires
        n < pow(16, 64),
    ensures
        hex_number(word(n)) == n,
{
    lemma_hex_digits_value(n, 64);
    lemma_small_mod(n, pow(16, 64) as nat);
}

/// Appends one character to a string.
///
/// Trusted: `String::push`, documented to append the character to the end.
#[verifier::external_body]
pub(crate) fn push_char(s: &mut String, c: char)
    ensures
        final(s)@ == old(s)@.push(c),
{
    s.push(c);
}

fn hex_digit_char(d: u8) -> (c: char)
    requires
        d < 16,
    ensures
        c == hex_char(d as nat),
{
    if d < 10 {
        (d + 48) as char
    } else {
        (d + 87) as char
    }
}

fn push_hex_digits(s: &mut String, n: u128, k: usize)
    ensures
        final(s)@ == old(s)@ + hex_digits(n as nat, k as nat),
    decreases k,
{
    if k > 0 {
        push_hex_digits(s, n / 16, k - 1);
        let d = (n % 16) as u8;
        push_char(s, hex_digit_char(d));
        proof {
            let ghost prev = hex_digits((n / 16) as nat, (k - 1) as nat);
            assert(old(s)@ + prev + seq![hex_char(d as nat)] =~= old(s)@ + prev.push(hex_char(d as nat)));
        }
    } else {
        assert(old(s)@ + hex_digits(n as nat, 0) =~= old(s)@);
    }
}

/// Appends `n` as one word of 64 hex digits.
pub fn push_word(s: &mut String, n: u128)
    ensures
        final(s)@ == old(s)@ + word(n as nat),
{
    push_hex_digits(s, n, WORD_DIGITS);
}

/// Appends `k` zero digits.
pub fn push_zeros(s: &mut String, k: usize)
    ensures
        final(s)@ == old(s)@ + zeros(k as nat),
{
    let mut i: usize = 0;
    while i < k
        invariant
            i <= k,
            s@ == old(s)@ + zeros(i as nat),
        decreases k - i,
    {
        push_char(s, '0');
        i = i + 1;
        assert(s@ =~= old(s)@ + zeros(i as nat));
    }
}

/// The number of zero units that pad `n` units up to a multiple of 64.
pub fn padding(n: usize) -> (p: usize)
    ensures
        p == padding_len(n as nat),
{
    if n % 64 == 0 {
        0
    } else {
        64 - n % 64
    }
}

/// Pads a byte string with zero bytes up to a multiple of 64 bytes.
pub fn pad_to_block(b: &mut Vec<u8>)
    ensures
        final(b)@ == pad_block(old(b)@),
{
    let p = padding(b.len());
    let mut i: usize = 0;
    while i < p
        invariant
            i <= p,
            p == padding_len(old(b)@.len()),
            b@ == old(b)@ + Seq::new(i as nat, |j: int| 0u8),
        decreases p - i,
    {
        b.push(0u8);
        i = i + 1;
        assert(b@ =~= old(b)@ + Seq::new(i as nat, |j: int| 0u8));
    }
    assert(b@ =~= pad_block(old(b)@));
}

} // verus!
