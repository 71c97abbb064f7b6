//! Lowercase hexadecimal encoding and decoding of byte strings.

use vstd::prelude::*;

verus! {

/// The lowercase hex digit for a value below 16.
pub open spec fn hex_char(d: nat) -> char {
    if d < 10 {
        (48 + d) as char
    } else {
        (87 + d) as char
    }
}

/// Lowercase hex encoding: two digits per byte, high nibble first.
pub open spec fn hex_chars(b: Seq<u8>) -> Seq<char>
    decreases b.len(),
{
    if b.len() == 0 {
        Seq::empty()
    } else {
        hex_chars(b.drop_last()) + seq![hex_char((b.last() / 16) as nat), hex_char((b.last() % 16) as nat)]
    }
}

/// The value of a hex digit, upper or lower case.
pub open spec fn hex_value(c: char) -> Option<nat> {
    if '0' <= c && c <= '9' {
        Some((c as nat - 48) as nat)
    } else if 'a' <= c && c <= 'f' {
        Some((c as nat - 87) as nat)
    } else if 'A' <= c && c <= 'F' {
        Some((c as nat - 55) as nat)
    } else {
        None
    }
}

/// Hex decoding: `None` unless the text has an even number of hex digits;
/// otherwise each pair of digits is one byte, high nibble first.
pub open spec fn hex_decoded(s: Seq<char>) -> Option<Seq<u8>>
    decreases s.len(),
{
    if s.len() % 2 == 1 {
        None
    } else if s.len() == 0 {
        Some(Seq::empty())
    } else {
        match (hex_decoded(s.subrange(0, s.len() - 2)), hex_value(s[s.len() - 2]), hex_value(
            s[s.len() - 1],
        )) {
            (Some(p), Some(hi), Some(lo)) => Some(p.push((hi * 16 + lo) as u8)),
            _ => None,
        }
    }
}

/// The encoding has two digits per byte.
pub proof fn lemma_hex_chars_len(b: Seq<u8>)
    ensures
        hex_chars(b).len() == 2 * b.len(),
    decreases b.len(),
{
    if b.len() > 0 {
        lemma_hex_chars_len(b.drop_last());
    }
}

proof fn lemma_hex_digit_value(d: nat)
    requires
        d < 16,
    ensures
        hex_value(hex_char(d)) == Some(d),
{
}

/// Encoding a concatenation is concatenating the encodings.
pub proof fn lemma_hex_chars_concat(a: Seq<u8>, b: Seq<u8>)
    ensures
        hex_chars(a + b) == hex_chars(a) + hex_chars(b),
    decreases b.len(),
{
    if b.len() == 0 {
        assert(a + b =~= a);
    } else {
        lemma_hex_chars_concat(a, b.drop_last());
        assert((a + b).drop_last() =~= a + b.drop_last());
        assert((a + b).last() == b.last());
    }
}

/// Decoding the encoding of any byte string gives that byte string back.
pub proof fn lemma_hex_roundtrip(b: Seq<u8>)
    ensures
        hex_decoded(hex_chars(b)) == Some(b),
    decreases b.len(),
{
    lemma_hex_chars_len(b);
    if b.len() > 0 {
        let s = hex_chars(b);
        let p = b.drop_last();
        lemma_hex_roundtrip(p);
        lemma_hex_chars_len(p);
        assert(s.subrange(0, s.len() - 2) =~= hex_chars(p));
        lemma_hex_digit_value((b.last() / 16) as nat);
        lemma_hex_digit_value((b.last() % 16) as nat);
        assert(p.push(b.last()) =~= b);
    } else {
        assert(hex_chars(b) =~= Seq::<char>::empty());
    }
}

/// Encodes `data` as lowercase hexadecimal.
///
/// Trusted: `hex::encode`, which writes each byte as two lowercase digits from
/// `0123456789abcdef`, high nibble first.
#[verifier::external_body]
pub(crate) fn hex_encode(data: &[u8]) -> (res: String)
    ensures
        res@ == hex_chars(data@),
{
    hex::encode(data)
}

/// Decodes hexadecimal text; `None` where the text is not an even number of hex digits.
///
/// Trusted: `hex::decode`, which fails with `OddLength` on an odd number of bytes
/// and with `InvalidHexCharacter` on any byte outside `0-9a-fA-F`, and otherwise
/// turns each pair of digits into one byte, high nibble first. Non-ASCII text
/// always holds a byte outside that set, so the character view decides alike.
#[verifier::external_body]
pub(crate) fn hex_decode(text: &str) -> (res: Option<Vec<u8>>)
    ensures
        res is Some <==> hex_decoded(text@) is Some,
        res matches Some(v) ==> v@ == hex_decoded(text@).unwrap(),
{
    hex::decode(text).ok()
}

} // verus!
