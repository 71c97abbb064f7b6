//! Reading the hex arguments that select and feed the test vectors.

use vstd::prelude::*;
use crate::hexcode::{hex_decode, hex_decoded};

verus! {

/// Text that starts with `0x`.
pub open spec fn has_hex_prefix(s: Seq<char>) -> bool {
    s.len() >= 2 && s[0] == '0' && s[1] == 'x'
}

/// The text after a leading `0x`; `None` where there is none.
pub fn strip_hex_prefix(arg: &str) -> (res: Option<&str>)
    ensures
        res is Some <==> has_hex_prefix(arg@),
        res matches Some(rest) ==> rest@ == arg@.subrange(2, arg@.len() as int),
{
    let n = arg.unicode_len();
    if n >= 2 && arg.get_char(0) == '0' && arg.get_char(1) == 'x' {
        Some(arg.substring_char(2, n))
    } else {
        None
    }
}

/// The bytes that `0x`-prefixed hex text holds; `None` where the prefix is
/// missing or the rest is not an even number of hex digits.
pub fn parse_hex_arg(arg: &str) -> (res: Option<Vec<u8>>)
    ensures
        res is Some <==> has_hex_prefix(arg@) && hex_decoded(arg@.subrange(2, arg@.len() as int)) is Some,
        res matches Some(b) ==> b@ == hex_decoded(arg@.subrange(2, arg@.len() as int)).unwrap(),
{
    match strip_hex_prefix(arg) {
        Some(rest) => hex_decode(rest),
        None => None,
    }
}

/// Reads a 32-byte hash value from 64 hex digits.
///
/// Trusted: `tmelcrypt::HashVal::from_str`, which fills 32 bytes with
/// `hex::decode_to_slice` and so fails on an odd number of bytes, on any length
/// other than 64, and on any byte outside `0-9a-fA-F`.
#[verifier::external_body]
fn hash_from_hex(text: &str) -> (res: Option<[u8; 32]>)
    ensures
        res is Some <==> (hex_decoded(text@) matches Some(b) && b.len() == 32),
        res matches Some(h) ==> h@ == hex_decoded(text@).unwrap(),
{
    text.parse::<tmelcrypt::HashVal>().ok().map(|h| h.0)
}

/// The 32-byte hash that `0x`-prefixed hex text holds; `None` where the prefix
/// is missing or the rest is not 64 hex digits.
pub fn parse_hash_arg(arg: &str) -> (res: Option<[u8; 32]>)
    ensures
        res is Some <==> has_hex_prefix(arg@) && hex_decoded(arg@.subrange(2, arg@.len() as int)) is Some
            && hex_decoded(arg@.subrange(2, arg@.len() as int)).unwrap().len() == 32,
        res matches Some(h) ==> h@ == hex_decoded(arg@.subrange(2, arg@.len() as int)).unwrap(),
{
    match strip_hex_prefix(arg) {
        Some(rest) => hash_from_hex(rest),
        None => None,
    }
}

} // verus!
