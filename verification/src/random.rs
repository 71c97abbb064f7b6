//! Random draws, through `rand` and `tmelcrypt`.

use vstd::prelude::*;
use rand::Rng;

verus! {

/// Draws a random byte.
///
/// Trusted: `rand::Rng::gen::<u8>` on the thread generator. Nothing is promised.
#[verifier::external_body]
pub(crate) fn random_u8() -> (res: u8) {
    rand::thread_rng().gen()
}

/// Draws a random `u64`.
///
/// Trusted: `rand::Rng::gen::<u64>` on the thread generator. Nothing is promised.
#[verifier::external_body]
pub(crate) fn random_u64() -> (res: u64) {
    rand::thread_rng().gen()
}

/// Draws a random `u128`.
///
/// Trusted: `rand::Rng::gen::<u128>` on the thread generator. Nothing is promised.
#[verifier::external_body]
pub(crate) fn random_u128() -> (res: u128) {
    rand::thread_rng().gen()
}

/// Draws a `u32` in `lo..hi`.
///
/// Trusted: `rand::Rng::gen_range` on the thread generator, which panics on an
/// empty range and otherwise returns a value of the range.
#[verifier::external_body]
pub(crate) fn random_u32_in(lo: u32, hi: u32) -> (res: u32)
    requires
        lo < hi,
    ensures
        lo <= res < hi,
{
    rand::thread_rng().gen_range(lo..hi)
}

/// Draws a `u64` in `lo..hi`.
///
/// Trusted: `rand::Rng::gen_range` on the thread generator, which panics on an
/// empty range and otherwise returns a value of the range.
#[verifier::external_body]
pub(crate) fn random_u64_in(lo: u64, hi: u64) -> (res: u64)
    requires
        lo < hi,
    ensures
        lo <= res < hi,
{
    rand::thread_rng().gen_range(lo..hi)
}

/// Draws a `u128` in `lo..hi`.
///
/// Trusted: `rand::Rng::gen_range` on the thread generator, which panics on an
/// empty range and otherwise returns a value of the range.
#[verifier::external_body]
pub(crate) fn random_u128_in(lo: u128, hi: u128) -> (res: u128)
    requires
        lo < hi,
    ensures
        lo <= res < hi,
{
    rand::thread_rng().gen_range(lo..hi)
}

/// Draws a random 32-byte hash value.
///
/// Trusted: `tmelcrypt::HashVal::random`. Nothing is promised of the bytes.
#[verifier::external_body]
pub(crate) fn random_hash() -> (res: [u8; 32]) {
    tmelcrypt::HashVal::random().0
}

} // verus!
