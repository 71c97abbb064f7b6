//! Hashing and ed25519 signing, through the crates that implement them.

use vstd::prelude::*;

verus! {

/// The BLAKE3 hash of `data`.
pub uninterp spec fn blake3_digest(data: Seq<u8>) -> Seq<u8>;

/// The BLAKE3 keyed hash of `data` under the 32-byte `key`.
pub uninterp spec fn blake3_keyed_digest(key: Seq<u8>, data: Seq<u8>) -> Seq<u8>;

/// The keyed hash of `data` under the key that is the hash of `label`.
pub open spec fn labelled_digest(label: Seq<u8>, data: Seq<u8>) -> Seq<u8> {
    blake3_keyed_digest(blake3_digest(label), data)
}

/// The ed25519 public key of a 32-byte seed.
pub uninterp spec fn ed25519_public_key(seed: Seq<u8>) -> Seq<u8>;

/// The ed25519 signature of `msg` by the 64-byte secret key `sk` (seed then
/// public key), with the nonce drawn from the 16 bytes of `noise`.
pub uninterp spec fn ed25519_noisy_signature(sk: Seq<u8>, msg: Seq<u8>, noise: Seq<u8>) -> Seq<u8>;

/// The deterministic ed25519 signature of `msg` by the 64-byte secret key `sk`.
pub uninterp spec fn ed25519_signature(sk: Seq<u8>, msg: Seq<u8>) -> Seq<u8>;

/// Key labels of the sparse Merkle tree: data blocks, `smt_datablock`.
pub open spec fn data_block_label() -> Seq<u8> {
    seq![115u8, 109, 116, 95, 100, 97, 116, 97, 98, 108, 111, 99, 107]
}

/// Key labels of the sparse Merkle tree: inner nodes, `smt_node`.
pub open spec fn node_label() -> Seq<u8> {
    seq![115u8, 109, 116, 95, 110, 111, 100, 101]
}

/// The label `smt_datablock`.
pub fn data_block_hash_key() -> (k: [u8; 13])
    ensures
        k@ == data_block_label(),
{
    let k: [u8; 13] = [115, 109, 116, 95, 100, 97, 116, 97, 98, 108, 111, 99, 107];
    assert(k@ =~= data_block_label());
    k
}

/// The label `smt_node`.
pub fn node_hash_key() -> (k: [u8; 8])
    ensures
        k@ == node_label(),
{
    let k: [u8; 8] = [115, 109, 116, 95, 110, 111, 100, 101];
    assert(k@ =~= node_label());
    k
}

/// Hashes `data`.
///
/// Trusted: `blake3::hash`; its 32 bytes are named, not spelled out.
#[verifier::external_body]
pub(crate) fn blake3_hash(data: &[u8]) -> (res: [u8; 32])
    ensures
        res@ == blake3_digest(data@),
{
    *blake3::hash(data).as_bytes()
}

/// Hashes `data` under `key`.
///
/// Trusted: `blake3::keyed_hash`; its 32 bytes are named, not spelled out.
#[verifier::external_body]
pub(crate) fn blake3_keyed_hash(key: &[u8; 32], data: &[u8]) -> (res: [u8; 32])
    ensures
        res@ == blake3_keyed_digest(key@, data@),
{
    *blake3::keyed_hash(key, data).as_bytes()
}

/// Hashes `data` under the key that is the hash of `label`.
pub fn labelled_hash(label: &[u8], data: &[u8]) -> (res: [u8; 32])
    ensures
        res@ == labelled_digest(label@, data@),
{
    let key = blake3_hash(label);
    blake3_keyed_hash(&key, data)
}

/// Draws a fresh ed25519 key pair: the public key and the 64-byte secret key.
///
/// Trusted: `tmelcrypt::ed25519_keygen`, which generates a signing key from the
/// operating system's generator and returns its public key, which is also the
/// second half of the secret key. The key itself is left free: it is random.
#[verifier::external_body]
#[allow(deprecated)]
pub(crate) fn ed25519_keygen() -> (res: ([u8; 32], [u8; 64]))
    ensures
        res.0@ == res.1@.subrange(32, 64),
{
    let (pk, sk) = tmelcrypt::ed25519_keygen();
    (pk.0, sk.0)
}

/// Signs `msg` with a 64-byte secret key.
///
/// Trusted: `tmelcrypt::Ed25519SK::sign`, a deterministic ed25519 signature of
/// 64 bytes; the bytes are named, not spelled out.
#[verifier::external_body]
pub(crate) fn sign_message(sk: &[u8; 64], msg: &[u8]) -> (res: Vec<u8>)
    ensures
        res@ == ed25519_signature(sk@, msg@),
        res@.len() == 64,
{
    tmelcrypt::Ed25519SK(*sk).sign(msg)
}

/// Draws a random 32-byte seed.
///
/// Trusted: `ed25519_compact::Seed::default`, which fills the seed from the
/// operating system's generator. Nothing is promised of the bytes.
#[verifier::external_body]
pub(crate) fn random_seed() -> (res: [u8; 32]) {
    *ed25519_compact::Seed::default()
}

/// The key pair of a seed: the public key, and the secret key made of the seed
/// followed by the public key. `None` for the all-zero seed.
///
/// Trusted: `ed25519_compact::KeyPair::try_from_seed`, which refuses exactly the
/// all-zero seed; the public key is named, not spelled out.
#[verifier::external_body]
pub(crate) fn keypair_from_seed(seed: [u8; 32]) -> (res: Option<([u8; 32], [u8; 64])>)
    ensures
        res is None <==> seed@ == Seq::new(32, |i: int| 0u8),
        res matches Some((pk, sk)) ==> pk@ == ed25519_public_key(seed@) && sk@ == seed@ + pk@,
{
    let kp = ed25519_compact::KeyPair::try_from_seed(ed25519_compact::Seed::new(seed)).ok()?;
    Some((*kp.pk, *kp.sk))
}

/// Draws 16 bytes of signing noise.
///
/// Trusted: `ed25519_compact::Noise::generate`, which fills them from the
/// operating system's generator. Nothing is promised of the bytes.
#[verifier::external_body]
pub(crate) fn random_noise() -> (res: [u8; 16]) {
    let noise = ed25519_compact::Noise::generate();
    let mut bytes = [0u8; 16];
    bytes.copy_from_slice(&noise[..]);
    bytes
}

/// Signs `msg` with a 64-byte secret key and the given noise.
///
/// Trusted: `ed25519_compact::SecretKey::sign` with `Some(noise)`; the
/// signature depends on the key, the message and the noise only, and is named.
#[verifier::external_body]
pub(crate) fn sign_with_noise(sk: &[u8; 64], msg: &[u8], noise: [u8; 16]) -> (res: [u8; 64])
    ensures
        res@ == ed25519_noisy_signature(sk@, msg@, noise@),
{
    let sk = ed25519_compact::SecretKey::new(*sk);
    *sk.sign(msg, Some(ed25519_compact::Noise::new(noise)))
}

} // verus!
