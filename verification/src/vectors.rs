//! The test vectors: each is a hex string, framed as an ABI decoder reads it.

use vstd::prelude::*;
use vstd::string::StringExecFns;
use crate::abi::{hex_number, pad_block, pad_right, pad_to_block, push_word, push_zeros, word};
use crate::layout::word_at;
use crate::generate::{fits_epoch, fits_modifier, is_random_coin, random_header, random_stakedoc, random_transaction};
use crate::model::{CoinData, Header, StakeDoc, SWAP, Transaction, is_denom_bytes, is_denom_form};
use crate::random::random_u64_in;
use crate::crypto::{
    ed25519_noisy_signature, ed25519_public_key, keypair_from_seed, labelled_digest, labelled_hash,
    data_block_hash_key, data_block_label, node_hash_key, node_label, random_noise, random_seed, sign_with_noise,
};
use crate::encoding::{
    serialize_header, serialize_stake_doc, serialize_transaction, serialize_u128, stdcode_header,
    stdcode_stake_doc, stdcode_transaction, varint,
};
use crate::hexcode::{hex_chars, hex_decode, hex_decoded, hex_encode, lemma_hex_chars_len};

verus! {

/// Appends the hex encoding of `data`.
pub(crate) fn push_hex(s: &mut String, data: &[u8])
    ensures
        final(s)@ == old(s)@ + hex_chars(data@),
{
    let h = hex_encode(data);
    s.append(h.as_str());
}

/// The keyed hash of `data` under the `smt_node` key, in hex.
pub fn blake3_differential(data: &[u8]) -> (res: String)
    ensures
        res@ == hex_chars(labelled_digest(node_label(), data@)),
{
    let key = node_hash_key();
    let hash = labelled_hash(&key, data);
    hex_encode(&hash)
}

/// A public key and a signature, in hex, one after the other.
pub open spec fn key_and_signature(pk: Seq<u8>, sig: Seq<u8>) -> Seq<char> {
    hex_chars(pk) + hex_chars(sig)
}

/// Writes a public key and a signature in hex, one after the other.
pub fn ed25519_output(pk: &[u8; 32], sig: &[u8; 64]) -> (res: String)
    ensures
        res@ == key_and_signature(pk@, sig@),
        res@ == hex_chars(pk@) + hex_chars(sig@),
{
    let mut s = hex_encode(pk);
    push_hex(&mut s, sig);
    s
}

/// Signs `data` with the key pair of `seed` and random noise, and writes the
/// public key and the signature in hex: `None` exactly for the all-zero seed,
/// which has no key pair.
pub fn ed25519_with_seed(data: &[u8], seed: [u8; 32]) -> (res: Option<String>)
    ensures
        res is None <==> seed@ == Seq::new(32, |i: int| 0u8),
        res is Some ==> ed25519_public_key(seed@).len() == 32,
        res matches Some(s) ==> s@.len() == 192,
        res matches Some(s) ==> exists|noise: Seq<u8>|
            noise.len() == 16 && s@ == #[trigger] key_and_signature(
                ed25519_public_key(seed@),
                ed25519_noisy_signature(seed@ + ed25519_public_key(seed@), data@, noise),
            ),
        res matches Some(s) ==> exists|noise: Seq<u8>|
            noise.len() == 16 && s@ == hex_chars(ed25519_public_key(seed@)) + hex_chars(
                #[trigger] ed25519_noisy_signature(seed@ + ed25519_public_key(seed@), data@, noise),
            ),
{
    match keypair_from_seed(seed) {
        Some((pk, sk)) => {
            let noise = random_noise();
            let sig = sign_with_noise(&sk, data, noise);
            let s = ed25519_output(&pk, &sig);
            proof {
                lemma_hex_chars_len(pk@);
                lemma_hex_chars_len(sig@);
            }
            assert(s@ == key_and_signature(
                ed25519_public_key(seed@),
                ed25519_noisy_signature(seed@ + ed25519_public_key(seed@), data@, noise@),
            ));
            assert(s@ == hex_chars(ed25519_public_key(seed@)) + hex_chars(
                ed25519_noisy_signature(seed@ + ed25519_public_key(seed@), data@, noise@),
            ));
            Some(s)
        },
        None => None,
    }
}

/// Whether every byte of `seed` is zero.
fn is_zero_seed(seed: &[u8; 32]) -> (res: bool)
    ensures
        res <==> seed@ == Seq::new(32, |i: int| 0u8),
{
    let mut i: usize = 0;
    while i < 32
        invariant
            i <= 32,
            seed@.len() == 32,
            forall|j: int| 0 <= j < i ==> seed@[j] == 0,
        decreases 32 - i,
    {
        if seed[i] != 0 {
            assert(seed@[i as int] != Seq::new(32, |k: int| 0u8)[i as int]);
            return false;
        }
        i = i + 1;
    }
    assert(seed@ =~= Seq::new(32, |i: int| 0u8));
    true
}

/// Signs `data` with the key pair of a random seed and random noise, and writes
/// the public key and the signature in hex (see `ed25519_with_seed`). A key and
/// a signature are always given, whatever `data` is: the one seed that has no
/// key pair, all zeros, is drawn with chance 2^-256 and is then replaced by the
/// seed whose first byte is 1 and whose other bytes are 0.
pub fn ed25519_differential(data: &[u8]) -> (res: Option<String>)
    ensures
        res is Some,
        res matches Some(s) ==> s@.len() == 192,
        res matches Some(s) ==> exists|seed: Seq<u8>, noise: Seq<u8>|
            seed.len() == 32 && seed != Seq::new(32, |i: int| 0u8) && noise.len() == 16 && s@
                == #[trigger] key_and_signature(
                ed25519_public_key(seed),
                ed25519_noisy_signature(seed + ed25519_public_key(seed), data@, noise),
            ),
        res matches Some(s) ==> exists|seed: Seq<u8>, noise: Seq<u8>|
            seed.len() == 32 && seed != Seq::new(32, |i: int| 0u8) && noise.len() == 16 && s@.subrange(0, 64)
                == hex_chars(ed25519_public_key(seed)) && s@.subrange(64, 192) == hex_chars(
                #[trigger] ed25519_noisy_signature(seed + ed25519_public_key(seed), data@, noise),
            ),
{
    let mut seed = random_seed();
    if is_zero_seed(&seed) {
        seed[0] = 1;
        assert(seed@[0] != Seq::new(32, |i: int| 0u8)[0]);
    }
    let res = ed25519_with_seed(data, seed);
    proof {
        let r = res;
        if let Some(s) = r {
            let noise = choose|noise: Seq<u8>|
                noise.len() == 16 && s@ == #[trigger] key_and_signature(
                    ed25519_public_key(seed@),
                    ed25519_noisy_signature(seed@ + ed25519_public_key(seed@), data@, noise),
                );
            assert(seed@.len() == 32 && noise.len() == 16 && s@ == key_and_signature(
                ed25519_public_key(seed@),
                ed25519_noisy_signature(seed@ + ed25519_public_key(seed@), data@, noise),
            ));
            let noise2 = choose|noise: Seq<u8>|
                noise.len() == 16 && s@ == hex_chars(ed25519_public_key(seed@)) + hex_chars(
                    #[trigger] ed25519_noisy_signature(seed@ + ed25519_public_key(seed@), data@, noise),
                );
            let pk = hex_chars(ed25519_public_key(seed@));
            let sig = hex_chars(ed25519_noisy_signature(seed@ + ed25519_public_key(seed@), data@, noise2));
            assert(pk.len() == 64) by {
                lemma_hex_chars_len(ed25519_public_key(seed@));
            }
            assert(s@.subrange(0, 64) =~= pk);
            assert(s@.subrange(64, 192) =~= sig);
        }
    }
    res
}

/// An integer's encoding, framed: the offset word `0x40`, the encoded length
/// twice, then the encoding in hex, padded on the right with `0` to one word.
pub open spec fn integer_vector(n: u128) -> Seq<char> {
    let e = varint(n);
    word(0x40) + word(e.len()) + word(e.len()) + pad_right(hex_chars(e), 64)
}

/// Frames the stdcode encoding of `integer` (see `integer_vector`).
pub fn decode_integer_differential(integer: u128) -> (res: String)
    ensures
        res@ == integer_vector(integer),
        res@.len() == 256,
        word_at(res@, 0) == word(0x40),
        word_at(res@, 64) == word(varint(integer).len()),
        word_at(res@, 128) == word(varint(integer).len()),
        res@.subrange(192, 192 + 2 * varint(integer).len() as int) == hex_chars(varint(integer)),
        forall|i: int| 192 + 2 * varint(integer).len() <= i < 256 ==> #[trigger] res@[i] == '0',
{
    let encoded = serialize_u128(integer);
    let len = encoded.len() as u128;
    let mut s = String::new();
    push_word(&mut s, 0x40);
    push_word(&mut s, len);
    push_word(&mut s, len);
    push_hex(&mut s, encoded.as_slice());
    proof {
        lemma_hex_chars_len(encoded@);
        crate::encoding::lemma_varint_len(integer);
        crate::abi::lemma_hex_digits_len(0x40, 64);
        crate::abi::lemma_hex_digits_len(len as nat, 64);
    }
    let n = encoded.len() * 2;
    assert(n < 64);
    push_zeros(&mut s, 64 - n);
    assert(s@ =~= integer_vector(integer));
    proof {
        crate::layout::lemma_integer_vector_layout(integer);
    }
    s
}

/// The slice that `start` and `end` select: `data[start..end]` when `start`
/// is below `end`, and otherwise `data[end + 1..start + 1]` backwards.
pub open spec fn selected(data: Seq<u8>, start: int, end: int) -> Seq<u8> {
    if start < end {
        data.subrange(start, end)
    } else {
        data.subrange(end + 1, start + 1).reverse()
    }
}

/// The bounds within which `start` and `end` select a slice of `len` bytes.
pub open spec fn selects_within(len: nat, start: int, end: int) -> bool {
    if start < end {
        0 <= start && end <= len
    } else {
        -1 <= end && start + 1 <= len && start < isize::MAX
    }
}

/// Within bounds, a selection with `start` below `end` is the bytes from
/// `start` up to but not including `end`, and otherwise the bytes from `end + 1`
/// up to and including `start`, last first; either way it has one byte for each
/// step between the two bounds.
pub proof fn lemma_selected_bytes(data: Seq<u8>, start: int, end: int)
    requires
        selects_within(data.len(), start, end),
    ensures
        start < end ==> selected(data, start, end) == data.subrange(start, end),
        end <= start ==> selected(data, start, end) == data.subrange(end + 1, start + 1).reverse(),
        start < end ==> selected(data, start, end).len() == end - start,
        end <= start ==> selected(data, start, end).len() == start - end,
        forall|i: int| 0 <= i < end - start ==> #[trigger] selected(data, start, end)[i] == data[start + i],
        forall|i: int| 0 <= i < start - end ==> #[trigger] selected(data, start, end)[i] == data[start - i],
{
}

/// The slice that `start` and `end` select (see `selected`), in hex: for `start`
/// below `end`, `data[start..end]`, two digits for each of its `end - start`
/// bytes; otherwise `data[end + 1..start + 1]` backwards.
pub fn slice_differential(data: &[u8], start: isize, end: isize) -> (res: String)
    requires
        selects_within(data@.len(), start as int, end as int),
    ensures
        res@ == hex_chars(selected(data@, start as int, end as int)),
        start < end ==> res@ == hex_chars(data@.subrange(start as int, end as int)),
        start < end ==> res@.len() == 2 * (end - start),
        end <= start ==> res@ == hex_chars(data@.subrange(end + 1, start + 1).reverse()),
        end <= start ==> res@.len() == 2 * (start - end),
{
    let mut out: Vec<u8> = Vec::new();
    if start < end {
        let lo = start as usize;
        let hi = end as usize;
        let mut i = lo;
        while i < hi
            invariant
                lo <= i <= hi,
                hi <= data@.len(),
                out@ == data@.subrange(lo as int, i as int),
            decreases hi - i,
        {
            out.push(data[i]);
            i = i + 1;
            assert(out@ =~= data@.subrange(lo as int, i as int));
        }
    } else {
        let lo = (end + 1) as usize;
        let hi = (start + 1) as usize;
        let mut i = hi;
        assert(out@ =~= data@.subrange(hi as int, hi as int).reverse());
        while i > lo
            invariant
                lo <= i <= hi,
                hi <= data@.len(),
                out@ == data@.subrange(i as int, hi as int).reverse(),
            decreases i - lo,
        {
            i = i - 1;
            out.push(data[i]);
            assert(out@ =~= data@.subrange(i as int, hi as int).reverse());
        }
    }
    proof {
        lemma_hex_chars_len(out@);
    }
    hex_encode(out.as_slice())
}

/// Concatenated stdcode encodings of stake documents.
pub open spec fn stake_docs_bytes(docs: Seq<StakeDoc>) -> Seq<u8>
    decreases docs.len(),
{
    if docs.len() == 0 {
        Seq::empty()
    } else {
        stake_docs_bytes(docs.drop_last()) + stdcode_stake_doc(docs.last())
    }
}

/// An epoch with an epoch both before and after it, so that a stake document
/// can be drawn that counts in it.
pub open spec fn is_inner_epoch(epoch: u64) -> bool {
    0 < epoch < u64::MAX - 1
}

/// Stake documents, framed: the offset word `0x40`, their hash in hex, their
/// byte length, then the bytes in hex, padded with zero bytes to 64-byte blocks.
pub open spec fn stakes_vector(stakes: Seq<u8>, hash: Seq<u8>) -> Seq<char> {
    word(0x40) + hex_chars(hash) + word(stakes.len()) + hex_chars(pad_block(stakes))
}

/// Frames stake documents and their hash (see `stakes_vector`).
pub fn stakes_abi(stakes: Vec<u8>, hash: &[u8; 32]) -> (res: String)
    ensures
        res@ == stakes_vector(stakes@, hash@),
{
    let mut s = String::new();
    push_word(&mut s, 0x40);
    push_hex(&mut s, hash);
    push_word(&mut s, stakes.len() as u128);
    let mut padded = stakes;
    pad_to_block(&mut padded);
    push_hex(&mut s, padded.as_slice());
    assert(s@ =~= stakes_vector(stakes@, hash@));
    s
}

/// Serializes a random stake document whose stake counts in `epoch`: `None`
/// exactly where `epoch` has no epoch both before and after it (0, and the two
/// largest values).
pub fn stake_doc_bytes_for_epoch(epoch: u64) -> (res: Option<Vec<u8>>)
    ensures
        res is Some <==> is_inner_epoch(epoch),
        res matches Some(b) ==> exists|d: StakeDoc| fits_epoch(epoch, d) && b@ == #[trigger] stdcode_stake_doc(d),
{
    if epoch == 0 || epoch >= u64::MAX - 1 {
        return None;
    }
    let doc = random_stakedoc(epoch);
    let encoded = serialize_stake_doc(&doc);
    assert(fits_epoch(epoch, doc) && encoded@ == stdcode_stake_doc(doc));
    Some(encoded)
}

/// `n` random epochs, each with an epoch both before and after it (drawn
/// uniformly from 1 to `u64::MAX - 2`: the epochs that a stake document can be
/// drawn for).
pub fn random_epochs(n: u32) -> (epochs: Vec<u64>)
    ensures
        epochs.len() == n,
        all_inner_epochs(epochs@),
{
    let mut epochs: Vec<u64> = Vec::new();
    let mut i: u32 = 0;
    while i < n
        invariant
            i <= n,
            epochs.len() == i,
            all_inner_epochs(epochs@),
        decreases n - i,
    {
        let e = random_u64_in(1, u64::MAX - 1);
        epochs.push(e);
        i = i + 1;
    }
    epochs
}

/// Every epoch has an epoch both before and after it.
pub open spec fn all_inner_epochs(epochs: Seq<u64>) -> bool {
    forall|i: int| 0 <= i < epochs.len() ==> is_inner_epoch(#[trigger] epochs[i])
}

/// Stake documents drawn for `epochs`, one each, each counting in its epoch.
pub open spec fn fits_epochs(epochs: Seq<u64>, docs: Seq<StakeDoc>) -> bool {
    &&& docs.len() == epochs.len()
    &&& forall|i: int| 0 <= i < docs.len() ==> fits_epoch(epochs[i], #[trigger] docs[i])
}

/// Serializes one random stake document for each epoch, one after the other:
/// `None` exactly where some epoch has no epoch both before and after it.
pub fn stake_bytes_for_epochs(epochs: &Vec<u64>) -> (res: Option<Vec<u8>>)
    ensures
        res is Some <==> all_inner_epochs(epochs@),
        res matches Some(b) ==> exists|docs: Seq<StakeDoc>|
            fits_epochs(epochs@, docs) && b@ == #[trigger] stake_docs_bytes(docs),
{
    let mut bytes: Vec<u8> = Vec::new();
    let ghost mut docs: Seq<StakeDoc> = Seq::empty();
    let mut i: usize = 0;
    while i < epochs.len()
        invariant
            i <= epochs.len(),
            all_inner_epochs(epochs@.take(i as int)),
            fits_epochs(epochs@.take(i as int), docs),
            bytes@ == stake_docs_bytes(docs),
        decreases epochs.len() - i,
    {
        let epoch = epochs[i];
        let mut encoded = match stake_doc_bytes_for_epoch(epoch) {
            Some(b) => b,
            None => {
                assert(!is_inner_epoch(epochs@[i as int]));
                return None;
            },
        };
        let ghost doc = choose|d: StakeDoc| fits_epoch(epoch, d) && encoded@ == #[trigger] stdcode_stake_doc(d);
        bytes.append(&mut encoded);
        proof {
            let old_docs = docs;
            docs = docs.push(doc);
            assert(docs.drop_last() =~= old_docs);
            assert(epochs@.take(i + 1).drop_last() =~= epochs@.take(i as int));
            assert forall|j: int| 0 <= j < i + 1 implies is_inner_epoch(#[trigger] epochs@.take(i + 1)[j]) by {
                if j < i {
                    assert(epochs@.take(i + 1)[j] == epochs@.take(i as int)[j]);
                }
            }
            assert forall|j: int| 0 <= j < docs.len() implies fits_epoch(epochs@.take(i + 1)[j], #[trigger] docs[j]) by {
                if j < i {
                    assert(epochs@.take(i + 1)[j] == epochs@.take(i as int)[j]);
                    assert(docs[j] == old_docs[j]);
                }
            }
        }
        i = i + 1;
    }
    assert(epochs@.take(epochs.len() as int) =~= epochs@);
    Some(bytes)
}

/// The framed vector of stake documents whose encodings are `stakes`, hashed
/// under the `smt_datablock` key.
pub open spec fn stake_docs_vector(stakes: Seq<u8>) -> Seq<char> {
    stakes_vector(stakes, labelled_digest(data_block_label(), stakes))
}

/// Hashes stake-document bytes under the `smt_datablock` key and frames them
/// (see `stake_docs_vector`).
pub fn frame_stake_docs(stakes: Vec<u8>) -> (res: String)
    ensures
        res@ == stake_docs_vector(stakes@),
        labelled_digest(data_block_label(), stakes@).len() == 32,
        res@.len() % 128 == 64,
{
    let key = data_block_hash_key();
    let hash = labelled_hash(&key, stakes.as_slice());
    let ghost b = stakes@;
    let s = stakes_abi(stakes, &hash);
    proof {
        crate::layout::lemma_stakes_vector_layout(b, hash@);
    }
    s
}

/// One random stake document for each epoch, serialized, hashed under the
/// `smt_datablock` key and framed: `None` exactly where some epoch has no epoch
/// both before and after it.
pub fn stakes_vector_for_epochs(epochs: &Vec<u64>) -> (res: Option<String>)
    ensures
        res is Some <==> all_inner_epochs(epochs@),
        res matches Some(s) ==> s@.len() % 128 == 64,
        res matches Some(s) ==> exists|docs: Seq<StakeDoc>|
            fits_epochs(epochs@, docs) && labelled_digest(data_block_label(), stake_docs_bytes(docs)).len()
                == 32 && s@ == #[trigger] stake_docs_vector(stake_docs_bytes(docs)),
{
    match stake_bytes_for_epochs(epochs) {
        Some(stakes) => {
            let ghost b = stakes@;
            let s = frame_stake_docs(stakes);
            proof {
                let docs = choose|docs: Seq<StakeDoc>| fits_epochs(epochs@, docs) && b == #[trigger] stake_docs_bytes(docs);
                assert(s@ == stake_docs_vector(stake_docs_bytes(docs)));
            }
            Some(s)
        },
        None => None,
    }
}

/// The stake documents of a list of draws.
pub open spec fn drawn_docs(draws: Seq<(u64, StakeDoc)>) -> Seq<StakeDoc> {
    draws.map_values(|d: (u64, StakeDoc)| d.1)
}

/// The epochs of a list of draws.
pub open spec fn drawn_epochs(draws: Seq<(u64, StakeDoc)>) -> Seq<u64> {
    draws.map_values(|d: (u64, StakeDoc)| d.0)
}

/// Draws of an epoch and a stake document each: where every epoch has an epoch
/// before and after it, each document counts in its epoch (otherwise no
/// document is used).
pub open spec fn is_stake_draw(draws: Seq<(u64, StakeDoc)>) -> bool {
    all_inner_epochs(drawn_epochs(draws)) ==> fits_epochs(drawn_epochs(draws), drawn_docs(draws))
}

/// The vector that stake draws give: `None` where some epoch has no epoch
/// before and after it, otherwise the framed vector of the drawn documents.
pub open spec fn drawn_stakes_vector(draws: Seq<(u64, StakeDoc)>) -> Option<Seq<char>> {
    if all_inner_epochs(drawn_epochs(draws)) {
        Some(stake_docs_vector(stake_docs_bytes(drawn_docs(draws))))
    } else {
        None
    }
}

/// The text of an optional string.
pub open spec fn text_of(s: Option<String>) -> Option<Seq<char>> {
    match s {
        Some(s) => Some(s@),
        None => None,
    }
}

/// Frames one random stake document for each epoch (see `stakes_vector_for_epochs`),
/// stating the result over the draws.
fn drawn_stakes(epochs: &Vec<u64>) -> (res: Option<String>)
    ensures
        res matches Some(s) ==> s@.len() % 128 == 64,
        exists|draws: Seq<(u64, StakeDoc)>|
            drawn_epochs(draws) == epochs@ && is_stake_draw(draws) && text_of(res) == #[trigger] drawn_stakes_vector(draws)
                && (res is Some ==> labelled_digest(data_block_label(), stake_docs_bytes(drawn_docs(draws))).len() == 32),
{
    let res = stakes_vector_for_epochs(epochs);
    proof {
        let e = epochs@;
        let r = res;
        if let Some(s) = r {
            let docs = choose|docs: Seq<StakeDoc>|
                fits_epochs(e, docs) && labelled_digest(data_block_label(), stake_docs_bytes(docs)).len() == 32
                    && s@ == #[trigger] stake_docs_vector(stake_docs_bytes(docs));
            let draws = Seq::new(e.len(), |i: int| (e[i], docs[i]));
            assert(drawn_epochs(draws) =~= e);
            assert(drawn_docs(draws) =~= docs);
            assert(text_of(res) == drawn_stakes_vector(draws));
        } else {
            let d = vstd::pervasive::arbitrary::<StakeDoc>();
            let draws = Seq::new(e.len(), |i: int| (e[i], d));
            assert(drawn_epochs(draws) =~= e);
            assert(text_of(res) == drawn_stakes_vector(draws));
        }
    }
    res
}

/// `num_stakedocs` random stake documents, each for a random epoch with an
/// epoch before and after it (see `random_epochs`), serialized, hashed under the
/// `smt_datablock` key and framed (see `drawn_stakes_vector`): a vector is given
/// for every number of documents.
pub fn verify_stakes_differential(num_stakedocs: u32) -> (res: Option<String>)
    ensures
        res is Some,
        num_stakedocs == 0 ==> (res matches Some(s) && s@ == stake_docs_vector(Seq::empty())),
        res matches Some(s) ==> s@.len() % 128 == 64,
        exists|draws: Seq<(u64, StakeDoc)>|
            draws.len() == num_stakedocs && is_stake_draw(draws) && text_of(res) == #[trigger] drawn_stakes_vector(draws)
                && (res is Some ==> labelled_digest(data_block_label(), stake_docs_bytes(drawn_docs(draws))).len() == 32),
{
    let epochs = random_epochs(num_stakedocs);
    let res = drawn_stakes(&epochs);
    proof {
        if num_stakedocs == 0 {
            let draws = choose|draws: Seq<(u64, StakeDoc)>|
                drawn_epochs(draws) == epochs@ && is_stake_draw(draws) && text_of(res) == #[trigger] drawn_stakes_vector(draws)
                    && (res is Some ==> labelled_digest(data_block_label(), stake_docs_bytes(drawn_docs(draws))).len() == 32);
            assert(drawn_docs(draws) =~= Seq::<StakeDoc>::empty());
        }
    }
    res
}

/// Fifty random stake documents, each for a random epoch with an epoch before
/// and after it, framed exactly as `verify_stakes_differential` frames fifty
/// (see `drawn_stakes_vector`): a vector is always given.
pub fn big_hash_differential() -> (res: Option<String>)
    ensures
        res is Some,
        res matches Some(s) ==> s@.len() % 128 == 64,
        exists|draws: Seq<(u64, StakeDoc)>|
            draws.len() == 50 && is_stake_draw(draws) && text_of(res) == #[trigger] drawn_stakes_vector(draws)
                && (res is Some ==> labelled_digest(data_block_label(), stake_docs_bytes(drawn_docs(draws))).len() == 32),
{
    let epochs = random_epochs(50);
    drawn_stakes(&epochs)
}

/// A header and its encoding, framed: the offset word `0x80`, the height, the
/// transactions hash and the stakes hash in hex, the encoding's byte length,
/// then the encoding in hex, padded with zero bytes to 64-byte blocks (and with
/// `0` digits to at least one word).
pub open spec fn header_vector(h: Header, encoded: Seq<u8>) -> Seq<char> {
    word(0x80) + word(h.height as nat) + hex_chars(h.transactions_hash@) + hex_chars(
        h.stakes_hash@,
    ) + word(encoded.len()) + pad_right(hex_chars(pad_block(encoded)), 64)
}

/// Frames a header and its encoding (see `header_vector`).
pub fn header_abi(h: &Header, encoded: Vec<u8>) -> (res: String)
    ensures
        res@ == header_vector(*h, encoded@),
        word_at(res@, 0) == word(0x80),
        word_at(res@, 64) == word(h.height as nat),
        hex_number(word_at(res@, 64)) == h.height,
        res@.subrange(128, 192) == hex_chars(h.transactions_hash@),
        res@.subrange(192, 256) == hex_chars(h.stakes_hash@),
        word_at(res@, 2 * 0x80) == word(encoded@.len()),
        res@.subrange(320, 320 + 2 * encoded@.len() as int) == hex_chars(encoded@),
{
    let mut s = String::new();
    push_word(&mut s, 0x80);
    push_word(&mut s, h.height as u128);
    push_hex(&mut s, &h.transactions_hash);
    push_hex(&mut s, &h.stakes_hash);
    push_word(&mut s, encoded.len() as u128);
    let mut padded = encoded;
    pad_to_block(&mut padded);
    push_hex(&mut s, padded.as_slice());
    proof {
        lemma_hex_chars_len(padded@);
    }
    if padded.len() < 32 {
        push_zeros(&mut s, 64 - 2 * padded.len());
    }
    assert(s@ =~= header_vector(*h, encoded@));
    proof {
        crate::layout::lemma_header_vector_head(*h, encoded@);
        crate::layout::lemma_header_vector_layout(*h, encoded@);
    }
    s
}

/// A random header under `modifier` (see `random_header`), serialized and framed
/// (see `header_vector`).
pub fn decode_header_differential(modifier: u128) -> (res: String)
    ensures
        res@.len() % 64 == 0,
        exists|h: Header|
            fits_modifier(modifier, h) && res@ == #[trigger] header_vector(h, stdcode_header(h))
                && hex_number(word_at(res@, 64)) == h.height && res@.subrange(128, 192) == hex_chars(
                h.transactions_hash@,
            ) && res@.subrange(192, 256) == hex_chars(h.stakes_hash@) && word_at(res@, 2 * 0x80) == word(
                stdcode_header(h).len(),
            ) && res@.subrange(320, 320 + 2 * stdcode_header(h).len() as int) == hex_chars(stdcode_header(h)),
{
    let h = random_header(modifier);
    match serialize_header(&h) {
        Some(encoded) => {
            let s = header_abi(&h, encoded);
            assert(s@ == header_vector(h, stdcode_header(h)));
            proof {
                crate::layout::lemma_header_vector_layout(h, stdcode_header(h));
            }
            s
        },
        None => String::new(),
    }
}

/// Replaces the first output of a transaction, leaving all else as it was.
pub fn replace_first_output(t: &mut Transaction, out: CoinData)
    requires
        old(t).outputs.len() >= 1,
    ensures
        final(t).outputs@ == old(t).outputs@.update(0, out),
        final(t).kind == old(t).kind,
        final(t).inputs@ == old(t).inputs@,
        final(t).fee == old(t).fee,
        final(t).covenants@ == old(t).covenants@,
        final(t).data@ == old(t).data@,
        final(t).sigs@ == old(t).sigs@,
{
    t.outputs[0] = out;
}

/// A random swap transaction whose first output is the coin of `covhash`,
/// `value`, `denom` and `data`: its other outputs are random MEL coins, and it
/// has between 1 and 31 inputs, outputs, covenants and signatures, covenants and
/// signatures of fewer than 32 bytes, and 2 bytes of data.
pub open spec fn is_vector_transaction(
    t: Transaction,
    covhash: [u8; 32],
    value: u128,
    denom: Seq<u8>,
    data: Seq<u8>,
) -> bool {
    &&& t.kind == SWAP
    &&& 1 <= t.inputs.len() < 32
    &&& 1 <= t.outputs.len() < 32
    &&& 1 <= t.covenants.len() < 32
    &&& 1 <= t.sigs.len() < 32
    &&& t.data.len() == 2
    &&& t.outputs[0].covhash == covhash
    &&& t.outputs[0].value == value
    &&& t.outputs[0].denom@ == denom
    &&& t.outputs[0].additional_data@ == data
    &&& forall|i: int| 1 <= i < t.outputs.len() ==> is_random_coin(#[trigger] t.outputs[i])
    &&& forall|i: int| 0 <= i < t.covenants.len() ==> (#[trigger] t.covenants[i]).len() < 32
    &&& forall|i: int| 0 <= i < t.sigs.len() ==> (#[trigger] t.sigs[i]).len() < 32
}

/// A random swap transaction whose first output pays `value` in `denom` to
/// `covhash` with the bytes that `recipient` holds in hex, serialized, in hex.
/// `None` where `recipient` is not hex or `denom` is not the byte form of a
/// denomination (see `is_denom_bytes`).
#[verifier::spinoff_prover]
pub fn decode_transaction_differential(
    covhash: [u8; 32],
    value: u128,
    denom: Vec<u8>,
    recipient: &str,
) -> (res: Option<String>)
    ensures
        res is Some <==> hex_decoded(recipient@) is Some && is_denom_bytes(denom@),
        res matches Some(s) ==> exists|t: Transaction|
            is_vector_transaction(t, covhash, value, denom@, hex_decoded(recipient@).unwrap()) && s@
                == #[trigger] hex_chars(stdcode_transaction(t)),
{
    let mut t = random_transaction();
    if !is_denom_form(&denom) {
        return None;
    }
    let ghost d = denom@;
    match hex_decode(recipient) {
        Some(data) => {
            let out = CoinData { covhash, value, denom, additional_data: data };
            replace_first_output(&mut t, out);
            assert(forall|i: int| 1 <= i < t.outputs.len() ==> is_random_coin(#[trigger] t.outputs[i]));
            assert(is_vector_transaction(t, covhash, value, d, hex_decoded(recipient@).unwrap()));
            assert forall|i: int| 0 <= i < t.outputs.len() implies is_denom_bytes(#[trigger] t.outputs[i].denom@) by {
                if i > 0 {
                    assert(is_random_coin(t.outputs[i]));
                }
            }
            let ghost tv = t;
            let encoded = serialize_transaction(t);
            let s = hex_encode(encoded.as_slice());
            assert(s@ == hex_chars(stdcode_transaction(tv)));
            Some(s)
        },
        None => None,
    }
}

} // verus!
