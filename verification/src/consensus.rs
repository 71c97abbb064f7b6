//! Test vectors for verifying a block header against the stakes of an epoch.

use vstd::prelude::*;
use vstd::string::StringExecFns;
use crate::abi::{pad_block, pad_right, pad_to_block, padding_len, push_word, push_zeros, word};
use crate::crypto::{
    data_block_hash_key, data_block_label, ed25519_keygen, ed25519_signature, labelled_digest,
    labelled_hash, sign_message,
};
use crate::vectors::{push_hex, stake_docs_bytes};
use crate::encoding::{serialize_u128, serialize_header, serialize_stake_doc, stdcode_header, stdcode_stake_doc, varint};
use crate::generate::{fits_epoch, random_header, random_stakedoc};
use crate::hexcode::{hex_chars, hex_decode, lemma_hex_chars_concat, lemma_hex_chars_len, lemma_hex_roundtrip};
use crate::model::{Header, MAINNET, StakeDoc};
use crate::random::{random_u128, random_u64_in};

verus! {

/// Blocks per stake epoch.
pub const STAKE_EPOCH: u64 = 2_000_000;

/// The height of the verifying header: in the epoch before `epoch`, at the same
/// offset within its epoch as `height`.
pub open spec fn verifier_height_of(epoch: u64, height: u64) -> int {
    (epoch - 1) * STAKE_EPOCH + height % STAKE_EPOCH
}

/// Moves `height` into the epoch before `epoch`, keeping its offset in the epoch.
pub fn verifier_height(epoch: u64, height: u64) -> (res: u64)
    requires
        1 <= epoch,
        verifier_height_of(epoch, height) <= u64::MAX,
    ensures
        res == verifier_height_of(epoch, height),
        res / STAKE_EPOCH == epoch - 1,
        res % STAKE_EPOCH == height % STAKE_EPOCH,
{
    let r = height % STAKE_EPOCH;
    assert((epoch - 1) * STAKE_EPOCH <= verifier_height_of(epoch, height));
    let base = (epoch - 1) * STAKE_EPOCH;
    let res = base + r;
    assert(res / STAKE_EPOCH == epoch - 1 && res % STAKE_EPOCH == r) by (nonlinear_arith)
        requires
            res == (epoch - 1) * STAKE_EPOCH + r,
            r < STAKE_EPOCH,
            STAKE_EPOCH == 2_000_000,
            epoch >= 1,
    ;
    res
}

/// Syms staked by all the documents.
pub open spec fn total_syms(docs: Seq<StakeDoc>) -> int
    decreases docs.len(),
{
    if docs.len() == 0 {
        0
    } else {
        total_syms(docs.drop_last()) + docs.last().syms_staked
    }
}

/// A document whose stake counts in the epoch after `epoch`.
pub open spec fn counts_next_epoch(d: StakeDoc, epoch: u64) -> bool {
    d.e_start <= epoch + 1 < d.e_post_end
}

/// Syms staked by the documents whose stake counts in the epoch after `epoch`.
pub open spec fn next_epoch_syms(docs: Seq<StakeDoc>, epoch: u64) -> int
    decreases docs.len(),
{
    if docs.len() == 0 {
        0
    } else {
        next_epoch_syms(docs.drop_last(), epoch) + if counts_next_epoch(docs.last(), epoch) {
            docs.last().syms_staked as int
        } else {
            0
        }
    }
}

/// The syms counted for the next epoch are among all syms staked, and sums over
/// fewer documents are no larger.
pub proof fn lemma_next_epoch_within_total(docs: Seq<StakeDoc>, epoch: u64)
    ensures
        0 <= next_epoch_syms(docs, epoch) <= total_syms(docs),
        forall|k: int| 0 <= k <= docs.len() ==> #[trigger] total_syms(docs.take(k)) <= total_syms(docs),
        forall|k: int|
            0 <= k <= docs.len() ==> #[trigger] next_epoch_syms(docs.take(k), epoch) <= next_epoch_syms(
                docs,
                epoch,
            ),
    decreases docs.len(),
{
    if docs.len() > 0 {
        let p = docs.drop_last();
        lemma_next_epoch_within_total(p, epoch);
        assert forall|k: int| 0 <= k <= docs.len() implies #[trigger] total_syms(docs.take(k))
            <= total_syms(docs) by {
            if k < docs.len() {
                assert(docs.take(k) =~= p.take(k));
            } else {
                assert(docs.take(k) =~= docs);
            }
        }
        assert forall|k: int| 0 <= k <= docs.len() implies #[trigger] next_epoch_syms(docs.take(k), epoch)
            <= next_epoch_syms(docs, epoch) by {
            if k < docs.len() {
                assert(docs.take(k) =~= p.take(k));
            } else {
                assert(docs.take(k) =~= docs);
            }
        }
    } else {
        assert forall|k: int| 0 <= k <= docs.len() implies #[trigger] total_syms(docs.take(k))
            <= total_syms(docs) by {
            assert(docs.take(k) =~= docs);
        }
        assert forall|k: int| 0 <= k <= docs.len() implies #[trigger] next_epoch_syms(docs.take(k), epoch)
            <= next_epoch_syms(docs, epoch) by {
            assert(docs.take(k) =~= docs);
        }
    }
}

/// Every document staking fewer than `bound` syms keeps the total below
/// `bound` times the number of documents.
pub proof fn lemma_total_bound(docs: Seq<StakeDoc>, bound: int)
    requires
        forall|i: int| 0 <= i < docs.len() ==> (#[trigger] docs[i]).syms_staked < bound,
    ensures
        total_syms(docs) <= bound * docs.len(),
    decreases docs.len(),
{
    if docs.len() > 0 {
        let p = docs.drop_last();
        assert forall|i: int| 0 <= i < p.len() implies (#[trigger] p[i]).syms_staked < bound by {
            assert(p[i] == docs[i]);
        }
        lemma_total_bound(p, bound);
        assert(bound * docs.len() == bound * p.len() + bound) by (nonlinear_arith)
            requires
                docs.len() == p.len() + 1,
        ;
    }
}

/// The syms staked by all documents, and by those whose stake counts in the
/// epoch after `epoch`.
#[verifier::spinoff_prover]
pub fn stake_totals(docs: &Vec<StakeDoc>, epoch: u64) -> (res: (u128, u128))
    requires
        total_syms(docs@) <= u128::MAX,
    ensures
        res.0 == total_syms(docs@),
        res.1 == next_epoch_syms(docs@, epoch),
{
    proof {
        lemma_next_epoch_within_total(docs@, epoch);
    }
    let mut all: u128 = 0;
    let mut next: u128 = 0;
    let mut i: usize = 0;
    while i < docs.len()
        invariant
            i <= docs.len(),
            total_syms(docs@) <= u128::MAX,
            all == total_syms(docs@.take(i as int)),
            next == next_epoch_syms(docs@.take(i as int), epoch),
            forall|k: int| 0 <= k <= docs@.len() ==> #[trigger] total_syms(docs@.take(k)) <= total_syms(docs@),
            forall|k: int|
                0 <= k <= docs@.len() ==> #[trigger] next_epoch_syms(docs@.take(k), epoch) <= next_epoch_syms(
                    docs@,
                    epoch,
                ),
            next_epoch_syms(docs@, epoch) <= total_syms(docs@),
        decreases docs.len() - i,
    {
        let d = docs[i];
        assert(docs@.take(i + 1).drop_last() =~= docs@.take(i as int));
        assert(docs@.take(i + 1).last() == d);
        assert(total_syms(docs@.take(i + 1)) <= total_syms(docs@));
        all = all + d.syms_staked;
        if (d.e_start as u128) <= (epoch as u128) + 1 && (d.e_post_end as u128) > (epoch as u128) + 1 {
            assert(next_epoch_syms(docs@.take(i + 1), epoch) <= next_epoch_syms(docs@, epoch));
            next = next + d.syms_staked;
        }
        i = i + 1;
    }
    assert(docs@.take(docs@.len() as int) =~= docs@);
    (all, next)
}

/// Hex encodings of byte strings, one after the other.
pub open spec fn hex_list(items: Seq<Seq<u8>>) -> Seq<char>
    decreases items.len(),
{
    if items.len() == 0 {
        Seq::empty()
    } else {
        hex_list(items.drop_last()) + hex_chars(items.last())
    }
}

/// A header proof, framed: the verifier's height, the stakes hash in hex, the
/// offsets of the three dynamic arguments (`0xa0`, then each after the one
/// before it), the header's byte length and its bytes in hex padded with zero
/// bytes to 64-byte blocks, the stakes' byte length and their hex padded with
/// `0` digits to 64-digit words, and the signatures' word count and their hex.
pub open spec fn header_proof_vector(
    verifier_height: u64,
    stakes_hash: Seq<u8>,
    header: Seq<u8>,
    stakes: Seq<char>,
    signatures: Seq<Seq<u8>>,
) -> Seq<char> {
    let hp = pad_block(header);
    let sp = pad_right(stakes, stakes.len() + padding_len(stakes.len()));
    word(verifier_height as nat) + hex_chars(stakes_hash) + word(0xa0) + word(0xc0 + hp.len()) + word(
        0xe0 + hp.len() + sp.len() / 2,
    ) + word(header.len()) + hex_chars(hp) + word(stakes.len() / 2) + sp + word(
        2 * signatures.len(),
    ) + hex_list(signatures)
}

proof fn lemma_double_padding(n: nat)
    ensures
        padding_len(2 * n) == (if n % 32 == 0 {
            0
        } else {
            64 - 2 * (n % 32)
        }),
{
    assert((2 * n) % 64 == 2 * (n % 32)) by (nonlinear_arith);
}

/// Frames a header proof (see `header_proof_vector`); `stakes` is hex text of
/// `stakes_len` bytes.
#[verifier::spinoff_prover]
pub fn verify_header_abi(
    verifier_height: u64,
    stakes_hash: &[u8; 32],
    header: Vec<u8>,
    stakes: String,
    stakes_len: usize,
    signatures: &Vec<Vec<u8>>,
) -> (res: String)
    requires
        stakes@.len() == 2 * stakes_len,
    ensures
        res@ == header_proof_vector(verifier_height, stakes_hash@, header@, stakes@, signatures@.map_values(|s: Vec<u8>| s@)),
{
    let ghost sigs = signatures@.map_values(|s: Vec<u8>| s@);
    let ghost hv = header@;
    let ghost st = stakes@;
    let header_len = header.len();
    let mut padded = header;
    pad_to_block(&mut padded);
    let hp_len = padded.len() as u128;
    proof {
        lemma_double_padding(stakes_len as nat);
    }
    let stakes_pad: usize = if stakes_len % 32 == 0 {
        0
    } else {
        64 - 2 * (stakes_len % 32)
    };
    let sp_half = stakes_len as u128 + (stakes_pad / 2) as u128;
    let mut s = String::new();
    push_word(&mut s, verifier_height as u128);
    push_hex(&mut s, stakes_hash);
    push_word(&mut s, 0xa0);
    push_word(&mut s, 0xc0 + hp_len);
    push_word(&mut s, 0xe0 + hp_len + sp_half);
    push_word(&mut s, header_len as u128);
    push_hex(&mut s, padded.as_slice());
    push_word(&mut s, stakes_len as u128);
    let mut sp = stakes;
    push_zeros(&mut sp, stakes_pad);
    s.append(sp.as_str());
    push_word(&mut s, 2 * (signatures.len() as u128));
    let ghost prefix = s@;
    let mut i: usize = 0;
    while i < signatures.len()
        invariant
            i <= signatures.len(),
            sigs == signatures@.map_values(|s: Vec<u8>| s@),
            s@ == prefix + hex_list(sigs.take(i as int)),
        decreases signatures.len() - i,
    {
        push_hex(&mut s, signatures[i].as_slice());
        assert(sigs.take(i + 1).drop_last() =~= sigs.take(i as int));
        i = i + 1;
    }
    assert(sigs.take(signatures.len() as int) =~= sigs);
    assert(s@ =~= header_proof_vector(verifier_height, stakes_hash@, hv, st, sigs));
    s
}

/// The signatures by each secret key of the header bytes.
pub open spec fn header_signatures(sks: Seq<Seq<u8>>, header: Seq<u8>) -> Seq<Seq<u8>> {
    sks.map_values(|sk: Seq<u8>| ed25519_signature(sk, header))
}

/// The stakes of an epoch as bytes: the syms staked, the syms that count in the
/// next epoch, and the stake documents.
pub open spec fn stakes_bytes(docs: Seq<StakeDoc>, epoch: u64) -> Seq<u8> {
    varint(total_syms(docs) as u128) + varint(next_epoch_syms(docs, epoch) as u128) + stake_docs_bytes(docs)
}

/// The header proof that a verifier at `verifier_height` checks: `header`
/// signed by each secret key of `sks`, and the stakes of `docs` in `epoch`
/// with their hash under the `smt_datablock` key.
pub open spec fn header_proof_of(
    verifier_height: u64,
    header: Header,
    docs: Seq<StakeDoc>,
    sks: Seq<Seq<u8>>,
    epoch: u64,
) -> Seq<char> {
    let hb = stdcode_header(header);
    let st = stakes_bytes(docs, epoch);
    header_proof_vector(
        verifier_height,
        labelled_digest(data_block_label(), st),
        hb,
        hex_chars(st),
        header_signatures(sks, hb),
    )
}

/// What a random header proof is drawn from: an epoch below `u32::MAX` with one
/// before it; a verifier in the epoch before; a main-network header one block
/// above the verifier; and `num` stake documents whose stakes count in the
/// epoch, each with the public half of its secret key.
pub open spec fn is_header_draw(
    num: u32,
    epoch: u64,
    verifier_height: u64,
    header: Header,
    docs: Seq<StakeDoc>,
    sks: Seq<Seq<u8>>,
) -> bool {
    &&& 1 <= epoch < u32::MAX
    &&& verifier_height / STAKE_EPOCH == epoch - 1
    &&& header.network == MAINNET
    &&& header.height == verifier_height + 1
    &&& docs.len() == num
    &&& sks.len() == num
    &&& forall|i: int|
        0 <= i < num ==> {
            &&& fits_epoch(epoch, #[trigger] docs[i])
            &&& sks[i].len() == 64
            &&& docs[i].pubkey@ == sks[i].subrange(32, 64)
        }
}

/// The widths that a header proof's fields take: a 32-byte stakes hash and
/// 64-byte signatures.
pub open spec fn has_fixed_widths(header: Header, docs: Seq<StakeDoc>, sks: Seq<Seq<u8>>, epoch: u64) -> bool {
    &&& labelled_digest(data_block_label(), stakes_bytes(docs, epoch)).len() == 32
    &&& forall|i: int| 0 <= i < sks.len() ==> (#[trigger] ed25519_signature(sks[i], stdcode_header(header))).len() == 64
}

/// A random header proof with `num_stakedocs` stakers for the epoch `epoch`
/// (see `is_header_draw` and `header_proof_of`): `None` exactly for epoch 0,
/// which has no epoch before it.
#[verifier::spinoff_prover]
pub fn verify_header_for_epoch(num_stakedocs: u32, epoch: u64) -> (res: Option<String>)
    requires
        epoch < u32::MAX,
    ensures
        res is Some <==> epoch != 0,
        res matches Some(s) ==> s@.len() % 64 == 0,
        res matches Some(s) ==> exists|vh: u64, header: Header, docs: Seq<StakeDoc>, sks: Seq<Seq<u8>>|
            is_header_draw(num_stakedocs, epoch, vh, header, docs, sks) && has_fixed_widths(header, docs, sks, epoch)
                && s@ == #[trigger] header_proof_of(
                vh,
                header,
                docs,
                sks,
                epoch,
            ),
{
    if epoch == 0 {
        return None;
    }
    let verifier = random_header(random_u128());
    assert(verifier_height_of(epoch, verifier.height) < 0xffff_ffff * 2_000_000) by (nonlinear_arith)
        requires
            1 <= epoch < u32::MAX,
            verifier_height_of(epoch, verifier.height) == (epoch - 1) * 2_000_000 + verifier.height % 2_000_000,
    ;
    let vh = verifier_height(epoch, verifier.height);
    let mut header = random_header(random_u128());
    header.height = vh + 1;
    let header_bytes = match serialize_header(&header) {
        Some(b) => b,
        None => return None,
    };
    let ghost hb = header_bytes@;
    let mut docs: Vec<StakeDoc> = Vec::new();
    let mut signatures: Vec<Vec<u8>> = Vec::new();
    let mut docs_hex = String::new();
    let ghost mut sks: Seq<Seq<u8>> = Seq::empty();
    let mut i: u32 = 0;
    while i < num_stakedocs
        invariant
            i <= num_stakedocs,
            1 <= epoch < u32::MAX,
            hb == header_bytes@,
            docs@.len() == i,
            sks.len() == i,
            signatures@.map_values(|s: Vec<u8>| s@) == header_signatures(sks, hb),
            docs_hex@ == hex_chars(stake_docs_bytes(docs@)),
            forall|j: int| 0 <= j < sks.len() ==> (#[trigger] ed25519_signature(sks[j], hb)).len() == 64,
            forall|j: int|
                0 <= j < i ==> {
                    &&& fits_epoch(epoch, #[trigger] docs@[j])
                    &&& sks[j].len() == 64
                    &&& docs@[j].pubkey@ == sks[j].subrange(32, 64)
                },
        decreases num_stakedocs - i,
    {
        let mut doc = random_stakedoc(epoch);
        let (pk, sk) = ed25519_keygen();
        doc.pubkey = pk;
        let sig = sign_message(&sk, header_bytes.as_slice());
        let ghost old_sigs = signatures@;
        let ghost old_docs = docs@;
        signatures.push(sig);
        let encoded = serialize_stake_doc(&doc);
        push_hex(&mut docs_hex, encoded.as_slice());
        docs.push(doc);
        proof {
            let old_sks = sks;
            sks = sks.push(sk@);
            let new_map = signatures@.map_values(|s: Vec<u8>| s@);
            let old_map = old_sigs.map_values(|s: Vec<u8>| s@);
            assert(old_map.len() == old_sks.len());
            assert(new_map.len() == sks.len());
            assert forall|j: int| 0 <= j < new_map.len() implies new_map[j] == header_signatures(sks, hb)[j] by {
                assert(new_map[j] == signatures@[j]@);
                if j < old_sigs.len() {
                    assert(signatures@[j] == old_sigs[j]);
                    assert(old_map[j] == old_sigs[j]@);
                    assert(old_map[j] == header_signatures(old_sks, hb)[j]);
                    assert(sks[j] == old_sks[j]);
                } else {
                    assert(signatures@[j] == sig);
                    assert(sks[j] == sk@);
                }
            }
            assert forall|j: int| 0 <= j < i + 1 implies {
                &&& fits_epoch(epoch, #[trigger] docs@[j])
                &&& sks[j].len() == 64
                &&& docs@[j].pubkey@ == sks[j].subrange(32, 64)
            } by {
                if j < i {
                    assert(docs@[j] == old_docs[j]);
                    assert(sks[j] == old_sks[j]);
                } else {
                    assert(docs@[j] == doc);
                    assert(sks[j] == sk@);
                }
            }
            lemma_hex_chars_concat(stake_docs_bytes(old_docs), stdcode_stake_doc(doc));
            assert(docs@.drop_last() =~= old_docs);
            assert(signatures@.map_values(|s: Vec<u8>| s@) =~= header_signatures(sks, hb));
        }
        i = i + 1;
    }
    proof {
        lemma_total_bound(docs@, 0xffff_ffff);
        assert(0xffff_ffff * docs@.len() <= 0xffff_ffff * 0xffff_ffff) by (nonlinear_arith)
            requires
                docs@.len() <= 0xffff_ffff,
        ;
        lemma_next_epoch_within_total(docs@, epoch);
    }
    let (epoch_syms, next_syms) = stake_totals(&docs, epoch);
    let mut stakes = String::new();
    let all_bytes = serialize_u128(epoch_syms);
    push_hex(&mut stakes, all_bytes.as_slice());
    let next_bytes = serialize_u128(next_syms);
    push_hex(&mut stakes, next_bytes.as_slice());
    stakes.append(docs_hex.as_str());
    let ghost st = stakes_bytes(docs@, epoch);
    proof {
        lemma_hex_chars_concat(all_bytes@, next_bytes@);
        lemma_hex_chars_concat(all_bytes@ + next_bytes@, stake_docs_bytes(docs@));
        assert(stakes@ =~= hex_chars(st));
        lemma_hex_roundtrip(st);
        lemma_hex_chars_len(st);
    }
    let bytes = match hex_decode(stakes.as_str()) {
        Some(b) => b,
        None => return None,
    };
    let key = data_block_hash_key();
    let stakes_hash = labelled_hash(&key, bytes.as_slice());
    let s = verify_header_abi(vh, &stakes_hash, header_bytes, stakes, bytes.len(), &signatures);
    assert(s@ == header_proof_of(vh, header, docs@, sks, epoch));
    assert(is_header_draw(num_stakedocs, epoch, vh, header, docs@, sks));
    proof {
        let sigs = header_signatures(sks, hb);
        assert forall|j: int| 0 <= j < sigs.len() implies (#[trigger] sigs[j]).len() == 64 by {
            assert(sigs[j] == ed25519_signature(sks[j], hb));
        }
        assert(stakes_hash@.len() == 32);
        crate::layout::lemma_header_proof_aligned(vh, stakes_hash@, hb, hex_chars(st), sigs);
        assert(has_fixed_widths(header, docs@, sks, epoch));
    }
    Some(s)
}

/// A random header proof with `num_stakedocs` stakers, for a random epoch below
/// `u32::MAX` (see `verify_header_for_epoch`). The epoch is drawn from 1 up,
/// since epoch 0 has no epoch before it and gives no proof; so a proof is given
/// for every number of stakers.
pub fn verify_header_differential(num_stakedocs: u32) -> (res: Option<String>)
    ensures
        res is Some,
        res matches Some(s) ==> s@.len() % 64 == 0,
        res matches Some(s) ==> exists|epoch: u64, vh: u64, header: Header, docs: Seq<StakeDoc>, sks: Seq<Seq<u8>>|
            0 < epoch < u32::MAX && is_header_draw(num_stakedocs, epoch, vh, header, docs, sks) && has_fixed_widths(header, docs, sks, epoch)
                && s@ == #[trigger] header_proof_of(
                vh,
                header,
                docs,
                sks,
                epoch,
            ),
{
    let epoch = random_u64_in(1, 0xffff_ffff);
    let res = verify_header_for_epoch(num_stakedocs, epoch);
    proof {
        let r = res;
        if let Some(s) = r {
            let (vh, header, docs, sks) = choose|vh: u64, header: Header, docs: Seq<StakeDoc>, sks: Seq<Seq<u8>>|
                is_header_draw(num_stakedocs, epoch, vh, header, docs, sks) && has_fixed_widths(header, docs, sks, epoch)
                    && s@ == #[trigger] header_proof_of(
                    vh,
                    header,
                    docs,
                    sks,
                    epoch,
                );
            assert(is_header_draw(num_stakedocs, epoch, vh, header, docs, sks) && has_fixed_widths(header, docs, sks, epoch)
                && s@ == header_proof_of(vh, header, docs, sks, epoch));
        }
    }
    res
}

} // verus!
