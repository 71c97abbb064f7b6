//! The stdcode binary encoding (bincode with variable-length integers, little
//! endian) of integers and of the chain values in `model`.

use vstd::prelude::*;
use vstd::arithmetic::power::{pow, lemma_pow_positive};
use vstd::arithmetic::div_mod::{lemma_breakdown, lemma_small_mod};
use melstructs as ms;
use melstructs::{Address, CoinID, CoinValue, Denom};
use melstructs::CoinData as OutsideCoin;
use melstructs::Transaction as OutsideTransaction;
use tmelcrypt::HashVal;
use crate::model::{CoinData, CoinId, Header, StakeDoc, Transaction, is_denom_bytes, is_network_code, is_tx_kind_code};

verus! {

/// The lowest `k` bytes of `n`, least significant first.
pub open spec fn le_bytes(n: nat, k: nat) -> Seq<u8>
    decreases k,
{
    if k == 0 {
        Seq::empty()
    } else {
        seq![(n % 256) as u8] + le_bytes(n / 256, (k - 1) as nat)
    }
}

/// Variable-length encoding of an unsigned integer: values up to 250 are one
/// byte; larger ones are a tag byte (251, 252, 253, 254) followed by the value
/// as a little-endian integer of 2, 4, 8 or 16 bytes, the smallest that holds it.
pub open spec fn varint(n: u128) -> Seq<u8> {
    if n <= 250 {
        seq![n as u8]
    } else if n <= 0xffff {
        seq![251u8] + le_bytes(n as nat, 2)
    } else if n <= 0xffff_ffff {
        seq![252u8] + le_bytes(n as nat, 4)
    } else if n <= 0xffff_ffff_ffff_ffff {
        seq![253u8] + le_bytes(n as nat, 8)
    } else {
        seq![254u8] + le_bytes(n as nat, 16)
    }
}

/// `le_bytes` gives exactly `k` bytes.
pub proof fn lemma_le_bytes_len(n: nat, k: nat)
    ensures
        le_bytes(n, k).len() == k,
    decreases k,
{
    if k > 0 {
        lemma_le_bytes_len(n / 256, (k - 1) as nat);
    }
}

/// The number that little-endian bytes spell.
pub open spec fn le_value(b: Seq<u8>) -> nat
    decreases b.len(),
{
    if b.len() == 0 {
        0
    } else {
        b[0] as nat + 256 * le_value(b.drop_first())
    }
}

/// `le_bytes` keeps `n` modulo `256^k`.
pub proof fn lemma_le_bytes_value(n: nat, k: nat)
    ensures
        le_value(le_bytes(n, k)) as int == (n as int) % pow(256, k),
    decreases k,
{
    reveal(pow);
    lemma_pow_positive(256, k);
    if k == 0 {
        assert((n as int) % 1 == 0);
    } else {
        let m = pow(256, (k - 1) as nat);
        lemma_le_bytes_value(n / 256, (k - 1) as nat);
        let b = le_bytes(n, k);
        assert(b.drop_first() =~= le_bytes(n / 256, (k - 1) as nat));
        lemma_pow_positive(256, (k - 1) as nat);
        assert(pow(256, k) == 256 * m);
        lemma_breakdown(n as int, 256, m);
        assert((n / 256) as int == (n as int) / 256);
    }
}

proof fn lemma_le_bytes_injective(a: nat, b: nat, k: nat)
    requires
        a < pow(256, k),
        b < pow(256, k),
        le_bytes(a, k) == le_bytes(b, k),
    ensures
        a == b,
{
    lemma_le_bytes_value(a, k);
    lemma_le_bytes_value(b, k);
    lemma_small_mod(a, pow(256, k) as nat);
    lemma_small_mod(b, pow(256, k) as nat);
}

/// Different integers have different encodings.
#[verifier::spinoff_prover]
pub proof fn lemma_varint_injective(a: u128, b: u128)
    ensures
        (varint(a) == varint(b)) == (a == b),
{
    if varint(a) == varint(b) {
        lemma_varint_len(a);
        lemma_varint_len(b);
        reveal_with_fuel(pow, 17);
        assert(pow(256, 2) == 0x1_0000);
        assert(pow(256, 4) == 0x1_0000_0000);
        assert(pow(256, 8) == 0x1_0000_0000_0000_0000);
        assert(pow(256, 16) == 0x1_0000_0000_0000_0000_0000_0000_0000_0000);
        if a <= 250 {
            assert(varint(a)[0] == a as u8);
            assert(varint(b)[0] == b as u8);
        } else {
            let k: nat = if a <= 0xffff {
                2
            } else if a <= 0xffff_ffff {
                4
            } else if a <= 0xffff_ffff_ffff_ffff {
                8
            } else {
                16
            };
            assert(varint(a).drop_first() =~= le_bytes(a as nat, k));
            assert(varint(b).drop_first() =~= le_bytes(b as nat, k));
            lemma_le_bytes_injective(a as nat, b as nat, k);
        }
    }
}

/// An integer takes 1, 3, 5, 9 or 17 bytes: the fewest its size class allows.
pub proof fn lemma_varint_len(n: u128)
    ensures
        varint(n).len() == (if n <= 250 {
            1nat
        } else if n <= 0xffff {
            3nat
        } else if n <= 0xffff_ffff {
            5nat
        } else if n <= 0xffff_ffff_ffff_ffff {
            9nat
        } else {
            17nat
        }),
{
    lemma_le_bytes_len(n as nat, 2);
    lemma_le_bytes_len(n as nat, 4);
    lemma_le_bytes_len(n as nat, 8);
    lemma_le_bytes_len(n as nat, 16);
}

/// The stdcode encoding of a header. Bincode writes a struct's fields in order
/// with nothing between them: the network as its one-byte code, each hash as
/// its 32 bytes (a fixed-size array has no length prefix), the height and the
/// amounts as variable-length integers.
pub open spec fn stdcode_header(h: Header) -> Seq<u8> {
    seq![h.network] + h.previous@ + varint(h.height as u128) + h.history_hash@ + h.coins_hash@
        + h.transactions_hash@ + varint(h.fee_pool) + varint(h.fee_multiplier) + varint(h.dosc_speed)
        + h.pools_hash@ + h.stakes_hash@
}

/// The stdcode encoding of a stake document: the 32 bytes of the public key,
/// then the two epochs and the syms staked as variable-length integers.
pub open spec fn stdcode_stake_doc(d: StakeDoc) -> Seq<u8> {
    d.pubkey@ + varint(d.e_start as u128) + varint(d.e_post_end as u128) + varint(d.syms_staked)
}

/// A header takes between 197 and 253 bytes; it starts with its network code.
pub proof fn lemma_header_encoding_len(h: Header)
    ensures
        197 <= stdcode_header(h).len() <= 253,
        stdcode_header(h)[0] == h.network,
{
    lemma_varint_len(h.height as u128);
    lemma_varint_len(h.fee_pool);
    lemma_varint_len(h.fee_multiplier);
    lemma_varint_len(h.dosc_speed);
}

/// A stake document takes between 35 and 67 bytes; it starts with its public key.
pub proof fn lemma_stake_doc_encoding_len(d: StakeDoc)
    ensures
        35 <= stdcode_stake_doc(d).len() <= 67,
        stdcode_stake_doc(d).subrange(0, 32) == d.pubkey@,
{
    lemma_varint_len(d.e_start as u128);
    lemma_varint_len(d.e_post_end as u128);
    lemma_varint_len(d.syms_staked);
    assert(stdcode_stake_doc(d).subrange(0, 32) =~= d.pubkey@);
}

/// Bincode's encoding of a byte string: its length as a variable-length
/// integer, then the bytes.
pub open spec fn byte_string(b: Seq<u8>) -> Seq<u8> {
    varint(b.len() as u128) + b
}

/// Bincode's encoding of a sequence whose items encode as `items`: the number
/// of items as a variable-length integer, then the items one after the other.
pub open spec fn stdcode_list(items: Seq<Seq<u8>>) -> Seq<u8> {
    varint(items.len() as u128) + items.flatten()
}

/// The stdcode encoding of a coin identifier: the 32 bytes of the transaction
/// hash, then the output index as one byte.
pub open spec fn stdcode_coin_id(c: CoinId) -> Seq<u8> {
    c.txhash@ + seq![c.index]
}

/// The stdcode encoding of a coin: the 32 bytes of the covenant hash, the value
/// as a variable-length integer, then the denomination's byte form and the
/// additional data as byte strings.
pub open spec fn stdcode_coin(c: CoinData) -> Seq<u8> {
    c.covhash@ + varint(c.value) + byte_string(c.denom@) + byte_string(c.additional_data@)
}

/// The stdcode encoding of a transaction: the kind as its one-byte code, the
/// inputs and the outputs as sequences, the fee as a variable-length integer,
/// the covenants as a sequence of byte strings, the data as a byte string, and
/// the signatures as a sequence of byte strings.
pub open spec fn stdcode_transaction(t: Transaction) -> Seq<u8> {
    seq![t.kind]
        + stdcode_list(t.inputs@.map_values(|c: CoinId| stdcode_coin_id(c)))
        + stdcode_list(t.outputs@.map_values(|c: CoinData| stdcode_coin(c)))
        + varint(t.fee)
        + stdcode_list(t.covenants@.map_values(|b: Vec<u8>| byte_string(b@)))
        + byte_string(t.data@)
        + stdcode_list(t.sigs@.map_values(|b: Vec<u8>| byte_string(b@)))
}

/// Serializes an integer, or an amount of coins (a `melstructs::CoinValue`,
/// which serde serializes transparently as its `u128`).
///
/// Trusted: `stdcode::serialize` on a `u128`. stdcode is bincode's default
/// options with varint encoding; bincode documents that encoding and the little
/// endian byte order, and writing into a `Vec` without size limit cannot fail.
#[verifier::external_body]
pub(crate) fn serialize_u128(n: u128) -> (res: Vec<u8>)
    ensures
        res@ == varint(n),
{
    stdcode::serialize(&n).unwrap()
}

/// Serializes a header; `None` where its network code names no network.
///
/// Trusted: `stdcode::serialize` on the `melstructs::Header` with the same
/// fields, after `NetID::try_from` on the network code, which succeeds exactly
/// on the codes of `is_network_code`. No field of a header has a serializer
/// that can fail.
#[verifier::external_body]
pub(crate) fn serialize_header(h: &Header) -> (res: Option<Vec<u8>>)
    ensures
        res is Some <==> is_network_code(h.network),
        res matches Some(b) ==> b@ == stdcode_header(*h),
{
    let header = ms::Header {
        network: ms::NetID::try_from(h.network).ok()?, previous: HashVal(h.previous),
        height: ms::BlockHeight(h.height), history_hash: HashVal(h.history_hash),
        coins_hash: HashVal(h.coins_hash), transactions_hash: HashVal(h.transactions_hash),
        fee_pool: ms::CoinValue(h.fee_pool), fee_multiplier: h.fee_multiplier,
        dosc_speed: h.dosc_speed, pools_hash: HashVal(h.pools_hash), stakes_hash: HashVal(h.stakes_hash),
    };
    stdcode::serialize(&header).ok()
}

/// Serializes a stake document.
///
/// Trusted: `stdcode::serialize` on the `melstructs::StakeDoc` with the same
/// fields; serializing cannot fail.
#[verifier::external_body]
pub(crate) fn serialize_stake_doc(d: &StakeDoc) -> (res: Vec<u8>)
    ensures
        res@ == stdcode_stake_doc(*d),
{
    let doc = ms::StakeDoc {
        pubkey: tmelcrypt::Ed25519PK(d.pubkey), e_start: d.e_start, e_post_end: d.e_post_end,
        syms_staked: ms::CoinValue(d.syms_staked),
    };
    stdcode::serialize(&doc).unwrap()
}

/// Serializes a transaction whose kind code names a kind and whose
/// denominations are in byte form.
///
/// Trusted: `stdcode::serialize` on the `melstructs::Transaction` with the same
/// fields, after `TxKind::try_from` on the kind code, which succeeds on the codes
/// of `is_tx_kind_code`, and `Denom::from_bytes` on each output's denomination,
/// which succeeds on the byte forms of `is_denom_bytes` and gives a denomination
/// whose own `to_bytes`, the form serde writes, is that same byte form. No field
/// of a transaction has a serializer that can fail.
#[verifier::external_body]
pub(crate) fn serialize_transaction(t: Transaction) -> (res: Vec<u8>)
    requires
        is_tx_kind_code(t.kind),
        forall|i: int| 0 <= i < t.outputs.len() ==> is_denom_bytes(#[trigger] t.outputs[i].denom@),
    ensures
        res@ == stdcode_transaction(t),
{
    stdcode::serialize(&OutsideTransaction { kind: t.kind.try_into().unwrap(), fee: CoinValue(t.fee), data: t.data.into(),
        inputs: t.inputs.iter().map(|i| CoinID::new(HashVal(i.txhash).into(), i.index)).collect(),
        outputs: t.outputs.into_iter().map(|o| OutsideCoin { covhash: Address(HashVal(o.covhash)), value: CoinValue(o.value),
            denom: Denom::from_bytes(&o.denom).unwrap(), additional_data: o.additional_data.into() }).collect(),
        covenants: t.covenants.into_iter().map(Into::into).collect(), sigs: t.sigs.into_iter().map(Into::into).collect() }).unwrap()
}

} // verus!
