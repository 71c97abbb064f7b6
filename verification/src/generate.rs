//! Random chain values of the shapes the bridge tests need.

use vstd::prelude::*;
use crate::crypto::ed25519_keygen;
use crate::model::{CoinData, CoinId, Header, MAINNET, MEL_DENOM, StakeDoc, SWAP, Transaction};
use crate::random::{random_hash, random_u128, random_u128_in, random_u32_in, random_u64, random_u64_in, random_u8};

verus! {

/// Outputs, inputs, covenants, signatures and byte strings of a random
/// transaction stay below this many.
pub const TX_LIMIT: u32 = 32;

/// The header values that a header modifier pins: the height, and the amount
/// that the fee pool, the fee multiplier and the dosc speed all take. Each
/// modifier that is the largest value of an unsigned type pins the values to
/// that largest value (the height to at most `u64::MAX`); modifier `0` pins
/// them to zero; any other modifier pins nothing.
pub open spec fn pinned_values(modifier: u128) -> Option<(u64, u128)> {
    if modifier == 0 {
        Some((0, 0))
    } else if modifier == 0xff {
        Some((0xff, 0xff))
    } else if modifier == 0xffff {
        Some((0xffff, 0xffff))
    } else if modifier == 0xffff_ffff {
        Some((0xffff_ffff, 0xffff_ffff))
    } else if modifier == 0xffff_ffff_ffff_ffff {
        Some((0xffff_ffff_ffff_ffff, 0xffff_ffff_ffff_ffff))
    } else if modifier == u128::MAX {
        Some((0xffff_ffff_ffff_ffff, u128::MAX))
    } else {
        None
    }
}

/// A header that a random draw under `modifier` can give: on the main network,
/// with the values that the modifier pins.
pub open spec fn fits_modifier(modifier: u128, h: Header) -> bool {
    &&& h.network == MAINNET
    &&& pinned_values(modifier) matches Some((height, amount)) ==> {
        &&& h.height == height
        &&& h.fee_pool == amount
        &&& h.fee_multiplier == amount
        &&& h.dosc_speed == amount
    }
}

/// A stake document that a random draw for `epoch` can give: its stake counts
/// in `epoch`, it started before it, and it stakes fewer than `u32::MAX` syms.
pub open spec fn fits_epoch(epoch: u64, d: StakeDoc) -> bool {
    &&& d.e_start < epoch
    &&& epoch < d.e_post_end
    &&& d.e_post_end < u64::MAX
    &&& d.syms_staked < u32::MAX
}

/// A coin that a random draw can give: MEL, with fewer than 32 bytes of data.
pub open spec fn is_random_coin(c: CoinData) -> bool {
    &&& c.denom@ == seq![MEL_DENOM]
    &&& c.additional_data.len() < TX_LIMIT
}

/// A transaction that a random draw can give: a swap with between 1 and 31
/// inputs, outputs, covenants and signatures, covenants and signatures of fewer
/// than 32 bytes, random coins, and 2 bytes of data.
pub open spec fn is_random_transaction(t: Transaction) -> bool {
    &&& t.kind == SWAP
    &&& 1 <= t.inputs.len() < TX_LIMIT
    &&& 1 <= t.outputs.len() < TX_LIMIT
    &&& 1 <= t.covenants.len() < TX_LIMIT
    &&& 1 <= t.sigs.len() < TX_LIMIT
    &&& t.data.len() == 2
    &&& forall|i: int| 0 <= i < t.outputs.len() ==> is_random_coin(#[trigger] t.outputs[i])
    &&& forall|i: int| 0 <= i < t.covenants.len() ==> (#[trigger] t.covenants[i]).len() < TX_LIMIT
    &&& forall|i: int| 0 <= i < t.sigs.len() ==> (#[trigger] t.sigs[i]).len() < TX_LIMIT
}

/// The values that `modifier` pins, if it pins any.
pub fn pinned_header_values(modifier: u128) -> (res: Option<(u64, u128)>)
    ensures
        res == pinned_values(modifier),
{
    if modifier == 0 {
        Some((0, 0))
    } else if modifier == 0xff {
        Some((0xff, 0xff))
    } else if modifier == 0xffff {
        Some((0xffff, 0xffff))
    } else if modifier == 0xffff_ffff {
        Some((0xffff_ffff, 0xffff_ffff))
    } else if modifier == 0xffff_ffff_ffff_ffff {
        Some((0xffff_ffff_ffff_ffff, 0xffff_ffff_ffff_ffff))
    } else if modifier == u128::MAX {
        Some((0xffff_ffff_ffff_ffff, u128::MAX))
    } else {
        None
    }
}

/// The random values that a header is made from.
#[derive(Clone, Copy, Debug)]
pub struct HeaderDraws {
    pub previous: [u8; 32],
    pub history_hash: [u8; 32],
    pub coins_hash: [u8; 32],
    pub transactions_hash: [u8; 32],
    pub pools_hash: [u8; 32],
    pub stakes_hash: [u8; 32],
    pub height: u64,
    pub fee_pool: u128,
    pub fee_multiplier: u128,
    pub dosc_speed: u128,
}

/// The main-network header made from `draws` under `modifier`: the drawn
/// hashes, and the height and amounts that `modifier` pins, or the drawn ones
/// where it pins none.
pub open spec fn header_of(modifier: u128, draws: HeaderDraws) -> Header {
    let (height, fee_pool, fee_multiplier, dosc_speed) = match pinned_values(modifier) {
        Some((height, amount)) => (height, amount, amount, amount),
        None => (draws.height, draws.fee_pool, draws.fee_multiplier, draws.dosc_speed),
    };
    Header {
        network: MAINNET,
        previous: draws.previous,
        height,
        history_hash: draws.history_hash,
        coins_hash: draws.coins_hash,
        transactions_hash: draws.transactions_hash,
        fee_pool,
        fee_multiplier,
        dosc_speed,
        pools_hash: draws.pools_hash,
        stakes_hash: draws.stakes_hash,
    }
}

/// A header made from draws under a modifier fits that modifier.
pub proof fn lemma_header_of_fits(modifier: u128, draws: HeaderDraws)
    ensures
        fits_modifier(modifier, header_of(modifier, draws)),
{
}

/// Modifiers that pin nothing make the same header from the same draws: such a
/// modifier does not change the header.
pub proof fn lemma_unpinned_modifiers_agree(m1: u128, m2: u128, draws: HeaderDraws)
    requires
        pinned_values(m1) is None,
        pinned_values(m2) is None,
    ensures
        header_of(m1, draws) == header_of(m2, draws),
{
}

/// Makes the header of `draws` under `modifier` (see `header_of`).
pub fn header_from_draws(modifier: u128, draws: HeaderDraws) -> (h: Header)
    ensures
        h == header_of(modifier, draws),
{
    let (height, fee_pool, fee_multiplier, dosc_speed) = match pinned_header_values(modifier) {
        Some((height, amount)) => (height, amount, amount, amount),
        None => (draws.height, draws.fee_pool, draws.fee_multiplier, draws.dosc_speed),
    };
    Header {
        network: MAINNET,
        previous: draws.previous,
        height,
        history_hash: draws.history_hash,
        coins_hash: draws.coins_hash,
        transactions_hash: draws.transactions_hash,
        fee_pool,
        fee_multiplier,
        dosc_speed,
        pools_hash: draws.pools_hash,
        stakes_hash: draws.stakes_hash,
    }
}

/// A random main-network header. Its hashes are random; its height and amounts
/// are those that `modifier` pins, and random where it pins none (which are
/// drawn only then).
pub fn random_header(modifier: u128) -> (h: Header)
    ensures
        fits_modifier(modifier, h),
        exists|draws: HeaderDraws| h == #[trigger] header_of(modifier, draws),
{
    let (height, fee_pool, fee_multiplier, dosc_speed) = match pinned_header_values(modifier) {
        Some(_) => (0, 0, 0, 0),
        None => (random_u64(), random_u128(), random_u128(), random_u128()),
    };
    let draws = HeaderDraws {
        previous: random_hash(),
        history_hash: random_hash(),
        coins_hash: random_hash(),
        transactions_hash: random_hash(),
        pools_hash: random_hash(),
        stakes_hash: random_hash(),
        height,
        fee_pool,
        fee_multiplier,
        dosc_speed,
    };
    let h = header_from_draws(modifier, draws);
    proof {
        lemma_header_of_fits(modifier, draws);
    }
    h
}

/// `n` random bytes.
pub fn random_bytes(n: u32) -> (b: Vec<u8>)
    ensures
        b.len() == n,
{
    let mut b: Vec<u8> = Vec::new();
    let mut i: u32 = 0;
    while i < n
        invariant
            i <= n,
            b.len() == i,
        decreases n - i,
    {
        b.push(random_u8());
        i = i + 1;
    }
    b
}

/// A random coin identifier.
pub fn random_coin_id() -> (c: CoinId) {
    CoinId { txhash: random_hash(), index: random_u8() }
}

/// A random MEL coin with fewer than 32 bytes of additional data.
pub fn random_coindata() -> (c: CoinData)
    ensures
        is_random_coin(c),
{
    let size = random_u32_in(0, TX_LIMIT);
    let mut denom: Vec<u8> = Vec::new();
    denom.push(MEL_DENOM);
    assert(denom@ =~= seq![MEL_DENOM]);
    CoinData {
        covhash: random_hash(),
        value: random_u128(),
        denom,
        additional_data: random_bytes(size),
    }
}

/// A random stake document whose stake counts in `epoch`.
pub fn random_stakedoc(epoch: u64) -> (d: StakeDoc)
    requires
        0 < epoch < u64::MAX - 1,
    ensures
        fits_epoch(epoch, d),
{
    let e_start = random_u64_in(0, epoch);
    let e_post_end = random_u64_in(epoch + 1, u64::MAX);
    let (pubkey, _secret) = ed25519_keygen();
    StakeDoc { pubkey, e_start, e_post_end, syms_staked: random_u128_in(0, 0xffff_ffff) }
}

fn random_byte_strings(n: u32) -> (v: Vec<Vec<u8>>)
    ensures
        v.len() == n,
        forall|i: int| 0 <= i < v.len() ==> (#[trigger] v[i]).len() < TX_LIMIT,
{
    let mut v: Vec<Vec<u8>> = Vec::new();
    let mut i: u32 = 0;
    while i < n
        invariant
            i <= n,
            v.len() == i,
            forall|j: int| 0 <= j < v.len() ==> (#[trigger] v[j]).len() < TX_LIMIT,
        decreases n - i,
    {
        let size = random_u32_in(0, TX_LIMIT);
        v.push(random_bytes(size));
        i = i + 1;
    }
    v
}

/// A random swap transaction (see `is_random_transaction`).
pub fn random_transaction() -> (t: Transaction)
    ensures
        is_random_transaction(t),
{
    let num_inputs = random_u32_in(1, TX_LIMIT);
    let mut inputs: Vec<CoinId> = Vec::new();
    let mut i: u32 = 0;
    while i < num_inputs
        invariant
            i <= num_inputs,
            inputs.len() == i,
        decreases num_inputs - i,
    {
        inputs.push(random_coin_id());
        i = i + 1;
    }
    let num_outputs = random_u32_in(1, TX_LIMIT);
    let mut outputs: Vec<CoinData> = Vec::new();
    let mut i: u32 = 0;
    while i < num_outputs
        invariant
            i <= num_outputs,
            outputs.len() == i,
            forall|j: int| 0 <= j < outputs.len() ==> is_random_coin(#[trigger] outputs[j]),
        decreases num_outputs - i,
    {
        outputs.push(random_coindata());
        i = i + 1;
    }
    let num_covenants = random_u32_in(1, TX_LIMIT);
    let covenants = random_byte_strings(num_covenants);
    let num_sigs = random_u32_in(1, TX_LIMIT);
    let sigs = random_byte_strings(num_sigs);
    Transaction {
        kind: SWAP,
        inputs,
        outputs,
        fee: random_u128(),
        covenants,
        data: random_bytes(2),
        sigs,
    }
}

} // verus!
