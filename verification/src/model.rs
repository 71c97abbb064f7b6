//! The chain values that test vectors are made of, held as plain numbers and bytes.

use vstd::prelude::*;

verus! {

/// Network code of the main network.
pub const MAINNET: u8 = 0xff;

/// Transaction kind code of a swap.
pub const SWAP: u8 = 0x51;

/// The network codes that name a network: the test network `1`, the custom
/// networks `2` to `8`, and the main network `0xff`.
pub open spec fn is_network_code(code: u8) -> bool {
    (1 <= code && code <= 8) || code == 0xff
}

/// The transaction kind codes: normal `0x00`, stake `0x10`, dosc mint `0x50`,
/// swap `0x51`, liquidity deposit `0x52` and withdrawal `0x53`, faucet `0xff`.
pub open spec fn is_tx_kind_code(code: u8) -> bool {
    code == 0x00 || code == 0x10 || code == 0x50 || code == 0x51 || code == 0x52 || code == 0x53
        || code == 0xff
}

/// The byte form of the MEL denomination.
pub const MEL_DENOM: u8 = 0x6d;

/// The byte forms of denominations: `m` (MEL), `s` (SYM), `d` (ERG), the empty
/// string (a new custom token), or the 32-byte hash of a custom token.
pub open spec fn is_denom_bytes(b: Seq<u8>) -> bool {
    b == seq![0x6du8] || b == seq![0x73u8] || b == seq![0x64u8] || b.len() == 0 || b.len() == 32
}

/// Whether `b` is the byte form of a denomination.
pub fn is_denom_form(b: &Vec<u8>) -> (res: bool)
    ensures
        res == is_denom_bytes(b@),
{
    let n = b.len();
    if n == 1 {
        let c = b[0];
        let r = c == 0x6d || c == 0x73 || c == 0x64;
        assert(r ==> b@ =~= seq![c]);
        assert(b@ == seq![0x6du8] ==> c == 0x6d);
        assert(b@ == seq![0x73u8] ==> c == 0x73);
        assert(b@ == seq![0x64u8] ==> c == 0x64);
        r
    } else {
        n == 0 || n == 32
    }
}

/// A block header.
#[derive(Clone, Copy, Debug)]
pub struct Header {
    pub network: u8,
    pub previous: [u8; 32],
    pub height: u64,
    pub history_hash: [u8; 32],
    pub coins_hash: [u8; 32],
    pub transactions_hash: [u8; 32],
    pub fee_pool: u128,
    pub fee_multiplier: u128,
    pub dosc_speed: u128,
    pub pools_hash: [u8; 32],
    pub stakes_hash: [u8; 32],
}

/// A stake document: who stakes how many syms, over which epochs.
#[derive(Clone, Copy, Debug)]
pub struct StakeDoc {
    pub pubkey: [u8; 32],
    /// First epoch in which the stake counts.
    pub e_start: u64,
    /// First epoch after the last one in which the stake counts.
    pub e_post_end: u64,
    pub syms_staked: u128,
}

/// A coin identifier: the hash of the transaction that made it, and its output index.
#[derive(Clone, Copy, Debug)]
pub struct CoinId {
    pub txhash: [u8; 32],
    pub index: u8,
}

/// The contents of a coin.
#[derive(Debug)]
pub struct CoinData {
    pub covhash: [u8; 32],
    pub value: u128,
    /// The denomination in its byte form (see `is_denom_bytes`).
    pub denom: Vec<u8>,
    pub additional_data: Vec<u8>,
}

/// A transaction.
#[derive(Debug)]
pub struct Transaction {
    pub kind: u8,
    pub inputs: Vec<CoinId>,
    pub outputs: Vec<CoinData>,
    pub fee: u128,
    pub covenants: Vec<Vec<u8>>,
    pub data: Vec<u8>,
    pub sigs: Vec<Vec<u8>>,
}

} // verus!
