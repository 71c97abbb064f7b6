use differential::generate::{header_from_draws, HeaderDraws};
use differential::vectors::stake_doc_bytes_for_epoch;
use differential::consensus::verify_header_for_epoch;
use differential::consensus::{stake_totals, verifier_height, verify_header_differential, STAKE_EPOCH};
use differential::generate::{
    pinned_header_values, random_bytes, random_coindata, random_header, random_stakedoc,
    random_transaction,
};
use differential::model::{CoinData, StakeDoc, MAINNET, SWAP};
use differential::vectors::{
    big_hash_differential, blake3_differential, decode_header_differential,
    decode_transaction_differential, ed25519_differential, ed25519_output, replace_first_output,
    verify_stakes_differential,
};
use differential::crypto::{data_block_hash_key, labelled_hash, node_hash_key};

fn word(n: u128) -> String {
    format!("{:0>64x}", n)
}

fn word_value(s: &str) -> u128 {
    u128::from_str_radix(&s[32..64], 16).unwrap()
}

#[test]
fn blake3_vector_is_keyed_by_node_label() {
    let data = b"hello bridge";
    let key = blake3::hash(b"smt_node");
    let expected = hex::encode(blake3::keyed_hash(key.as_bytes(), data).as_bytes());
    assert_eq!(blake3_differential(data), expected);
    assert_ne!(blake3_differential(data), hex::encode(data));
    assert_eq!(blake3_differential(b"").len(), 64);
}

#[test]
fn labels_and_labelled_hash() {
    assert_eq!(&data_block_hash_key(), b"smt_datablock");
    assert_eq!(&node_hash_key(), b"smt_node");
    let h = labelled_hash(b"smt_datablock", b"abc");
    let expected = blake3::keyed_hash(blake3::hash(b"smt_datablock").as_bytes(), b"abc");
    assert_eq!(&h, expected.as_bytes());
}

#[test]
fn ed25519_vector_holds_a_valid_signature() {
    let data = b"message to sign";
    let v = ed25519_differential(data).unwrap();
    assert_eq!(v.len(), 192);
    let pk = hex::decode(&v[..64]).unwrap();
    let sig = hex::decode(&v[64..]).unwrap();
    let pk = ed25519_compact::PublicKey::from_slice(&pk).unwrap();
    let sig = ed25519_compact::Signature::from_slice(&sig).unwrap();
    assert!(pk.verify(data, &sig).is_ok());
    assert!(pk.verify(b"another message", &sig).is_err());
}

#[test]
fn ed25519_output_concatenates() {
    assert_eq!(ed25519_output(&[1; 32], &[2; 64]), format!("{}{}", "01".repeat(32), "02".repeat(64)));
}

#[test]
fn pinned_values_of_modifiers() {
    assert_eq!(pinned_header_values(0), Some((0, 0)));
    assert_eq!(pinned_header_values(0xff), Some((0xff, 0xff)));
    assert_eq!(pinned_header_values(0xffff), Some((0xffff, 0xffff)));
    assert_eq!(pinned_header_values(0xffff_ffff), Some((0xffff_ffff, 0xffff_ffff)));
    assert_eq!(pinned_header_values(u64::MAX as u128), Some((u64::MAX, u64::MAX as u128)));
    assert_eq!(pinned_header_values(u128::MAX), Some((u64::MAX, u128::MAX)));
    assert_eq!(pinned_header_values(1), None);
    assert_eq!(pinned_header_values(0x100), None);
}

#[test]
fn random_headers_follow_modifier() {
    let h = random_header(u128::MAX);
    assert_eq!(h.network, MAINNET);
    assert_eq!(h.height, u64::MAX);
    assert_eq!((h.fee_pool, h.fee_multiplier, h.dosc_speed), (u128::MAX, u128::MAX, u128::MAX));
    let z = random_header(0);
    assert_eq!((z.height, z.fee_pool, z.fee_multiplier, z.dosc_speed), (0, 0, 0, 0));
    let r = random_header(77);
    assert_eq!(r.network, MAINNET);
}

#[test]
fn random_values_have_their_shapes() {
    assert_eq!(random_bytes(5).len(), 5);
    let c = random_coindata();
    assert!(c.additional_data.len() < 32);
    assert_eq!(c.denom, b"m".to_vec());
    let d = random_stakedoc(10);
    assert!(d.e_start < 10 && 10 < d.e_post_end && d.e_post_end < u64::MAX);
    assert!(d.syms_staked < u32::MAX as u128);
    let t = random_transaction();
    assert_eq!(t.kind, SWAP);
    for n in [t.inputs.len(), t.outputs.len(), t.covenants.len(), t.sigs.len()] {
        assert!((1..32).contains(&n));
    }
    assert_eq!(t.data.len(), 2);
    assert!(t.covenants.iter().chain(t.sigs.iter()).all(|b| b.len() < 32));
}

#[test]
fn header_vector_decodes_back() {
    let v = decode_header_differential(0xffff);
    assert_eq!(&v[..64], word(0x80));
    assert_eq!(word_value(&v[64..128]), 0xffff);
    let len = word_value(&v[256..320]) as usize;
    let encoded = hex::decode(&v[320..320 + 2 * len]).unwrap();
    let header: melstructs::Header = stdcode::deserialize(&encoded).unwrap();
    assert_eq!(header.height.0, 0xffff);
    assert_eq!(header.fee_pool.0, 0xffff);
    assert_eq!(header.network, melstructs::NetID::Mainnet);
    assert_eq!(hex::encode(header.transactions_hash.0), &v[128..192]);
    assert_eq!(hex::encode(header.stakes_hash.0), &v[192..256]);
    assert_eq!(v.len() % 64, 0);
    assert!(v[320 + 2 * len..].chars().all(|c| c == '0'));
}

#[test]
fn stakes_vector_hashes_its_documents() {
    let v = verify_stakes_differential(3).unwrap();
    assert_eq!(&v[..64], word(0x40));
    let len = word_value(&v[128..192]) as usize;
    let stakes = hex::decode(&v[192..192 + 2 * len]).unwrap();
    let key = blake3::hash(b"smt_datablock");
    assert_eq!(&v[64..128], hex::encode(blake3::keyed_hash(key.as_bytes(), &stakes).as_bytes()));
    assert_eq!((v.len() - 192) % 128, 0);
    let mut rest: &[u8] = &stakes;
    let mut count = 0;
    while !rest.is_empty() {
        let doc: melstructs::StakeDoc = stdcode::deserialize(&rest[..stdcode_len(rest)]).unwrap();
        assert!(doc.e_start < doc.e_post_end);
        rest = &rest[stdcode_len(rest)..];
        count += 1;
    }
    assert_eq!(count, 3);
}

// Length of the first stdcode-encoded stake document at the start of `b`.
fn stdcode_len(b: &[u8]) -> usize {
    (1..=b.len())
        .find(|n| stdcode::deserialize::<melstructs::StakeDoc>(&b[..*n]).is_ok())
        .unwrap()
}

#[test]
fn big_hash_vector_has_fifty_documents() {
    let v = big_hash_differential().unwrap();
    let len = word_value(&v[128..192]) as usize;
    let stakes = hex::decode(&v[192..192 + 2 * len]).unwrap();
    let key = blake3::hash(b"smt_datablock");
    assert_eq!(&v[64..128], hex::encode(blake3::keyed_hash(key.as_bytes(), &stakes).as_bytes()));
    let mut rest: &[u8] = &stakes;
    let mut count = 0;
    while !rest.is_empty() {
        rest = &rest[stdcode_len(rest)..];
        count += 1;
    }
    assert_eq!(count, 50);
    assert_eq!(&v[..64], word(0x40));
    assert!(len >= 35 * 50);
    assert_eq!(v.len() % 128, 64);
    assert!(v.chars().all(|c| c.is_ascii_hexdigit() && !c.is_ascii_uppercase()));
}

#[test]
fn transaction_vector_carries_first_output() {
    let covhash = [0x5a; 32];
    let v = decode_transaction_differential(covhash, 1234, b"s".to_vec(), "c0ffee").unwrap();
    let tx: melstructs::Transaction = stdcode::deserialize(&hex::decode(&v).unwrap()).unwrap();
    assert_eq!(tx.kind, melstructs::TxKind::Swap);
    assert_eq!(tx.outputs[0].covhash.0 .0, covhash);
    assert_eq!(tx.outputs[0].value.0, 1234);
    assert_eq!(tx.outputs[0].denom, melstructs::Denom::Sym);
    assert_eq!(&tx.outputs[0].additional_data[..], &[0xc0, 0xff, 0xee]);
    assert!(tx.outputs[1..].iter().all(|o| o.denom == melstructs::Denom::Mel));
    assert_eq!(tx.data.len(), 2);
}

#[test]
fn transaction_vector_refuses_bad_recipient() {
    assert!(decode_transaction_differential([0; 32], 1, b"m".to_vec(), "abc").is_none());
    assert!(decode_transaction_differential([0; 32], 1, b"m".to_vec(), "zz").is_none());
}

#[test]
fn transaction_vector_refuses_bad_denomination() {
    assert!(decode_transaction_differential([0; 32], 1, b"x".to_vec(), "00").is_none());
    assert!(decode_transaction_differential([0; 32], 1, vec![1; 31], "00").is_none());
    let custom = decode_transaction_differential([0; 32], 1, vec![9; 32], "00").unwrap();
    let tx: melstructs::Transaction = stdcode::deserialize(&hex::decode(&custom).unwrap()).unwrap();
    assert_eq!(tx.outputs[0].denom.to_bytes().to_vec(), vec![9u8; 32]);
    let new_custom = decode_transaction_differential([0; 32], 1, vec![], "").unwrap();
    let tx: melstructs::Transaction = stdcode::deserialize(&hex::decode(&new_custom).unwrap()).unwrap();
    assert_eq!(tx.outputs[0].denom, melstructs::Denom::NewCustom);
}

#[test]
fn denomination_forms() {
    use_denoms();
}

fn use_denoms() {
    use_denom(b"m", true);
    use_denom(b"s", true);
    use_denom(b"d", true);
    use_denom(b"", true);
    use_denom(&[0u8; 32], true);
    use_denom(b"q", false);
    use_denom(b"md", false);
}

fn use_denom(b: &[u8], ok: bool) {
    assert_eq!(differential::model::is_denom_form(&b.to_vec()), ok);
}

#[test]
fn first_output_is_replaced() {
    let mut t = random_transaction();
    let before = t.outputs.len();
    let fee = t.fee;
    replace_first_output(
        &mut t,
        CoinData { covhash: [1; 32], value: 9, denom: b"d".to_vec(), additional_data: vec![3] },
    );
    assert_eq!(t.outputs.len(), before);
    assert_eq!(t.outputs[0].value, 9);
    assert_eq!(t.outputs[0].denom, b"d".to_vec());
    assert_eq!(t.fee, fee);
}

#[test]
fn verifier_sits_one_epoch_back() {
    assert_eq!(verifier_height(1, 5), 5);
    assert_eq!(verifier_height(5, 4_000_123), 4 * STAKE_EPOCH + 123);
    let h = verifier_height(7, 123_456_789);
    assert_eq!(h / STAKE_EPOCH, 6);
    assert_eq!(h % STAKE_EPOCH, 123_456_789 % STAKE_EPOCH);
}

#[test]
fn stake_totals_count_next_epoch() {
    let doc = |e_start, e_post_end, syms| StakeDoc { pubkey: [0; 32], e_start, e_post_end, syms_staked: syms };
    let docs = vec![doc(0, 20, 5), doc(11, 20, 7), doc(12, 20, 11), doc(3, 11, 13)];
    // epoch 10: the next epoch is 11
    assert_eq!(stake_totals(&docs, 10), (36, 12));
    assert_eq!(stake_totals(&vec![], 10), (0, 0));
}

#[test]
fn header_proof_vector_checks_out() {
    let v = verify_header_differential(3).unwrap();
    assert_eq!(v.len() % 64, 0);
    let vh = word_value(&v[0..64]) as u64;
    assert_eq!(&v[128..192], word(0xa0));
    let off_stakes = word_value(&v[192..256]) as usize;
    let off_sigs = word_value(&v[256..320]) as usize;
    let header_len = word_value(&v[320..384]) as usize;
    let header_bytes = hex::decode(&v[384..384 + 2 * header_len]).unwrap();
    let header: melstructs::Header = stdcode::deserialize(&header_bytes).unwrap();
    assert_eq!(header.height.0, vh + 1);
    let stakes_len = word_value(&v[2 * off_stakes..2 * off_stakes + 64]) as usize;
    let stakes = hex::decode(&v[2 * off_stakes + 64..2 * off_stakes + 64 + 2 * stakes_len]).unwrap();
    let key = blake3::hash(b"smt_datablock");
    assert_eq!(&v[64..128], hex::encode(blake3::keyed_hash(key.as_bytes(), &stakes).as_bytes()));
    let sig_words = word_value(&v[2 * off_sigs..2 * off_sigs + 64]) as usize;
    assert_eq!(sig_words, 6);
    let sigs = hex::decode(&v[2 * off_sigs + 64..]).unwrap();
    assert_eq!(sigs.len(), 3 * 64);
    // the stakes: total syms, next-epoch syms, then the stake documents
    let total: u128 = stdcode::deserialize(&stakes[..stakes_len_of_varint(&stakes)]).unwrap();
    let rest = &stakes[stakes_len_of_varint(&stakes)..];
    let next: u128 = stdcode::deserialize(&rest[..stakes_len_of_varint(rest)]).unwrap();
    let mut rest = &rest[stakes_len_of_varint(rest)..];
    let epoch = vh / STAKE_EPOCH + 1;
    let (mut all, mut upcoming) = (0u128, 0u128);
    let mut i = 0;
    while !rest.is_empty() {
        let n = stdcode_len(rest);
        let doc: melstructs::StakeDoc = stdcode::deserialize(&rest[..n]).unwrap();
        assert!(doc.e_start < epoch && epoch < doc.e_post_end);
        all += doc.syms_staked.0;
        if doc.e_start <= epoch + 1 && doc.e_post_end > epoch + 1 {
            upcoming += doc.syms_staked.0;
        }
        assert!(doc.pubkey.verify(&header_bytes, &sigs[64 * i..64 * (i + 1)]));
        rest = &rest[n..];
        i += 1;
    }
    assert_eq!(i, 3);
    assert_eq!((total, next), (all, upcoming));
}

fn stakes_len_of_varint(b: &[u8]) -> usize {
    match b[0] {
        0..=250 => 1,
        251 => 3,
        252 => 5,
        253 => 9,
        _ => 17,
    }
}

#[test]
fn ed25519_with_seed_fails_only_on_zero_seed() {
    assert!(differential::vectors::ed25519_with_seed(b"x", [0; 32]).is_none());
    let seed = [7u8; 32];
    let v = differential::vectors::ed25519_with_seed(b"x", seed).unwrap();
    let kp = ed25519_compact::KeyPair::from_seed(ed25519_compact::Seed::new(seed));
    assert_eq!(&v[..64], hex::encode(*kp.pk));
    let sig = ed25519_compact::Signature::from_slice(&hex::decode(&v[64..]).unwrap()).unwrap();
    assert!(kp.pk.verify(b"x", &sig).is_ok());
}

#[test]
fn stake_doc_bytes_need_an_inner_epoch() {
    assert!(stake_doc_bytes_for_epoch(0).is_none());
    assert!(stake_doc_bytes_for_epoch(u64::MAX - 1).is_none());
    assert!(stake_doc_bytes_for_epoch(u64::MAX).is_none());
    let b = stake_doc_bytes_for_epoch(5).unwrap();
    let doc: melstructs::StakeDoc = stdcode::deserialize(&b).unwrap();
    assert!(doc.e_start < 5 && 5 < doc.e_post_end);
    assert!(stake_doc_bytes_for_epoch(u64::MAX - 2).is_some());
}

#[test]
fn empty_stakes_vector_always_succeeds() {
    let v = verify_stakes_differential(0).unwrap();
    let key = blake3::hash(b"smt_datablock");
    let hash = blake3::keyed_hash(key.as_bytes(), b"");
    assert_eq!(v, differential::vectors::stakes_abi(vec![], hash.as_bytes()));
}

#[test]
fn header_proof_for_epoch() {
    assert!(verify_header_for_epoch(2, 0).is_none());
    let v = verify_header_for_epoch(2, 3).unwrap();
    assert_eq!(word_value(&v[0..64]) as u64 / STAKE_EPOCH, 2);
    assert_eq!(word_value(&v[2 * word_value(&v[256..320]) as usize..][..64]), 4);
}

fn varint_bytes(n: u128) -> Vec<u8> {
    if n <= 250 {
        vec![n as u8]
    } else if n <= 0xffff {
        let mut v = vec![251];
        v.extend_from_slice(&(n as u16).to_le_bytes());
        v
    } else if n <= 0xffff_ffff {
        let mut v = vec![252];
        v.extend_from_slice(&(n as u32).to_le_bytes());
        v
    } else if n <= u64::MAX as u128 {
        let mut v = vec![253];
        v.extend_from_slice(&(n as u64).to_le_bytes());
        v
    } else {
        let mut v = vec![254];
        v.extend_from_slice(&n.to_le_bytes());
        v
    }
}

#[test]
fn header_encoding_is_fields_in_order() {
    let v = decode_header_differential(0xffff);
    let len = word_value(&v[256..320]) as usize;
    assert_eq!(len, 1 + 32 + 3 + 96 + 9 + 64);
    let e = hex::decode(&v[320..320 + 2 * len]).unwrap();
    let h: melstructs::Header = stdcode::deserialize(&e).unwrap();
    let mut expected = vec![0xffu8];
    expected.extend_from_slice(&h.previous.0);
    expected.extend(varint_bytes(0xffff));
    expected.extend_from_slice(&h.history_hash.0);
    expected.extend_from_slice(&h.coins_hash.0);
    expected.extend_from_slice(&h.transactions_hash.0);
    for _ in 0..3 {
        expected.extend(varint_bytes(0xffff));
    }
    expected.extend_from_slice(&h.pools_hash.0);
    expected.extend_from_slice(&h.stakes_hash.0);
    assert_eq!(e, expected);
}

#[test]
fn stake_doc_encoding_is_fields_in_order() {
    let b = stake_doc_bytes_for_epoch(1_000_000).unwrap();
    let d: melstructs::StakeDoc = stdcode::deserialize(&b).unwrap();
    let mut expected = d.pubkey.0.to_vec();
    expected.extend(varint_bytes(d.e_start as u128));
    expected.extend(varint_bytes(d.e_post_end as u128));
    expected.extend(varint_bytes(d.syms_staked.0));
    assert_eq!(b, expected);
    assert!(b.len() >= 35 && b.len() <= 67);
}

#[test]
fn unpinned_modifiers_make_the_same_header() {

    let d = HeaderDraws {
        previous: [1; 32],
        history_hash: [2; 32],
        coins_hash: [3; 32],
        transactions_hash: [4; 32],
        pools_hash: [5; 32],
        stakes_hash: [6; 32],
        height: 77,
        fee_pool: 88,
        fee_multiplier: 99,
        dosc_speed: 111,
    };
    let a = header_from_draws(12345, d);
    let b = header_from_draws(1, d);
    assert_eq!((a.height, a.fee_pool, a.fee_multiplier, a.dosc_speed), (77, 88, 99, 111));
    assert_eq!((b.height, b.fee_pool, b.fee_multiplier, b.dosc_speed), (77, 88, 99, 111));
    assert_eq!((a.previous, a.stakes_hash, a.network), (b.previous, b.stakes_hash, b.network));
    let p = header_from_draws(0xff, d);
    assert_eq!((p.height, p.fee_pool, p.fee_multiplier, p.dosc_speed), (0xff, 0xff, 0xff, 0xff));
    assert_eq!(p.previous, [1; 32]);
}

#[test]
fn framing_stake_bytes() {
    let v = differential::vectors::frame_stake_docs(vec![1, 2, 3]);
    let key = blake3::hash(b"smt_datablock");
    let hash = blake3::keyed_hash(key.as_bytes(), &[1, 2, 3]);
    assert_eq!(v, differential::vectors::stakes_abi(vec![1, 2, 3], hash.as_bytes()));
    assert_eq!(v.len() % 64, 0);
}

#[test]
fn distinct_integers_give_distinct_vectors() {
    let values = [0u128, 1, 250, 251, 0xffff, 0x1_0000, u64::MAX as u128, (u64::MAX as u128) + 1, u128::MAX];
    for a in values {
        for b in values {
            let same = differential::vectors::decode_integer_differential(a)
                == differential::vectors::decode_integer_differential(b);
            assert_eq!(same, a == b);
        }
    }
}

#[test]
fn stake_bytes_need_every_epoch_inner() {
    assert!(differential::vectors::stake_bytes_for_epochs(&vec![5, 0, 7]).is_none());
    assert!(differential::vectors::stake_bytes_for_epochs(&vec![u64::MAX - 1]).is_none());
    assert_eq!(differential::vectors::stake_bytes_for_epochs(&vec![]), Some(vec![]));
    let b = differential::vectors::stake_bytes_for_epochs(&vec![5, 6]).unwrap();
    let first = stdcode_len(&b);
    let d0: melstructs::StakeDoc = stdcode::deserialize(&b[..first]).unwrap();
    let d1: melstructs::StakeDoc = stdcode::deserialize(&b[first..]).unwrap();
    assert!(d0.e_start < 5 && 5 < d0.e_post_end);
    assert!(d1.e_start < 6 && 6 < d1.e_post_end);
}

#[test]
fn stakes_vector_for_chosen_epochs() {
    assert!(differential::vectors::stakes_vector_for_epochs(&vec![0]).is_none());
    let v = differential::vectors::stakes_vector_for_epochs(&vec![9, 10, 11]).unwrap();
    assert_eq!(&v[..64], word(0x40));
    let len = word_value(&v[128..192]) as usize;
    assert!(len >= 35 * 3);
    assert_eq!(v.len(), 192 + (2 * len + 127) / 128 * 128);
    assert_eq!(v.len() % 128, 64);
    assert!(v[192 + 2 * len..].chars().all(|c| c == '0'));
    let stakes = hex::decode(&v[192..192 + 2 * len]).unwrap();
    let key = blake3::hash(b"smt_datablock");
    assert_eq!(&v[64..128], hex::encode(blake3::keyed_hash(key.as_bytes(), &stakes).as_bytes()));
    let mut rest: &[u8] = &stakes;
    for epoch in [9u64, 10, 11] {
        let n = stdcode_len(rest);
        let doc: melstructs::StakeDoc = stdcode::deserialize(&rest[..n]).unwrap();
        assert!(doc.e_start < epoch && epoch < doc.e_post_end);
        rest = &rest[n..];
    }
    assert!(rest.is_empty());
}

#[test]
fn random_epochs_has_the_asked_length() {
    assert_eq!(differential::vectors::random_epochs(0).len(), 0);
    assert_eq!(differential::vectors::random_epochs(7).len(), 7);
}

fn byte_string_bytes(b: &[u8]) -> Vec<u8> {
    let mut v = varint_bytes(b.len() as u128);
    v.extend_from_slice(b);
    v
}

#[test]
fn transaction_encoding_is_fields_in_order() {
    let covhash = [0x11; 32];
    let v = decode_transaction_differential(covhash, 70_000, vec![], "abcd").unwrap();
    let bytes = hex::decode(&v).unwrap();
    let tx: melstructs::Transaction = stdcode::deserialize(&bytes).unwrap();
    let mut expected = vec![0x51u8];
    expected.extend(varint_bytes(tx.inputs.len() as u128));
    for i in &tx.inputs {
        expected.extend_from_slice(&i.txhash.0 .0);
        expected.push(i.index);
    }
    expected.extend(varint_bytes(tx.outputs.len() as u128));
    for o in &tx.outputs {
        expected.extend_from_slice(&o.covhash.0 .0);
        expected.extend(varint_bytes(o.value.0));
        expected.extend(byte_string_bytes(&o.denom.to_bytes()));
        expected.extend(byte_string_bytes(&o.additional_data));
    }
    expected.extend(varint_bytes(tx.fee.0));
    expected.extend(varint_bytes(tx.covenants.len() as u128));
    for c in &tx.covenants {
        expected.extend(byte_string_bytes(c));
    }
    expected.extend(byte_string_bytes(&tx.data));
    expected.extend(varint_bytes(tx.sigs.len() as u128));
    for s in &tx.sigs {
        expected.extend(byte_string_bytes(s));
    }
    assert_eq!(bytes, expected);
    assert_eq!(tx.outputs[0].covhash.0 .0, covhash);
    assert_eq!(tx.outputs[0].value.0, 70_000);
    assert_eq!(tx.outputs[0].denom, melstructs::Denom::NewCustom);
    assert_eq!(&tx.outputs[0].additional_data[..], &[0xab, 0xcd]);
}
