//! Laws of the framing: every vector is a whole number of words, and every
//! offset word gives the byte position at which its argument's length word begins.

use vstd::prelude::*;
use crate::abi::{hex_number, lemma_hex_digits_len, pad_block, pad_right, padding_len, word};
use crate::consensus::{
    has_fixed_widths, header_proof_of, header_proof_vector, header_signatures, hex_list, stakes_bytes,
};
use crate::vectors::{
    all_inner_epochs, drawn_docs, drawn_epochs, drawn_stakes_vector, header_vector, integer_vector,
    stake_docs_bytes, stakes_vector,
};
use crate::crypto::{data_block_label, ed25519_signature, labelled_digest};
use crate::encoding::{lemma_stake_doc_encoding_len, lemma_varint_len, stdcode_header, varint};
use crate::hexcode::{hex_char, hex_chars, lemma_hex_chars_len};
use crate::model::{Header, StakeDoc};

verus! {

/// The word found at `pos` characters into `v`.
pub open spec fn word_at(v: Seq<char>, pos: nat) -> Seq<char> {
    v.subrange(pos as int, pos + 64int)
}

proof fn lemma_word_after(a: Seq<char>, w: Seq<char>, r: Seq<char>)
    requires
        w.len() == 64,
    ensures
        word_at(a + w + r, a.len()) == w,
{
    assert(word_at(a + w + r, a.len()) =~= w);
}

proof fn lemma_word_extend(x: Seq<char>, y: Seq<char>, pos: nat)
    requires
        pos + 64 <= x.len(),
    ensures
        word_at(x + y, pos) == word_at(x, pos),
{
    assert(word_at(x + y, pos) =~= word_at(x, pos));
}

proof fn lemma_word_len(n: nat)
    ensures
        word(n).len() == 64,
{
    lemma_hex_digits_len(n, 64);
}

proof fn lemma_pad_block_len(b: Seq<u8>)
    ensures
        pad_block(b).len() == b.len() + padding_len(b.len()),
        pad_block(b).len() % 64 == 0,
{
}

proof fn lemma_pad_right_len(s: Seq<char>, width: nat)
    ensures
        pad_right(s, width).len() == if s.len() < width { width } else { s.len() },
{
}

/// Hex encodings of 64-byte signatures take two words each.
proof fn lemma_hex_list_len(items: Seq<Seq<u8>>)
    requires
        forall|i: int| 0 <= i < items.len() ==> (#[trigger] items[i]).len() == 64,
    ensures
        hex_list(items).len() == 128 * items.len(),
    decreases items.len(),
{
    if items.len() > 0 {
        let p = items.drop_last();
        assert forall|i: int| 0 <= i < p.len() implies (#[trigger] p[i]).len() == 64 by {
            assert(p[i] == items[i]);
        }
        lemma_hex_list_len(p);
        lemma_hex_chars_len(items.last());
    }
}

/// An integer vector is four words, and its offset `0x40` points at the
/// encoding's length word.
pub proof fn lemma_integer_vector_layout(n: u128)
    ensures
        integer_vector(n).len() == 256,
        word_at(integer_vector(n), 0) == word(0x40),
        word_at(integer_vector(n), 64) == word(varint(n).len()),
        word_at(integer_vector(n), 2 * 0x40) == word(varint(n).len()),
        integer_vector(n).subrange(192, 192 + 2 * varint(n).len() as int) == hex_chars(varint(n)),
        forall|i: int| 192 + 2 * varint(n).len() <= i < 256 ==> #[trigger] integer_vector(n)[i] == '0',
{
    let e = varint(n);
    let v = integer_vector(n);
    let tail = pad_right(hex_chars(e), 64);
    lemma_varint_len(n);
    lemma_hex_chars_len(e);
    lemma_word_len(0x40);
    lemma_word_len(e.len());
    lemma_word_after(word(0x40) + word(e.len()), word(e.len()), tail);
    lemma_word_after(Seq::empty(), word(0x40), word(e.len()) + word(e.len()) + tail);
    assert(v =~= Seq::<char>::empty() + word(0x40) + (word(e.len()) + word(e.len()) + tail));
    lemma_word_after(word(0x40), word(e.len()), word(e.len()) + tail);
    assert(v =~= word(0x40) + word(e.len()) + (word(e.len()) + tail));
    assert(v.subrange(192, 192 + 2 * e.len() as int) =~= hex_chars(e));
    assert forall|i: int| 192 + 2 * e.len() <= i < 256 implies #[trigger] v[i] == '0' by {
        assert(v[i] == tail[i - 192]);
    }
}

/// Different integers give different integer vectors.
#[verifier::spinoff_prover]
pub proof fn lemma_integer_vector_injective(a: u128, b: u128)
    ensures
        (integer_vector(a) == integer_vector(b)) == (a == b),
{
    if integer_vector(a) == integer_vector(b) {
        let (ea, eb) = (varint(a), varint(b));
        let v = integer_vector(a);
        lemma_varint_len(a);
        lemma_varint_len(b);
        lemma_word_len(0x40);
        lemma_word_len(ea.len());
        lemma_word_len(eb.len());
        lemma_hex_chars_len(ea);
        lemma_hex_chars_len(eb);
        lemma_word_after(word(0x40), word(ea.len()), word(ea.len()) + pad_right(hex_chars(ea), 64));
        lemma_word_after(word(0x40), word(eb.len()), word(eb.len()) + pad_right(hex_chars(eb), 64));
        assert(integer_vector(a) == word(0x40) + word(ea.len()) + (word(ea.len()) + pad_right(hex_chars(ea), 64)));
        assert(integer_vector(b) == word(0x40) + word(eb.len()) + (word(eb.len()) + pad_right(hex_chars(eb), 64)));
        assert(word(ea.len()) == word(eb.len()));
        reveal_with_fuel(vstd::arithmetic::power::pow, 2);
        vstd::arithmetic::power::lemma_pow_strictly_increases(16, 1, 64);
        crate::abi::lemma_word_value(ea.len());
        crate::abi::lemma_word_value(eb.len());
        assert(ea.len() == eb.len());
        let n: int = 2 * ea.len() as int;
        assert(v.subrange(192, 192 + n) =~= hex_chars(ea));
        assert(integer_vector(b).subrange(192, 192 + n) =~= hex_chars(eb));
        crate::hexcode::lemma_hex_roundtrip(ea);
        crate::hexcode::lemma_hex_roundtrip(eb);
        crate::encoding::lemma_varint_injective(a, b);
    }
}

/// `k` zero bytes.
pub open spec fn zero_bytes(k: nat) -> Seq<u8> {
    Seq::new(k, |i: int| 0u8)
}

/// Zero bytes are written as `0` digits.
pub proof fn lemma_hex_zeros(k: nat)
    ensures
        hex_chars(zero_bytes(k)).len() == 2 * k,
        forall|i: int| 0 <= i < 2 * k ==> #[trigger] hex_chars(zero_bytes(k))[i] == '0',
    decreases k,
{
    lemma_hex_chars_len(zero_bytes(k));
    if k > 0 {
        assert(zero_bytes(k).drop_last() =~= zero_bytes((k - 1) as nat));
        lemma_hex_zeros((k - 1) as nat);
        assert(hex_char(0) == '0');
    }
}

/// The hex of a block-padded byte string is the hex of the bytes, then `0`
/// digits up to the end.
pub proof fn lemma_hex_pad_block(b: Seq<u8>)
    ensures
        hex_chars(pad_block(b)).len() == 2 * pad_block(b).len(),
        hex_chars(pad_block(b)).subrange(0, 2 * b.len() as int) == hex_chars(b),
        forall|i: int| 2 * b.len() <= i < hex_chars(pad_block(b)).len() ==> #[trigger] hex_chars(pad_block(b))[i] == '0',
{
    let z = zero_bytes(padding_len(b.len()));
    assert(pad_block(b) =~= b + z);
    crate::hexcode::lemma_hex_chars_concat(b, z);
    lemma_hex_chars_len(b);
    lemma_hex_chars_len(pad_block(b));
    lemma_hex_zeros(padding_len(b.len()));
    assert(hex_chars(pad_block(b)).subrange(0, 2 * b.len() as int) =~= hex_chars(b));
    assert forall|i: int| 2 * b.len() <= i < hex_chars(pad_block(b)).len() implies #[trigger] hex_chars(pad_block(b))[i] == '0' by {
        assert(hex_chars(pad_block(b))[i] == hex_chars(z)[i - 2 * b.len()]);
    }
}

/// A stakes vector is a whole number of words, and its offset `0x40` points at
/// the length word of the stake bytes.
pub proof fn lemma_stakes_vector_layout(stakes: Seq<u8>, hash: Seq<u8>)
    requires
        hash.len() == 32,
    ensures
        stakes_vector(stakes, hash).len() == 192 + 2 * pad_block(stakes).len(),
        stakes_vector(stakes, hash).len() % 128 == 64,
        stakes_vector(stakes, hash).len() % 64 == 0,
        word_at(stakes_vector(stakes, hash), 0) == word(0x40),
        stakes_vector(stakes, hash).subrange(64, 128) == hex_chars(hash),
        word_at(stakes_vector(stakes, hash), 2 * 0x40) == word(stakes.len()),
        stakes_vector(stakes, hash).subrange(192, 192 + 2 * stakes.len() as int) == hex_chars(stakes),
        forall|i: int|
            192 + 2 * stakes.len() <= i < stakes_vector(stakes, hash).len() ==> #[trigger] stakes_vector(
                stakes,
                hash,
            )[i] == '0',
{
    let p = pad_block(stakes).len();
    lemma_hex_chars_len(hash);
    lemma_pad_block_len(stakes);
    lemma_hex_chars_len(pad_block(stakes));
    lemma_word_len(0x40);
    lemma_word_len(stakes.len());
    lemma_word_after(Seq::empty(), word(0x40), hex_chars(hash) + word(stakes.len()) + hex_chars(pad_block(stakes)));
    assert(Seq::<char>::empty() + word(0x40) + (hex_chars(hash) + word(stakes.len()) + hex_chars(pad_block(stakes)))
        =~= stakes_vector(stakes, hash));
    lemma_word_after(word(0x40) + hex_chars(hash), word(stakes.len()), hex_chars(pad_block(stakes)));
    lemma_hex_pad_block(stakes);
    let v = stakes_vector(stakes, hash);
    let head = word(0x40) + hex_chars(hash) + word(stakes.len());
    assert(v =~= head + hex_chars(pad_block(stakes)));
    assert(v.subrange(64, 128) =~= hex_chars(hash));
    assert(v.subrange(192, 192 + 2 * stakes.len() as int) =~= hex_chars(pad_block(stakes)).subrange(0, 2 * stakes.len() as int));
    assert forall|i: int| 192 + 2 * stakes.len() <= i < v.len() implies #[trigger] v[i] == '0' by {
        assert(v[i] == hex_chars(pad_block(stakes))[i - 192]);
    }
    assert((192 + 2 * p) % 128 == 64) by (nonlinear_arith)
        requires
            p % 64 == 0,
    {
        assert(p == 64 * (p / 64));
    }
}

/// Stake documents encode in 35 to 67 bytes each.
pub proof fn lemma_stake_docs_bytes_len(docs: Seq<StakeDoc>)
    ensures
        35 * docs.len() <= stake_docs_bytes(docs).len() <= 67 * docs.len(),
    decreases docs.len(),
{
    if docs.len() > 0 {
        lemma_stake_docs_bytes_len(docs.drop_last());
        lemma_stake_doc_encoding_len(docs.last());
    }
}

/// Where every drawn epoch has an epoch before and after it, stake draws give a
/// vector: the offset word `0x40`, the `smt_datablock` hash of exactly the stake
/// bytes (not of their padding), the length word of the stake bytes (at least 35
/// for each document), then the stake bytes, then `0` digits up to whole 64-byte
/// blocks, so that the vector's length is 64 more than a multiple of 128.
pub proof fn lemma_drawn_stakes_layout(draws: Seq<(u64, StakeDoc)>)
    requires
        all_inner_epochs(drawn_epochs(draws)),
        labelled_digest(data_block_label(), stake_docs_bytes(drawn_docs(draws))).len() == 32,
    ensures
        drawn_stakes_vector(draws) matches Some(v) && {
            let b = stake_docs_bytes(drawn_docs(draws));
            &&& word_at(v, 0) == word(0x40)
            &&& v.subrange(64, 128) == hex_chars(labelled_digest(data_block_label(), b))
            &&& word_at(v, 2 * 0x40) == word(b.len())
            &&& v.subrange(192, 192 + 2 * b.len() as int) == hex_chars(b)
            &&& (forall|i: int| 192 + 2 * b.len() <= i < v.len() ==> #[trigger] v[i] == '0')
            &&& v.len() == 192 + 2 * pad_block(b).len()
            &&& v.len() % 128 == 64
            &&& 35 * draws.len() <= b.len()
        },
{
    let b = stake_docs_bytes(drawn_docs(draws));
    lemma_stakes_vector_layout(b, labelled_digest(data_block_label(), b));
    lemma_stake_docs_bytes_len(drawn_docs(draws));
}

/// A header vector is a whole number of words, and its offset `0x80` points at
/// the length word of the encoded header.
pub proof fn lemma_header_vector_layout(h: Header, encoded: Seq<u8>)
    ensures
        header_vector(h, encoded).len() % 64 == 0,
        word_at(header_vector(h, encoded), 2 * 0x80) == word(encoded.len()),
{
    lemma_hex_chars_len(h.transactions_hash@);
    lemma_hex_chars_len(h.stakes_hash@);
    lemma_pad_block_len(encoded);
    lemma_hex_chars_len(pad_block(encoded));
    lemma_word_len(0x80);
    lemma_word_len(h.height as nat);
    lemma_word_len(encoded.len());
    let head = word(0x80) + word(h.height as nat) + hex_chars(h.transactions_hash@) + hex_chars(h.stakes_hash@);
    lemma_word_after(head, word(encoded.len()), pad_right(hex_chars(pad_block(encoded)), 64));
}

/// A height spells back from its word: every `u64` is below `16^64`.
pub proof fn lemma_height_word_value(height: u64)
    ensures
        hex_number(word(height as nat)) == height,
{
    reveal_with_fuel(vstd::arithmetic::power::pow, 17);
    assert(vstd::arithmetic::power::pow(16, 16) == 0x1_0000_0000_0000_0000);
    vstd::arithmetic::power::lemma_pow_strictly_increases(16, 16, 64);
    crate::abi::lemma_word_value(height as nat);
}

/// The head of a header vector: the offset word `0x80`, the word that spells the
/// header's height, then the transactions hash and the stakes hash in hex.
pub proof fn lemma_header_vector_head(h: Header, encoded: Seq<u8>)
    ensures
        word_at(header_vector(h, encoded), 0) == word(0x80),
        word_at(header_vector(h, encoded), 64) == word(h.height as nat),
        hex_number(word_at(header_vector(h, encoded), 64)) == h.height,
        header_vector(h, encoded).subrange(128, 192) == hex_chars(h.transactions_hash@),
        header_vector(h, encoded).subrange(192, 256) == hex_chars(h.stakes_hash@),
        header_vector(h, encoded).subrange(320, 320 + 2 * encoded.len() as int) == hex_chars(encoded),
        forall|i: int|
            320 + 2 * encoded.len() <= i < header_vector(h, encoded).len() ==> #[trigger] header_vector(
                h,
                encoded,
            )[i] == '0',
{
    let v = header_vector(h, encoded);
    let tx = hex_chars(h.transactions_hash@);
    let st = hex_chars(h.stakes_hash@);
    let tail = word(encoded.len()) + pad_right(hex_chars(pad_block(encoded)), 64);
    lemma_hex_chars_len(h.transactions_hash@);
    lemma_hex_chars_len(h.stakes_hash@);
    lemma_word_len(0x80);
    lemma_word_len(h.height as nat);
    assert(v =~= Seq::<char>::empty() + word(0x80) + (word(h.height as nat) + tx + st + tail));
    lemma_word_after(Seq::empty(), word(0x80), word(h.height as nat) + tx + st + tail);
    assert(v =~= word(0x80) + word(h.height as nat) + (tx + st + tail));
    lemma_word_after(word(0x80), word(h.height as nat), tx + st + tail);
    assert(v.subrange(128, 192) =~= tx);
    assert(v.subrange(192, 256) =~= st);
    lemma_height_word_value(h.height);
    lemma_word_len(encoded.len());
    lemma_hex_pad_block(encoded);
    let hp = hex_chars(pad_block(encoded));
    let body = pad_right(hp, 64);
    assert(v =~= word(0x80) + word(h.height as nat) + tx + st + word(encoded.len()) + body);
    assert(body.subrange(0, hp.len() as int) =~= hp);
    assert(v.subrange(320, 320 + 2 * encoded.len() as int) =~= hex_chars(encoded)) by {
        assert(v.subrange(320, 320 + 2 * encoded.len() as int) =~= hp.subrange(0, 2 * encoded.len() as int));
    }
    assert forall|i: int| 320 + 2 * encoded.len() <= i < v.len() implies #[trigger] v[i] == '0' by {
        assert(v[i] == body[i - 320]);
        if i - 320 < hp.len() {
            assert(body[i - 320] == hp[i - 320]);
        }
    }
}

/// The five head words of a header proof take 320 characters.
proof fn lemma_header_proof_head_len(verifier_height: u64, stakes_hash: Seq<u8>, a: nat, b: nat)
    requires
        stakes_hash.len() == 32,
    ensures
        (word(verifier_height as nat) + hex_chars(stakes_hash) + word(0xa0) + word(a) + word(b)).len() == 320,
{
    lemma_hex_chars_len(stakes_hash);
    lemma_word_len(verifier_height as nat);
    lemma_word_len(0xa0);
    lemma_word_len(a);
    lemma_word_len(b);
}

/// The padded stakes text is a whole number of words.
proof fn lemma_padded_stakes_len(stakes: Seq<char>)
    ensures
        pad_right(stakes, stakes.len() + padding_len(stakes.len())).len() == stakes.len() + padding_len(
            stakes.len(),
        ),
        pad_right(stakes, stakes.len() + padding_len(stakes.len())).len() % 64 == 0,
{
    lemma_pad_right_len(stakes, stakes.len() + padding_len(stakes.len()));
    crate::abi::lemma_padding_aligns(stakes.len());
}

/// The piece `b` of `a + b + c` sits right after `a`.
proof fn lemma_middle(a: Seq<char>, b: Seq<char>, c: Seq<char>)
    ensures
        (a + b + c).subrange(a.len() as int, (a.len() + b.len()) as int) == b,
{
    assert((a + b + c).subrange(a.len() as int, (a.len() + b.len()) as int) =~= b);
}

/// A header proof cut around its header bytes, its stakes text and its signatures.
proof fn lemma_header_proof_pieces(
    head: Seq<char>,
    w4: Seq<char>,
    x: Seq<char>,
    w5: Seq<char>,
    sp: Seq<char>,
    w6: Seq<char>,
    tail: Seq<char>,
)
    ensures
        head + w4 + x + w5 + sp + w6 + tail == head + (w4 + x + w5 + sp + w6 + tail),
        head + w4 + x + w5 + sp + w6 + tail == (head + w4) + x + (w5 + sp + w6 + tail),
        head + w4 + x + w5 + sp + w6 + tail == (head + w4 + x + w5) + sp + (w6 + tail),
        head + w4 + x + w5 + sp + w6 + tail == (head + w4 + x + w5 + sp + w6) + tail + Seq::empty(),
{
    let v = head + w4 + x + w5 + sp + w6 + tail;
    assert(v =~= head + (w4 + x + w5 + sp + w6 + tail));
    assert(v =~= (head + w4) + x + (w5 + sp + w6 + tail));
    assert(v =~= (head + w4 + x + w5) + sp + (w6 + tail));
    assert(v =~= (head + w4 + x + w5 + sp + w6) + tail + Seq::empty());
}

/// The contents of a header proof: the word that spells the verifier's height,
/// the stakes hash, the offset word `0xa0`, the header's bytes after their
/// length word, the stakes text after its length word, and the signatures after
/// their word count, up to the end.
#[verifier::spinoff_prover]
pub proof fn lemma_header_proof_contents(
    verifier_height: u64,
    stakes_hash: Seq<u8>,
    header: Seq<u8>,
    stakes: Seq<char>,
    signatures: Seq<Seq<u8>>,
)
    requires
        stakes_hash.len() == 32,
    ensures
        ({
            let v = header_proof_vector(verifier_height, stakes_hash, header, stakes, signatures);
            let hp = pad_block(header);
            let sp = pad_right(stakes, stakes.len() + padding_len(stakes.len()));
            let o2: int = 2 * (0xc0 + hp.len()) as int;
            let o3: int = 2 * (0xe0 + hp.len() + sp.len() / 2) as int;
            &&& word_at(v, 0) == word(verifier_height as nat)
            &&& hex_number(word_at(v, 0)) == verifier_height
            &&& v.subrange(64, 128) == hex_chars(stakes_hash)
            &&& word_at(v, 128) == word(0xa0)
            &&& v.subrange(2 * 0xa0 + 64int, 2 * 0xa0 + 64 + 2 * header.len() as int) == hex_chars(header)
            &&& v.subrange(o2 + 64, o2 + 64 + stakes.len() as int) == stakes
            &&& v.subrange(o3 + 64, v.len() as int) == hex_list(signatures)
            &&& v.len() == o3 + 64 + hex_list(signatures).len()
        }),
{
    let hp = pad_block(header);
    let sp = pad_right(stakes, stakes.len() + padding_len(stakes.len()));
    let a0 = word(verifier_height as nat);
    let a1 = hex_chars(stakes_hash);
    let a2 = word(0xa0);
    let a3 = word(0xc0 + hp.len());
    let a4 = word(0xe0 + hp.len() + sp.len() / 2);
    let head = a0 + a1 + a2 + a3 + a4;
    let w4 = word(header.len());
    let x = hex_chars(hp);
    let w5 = word(stakes.len() / 2);
    let w6 = word(2 * signatures.len());
    let tail = hex_list(signatures);
    let rest = w4 + x + w5 + sp + w6 + tail;
    let v = header_proof_vector(verifier_height, stakes_hash, header, stakes, signatures);
    lemma_header_proof_head_len(verifier_height, stakes_hash, 0xc0 + hp.len(), 0xe0 + hp.len() + sp.len() / 2);
    lemma_hex_chars_len(stakes_hash);
    lemma_hex_chars_len(hp);
    lemma_padded_stakes_len(stakes);
    lemma_word_len(verifier_height as nat);
    lemma_word_len(0xa0);
    lemma_word_len(0xc0 + hp.len());
    lemma_word_len(0xe0 + hp.len() + sp.len() / 2);
    lemma_word_len(header.len());
    lemma_word_len(stakes.len() / 2);
    lemma_word_len(2 * signatures.len());
    lemma_header_proof_pieces(head, w4, x, w5, sp, w6, tail);
    assert(v == head + w4 + x + w5 + sp + w6 + tail);
    // the head words
    assert(head =~= Seq::<char>::empty() + a0 + (a1 + a2 + a3 + a4));
    lemma_middle(Seq::empty(), a0, a1 + a2 + a3 + a4);
    assert(head =~= a0 + a1 + (a2 + a3 + a4));
    lemma_middle(a0, a1, a2 + a3 + a4);
    assert(head =~= (a0 + a1) + a2 + (a3 + a4));
    lemma_middle(a0 + a1, a2, a3 + a4);
    assert(v.subrange(0, 192) =~= head.subrange(0, 192));
    assert(v.subrange(0, 64) =~= head.subrange(0, 64));
    assert(v.subrange(64, 128) =~= head.subrange(64, 128));
    assert(v.subrange(128, 192) =~= head.subrange(128, 192));
    lemma_height_word_value(verifier_height);
    // the header bytes
    lemma_hex_pad_block(header);
    lemma_middle(head + w4, x, w5 + sp + w6 + tail);
    assert(v.subrange(384, 384 + 2 * header.len() as int) =~= x.subrange(0, 2 * header.len() as int));
    // the stakes text
    lemma_middle(head + w4 + x + w5, sp, w6 + tail);
    assert(sp.subrange(0, stakes.len() as int) =~= stakes);
    let o2: int = 2 * (0xc0 + hp.len()) as int;
    assert(v.subrange(o2 + 64, o2 + 64 + stakes.len() as int) =~= sp.subrange(0, stakes.len() as int));
    // the signatures
    lemma_middle(head + w4 + x + w5 + sp + w6, tail, Seq::empty());
    let o3: int = 2 * (0xe0 + hp.len() + sp.len() / 2) as int;
    assert(o3 + 64 == 320 + 192 + x.len() + sp.len());
}

/// Signatures of 64 bytes each are written one after the other, 128 digits each.
pub proof fn lemma_hex_list_items(items: Seq<Seq<u8>>)
    requires
        forall|i: int| 0 <= i < items.len() ==> (#[trigger] items[i]).len() == 64,
    ensures
        hex_list(items).len() == 128 * items.len(),
        forall|i: int|
            0 <= i < items.len() ==> hex_list(items).subrange(128 * i, 128 * i + 128) == hex_chars(
                #[trigger] items[i],
            ),
    decreases items.len(),
{
    if items.len() > 0 {
        let init = items.drop_last();
        assert forall|i: int| 0 <= i < init.len() implies (#[trigger] init[i]).len() == 64 by {
            assert(init[i] == items[i]);
        }
        lemma_hex_list_items(init);
        lemma_hex_chars_len(items.last());
        let l = hex_list(items);
        assert(l == hex_list(init) + hex_chars(items.last()));
        assert forall|i: int| 0 <= i < items.len() implies l.subrange(128 * i, 128 * i + 128) == hex_chars(
            #[trigger] items[i],
        ) by {
            if i < init.len() {
                assert(init[i] == items[i]);
                assert(l.subrange(128 * i, 128 * i + 128) =~= hex_list(init).subrange(128 * i, 128 * i + 128));
            } else {
                assert(l.subrange(128 * i, 128 * i + 128) =~= hex_chars(items.last()));
            }
        }
    }
}

/// Where text ends with the hex list of the signatures of `hb` under `sks`,
/// each signature of 64 bytes, the signatures are its last `128 * sks.len()`
/// digits, in order.
proof fn lemma_signatures_at_end(v: Seq<char>, start: int, sks: Seq<Seq<u8>>, hb: Seq<u8>)
    requires
        0 <= start <= v.len(),
        v.subrange(start, v.len() as int) == hex_list(header_signatures(sks, hb)),
        forall|i: int| 0 <= i < sks.len() ==> (#[trigger] ed25519_signature(sks[i], hb)).len() == 64,
    ensures
        v.len() == start + 128 * sks.len(),
        forall|i: int|
            0 <= i < sks.len() ==> v.subrange(start + 128 * i, start + 128 * i + 128) == hex_chars(
                #[trigger] ed25519_signature(sks[i], hb),
            ),
{
    let sigs = header_signatures(sks, hb);
    assert forall|i: int| 0 <= i < sigs.len() implies (#[trigger] sigs[i]).len() == 64 by {
        assert(sigs[i] == ed25519_signature(sks[i], hb));
    }
    lemma_hex_list_items(sigs);
    let t = v.subrange(start, v.len() as int);
    assert forall|i: int| 0 <= i < sks.len() implies v.subrange(start + 128 * i, start + 128 * i + 128)
        == hex_chars(#[trigger] ed25519_signature(sks[i], hb)) by {
        assert(sigs[i] == ed25519_signature(sks[i], hb));
        assert(v.subrange(start + 128 * i, start + 128 * i + 128) =~= t.subrange(128 * i, 128 * i + 128));
    }
}

/// What a header proof holds, for any encoded header `hb` and stakes bytes `st`:
/// the word that spells the verifier's height; the `smt_datablock` hash of the
/// stakes bytes; the header's encoding after its length word; the stakes bytes
/// in hex after their length word; and then, 128 digits each and last in the
/// vector, the signature of the header's encoding under each secret key.
#[verifier::spinoff_prover]
pub proof fn lemma_header_proof_parts(verifier_height: u64, hb: Seq<u8>, st: Seq<u8>, sks: Seq<Seq<u8>>)
    requires
        labelled_digest(data_block_label(), st).len() == 32,
        forall|i: int| 0 <= i < sks.len() ==> (#[trigger] ed25519_signature(sks[i], hb)).len() == 64,
    ensures
        ({
            let v = header_proof_vector(
                verifier_height,
                labelled_digest(data_block_label(), st),
                hb,
                hex_chars(st),
                header_signatures(sks, hb),
            );
            let o2: int = 2 * (0xc0 + pad_block(hb).len()) as int;
            let e: int = v.len() - 128 * sks.len();
            &&& hex_number(word_at(v, 0)) == verifier_height
            &&& v.subrange(64, 128) == hex_chars(labelled_digest(data_block_label(), st))
            &&& v.subrange(2 * 0xa0 + 64int, 2 * 0xa0 + 64 + 2 * hb.len() as int) == hex_chars(hb)
            &&& v.subrange(o2 + 64, o2 + 64 + 2 * st.len() as int) == hex_chars(st)
            &&& o2 + 64 + 2 * st.len() <= e
            &&& forall|i: int|
                0 <= i < sks.len() ==> v.subrange(e + 128 * i, e + 128 * i + 128) == hex_chars(
                    #[trigger] ed25519_signature(sks[i], hb),
                )
        }),
{
    let sh = labelled_digest(data_block_label(), st);
    let stx = hex_chars(st);
    let sigs = header_signatures(sks, hb);
    let v = header_proof_vector(verifier_height, sh, hb, stx, sigs);
    lemma_header_proof_contents(verifier_height, sh, hb, stx, sigs);
    lemma_hex_chars_len(st);
    let sp = pad_right(stx, stx.len() + padding_len(stx.len()));
    lemma_padded_stakes_len(stx);
    let o3: int = 2 * (0xe0 + pad_block(hb).len() + sp.len() / 2) as int;
    lemma_signatures_at_end(v, o3 + 64, sks, hb);
}

/// What the header proof of a draw holds (see `lemma_header_proof_parts`): the
/// verifier's height, the `smt_datablock` hash of the epoch's stakes bytes, the
/// header's encoding, the stakes bytes, and the signature of the header's
/// encoding under each secret key.
pub proof fn lemma_header_proof_of_parts(
    verifier_height: u64,
    header: Header,
    docs: Seq<StakeDoc>,
    sks: Seq<Seq<u8>>,
    epoch: u64,
)
    requires
        has_fixed_widths(header, docs, sks, epoch),
    ensures
        ({
            let v = header_proof_of(verifier_height, header, docs, sks, epoch);
            let hb = stdcode_header(header);
            let st = stakes_bytes(docs, epoch);
            let o2: int = 2 * (0xc0 + pad_block(hb).len()) as int;
            let e: int = v.len() - 128 * sks.len();
            &&& hex_number(word_at(v, 0)) == verifier_height
            &&& v.subrange(64, 128) == hex_chars(labelled_digest(data_block_label(), st))
            &&& v.subrange(2 * 0xa0 + 64int, 2 * 0xa0 + 64 + 2 * hb.len() as int) == hex_chars(hb)
            &&& v.subrange(o2 + 64, o2 + 64 + 2 * st.len() as int) == hex_chars(st)
            &&& o2 + 64 + 2 * st.len() <= e
            &&& forall|i: int|
                0 <= i < sks.len() ==> v.subrange(e + 128 * i, e + 128 * i + 128) == hex_chars(
                    #[trigger] ed25519_signature(sks[i], hb),
                )
        }),
{
    lemma_header_proof_parts(verifier_height, stdcode_header(header), stakes_bytes(docs, epoch), sks);
}

/// In a header proof, the three offset words give the byte positions of the
/// length words of the header, of the stakes and of the signatures.
#[verifier::spinoff_prover]
pub proof fn lemma_header_proof_layout(
    verifier_height: u64,
    stakes_hash: Seq<u8>,
    header: Seq<u8>,
    stakes: Seq<char>,
    signatures: Seq<Seq<u8>>,
)
    requires
        stakes_hash.len() == 32,
    ensures
        ({
            let v = header_proof_vector(verifier_height, stakes_hash, header, stakes, signatures);
            let hp = pad_block(header);
            let sp = pad_right(stakes, stakes.len() + padding_len(stakes.len()));
            &&& word_at(v, 2 * 0xa0) == word(header.len())
            &&& word_at(v, 2 * (0xc0 + hp.len())) == word(stakes.len() / 2)
            &&& word_at(v, 2 * (0xe0 + hp.len() + sp.len() / 2)) == word(2 * signatures.len())
        }),
{
    let hp = pad_block(header);
    let sp = pad_right(stakes, stakes.len() + padding_len(stakes.len()));
    let head = word(verifier_height as nat) + hex_chars(stakes_hash) + word(0xa0) + word(0xc0 + hp.len())
        + word(0xe0 + hp.len() + sp.len() / 2);
    lemma_header_proof_head_len(verifier_height, stakes_hash, 0xc0 + hp.len(), 0xe0 + hp.len() + sp.len() / 2);
    lemma_hex_chars_len(hp);
    lemma_padded_stakes_len(stakes);
    lemma_word_len(header.len());
    lemma_word_len(stakes.len() / 2);
    lemma_word_len(2 * signatures.len());
    lemma_layout(head, word(header.len()), hex_chars(hp), word(stakes.len() / 2), sp, word(2 * signatures.len()), hex_list(signatures));
}

/// With 64-byte signatures a header proof is a whole number of words.
#[verifier::spinoff_prover]
pub proof fn lemma_header_proof_aligned(
    verifier_height: u64,
    stakes_hash: Seq<u8>,
    header: Seq<u8>,
    stakes: Seq<char>,
    signatures: Seq<Seq<u8>>,
)
    requires
        stakes_hash.len() == 32,
        forall|i: int| 0 <= i < signatures.len() ==> (#[trigger] signatures[i]).len() == 64,
    ensures
        header_proof_vector(verifier_height, stakes_hash, header, stakes, signatures).len() % 64 == 0,
{
    let hp = pad_block(header);
    let sp = pad_right(stakes, stakes.len() + padding_len(stakes.len()));
    lemma_header_proof_head_len(verifier_height, stakes_hash, 0xc0 + hp.len(), 0xe0 + hp.len() + sp.len() / 2);
    lemma_pad_block_len(header);
    lemma_hex_chars_len(hp);
    lemma_padded_stakes_len(stakes);
    lemma_word_len(header.len());
    lemma_word_len(stakes.len() / 2);
    lemma_word_len(2 * signatures.len());
    lemma_hex_list_len(signatures);
    let head = word(verifier_height as nat) + hex_chars(stakes_hash) + word(0xa0) + word(0xc0 + hp.len())
        + word(0xe0 + hp.len() + sp.len() / 2);
    lemma_layout(head, word(header.len()), hex_chars(hp), word(stakes.len() / 2), sp, word(2 * signatures.len()), hex_list(signatures));
    let n = signatures.len();
    let total = head.len() + 192 + hex_chars(hp).len() + sp.len() + hex_list(signatures).len();
    assert(total == 512 + 2 * hp.len() + sp.len() + 128 * n);
    assert((512 + 2 * hp.len() + sp.len() + 128 * n) % 64 == 0) by (nonlinear_arith)
        requires
            hp.len() % 64 == 0,
            sp.len() % 64 == 0,
    ;
}

proof fn lemma_layout(
    head: Seq<char>,
    w4: Seq<char>,
    x: Seq<char>,
    w5: Seq<char>,
    sp: Seq<char>,
    w6: Seq<char>,
    tail: Seq<char>,
)
    requires
        w4.len() == 64,
        w5.len() == 64,
        w6.len() == 64,
    ensures
        word_at(head + w4 + x + w5 + sp + w6 + tail, head.len()) == w4,
        word_at(head + w4 + x + w5 + sp + w6 + tail, head.len() + 64 + x.len()) == w5,
        word_at(head + w4 + x + w5 + sp + w6 + tail, head.len() + 128 + x.len() + sp.len()) == w6,
        (head + w4 + x + w5 + sp + w6 + tail).len() == head.len() + 192 + x.len() + sp.len() + tail.len(),
{
    let b1 = head + w4;
    let b2 = b1 + x;
    let b3 = b2 + w5;
    let b4 = b3 + sp;
    let b5 = b4 + w6;
    assert(word_at(b1, head.len()) =~= w4);
    lemma_word_extend(b1, x, head.len());
    lemma_word_extend(b2, w5, head.len());
    lemma_word_extend(b3, sp, head.len());
    lemma_word_extend(b4, w6, head.len());
    lemma_word_extend(b5, tail, head.len());
    assert(word_at(b3, b2.len()) =~= w5);
    lemma_word_extend(b3, sp, b2.len());
    lemma_word_extend(b4, w6, b2.len());
    lemma_word_extend(b5, tail, b2.len());
    assert(word_at(b5, b4.len()) =~= w6);
    lemma_word_extend(b5, tail, b4.len());
}

} // verus!
