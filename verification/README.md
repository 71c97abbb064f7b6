# differential

Generates test vectors for a light-client bridge of the Mel blockchain: hashes,
ed25519 signatures, stdcode encodings of integers, headers, stake documents and
transactions, framed as hex strings of 32-byte words the way an ABI decoder reads
them. The library in `src/` is verified with Verus; `app/main.rs` is the command
line front end that reads the flags and prints `0x` followed by a vector.

Modules of `src/`:

- `hexcode`: hex encoding and decoding, with the round-trip and concatenation laws.
- `abi`: words, zero padding to 64-unit blocks, and their laws.
- `model`: headers, stake documents, coins and transactions as plain values.
- `encoding`: the stdcode encoding: variable-length integers, headers, stake documents and transactions written out; the injectivity of the integer encoding.
- `crypto`, `random`: BLAKE3, ed25519 and random draws.
- `generate`: random chain values and what every draw satisfies.
- `vectors`, `consensus`: the vectors themselves.
- `parse`: reading `0x`-prefixed hex arguments.
- `layout`: the framing laws (word alignment, offsets that point at their arguments).

The chain types (headers, stake documents, coins, transactions) and their
serde encodings come from the `melstructs` crate, the renamed successor of
`themelio-structs`; `tmelcrypt`, `stdcode`, `blake3`, `ed25519-compact`, `hex`
and `rand` do the hashing, signing, encoding and random draws.
