# paraoxidizer

A toolkit for quantizing large language models into `.pox` containers, verifying
them, and running them. The container format, its integrity and signature checks,
the tokenizer, the paged KV cache, the GGUF header reader and the planning rules are
written in Verus and proved against their contracts; the command-line tool around
them is ordinary Rust.

## Layout

- `src/` — the verified library.
  - `pox`, `container`, `reader`, `verification`: the `.pox` format. A writer lays
    out the header and the sections; a reader finds them again; verification checks
    the magic, every tensor's SHA-256 digest, the artifact root hash and the Ed25519
    signature over it.
  - `digest`, `signature`: SHA-256, hexadecimal text and Ed25519 keys.
  - `tokenizer`, `paged_cache`, `gguf`, `outlier`, `kernels`, `tensor`, `arch`, `hf`,
    `planning`, `recorder`, `workload`, `resource`, `hardware`, `config`, `metrics`,
    `server`, `text`, `bytes`, `error`: the rest of the model-independent logic.
- `tests/` — tests of the library on concrete values.
- `app/` — the `pox` command-line tool: file and network I/O, JSON and TOML
  encoding, the floating-point kernels and inference engine, the HTTP server, the
  terminal monitor and the benchmarks.

## The `.pox` container

- A 128-byte header: the magic bytes `"POX\0"` (`0x50 0x4F 0x58 0x00`), the format
  version (1), flags and a reserved zero word as little-endian 32-bit numbers, then
  the offset and length of each section as little-endian 64-bit numbers; the rest is
  zero. The header carries no tensor count and no checksum of its own: with twelve
  64-bit section fields there is no room left for a 32-byte digest.
- The sections follow in this order, each starting on a multiple of 64 bytes:
  metadata (JSON), quantization plan (JSON), tensor payload, tensor index (JSON),
  manifest (JSON) and, when the container is signed, the signature block (JSON).
- Each tensor's data, scales and outliers start on a multiple of 64 bytes; the index
  records for each tensor the hex SHA-256 of those bytes.
- The manifest records the artifact root hash: one flat SHA-256, in hex, of everything
  from the end of the header to the end of the tensor index, padded to 64 bytes. It is
  not a Merkle tree over the tensor digests. A signature signs that root hash.

Verification recomputes every tensor digest and the root hash; a container whose
covered bytes were edited is reported as untrusted.

## Tokenizer

The built-in byte-level tokenizer has ids 0 to 2 for padding, start and end of text,
one id per ASCII character (its code point plus 3), and encodes every other character
as its UTF-8 bytes, byte `b` as id `b + 3`. Decoding joins runs of byte ids and reads
them as UTF-8, so decoding the encoding of any text gives the text back.

This joining applies to every vocabulary, also one built from a list of tokens: an id
from 3 to 258 that the vocabulary does not hold stands for the byte `id - 3`, and a
run of such bytes is read as UTF-8 where it is valid UTF-8 (ids 198 and 172 decode to
"é"), and as one character per byte (Latin-1) where it is not.
