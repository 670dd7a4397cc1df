//! Byte-level tokenizer with a vocabulary of whole-character tokens and a byte fallback.

use vstd::prelude::*;
use vstd::hash_map::StringHashMap;
use std::collections::HashMap;
use crate::text::{char_to_string, char_utf8_bytes, chars_of, utf8_to_string};
use vstd::utf8::{decode_utf8, encode_scalar, encode_utf8, valid_utf8};
use crate::error::owned;

verus! {

broadcast use vstd::std_specs::hash::group_hash_axioms;

/// Token of a byte that is not in the vocabulary: the byte plus the three special ids.
pub open spec fn fallback_id(b: u8) -> u32 {
    ((b as u32) + 3) as u32
}

/// Tokens of the UTF-8 bytes of a character missing from the vocabulary.
pub open spec fn byte_tokens(vocab: Map<Seq<char>, u32>, bytes: Seq<u8>) -> Seq<u32> {
    bytes.map_values(
        |b: u8|
            if vocab.contains_key(seq![b as char]) {
                vocab[seq![b as char]]
            } else {
                fallback_id(b)
            },
    )
}

/// Tokens of one character: its own token when the vocabulary has it, else its bytes.
pub open spec fn char_tokens(vocab: Map<Seq<char>, u32>, c: char) -> Seq<u32> {
    if vocab.contains_key(seq![c]) {
        seq![vocab[seq![c]]]
    } else {
        byte_tokens(vocab, vstd::utf8::encode_scalar(c as u32))
    }
}

/// Tokens of a text: the tokens of its characters, in order.
pub open spec fn encode_spec(vocab: Map<Seq<char>, u32>, text: Seq<char>) -> Seq<u32>
    decreases text.len(),
{
    if text.len() == 0 {
        Seq::empty()
    } else {
        encode_spec(vocab, text.drop_last()) + char_tokens(vocab, text.last())
    }
}

/// Text of bytes gathered from byte tokens: their UTF-8 decoding when they are valid
/// UTF-8, else one character per byte.
pub open spec fn bytes_text(bytes: Seq<u8>) -> Seq<char> {
    if valid_utf8(bytes) {
        decode_utf8(bytes)
    } else {
        bytes.map_values(|b: u8| b as char)
    }
}

/// The decoder's state after `tokens`: the finished text, and the bytes of the byte
/// tokens not yet joined into text. Padding, BOS and EOS are skipped; a vocabulary
/// token first turns the pending bytes into text, then adds its own text; an unknown
/// id from 3 to 258 adds its byte (the id minus 3); any other id is skipped.
pub open spec fn decode_state(inv: Map<u32, String>, bos: u32, eos: u32, tokens: Seq<u32>) -> (Seq<char>, Seq<u8>)
    decreases tokens.len(),
{
    if tokens.len() == 0 {
        (Seq::empty(), Seq::empty())
    } else {
        let (done, pending) = decode_state(inv, bos, eos, tokens.drop_last());
        let tok = tokens.last();
        if tok == eos || tok == bos || tok == 0 {
            (done, pending)
        } else if inv.contains_key(tok) {
            (done + bytes_text(pending) + inv[tok]@, Seq::empty())
        } else if 3 <= tok <= 258 {
            (done, pending.push((tok - 3) as u8))
        } else {
            (done, pending)
        }
    }
}

/// Text of a token sequence: the finished text, then the text of the bytes still pending.
pub open spec fn decode_spec(inv: Map<u32, String>, bos: u32, eos: u32, tokens: Seq<u32>) -> Seq<char> {
    let (done, pending) = decode_state(inv, bos, eos, tokens);
    done + bytes_text(pending)
}

/// Keys of the built-in byte vocabulary: the three special tokens and every
/// one-character string of an ASCII character (code point below 128).
pub open spec fn byte_vocab_key(k: Seq<char>) -> bool {
    k == "<|pad|>"@ || k == "<|bos|>"@ || k == "<|eos|>"@ || (k.len() == 1 && (k[0] as u32) < 128)
}

/// Id of a key of the built-in byte vocabulary.
pub open spec fn byte_vocab_id(k: Seq<char>) -> u32 {
    if k == "<|pad|>"@ {
        0
    } else if k == "<|bos|>"@ {
        1
    } else if k == "<|eos|>"@ {
        2
    } else {
        ((k[0] as u32) + 3) as u32
    }
}

/// Text of an id of the built-in byte vocabulary (ids 0 to 130).
pub open spec fn byte_inv_text(id: u32) -> Seq<char> {
    if id == 0 {
        "<|pad|>"@
    } else if id == 1 {
        "<|bos|>"@
    } else if id == 2 {
        "<|eos|>"@
    } else {
        seq![((id - 3) as u8) as char]
    }
}

/// The vocabulary of a list of (token text, id) entries; a later entry for a text wins.
pub open spec fn vocab_of(entries: Seq<(String, u32)>) -> Map<Seq<char>, u32>
    decreases entries.len(),
{
    if entries.len() == 0 {
        Map::empty()
    } else {
        vocab_of(entries.drop_last()).insert(entries.last().0@, entries.last().1)
    }
}

/// The id-to-text map of a list of (token text, id) entries; a later entry for an id wins.
pub open spec fn inverse_of(entries: Seq<(String, u32)>) -> Map<u32, Seq<char>>
    decreases entries.len(),
{
    if entries.len() == 0 {
        Map::empty()
    } else {
        inverse_of(entries.drop_last()).insert(entries.last().1, entries.last().0@)
    }
}

/// Whether an id-to-string map holds exactly the texts of `m`.
pub open spec fn inverse_matches(inv: Map<u32, String>, m: Map<u32, Seq<char>>) -> bool {
    &&& forall|id: u32| #[trigger] inv.contains_key(id) <==> m.contains_key(id)
    &&& forall|id: u32| m.contains_key(id) ==> (#[trigger] inv[id])@ == m[id]
}

/// Fast byte-level tokenizer.
pub struct PoxTokenizer {
    pub vocab: StringHashMap<u32>,
    pub inv_vocab: HashMap<u32, String>,
    pub bos_id: u32,
    pub eos_id: u32,
}

impl PoxTokenizer {
    /// Whether the tokenizer is the built-in byte-level one.
    pub open spec fn is_byte_fallback(&self) -> bool {
        &&& forall|k: Seq<char>| #[trigger] self.vocab@.contains_key(k) <==> byte_vocab_key(k)
        &&& forall|k: Seq<char>| byte_vocab_key(k) ==> #[trigger] self.vocab@[k] == byte_vocab_id(k)
        &&& forall|id: u32| #[trigger] self.inv_vocab@.contains_key(id) <==> id <= 130
        &&& forall|id: u32| id <= 130 ==> (#[trigger] self.inv_vocab@[id])@ == byte_inv_text(id)
        &&& self.bos_id == 1
        &&& self.eos_id == 2
    }

    /// The built-in byte-level tokenizer: special tokens 0 (padding), 1 (BOS), 2 (EOS),
    /// then one token per ASCII character (code points 0 to 127, ids 3 to 130). Every
    /// other character is encoded as its UTF-8 bytes, byte `b` as id `b + 3`, so any
    /// text is reversible.
    pub fn new_byte_fallback() -> (r: Self)
        ensures
            r.is_byte_fallback(),
    {
        let mut vocab: StringHashMap<u32> = StringHashMap::new();
        let mut inv_vocab: HashMap<u32, String> = HashMap::new();
        vocab.insert(owned("<|pad|>"), 0);
        inv_vocab.insert(0, owned("<|pad|>"));
        vocab.insert(owned("<|bos|>"), 1);
        inv_vocab.insert(1, owned("<|bos|>"));
        vocab.insert(owned("<|eos|>"), 2);
        inv_vocab.insert(2, owned("<|eos|>"));
        proof {
            lemma_special_keys();
        }
        let mut b: u32 = 0;
        while b < 128
            invariant
                0 <= b <= 128,
                forall|k: Seq<char>| #[trigger]
                    vocab@.contains_key(k) <==> (k == "<|pad|>"@ || k == "<|bos|>"@ || k
                        == "<|eos|>"@ || (k.len() == 1 && (k[0] as u32) < b)),
                forall|k: Seq<char>|
                    vocab@.contains_key(k) ==> #[trigger] vocab@[k] == byte_vocab_id(k),
                forall|id: u32| #[trigger] inv_vocab@.contains_key(id) <==> id < b + 3,
                forall|id: u32| id < b + 3 ==> (#[trigger] inv_vocab@[id])@ == byte_inv_text(id),
                "<|pad|>"@.len() == 7,
                "<|bos|>"@.len() == 7,
                "<|eos|>"@.len() == 7,
            decreases 128 - b,
        {
            assert((b as u8) as u32 == b) by (bit_vector)
                requires
                    b < 256,
            ;
            let c = char_from_byte(b as u8);
            let s = char_to_string(c);
            let s2 = char_to_string(c);
            let id = b + 3;
            vocab.insert(s, id);
            inv_vocab.insert(id, s2);
            proof {
                assert(((((id - 3) as u8) as char) as u32) == b);
                assert(seq![(((id - 3) as u8) as char)] == seq![c]);
                assert forall|k: Seq<char>| #[trigger]
                    vocab@.contains_key(k) <==> (k == "<|pad|>"@ || k == "<|bos|>"@ || k
                        == "<|eos|>"@ || (k.len() == 1 && (k[0] as u32) < b + 1)) by {
                    if k.len() == 1 && (k[0] as u32) == b {
                        lemma_char_eq(k[0], c, b);
                        assert(k =~= seq![c]);
                    }
                }
            }
            b = b + 1;
        }
        PoxTokenizer { vocab, inv_vocab, bos_id: 1, eos_id: 2 }
    }

    /// Tokens of `text`: each character's vocabulary token, or the tokens of its UTF-8
    /// bytes when the vocabulary lacks it.
    pub fn encode(&self, text: &str) -> (r: Vec<u32>)
        ensures
            r@ == encode_spec(self.vocab@, text@),
    {
        let chars = chars_of(text);
        let mut tokens: Vec<u32> = Vec::new();
        let mut i: usize = 0;
        while i < chars.len()
            invariant
                0 <= i <= chars@.len(),
                chars@ == text@,
                tokens@ == encode_spec(self.vocab@, chars@.subrange(0, i as int)),
            decreases chars@.len() - i,
        {
            let c = chars[i];
            let s = char_to_string(c);
            let ghost before = tokens@;
            match self.vocab.get(s.as_str()) {
                Some(id) => {
                    tokens.push(*id);
                },
                None => {
                    let bytes = char_utf8_bytes(c);
                    let mut j: usize = 0;
                    while j < bytes.len()
                        invariant
                            0 <= j <= bytes@.len(),
                            !self.vocab@.contains_key(seq![c]),
                            tokens@ == before + byte_tokens(
                                self.vocab@,
                                bytes@.subrange(0, j as int),
                            ),
                        decreases bytes@.len() - j,
                    {
                        let bb = bytes[j];
                        let bs = char_to_string(char_from_byte(bb));
                        let id = match self.vocab.get(bs.as_str()) {
                            Some(id) => *id,
                            None => (bb as u32) + 3,
                        };
                        tokens.push(id);
                        j = j + 1;
                        assert(tokens@ =~= before + byte_tokens(
                            self.vocab@,
                            bytes@.subrange(0, j as int),
                        ));
                    }
                    assert(bytes@.subrange(0, bytes@.len() as int) =~= bytes@);
                },
            }
            assert(chars@.subrange(0, i + 1).drop_last() =~= chars@.subrange(0, i as int));
            i = i + 1;
            assert(tokens@ =~= encode_spec(self.vocab@, chars@.subrange(0, i as int)));
        }
        assert(chars@.subrange(0, chars@.len() as int) =~= chars@);
        tokens
    }

    /// Text of `tokens`: special tokens are dropped, known tokens give their text, and
    /// runs of unknown byte tokens are joined and read as UTF-8 (byte by byte where they
    /// are not UTF-8). This holds for every vocabulary, the built-in one and one built
    /// from a token list alike: a byte that is part of a multi-byte UTF-8 character is
    /// not turned into a character of its own.
    pub fn decode(&self, tokens: &[u32]) -> (r: String)
        ensures
            r@ == decode_spec(self.inv_vocab@, self.bos_id, self.eos_id, tokens@),
    {
        let mut out = String::new();
        let mut pending: Vec<u8> = Vec::new();
        let mut i: usize = 0;
        while i < tokens.len()
            invariant
                0 <= i <= tokens@.len(),
                out@ == decode_state(self.inv_vocab@, self.bos_id, self.eos_id, tokens@.subrange(0, i as int)).0,
                pending@ == decode_state(self.inv_vocab@, self.bos_id, self.eos_id, tokens@.subrange(0, i as int)).1,
            decreases tokens@.len() - i,
        {
            let tok = tokens[i];
            if tok == self.eos_id || tok == self.bos_id || tok == 0 {
            } else {
                match self.inv_vocab.get(&tok) {
                    Some(s) => {
                        flush_bytes(&mut out, &mut pending);
                        out.append(s.as_str());
                    },
                    None => {
                        if 3 <= tok && tok <= 258 {
                            pending.push((tok - 3) as u8);
                        }
                    },
                }
            }
            assert(tokens@.subrange(0, i + 1).drop_last() =~= tokens@.subrange(0, i as int));
            i = i + 1;
        }
        assert(tokens@.subrange(0, tokens@.len() as int) =~= tokens@);
        flush_bytes(&mut out, &mut pending);
        out
    }
}

/// Appends the text of the pending bytes to `out` and empties them.
fn flush_bytes(out: &mut String, pending: &mut Vec<u8>)
    ensures
        final(out)@ == old(out)@ + bytes_text(old(pending)@),
        final(pending)@ == Seq::<u8>::empty(),
{
    let ghost start = out@;
    let copy = pending.clone();
    assert(copy@ =~= pending@);
    match utf8_to_string(copy) {
        Some(text) => {
            out.append(text.as_str());
        },
        None => {
            let mut j: usize = 0;
            while j < pending.len()
                invariant
                    0 <= j <= pending@.len(),
                    !valid_utf8(pending@),
                    out@ == start + pending@.subrange(0, j as int).map_values(|b: u8| b as char),
                decreases pending@.len() - j,
            {
                let c = char_from_byte(pending[j]);
                let cs = char_to_string(c);
                out.append(cs.as_str());
                assert(pending@.subrange(0, j + 1).map_values(|b: u8| b as char) =~= pending@.subrange(
                    0,
                    j as int,
                ).map_values(|b: u8| b as char).push(c));
                j = j + 1;
            }
            assert(pending@.subrange(0, pending@.len() as int) =~= pending@);
        },
    }
    *pending = Vec::new();
}

/// The character of code point `b` (`b as char`).
pub fn char_from_byte(b: u8) -> (c: char)
    ensures
        c == (b as char),
        (c as u32) == (b as u32),
{
    b as char
}

/// Decoding the byte tokenizer's encoding of any text gives back the text.
pub proof fn lemma_byte_fallback_roundtrip(t: PoxTokenizer, text: Seq<char>)
    requires
        t.is_byte_fallback(),
    ensures
        decode_spec(t.inv_vocab@, t.bos_id, t.eos_id, encode_spec(t.vocab@, text)) == text,
{
    lemma_fallback_state(t, text);
    let k = trailing_start(text);
    let rest = text.subrange(k, text.len() as int);
    vstd::utf8::encode_utf8_valid_utf8(rest);
    vstd::utf8::encode_utf8_decode_utf8(rest);
    assert(text.subrange(0, k) + rest =~= text);
}

/// Start of the trailing run of non-ASCII characters of a text.
pub open spec fn trailing_start(text: Seq<char>) -> int
    decreases text.len(),
{
    if text.len() == 0 {
        0
    } else if (text.last() as u32) < 128 {
        text.len() as int
    } else {
        trailing_start(text.drop_last())
    }
}

/// Decoding the byte tokenizer's encoding of a text leaves the text before its trailing
/// non-ASCII run finished, and the UTF-8 bytes of that run pending.
proof fn lemma_fallback_state(t: PoxTokenizer, text: Seq<char>)
    requires
        t.is_byte_fallback(),
    ensures
        0 <= trailing_start(text) <= text.len(),
        decode_state(t.inv_vocab@, t.bos_id, t.eos_id, encode_spec(t.vocab@, text)).0
            == text.subrange(0, trailing_start(text)),
        decode_state(t.inv_vocab@, t.bos_id, t.eos_id, encode_spec(t.vocab@, text)).1
            == encode_utf8(text.subrange(trailing_start(text), text.len() as int)),
    decreases text.len(),
{
    let inv = t.inv_vocab@;
    let vocab = t.vocab@;
    if text.len() == 0 {
        assert(text.subrange(0, 0) =~= Seq::<char>::empty());
        assert(encode_utf8(Seq::<char>::empty()) =~= Seq::<u8>::empty());
    } else {
        let p = text.drop_last();
        let c = text.last();
        lemma_fallback_state(t, p);
        let k = trailing_start(p);
        let e = encode_spec(vocab, p);
        let run = p.subrange(k, p.len() as int);
        lemma_fallback_char_tokens(t, c);
        if (c as u32) < 128 {
            let id = ((c as u32) + 3) as u32;
            let toks = e + seq![id];
            assert(encode_spec(vocab, text) == toks);
            assert(toks.drop_last() =~= e);
            assert(toks.last() == id);
            assert(inv.contains_key(id));
            lemma_byte_char(c as u32, c);
            assert(inv[id]@ == seq![c]);
            vstd::utf8::encode_utf8_valid_utf8(run);
            vstd::utf8::encode_utf8_decode_utf8(run);
            assert(p.subrange(0, k) + run + seq![c] =~= text.subrange(0, text.len() as int));
            assert(text.subrange(text.len() as int, text.len() as int) =~= Seq::<char>::empty());
            assert(encode_utf8(Seq::<char>::empty()) =~= Seq::<u8>::empty());
        } else {
            let bytes = encode_scalar(c as u32);
            assert(encode_spec(vocab, text) == e + bytes.map_values(|b: u8| fallback_id(b)));
            lemma_decode_bytes(inv, e, bytes);
            lemma_encode_utf8_push(run, c);
            assert(run.push(c) =~= text.subrange(k, text.len() as int));
            assert(p.subrange(0, k) =~= text.subrange(0, k));
        }
    }
}

/// Tokens of one character under the byte tokenizer: an ASCII character's own token,
/// else the fallback tokens of its UTF-8 bytes, which are all at least 128.
proof fn lemma_fallback_char_tokens(t: PoxTokenizer, c: char)
    requires
        t.is_byte_fallback(),
    ensures
        (c as u32) < 128 ==> char_tokens(t.vocab@, c) == seq![((c as u32) + 3) as u32],
        (c as u32) >= 128 ==> char_tokens(t.vocab@, c) == encode_scalar(c as u32).map_values(
            |b: u8| fallback_id(b),
        ),
        (c as u32) >= 128 ==> forall|i: int|
            0 <= i < encode_scalar(c as u32).len() ==> #[trigger] encode_scalar(c as u32)[i] >= 128,
{
    lemma_special_keys();
    lemma_scalar_bytes(c);
    let vocab = t.vocab@;
    assert(seq![c].len() == 1);
    if (c as u32) < 128 {
        assert(byte_vocab_key(seq![c]));
        assert(byte_vocab_id(seq![c]) == ((c as u32) + 3) as u32);
    } else {
        assert(!byte_vocab_key(seq![c]));
        let bytes = encode_scalar(c as u32);
        assert forall|i: int| 0 <= i < bytes.len() implies !vocab.contains_key(
            seq![#[trigger] bytes[i] as char],
        ) by {
            let b = bytes[i];
            assert((b as char) as u32 == b as u32);
            assert(!byte_vocab_key(seq![b as char]));
        }
        assert(byte_tokens(vocab, bytes) =~= bytes.map_values(|b: u8| fallback_id(b)));
    }
}

/// UTF-8 bytes of a character: the character itself for ASCII, else bytes that are all
/// at least 128.
proof fn lemma_scalar_bytes(c: char)
    ensures
        (c as u32) < 128 ==> encode_scalar(c as u32) == seq![(c as u32) as u8],
        (c as u32) >= 128 ==> forall|i: int|
            0 <= i < encode_scalar(c as u32).len() ==> #[trigger] encode_scalar(c as u32)[i] >= 128,
{
    let v = c as u32;
    if v < 128 {
        assert(vstd::utf8::leading_byte_width_1(v) == v as u8) by (bit_vector)
            requires
                v < 128,
        ;
        assert(encode_scalar(v) =~= seq![v as u8]);
    } else {
        assert(vstd::utf8::leading_byte_width_2(v) >= 128) by (bit_vector);
        assert(vstd::utf8::leading_byte_width_3(v) >= 128) by (bit_vector);
        assert(vstd::utf8::leading_byte_width_4(v) >= 128) by (bit_vector);
        assert(vstd::utf8::last_continuation_byte(v) >= 128) by (bit_vector);
        assert(vstd::utf8::second_last_continuation_byte(v) >= 128) by (bit_vector);
        assert(vstd::utf8::third_last_continuation_byte(v) >= 128) by (bit_vector);
    }
}

/// The UTF-8 encoding of a text with one more character ends with that character's bytes.
proof fn lemma_encode_utf8_push(s: Seq<char>, c: char)
    ensures
        encode_utf8(s.push(c)) == encode_utf8(s) + encode_scalar(c as u32),
    decreases s.len(),
{
    if s.len() == 0 {
        assert(s.push(c).drop_first() =~= Seq::<char>::empty());
        assert(encode_utf8(Seq::<char>::empty()) =~= Seq::<u8>::empty());
        assert(encode_utf8(s.push(c)) =~= encode_utf8(s) + encode_scalar(c as u32));
    } else {
        assert(s.push(c).drop_first() =~= s.drop_first().push(c));
        lemma_encode_utf8_push(s.drop_first(), c);
        assert(s.push(c)[0] == s[0]);
        assert(encode_utf8(s.push(c)) =~= encode_utf8(s) + encode_scalar(c as u32));
    }
}

/// Fallback tokens of bytes of 128 and above, none of them in the vocabulary, only add
/// their bytes to the pending ones.
proof fn lemma_decode_bytes(inv: Map<u32, String>, a: Seq<u32>, bytes: Seq<u8>)
    requires
        forall|k: u32| #[trigger] inv.contains_key(k) ==> k <= 130,
        forall|i: int| 0 <= i < bytes.len() ==> #[trigger] bytes[i] >= 128,
    ensures
        decode_state(inv, 1, 2, a + bytes.map_values(|b: u8| fallback_id(b))).0 == decode_state(
            inv,
            1,
            2,
            a,
        ).0,
        decode_state(inv, 1, 2, a + bytes.map_values(|b: u8| fallback_id(b))).1 == decode_state(
            inv,
            1,
            2,
            a,
        ).1 + bytes,
    decreases bytes.len(),
{
    let toks = a + bytes.map_values(|b: u8| fallback_id(b));
    if bytes.len() == 0 {
        assert(toks =~= a);
        assert(decode_state(inv, 1, 2, a).1 + bytes =~= decode_state(inv, 1, 2, a).1);
    } else {
        let bs = bytes.drop_last();
        assert forall|i: int| 0 <= i < bs.len() implies #[trigger] bs[i] >= 128 by {
            assert(bs[i] == bytes[i]);
        }
        lemma_decode_bytes(inv, a, bs);
        assert(toks.drop_last() =~= a + bs.map_values(|b: u8| fallback_id(b)));
        let b = bytes.last();
        assert(b >= 128) by {
            assert(bytes[bytes.len() - 1] == b);
        }
        assert(toks.last() == fallback_id(b));
        assert(!inv.contains_key(fallback_id(b)));
        assert(((fallback_id(b) - 3) as u8) == b);
        assert(decode_state(inv, 1, 2, a).1 + bs.push(b) =~= decode_state(inv, 1, 2, a).1 + bytes);
        assert((decode_state(inv, 1, 2, a).1 + bs).push(b) =~= decode_state(inv, 1, 2, a).1 + bs.push(b));
    }
}

proof fn lemma_char_eq(c: char, d: char, b: u32)
    requires
        c as u32 == b,
        d as u32 == b,
    ensures
        c == d,
{
}

proof fn lemma_byte_char(x: u32, c: char)
    requires
        x < 256,
        c as u32 == x,
    ensures
        ((x as u8) as char) == c,
{
    assert((x as u8) as u32 == x) by (bit_vector)
        requires
            x < 256,
    ;
    let y = x as u8;
    assert((y as char) as u32 == y as u32);
}

proof fn lemma_special_keys()
    ensures
        "<|pad|>"@.len() == 7,
        "<|bos|>"@.len() == 7,
        "<|eos|>"@.len() == 7,
        "<|pad|>"@ != "<|bos|>"@,
        "<|pad|>"@ != "<|eos|>"@,
        "<|bos|>"@ != "<|eos|>"@,
{
    reveal_strlit("<|pad|>");
    reveal_strlit("<|bos|>");
    reveal_strlit("<|eos|>");
    assert("<|pad|>"@[2] != "<|bos|>"@[2]);
    assert("<|pad|>"@[2] != "<|eos|>"@[2]);
    assert("<|bos|>"@[2] != "<|eos|>"@[2]);
}

impl Default for PoxTokenizer {
    /// The built-in byte-level tokenizer.
    fn default() -> (r: Self)
        ensures
            r.is_byte_fallback(),
    {
        PoxTokenizer::new_byte_fallback()
    }
}

impl PoxTokenizer {
    /// A tokenizer of the given vocabulary entries, with BOS id 1 and EOS id 2.
    pub fn from_vocab(entries: Vec<(String, u32)>) -> (r: Self)
        ensures
            r.vocab@ == vocab_of(entries@),
            inverse_matches(r.inv_vocab@, inverse_of(entries@)),
            r.bos_id == 1,
            r.eos_id == 2,
    {
        let mut vocab: StringHashMap<u32> = StringHashMap::new();
        let mut inv_vocab: HashMap<u32, String> = HashMap::new();
        let mut i: usize = 0;
        while i < entries.len()
            invariant
                0 <= i <= entries@.len(),
                vocab@ == vocab_of(entries@.subrange(0, i as int)),
                inverse_matches(inv_vocab@, inverse_of(entries@.subrange(0, i as int))),
            decreases entries@.len() - i,
        {
            let (text, id) = (&entries[i].0, entries[i].1);
            vocab.insert(text.clone(), id);
            inv_vocab.insert(id, text.clone());
            i = i + 1;
            proof {
                let s = entries@.subrange(0, i as int);
                assert(s.drop_last() =~= entries@.subrange(0, i - 1));
            }
        }
        assert(entries@.subrange(0, entries@.len() as int) =~= entries@);
        PoxTokenizer { vocab, inv_vocab, bos_id: 1, eos_id: 2 }
    }
}

} // verus!
