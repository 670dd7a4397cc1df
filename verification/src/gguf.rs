//! Reading the header and the simple key/value metadata of GGUF model files.

use vstd::prelude::*;
use crate::bytes::{le32, le64, lemma_u32_at_subrange, lemma_u32_roundtrip, lemma_u64_at_subrange, lemma_u64_roundtrip, read_u32_le, read_u64_le, u32_at, u64_at};
use crate::error::{concat, PoxError, Result};
use crate::pox::{eof_error, eof_message};
use crate::text::{decimal, u64_to_decimal, utf8_to_string};

verus! {

/// Magic bytes that open a GGUF file.
pub const GGUF_MAGIC: [u8; 4] = [0x47u8, 0x47u8, 0x55u8, 0x46u8];

/// Longest metadata string that is read.
pub const GGUF_MAX_STRING: u64 = 65536;

/// Most metadata entries that are read.
pub const GGUF_MAX_ENTRIES: u64 = 256;

/// A metadata value: text (strings and integers, the latter in decimal), or the bit
/// pattern of a 32-bit float.
#[derive(Debug, Clone, PartialEq, Eq)]
pub enum GgufValue {
    Text(String),
    F32Bits(u32),
}

/// The mathematical form of a metadata value.
pub enum GgufValueView {
    Text(Seq<char>),
    F32Bits(u32),
}

impl View for GgufValue {
    type V = GgufValueView;

    open spec fn view(&self) -> GgufValueView {
        match self {
            GgufValue::Text(s) => GgufValueView::Text(s@),
            GgufValue::F32Bits(b) => GgufValueView::F32Bits(*b),
        }
    }
}

/// The header counts and the metadata entries of a GGUF file. `kv_pairs` lists the
/// entries in file order; a later entry for a key replaces an earlier one.
#[derive(Debug, Clone)]
pub struct GgufMetadata {
    pub version: u32,
    pub tensor_count: u64,
    pub kv_count: u64,
    pub kv_pairs: Vec<(String, GgufValue)>,
}

/// A parsed GGUF file.
pub struct GgufReader {
    pub metadata: GgufMetadata,
}

/// Decimal text of a signed integer.
pub open spec fn signed_decimal(v: i32) -> Seq<char> {
    if v < 0 {
        "-"@ + decimal((0 - v) as nat)
    } else {
        decimal(v as nat)
    }
}

/// Reading a length-prefixed string at `pos`: its text where the length is at most
/// `GGUF_MAX_STRING`, the bytes are all there and they are UTF-8, and the position reading
/// stopped at. A read that runs out of bytes consumes the rest.
pub open spec fn gguf_string_at(b: Seq<u8>, pos: int) -> (Option<Seq<char>>, int) {
    if pos + 8 > b.len() {
        (None, b.len() as int)
    } else {
        let n = u64_at(b, pos);
        if n > GGUF_MAX_STRING {
            (None, pos + 8)
        } else if pos + 8 + n > b.len() {
            (None, b.len() as int)
        } else {
            let raw = b.subrange(pos + 8, pos + 8 + n);
            if vstd::utf8::valid_utf8(raw) {
                (Some(vstd::utf8::decode_utf8(raw)), pos + 8 + n)
            } else {
                (None, pos + 8 + n)
            }
        }
    }
}

/// The metadata entries read from `pos`, at most `remaining` of them. A key that cannot
/// be read, a missing value type or an unknown value type ends the list; a value that
/// cannot be read is skipped.
pub open spec fn gguf_entries(b: Seq<u8>, pos: int, remaining: nat) -> Seq<(Seq<char>, GgufValueView)>
    decreases remaining,
{
    if remaining == 0 {
        Seq::empty()
    } else {
        let (key, p1) = gguf_string_at(b, pos);
        let rest = (remaining - 1) as nat;
        match key {
            None => Seq::empty(),
            Some(k) => if p1 + 4 > b.len() {
                Seq::empty()
            } else {
                let t = u32_at(b, p1);
                let p2 = p1 + 4;
                if t == 8 {
                    let (v, p3) = gguf_string_at(b, p2);
                    match v {
                        Some(s) => seq![(k, GgufValueView::Text(s))] + gguf_entries(b, p3, rest),
                        None => gguf_entries(b, p3, rest),
                    }
                } else if t == 4 || t == 5 || t == 6 {
                    if p2 + 4 > b.len() {
                        gguf_entries(b, b.len() as int, rest)
                    } else {
                        let x = u32_at(b, p2);
                        let v = if t == 4 {
                            GgufValueView::Text(decimal(x as nat))
                        } else if t == 5 {
                            GgufValueView::Text(signed_decimal(x as i32))
                        } else {
                            GgufValueView::F32Bits(x)
                        };
                        seq![(k, v)] + gguf_entries(b, p2 + 4, rest)
                    }
                } else {
                    Seq::empty()
                }
            },
        }
    }
}

/// The views of a list of metadata entries.
pub open spec fn entry_views(s: Seq<(String, GgufValue)>) -> Seq<(Seq<char>, GgufValueView)> {
    s.map_values(|e: (String, GgufValue)| (e.0@, e.1@))
}

/// The outcome of parsing a GGUF file held in `b`.
pub open spec fn gguf_parse_ok(b: Seq<u8>, r: Result<GgufReader>) -> bool {
    if b.len() < 4 {
        r matches Err(PoxError::Io(m)) && m@ == eof_message()
    } else if b.subrange(0, 4) != GGUF_MAGIC@ {
        r matches Err(PoxError::InvalidMagic { expected, found }) && expected@ == GGUF_MAGIC@
            && found@ == b.subrange(0, 4)
    } else if b.len() < 24 {
        r matches Err(PoxError::Io(m)) && m@ == eof_message()
    } else {
        r matches Ok(g) && {
            let m = g.metadata;
            &&& m.version == u32_at(b, 4)
            &&& m.tensor_count == u64_at(b, 8)
            &&& m.kv_count == u64_at(b, 16)
            &&& entry_views(m.kv_pairs@) == gguf_entries(
                b,
                24,
                if m.kv_count < GGUF_MAX_ENTRIES {
                    m.kv_count as nat
                } else {
                    GGUF_MAX_ENTRIES as nat
                },
            )
        }
    }
}

/// Reads a length-prefixed string at `pos`.
fn read_gguf_string(b: &[u8], pos: usize) -> (r: (Option<String>, usize))
    requires
        pos <= b@.len(),
    ensures
        r.1 <= b@.len(),
        r.1 == gguf_string_at(b@, pos as int).1,
        match r.0 {
            Some(s) => gguf_string_at(b@, pos as int).0 == Some(s@),
            None => gguf_string_at(b@, pos as int).0 is None,
        },
{
    let len = b.len();
    if pos > len || len - pos < 8 {
        return (None, len);
    }
    let n = read_u64_le(b, pos);
    if n > GGUF_MAX_STRING {
        return (None, pos + 8);
    }
    let n = n as usize;
    if len - pos - 8 < n {
        return (None, len);
    }
    let start = pos + 8;
    let mut raw: Vec<u8> = Vec::new();
    let mut i: usize = 0;
    while i < n
        invariant
            0 <= i <= n,
            start + n <= b@.len(),
            b@.len() == len,
            raw@ == b@.subrange(start as int, start + i),
        decreases n - i,
    {
        raw.push(b[start + i]);
        i = i + 1;
        assert(raw@ =~= b@.subrange(start as int, start + i));
    }
    (utf8_to_string(raw), start + n)
}

/// Decimal text of a signed integer.
fn i32_to_decimal(v: i32) -> (r: String)
    ensures
        r@ == signed_decimal(v),
{
    if v < 0 {
        let mag = (0i64 - v as i64) as u64;
        concat("-", u64_to_decimal(mag).as_str())
    } else {
        u64_to_decimal(v as u64)
    }
}

impl GgufReader {
    /// Parses the magic, version, counts and simple metadata entries of a GGUF file.
    pub fn parse(bytes: &[u8]) -> (r: Result<Self>)
        ensures
            gguf_parse_ok(bytes@, r),
    {
        if bytes.len() < 4 {
            return Err(eof_error());
        }
        let magic: [u8; 4] = [bytes[0], bytes[1], bytes[2], bytes[3]];
        assert(magic@ =~= bytes@.subrange(0, 4));
        if !(magic[0] == GGUF_MAGIC[0] && magic[1] == GGUF_MAGIC[1] && magic[2] == GGUF_MAGIC[2]
            && magic[3] == GGUF_MAGIC[3]) {
            assert(magic@ != GGUF_MAGIC@) by {
                if magic@ == GGUF_MAGIC@ {
                    assert(magic@[0] == GGUF_MAGIC@[0]);
                    assert(magic@[1] == GGUF_MAGIC@[1]);
                    assert(magic@[2] == GGUF_MAGIC@[2]);
                    assert(magic@[3] == GGUF_MAGIC@[3]);
                }
            }
            return Err(PoxError::InvalidMagic { expected: GGUF_MAGIC, found: magic });
        }
        assert(magic@ =~= GGUF_MAGIC@);
        if bytes.len() < 24 {
            return Err(eof_error());
        }
        let version = read_u32_le(bytes, 4);
        let tensor_count = read_u64_le(bytes, 8);
        let kv_count = read_u64_le(bytes, 16);
        let total: u64 = if kv_count < GGUF_MAX_ENTRIES {
            kv_count
        } else {
            GGUF_MAX_ENTRIES
        };
        let len = bytes.len();
        let mut kv_pairs: Vec<(String, GgufValue)> = Vec::new();
        let mut pos: usize = 24;
        let mut remaining: u64 = total;
        while remaining > 0
            invariant_except_break
                pos <= len,
                len == bytes@.len(),
                entry_views(kv_pairs@) + gguf_entries(bytes@, pos as int, remaining as nat)
                    == gguf_entries(bytes@, 24, total as nat),
            ensures
                entry_views(kv_pairs@) == gguf_entries(bytes@, 24, total as nat),
            decreases remaining,
        {
            let ghost before = kv_pairs@;
            let (key, p1) = read_gguf_string(bytes, pos);
            let k = match key {
                Some(k) => k,
                None => {
                    assert(entry_views(kv_pairs@) =~= entry_views(kv_pairs@) + Seq::<
                        (Seq<char>, GgufValueView),
                    >::empty());
                    break ;
                },
            };
            if len - p1 < 4 {
                assert(entry_views(kv_pairs@) =~= entry_views(kv_pairs@) + Seq::<
                    (Seq<char>, GgufValueView),
                >::empty());
                break ;
            }
            let t = read_u32_le(bytes, p1);
            let p2 = p1 + 4;
            if t == 8 {
                let (v, p3) = read_gguf_string(bytes, p2);
                match v {
                    Some(s) => {
                        kv_pairs.push((k, GgufValue::Text(s)));
                        proof {
                            assert(entry_views(kv_pairs@) =~= entry_views(before) + seq![
                                (kv_pairs@.last().0@, kv_pairs@.last().1@),
                            ]);
                        }
                    },
                    None => {},
                }
                pos = p3;
            } else if t == 4 || t == 5 || t == 6 {
                if len - p2 < 4 {
                    pos = len;
                } else {
                    let x = read_u32_le(bytes, p2);
                    let v = if t == 4 {
                        GgufValue::Text(u64_to_decimal(x as u64))
                    } else if t == 5 {
                        GgufValue::Text(i32_to_decimal(x as i32))
                    } else {
                        GgufValue::F32Bits(x)
                    };
                    kv_pairs.push((k, v));
                    proof {
                        assert(entry_views(kv_pairs@) =~= entry_views(before) + seq![
                            (kv_pairs@.last().0@, kv_pairs@.last().1@),
                        ]);
                    }
                    pos = p2 + 4;
                }
            } else {
                assert(entry_views(kv_pairs@) =~= entry_views(kv_pairs@) + Seq::<
                    (Seq<char>, GgufValueView),
                >::empty());
                break ;
            }
            remaining = remaining - 1;
        }
        Ok(GgufReader { metadata: GgufMetadata { version, tensor_count, kv_count, kv_pairs } })
    }
}

/// The bytes of a GGUF string: the length of its UTF-8 encoding as a little-endian
/// 64-bit number, then that encoding.
pub open spec fn gguf_text_bytes(s: Seq<char>) -> Seq<u8> {
    le64(vstd::utf8::encode_utf8(s).len() as u64) + vstd::utf8::encode_utf8(s)
}

/// A metadata value as a file holds it: a string, or the 32-bit word of an unsigned
/// integer, a signed integer or a float.
pub enum GgufInput {
    Str(Seq<char>),
    U32(u32),
    I32(u32),
    F32(u32),
}

/// The bytes of a metadata value: its type code, then the value.
pub open spec fn gguf_value_bytes(v: GgufInput) -> Seq<u8> {
    match v {
        GgufInput::Str(s) => le32(8) + gguf_text_bytes(s),
        GgufInput::U32(x) => le32(4) + le32(x),
        GgufInput::I32(x) => le32(5) + le32(x),
        GgufInput::F32(x) => le32(6) + le32(x),
    }
}

/// What the reader gives for a metadata value: strings as they are, integers in
/// decimal (signed ones read as two's complement), floats by their bits.
pub open spec fn gguf_value_read(v: GgufInput) -> GgufValueView {
    match v {
        GgufInput::Str(s) => GgufValueView::Text(s),
        GgufInput::U32(x) => GgufValueView::Text(decimal(x as nat)),
        GgufInput::I32(x) => GgufValueView::Text(signed_decimal(x as i32)),
        GgufInput::F32(x) => GgufValueView::F32Bits(x),
    }
}

/// The bytes of metadata entries, one after another: each key, then its value.
pub open spec fn gguf_entries_bytes(es: Seq<(Seq<char>, GgufInput)>) -> Seq<u8>
    decreases es.len(),
{
    if es.len() == 0 {
        Seq::empty()
    } else {
        gguf_text_bytes(es[0].0) + gguf_value_bytes(es[0].1) + gguf_entries_bytes(es.drop_first())
    }
}

/// Whether every key and string value encodes to at most `GGUF_MAX_STRING` bytes.
pub open spec fn gguf_texts_fit(es: Seq<(Seq<char>, GgufInput)>) -> bool {
    forall|i: int|
        0 <= i < es.len() ==> vstd::utf8::encode_utf8((#[trigger] es[i]).0).len() <= GGUF_MAX_STRING
            && (es[i].1 matches GgufInput::Str(v) ==> vstd::utf8::encode_utf8(v).len() <= GGUF_MAX_STRING)
}

/// A GGUF file announcing `es.len()` metadata entries and holding them, followed by any
/// further bytes.
pub open spec fn gguf_file_bytes(
    version: u32,
    tensor_count: u64,
    es: Seq<(Seq<char>, GgufInput)>,
    tail: Seq<u8>,
) -> Seq<u8> {
    GGUF_MAGIC@ + le32(version) + le64(tensor_count) + le64(es.len() as u64) + gguf_entries_bytes(es)
        + tail
}

/// Entries as the reader gives them: each key with what it reads of its value.
pub open spec fn entries_read(es: Seq<(Seq<char>, GgufInput)>) -> Seq<(Seq<char>, GgufValueView)> {
    es.map_values(|e: (Seq<char>, GgufInput)| (e.0, gguf_value_read(e.1)))
}

/// The word written at `pos` is read back.
proof fn lemma_read_word(b: Seq<u8>, pos: int, x: u32)
    requires
        0 <= pos,
        pos + 4 <= b.len(),
        b.subrange(pos, pos + 4) == le32(x),
    ensures
        u32_at(b, pos) == x,
{
    assert(le32(x).subrange(0, 4) =~= le32(x));
    lemma_u32_at_subrange(b, le32(x), pos, 0);
    lemma_u32_roundtrip(x);
}

/// A string written at `pos` is read back, and reading stops right after it.
proof fn lemma_read_text(b: Seq<u8>, pos: int, s: Seq<char>)
    requires
        0 <= pos,
        pos + gguf_text_bytes(s).len() <= b.len(),
        b.subrange(pos, pos + gguf_text_bytes(s).len()) == gguf_text_bytes(s),
        vstd::utf8::encode_utf8(s).len() <= GGUF_MAX_STRING,
    ensures
        gguf_string_at(b, pos) == (Some(s), pos + gguf_text_bytes(s).len()),
{
    let e = vstd::utf8::encode_utf8(s);
    let n = e.len();
    let t = gguf_text_bytes(s);
    let h = le64(n as u64);
    assert(b.subrange(pos, pos + 8) =~= h.subrange(0, 8)) by {
        assert forall|k: int| 0 <= k < 8 implies #[trigger] b.subrange(pos, pos + 8)[k] == h.subrange(0, 8)[k] by {
            assert(b[pos + k] == b.subrange(pos, pos + t.len())[k]);
            assert(t[k] == h[k]);
        }
    }
    lemma_u64_at_subrange(b, h, pos, 0);
    lemma_u64_roundtrip(n as u64);
    assert(u64_at(b, pos) == n);
    assert(b.subrange(pos + 8, pos + 8 + n) =~= e) by {
        assert forall|k: int| 0 <= k < n implies #[trigger] b.subrange(pos + 8, pos + 8 + n)[k] == e[k] by {
            assert(b[pos + 8 + k] == b.subrange(pos, pos + t.len())[8 + k]);
            assert(t[8 + k] == e[k]);
        }
    }
    vstd::utf8::encode_utf8_valid_utf8(s);
    vstd::utf8::encode_utf8_decode_utf8(s);
}

/// Entries written at `pos` are all read back, in order.
proof fn lemma_read_entries(b: Seq<u8>, pos: int, es: Seq<(Seq<char>, GgufInput)>)
    requires
        0 <= pos,
        pos + gguf_entries_bytes(es).len() <= b.len(),
        b.subrange(pos, pos + gguf_entries_bytes(es).len()) == gguf_entries_bytes(es),
        gguf_texts_fit(es),
    ensures
        gguf_entries(b, pos, es.len()) == entries_read(es),
    decreases es.len(),
{
    if es.len() == 0 {
        assert(entries_read(es) =~= Seq::empty());
    } else {
        let k = es[0].0;
        let v = es[0].1;
        let kb = gguf_text_bytes(k);
        let vb = gguf_value_bytes(v);
        let rest = es.drop_first();
        let rb = gguf_entries_bytes(rest);
        let all = gguf_entries_bytes(es);
        assert(all == kb + vb + rb);
        let whole = b.subrange(pos, pos + all.len());
        assert(gguf_texts_fit(rest)) by {
            assert forall|i: int| 0 <= i < rest.len() implies vstd::utf8::encode_utf8((#[trigger] rest[i]).0).len()
                <= GGUF_MAX_STRING && (rest[i].1 matches GgufInput::Str(v) ==> vstd::utf8::encode_utf8(v).len()
                <= GGUF_MAX_STRING) by {
                assert(rest[i] == es[i + 1]);
            }
        }
        assert(es[0] == es[0]);
        assert(b.subrange(pos, pos + kb.len()) =~= kb) by {
            assert forall|i: int| 0 <= i < kb.len() implies #[trigger] b.subrange(pos, pos + kb.len())[i] == kb[i] by {
                assert(b[pos + i] == whole[i]);
            }
        }
        lemma_read_text(b, pos, k);
        let p1 = pos + kb.len();
        assert(b.subrange(p1, p1 + vb.len()) =~= vb) by {
            assert forall|i: int| 0 <= i < vb.len() implies #[trigger] b.subrange(p1, p1 + vb.len())[i] == vb[i] by {
                assert(b[p1 + i] == whole[kb.len() + i]);
            }
        }
        let code: u32 = match v {
            GgufInput::Str(_) => 8,
            GgufInput::U32(_) => 4,
            GgufInput::I32(_) => 5,
            GgufInput::F32(_) => 6,
        };
        assert(b.subrange(p1, p1 + 4) =~= le32(code)) by {
            assert forall|i: int| 0 <= i < 4 implies #[trigger] b.subrange(p1, p1 + 4)[i] == le32(code)[i] by {
                assert(b[p1 + i] == b.subrange(p1, p1 + vb.len())[i]);
            }
        }
        lemma_read_word(b, p1, code);
        let p2 = p1 + 4;
        match v {
            GgufInput::Str(s) => {
                let sb = gguf_text_bytes(s);
                assert(b.subrange(p2, p2 + sb.len()) =~= sb) by {
                    assert forall|i: int| 0 <= i < sb.len() implies #[trigger] b.subrange(p2, p2 + sb.len())[i] == sb[i] by {
                        assert(b[p2 + i] == b.subrange(p1, p1 + vb.len())[4 + i]);
                    }
                }
                lemma_read_text(b, p2, s);
            },
            GgufInput::U32(x) | GgufInput::I32(x) | GgufInput::F32(x) => {
                assert(b.subrange(p2, p2 + 4) =~= le32(x)) by {
                    assert forall|i: int| 0 <= i < 4 implies #[trigger] b.subrange(p2, p2 + 4)[i] == le32(x)[i] by {
                        assert(b[p2 + i] == b.subrange(p1, p1 + vb.len())[4 + i]);
                    }
                }
                lemma_read_word(b, p2, x);
            },
        }
        let p3 = p1 + vb.len();
        assert(b.subrange(p3, p3 + rb.len()) =~= rb) by {
            assert forall|i: int| 0 <= i < rb.len() implies #[trigger] b.subrange(p3, p3 + rb.len())[i] == rb[i] by {
                assert(b[p3 + i] == whole[kb.len() + vb.len() + i]);
            }
        }
        lemma_read_entries(b, p3, rest);
        assert(entries_read(es) =~= seq![(k, gguf_value_read(v))] + entries_read(rest));
    }
}

/// A GGUF file that announces up to `GGUF_MAX_ENTRIES` metadata entries of the simple
/// types (strings, 32-bit integers and floats) and holds them parses, whatever follows
/// them: the header counts are those written, and every announced entry is read, in
/// file order, with its key and its value.
pub proof fn lemma_gguf_reads_announced_entries(
    version: u32,
    tensor_count: u64,
    es: Seq<(Seq<char>, GgufInput)>,
    tail: Seq<u8>,
    r: Result<GgufReader>,
)
    requires
        es.len() <= GGUF_MAX_ENTRIES,
        gguf_texts_fit(es),
        gguf_parse_ok(gguf_file_bytes(version, tensor_count, es, tail), r),
    ensures
        r matches Ok(g) && {
            &&& g.metadata.version == version
            &&& g.metadata.tensor_count == tensor_count
            &&& g.metadata.kv_count == es.len()
            &&& g.metadata.kv_pairs@.len() == es.len()
            &&& entry_views(g.metadata.kv_pairs@) == entries_read(es)
        },
{
    let b = gguf_file_bytes(version, tensor_count, es, tail);
    let m = GGUF_MAGIC@;
    let vb = le32(version);
    let tb = le64(tensor_count);
    let cb = le64(es.len() as u64);
    let eb = gguf_entries_bytes(es);
    assert(b == m + vb + tb + cb + eb + tail);
    assert(b.len() >= 24);
    assert(b.subrange(0, 4) =~= m);
    assert(b.subrange(4, 8) =~= vb);
    lemma_read_word(b, 4, version);
    assert(b.subrange(8, 16) =~= tb.subrange(0, 8));
    lemma_u64_at_subrange(b, tb, 8, 0);
    lemma_u64_roundtrip(tensor_count);
    assert(b.subrange(16, 24) =~= cb.subrange(0, 8));
    lemma_u64_at_subrange(b, cb, 16, 0);
    lemma_u64_roundtrip(es.len() as u64);
    assert(b.subrange(24, 24 + eb.len() as int) =~= eb);
    lemma_read_entries(b, 24, es);
    let g = r->Ok_0;
    assert(entry_views(g.metadata.kv_pairs@).len() == g.metadata.kv_pairs@.len());
}

} // verus!
