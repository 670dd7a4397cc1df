//! The `.pox` container: fixed header, section layout, writer and reader.

use vstd::prelude::*;
use crate::bytes::{le32, le64, u32_at, u64_at, read_u32_le, read_u64_le, write_u32_le, write_u64_le, lemma_u32_roundtrip, lemma_u64_roundtrip, lemma_u32_at_subrange, lemma_u64_at_subrange};
use crate::error::{owned, PoxError, Result};

verus! {

/// Magic bytes that open every `.pox` container.
pub const POX_MAGIC: [u8; 4] = [0x50u8, 0x4Fu8, 0x58u8, 0x00u8];

/// Container format version written and accepted by this library.
pub const POX_VERSION: u32 = 1;

/// Size in bytes of the fixed header.
pub const HEADER_SIZE: u64 = 128;

/// Alignment in bytes of every section and tensor payload.
pub const DATA_ALIGNMENT: usize = 64;

/// Text of the error raised when the input ends inside the header.
pub open spec fn eof_message() -> Seq<char> {
    "failed to fill whole buffer"@
}

/// The fixed 128-byte header of a `.pox` container.
#[derive(Debug, Clone, PartialEq, Eq)]
pub struct PoxHeader {
    pub magic: [u8; 4],
    pub format_version: u32,
    pub flags: u32,
    pub metadata_offset: u64,
    pub metadata_len: u64,
    pub tensor_index_offset: u64,
    pub tensor_index_len: u64,
    pub quant_plan_offset: u64,
    pub quant_plan_len: u64,
    pub data_offset: u64,
    pub data_len: u64,
    pub manifest_offset: u64,
    pub manifest_len: u64,
    pub signature_offset: u64,
    pub signature_len: u64,
}

/// Sixteen zero bytes that close the header.
pub open spec fn header_padding() -> Seq<u8> {
    Seq::new(16, |i: int| 0u8)
}

/// The 128 bytes that encode a header: magic, version, flags, a reserved zero word,
/// the twelve section offsets and lengths, and zero padding.
pub open spec fn header_bytes(h: PoxHeader) -> Seq<u8> {
    h.magic@ + le32(h.format_version) + le32(h.flags) + le32(0) + le64(h.metadata_offset) + le64(
        h.metadata_len,
    ) + le64(h.tensor_index_offset) + le64(h.tensor_index_len) + le64(h.quant_plan_offset)
        + le64(h.quant_plan_len) + le64(h.data_offset) + le64(h.data_len) + le64(
        h.manifest_offset,
    ) + le64(h.manifest_len) + le64(h.signature_offset) + le64(h.signature_len)
        + header_padding()
}

/// Whether `s` starts with a complete header of the supported magic and version.
pub open spec fn header_accepts(s: Seq<u8>) -> bool {
    &&& s.len() >= 128
    &&& s.subrange(0, 4) == POX_MAGIC@
    &&& u32_at(s, 4) == POX_VERSION
}

/// Whether the fields of `h` are the ones stored in the header at the start of `s`.
pub open spec fn header_fields_at(h: PoxHeader, s: Seq<u8>) -> bool {
    &&& h.magic@ == s.subrange(0, 4)
    &&& h.format_version == u32_at(s, 4)
    &&& h.flags == u32_at(s, 8)
    &&& h.metadata_offset == u64_at(s, 16)
    &&& h.metadata_len == u64_at(s, 24)
    &&& h.tensor_index_offset == u64_at(s, 32)
    &&& h.tensor_index_len == u64_at(s, 40)
    &&& h.quant_plan_offset == u64_at(s, 48)
    &&& h.quant_plan_len == u64_at(s, 56)
    &&& h.data_offset == u64_at(s, 64)
    &&& h.data_len == u64_at(s, 72)
    &&& h.manifest_offset == u64_at(s, 80)
    &&& h.manifest_len == u64_at(s, 88)
    &&& h.signature_offset == u64_at(s, 96)
    &&& h.signature_len == u64_at(s, 104)
}

/// The outcome of reading a header from `s`, stated field by field in `read_from`.
pub open spec fn header_read_ok(s: Seq<u8>, r: Result<PoxHeader>) -> bool {
    if s.len() < 4 {
        r matches Err(PoxError::Io(m)) && m@ == eof_message()
    } else if s.subrange(0, 4) != POX_MAGIC@ {
        r matches Err(PoxError::InvalidMagic { expected, found }) && expected@ == POX_MAGIC@
            && found@ == s.subrange(0, 4)
    } else if s.len() < 8 {
        r matches Err(PoxError::Io(m)) && m@ == eof_message()
    } else if u32_at(s, 4) != POX_VERSION {
        r == Err::<PoxHeader, PoxError>(PoxError::UnsupportedVersion(u32_at(s, 4)))
    } else if s.len() < 128 {
        r matches Err(PoxError::Io(m)) && m@ == eof_message()
    } else {
        r matches Ok(h) && header_fields_at(h, s)
    }
}

pub(crate) fn eof_error() -> (e: PoxError)
    ensures
        e matches PoxError::Io(m) && m@ == eof_message(),
{
    PoxError::Io(owned("failed to fill whole buffer"))
}

impl PoxHeader {
    /// Parses the header at the start of `bytes`.
    pub fn read_from(bytes: &[u8]) -> (r: Result<Self>)
        ensures
            header_read_ok(bytes@, r),
    {
        if bytes.len() < 4 {
            return Err(eof_error());
        }
        let magic: [u8; 4] = [bytes[0], bytes[1], bytes[2], bytes[3]];
        assert(magic@ =~= bytes@.subrange(0, 4));
        if !(magic[0] == POX_MAGIC[0] && magic[1] == POX_MAGIC[1] && magic[2] == POX_MAGIC[2]
            && magic[3] == POX_MAGIC[3]) {
            let expected = POX_MAGIC;
            assert(magic@ != POX_MAGIC@) by {
                if magic@ == POX_MAGIC@ {
                    assert(magic@[0] == POX_MAGIC@[0]);
                    assert(magic@[1] == POX_MAGIC@[1]);
                    assert(magic@[2] == POX_MAGIC@[2]);
                    assert(magic@[3] == POX_MAGIC@[3]);
                }
            }
            return Err(PoxError::InvalidMagic { expected, found: magic });
        }
        assert(magic@ =~= POX_MAGIC@);
        if bytes.len() < 8 {
            return Err(eof_error());
        }
        let format_version = read_u32_le(bytes, 4);
        if format_version != POX_VERSION {
            return Err(PoxError::UnsupportedVersion(format_version));
        }
        if bytes.len() < 128 {
            return Err(eof_error());
        }
        let flags = read_u32_le(bytes, 8);
        let metadata_offset = read_u64_le(bytes, 16);
        let metadata_len = read_u64_le(bytes, 24);
        let tensor_index_offset = read_u64_le(bytes, 32);
        let tensor_index_len = read_u64_le(bytes, 40);
        let quant_plan_offset = read_u64_le(bytes, 48);
        let quant_plan_len = read_u64_le(bytes, 56);
        let data_offset = read_u64_le(bytes, 64);
        let data_len = read_u64_le(bytes, 72);
        let manifest_offset = read_u64_le(bytes, 80);
        let manifest_len = read_u64_le(bytes, 88);
        let signature_offset = read_u64_le(bytes, 96);
        let signature_len = read_u64_le(bytes, 104);
        Ok(PoxHeader {
            magic,
            format_version,
            flags,
            metadata_offset,
            metadata_len,
            tensor_index_offset,
            tensor_index_len,
            quant_plan_offset,
            quant_plan_len,
            data_offset,
            data_len,
            manifest_offset,
            manifest_len,
            signature_offset,
            signature_len,
        })
    }

    /// Appends the 128-byte encoding of the header to `out`.
    pub fn write_to(&self, out: &mut Vec<u8>)
        ensures
            final(out)@ == old(out)@ + header_bytes(*self),
    {
        let ghost start = out@;
        out.push(self.magic[0]);
        out.push(self.magic[1]);
        out.push(self.magic[2]);
        out.push(self.magic[3]);
        assert(out@ =~= start + self.magic@);
        write_u32_le(out, self.format_version);
        write_u32_le(out, self.flags);
        write_u32_le(out, 0);
        write_u64_le(out, self.metadata_offset);
        write_u64_le(out, self.metadata_len);
        write_u64_le(out, self.tensor_index_offset);
        write_u64_le(out, self.tensor_index_len);
        write_u64_le(out, self.quant_plan_offset);
        write_u64_le(out, self.quant_plan_len);
        write_u64_le(out, self.data_offset);
        write_u64_le(out, self.data_len);
        write_u64_le(out, self.manifest_offset);
        write_u64_le(out, self.manifest_len);
        write_u64_le(out, self.signature_offset);
        write_u64_le(out, self.signature_len);
        let ghost before_pad = out@;
        let mut i: usize = 0;
        while i < 16
            invariant
                0 <= i <= 16,
                out@ == before_pad + Seq::new(i as nat, |k: int| 0u8),
            decreases 16 - i,
        {
            out.push(0u8);
            i = i + 1;
            assert(out@ =~= before_pad + Seq::new(i as nat, |k: int| 0u8));
        }
        assert(out@ =~= start + header_bytes(*self));
    }
}

/// The encoding of a header is exactly `HEADER_SIZE` bytes long.
pub proof fn lemma_header_size(h: PoxHeader)
    ensures
        header_bytes(h).len() == HEADER_SIZE,
{
}

/// A header of the supported magic and version, once written, is accepted and read
/// back field for field.
pub proof fn lemma_header_roundtrip(h: PoxHeader)
    requires
        h.magic@ == POX_MAGIC@,
        h.format_version == POX_VERSION,
    ensures
        header_accepts(header_bytes(h)),
        header_fields_at(h, header_bytes(h)),
{
    let s = header_bytes(h);
    assert(s.subrange(0, 4) =~= h.magic@);
    assert(s.subrange(4, 8) =~= le32(h.format_version));
    assert(s.subrange(8, 12) =~= le32(h.flags));
    lemma_u32_field(s, h.format_version, 4);
    lemma_u32_field(s, h.flags, 8);
    assert(s.subrange(16, 24) =~= le64(h.metadata_offset));
    lemma_u64_field(s, h.metadata_offset, 16);
    assert(s.subrange(24, 32) =~= le64(h.metadata_len));
    lemma_u64_field(s, h.metadata_len, 24);
    assert(s.subrange(32, 40) =~= le64(h.tensor_index_offset));
    lemma_u64_field(s, h.tensor_index_offset, 32);
    assert(s.subrange(40, 48) =~= le64(h.tensor_index_len));
    lemma_u64_field(s, h.tensor_index_len, 40);
    assert(s.subrange(48, 56) =~= le64(h.quant_plan_offset));
    lemma_u64_field(s, h.quant_plan_offset, 48);
    assert(s.subrange(56, 64) =~= le64(h.quant_plan_len));
    lemma_u64_field(s, h.quant_plan_len, 56);
    assert(s.subrange(64, 72) =~= le64(h.data_offset));
    lemma_u64_field(s, h.data_offset, 64);
    assert(s.subrange(72, 80) =~= le64(h.data_len));
    lemma_u64_field(s, h.data_len, 72);
    assert(s.subrange(80, 88) =~= le64(h.manifest_offset));
    lemma_u64_field(s, h.manifest_offset, 80);
    assert(s.subrange(88, 96) =~= le64(h.manifest_len));
    lemma_u64_field(s, h.manifest_len, 88);
    assert(s.subrange(96, 104) =~= le64(h.signature_offset));
    lemma_u64_field(s, h.signature_offset, 96);
    assert(s.subrange(104, 112) =~= le64(h.signature_len));
    lemma_u64_field(s, h.signature_len, 104);
}

proof fn lemma_u32_field(s: Seq<u8>, v: u32, off: int)
    requires
        0 <= off,
        off + 4 <= s.len(),
        s.subrange(off, off + 4) == le32(v),
    ensures
        u32_at(s, off) == v,
{
    lemma_u32_roundtrip(v);
    assert(le32(v).subrange(0, 4) =~= le32(v));
    lemma_u32_at_subrange(s, le32(v), off, 0);
}

proof fn lemma_u64_field(s: Seq<u8>, v: u64, off: int)
    requires
        0 <= off,
        off + 8 <= s.len(),
        s.subrange(off, off + 8) == le64(v),
    ensures
        u64_at(s, off) == v,
{
    lemma_u64_roundtrip(v);
    assert(le64(v).subrange(0, 8) =~= le64(v));
    lemma_u64_at_subrange(s, le64(v), off, 0);
}

/// The bytes of a header determine its fields: two headers read from the same bytes are equal.
pub proof fn lemma_header_fields_determine(h1: PoxHeader, h2: PoxHeader, s: Seq<u8>)
    requires
        header_fields_at(h1, s),
        header_fields_at(h2, s),
    ensures
        h1 == h2,
{
    assert(h1.magic@ =~= h2.magic@);
    broadcast use vstd::array::axiom_array_ext_equal;

    assert(h1.magic =~= h2.magic);
}

} // verus!
