//! Sparse outlier tables: the weights kept at full precision beside a quantized tensor.

use vstd::prelude::*;
use crate::bytes::{
    le16, le32, u16_at, u32_at, read_u16_le, read_u32_le, write_u16_le, write_u32_le,
    lemma_u16_roundtrip, lemma_u32_roundtrip, lemma_u16_at_subrange, lemma_u32_at_subrange,
};
use crate::error::{owned, PoxError, Result};
use crate::text::{ascii_lower, lowercase_of, to_lowercase};

verus! {

/// Policy for detecting and keeping outlier weights.
#[derive(Debug, Clone, Copy, PartialEq, Eq, Structural)]
pub enum OutlierPolicy {
    Disabled,
    Conservative,
    Automatic,
    Aggressive,
}

/// The policy named by a lowercase name; unknown names select the automatic policy.
pub open spec fn policy_from_lower(l: Seq<char>) -> OutlierPolicy {
    if l == "disabled"@ || l == "none"@ {
        OutlierPolicy::Disabled
    } else if l == "conservative"@ {
        OutlierPolicy::Conservative
    } else if l == "aggressive"@ {
        OutlierPolicy::Aggressive
    } else {
        OutlierPolicy::Automatic
    }
}

impl OutlierPolicy {
    /// Parses a (case-insensitive) policy name.
    pub fn from_str_name(s: &str) -> (r: Self)
        ensures
            r == policy_from_lower(lowercase_of(s@)),
            vstd::utf8::is_ascii_chars(s@) ==> r == policy_from_lower(s@.map_values(|c: char| ascii_lower(c))),
    {
        let l = to_lowercase(s);
        if l == owned("disabled") || l == owned("none") {
            OutlierPolicy::Disabled
        } else if l == owned("conservative") {
            OutlierPolicy::Conservative
        } else if l == owned("aggressive") {
            OutlierPolicy::Aggressive
        } else {
            OutlierPolicy::Automatic
        }
    }
}

/// Little-endian bytes of a sequence of `u32`s, one after another.
pub open spec fn le32_all(s: Seq<u32>) -> Seq<u8>
    decreases s.len(),
{
    if s.len() == 0 {
        Seq::empty()
    } else {
        le32_all(s.drop_last()) + le32(s.last())
    }
}

/// Little-endian bytes of a sequence of `u16`s, one after another.
pub open spec fn le16_all(s: Seq<u16>) -> Seq<u8>
    decreases s.len(),
{
    if s.len() == 0 {
        Seq::empty()
    } else {
        le16_all(s.drop_last()) + le16(s.last())
    }
}

proof fn lemma_le32_all(s: Seq<u32>)
    ensures
        le32_all(s).len() == 4 * s.len(),
        forall|i: int|
            0 <= i < s.len() ==> #[trigger] le32_all(s).subrange(4 * i, 4 * i + 4) == le32(s[i]),
    decreases s.len(),
{
    if s.len() > 0 {
        let p = s.drop_last();
        lemma_le32_all(p);
        assert forall|i: int| 0 <= i < s.len() implies #[trigger] le32_all(s).subrange(
            4 * i,
            4 * i + 4,
        ) == le32(s[i]) by {
            if i < s.len() - 1 {
                assert(le32_all(s).subrange(4 * i, 4 * i + 4) =~= le32_all(p).subrange(
                    4 * i,
                    4 * i + 4,
                ));
                assert(p[i] == s[i]);
            } else {
                assert(le32_all(s).subrange(4 * i, 4 * i + 4) =~= le32(s.last()));
            }
        }
    }
}

proof fn lemma_le16_all(s: Seq<u16>)
    ensures
        le16_all(s).len() == 2 * s.len(),
        forall|i: int|
            0 <= i < s.len() ==> #[trigger] le16_all(s).subrange(2 * i, 2 * i + 2) == le16(s[i]),
    decreases s.len(),
{
    if s.len() > 0 {
        let p = s.drop_last();
        lemma_le16_all(p);
        assert forall|i: int| 0 <= i < s.len() implies #[trigger] le16_all(s).subrange(
            2 * i,
            2 * i + 2,
        ) == le16(s[i]) by {
            if i < s.len() - 1 {
                assert(le16_all(s).subrange(2 * i, 2 * i + 2) =~= le16_all(p).subrange(
                    2 * i,
                    2 * i + 2,
                ));
                assert(p[i] == s[i]);
            } else {
                assert(le16_all(s).subrange(2 * i, 2 * i + 2) =~= le16(s.last()));
            }
        }
    }
}

/// Outlier weights of a tensor: flat element indices and their values as the bit
/// patterns of IEEE 754 half-precision numbers.
#[derive(Debug, Clone, PartialEq, Eq, Default)]
pub struct SparseOutlierTable {
    pub indices: Vec<u32>,
    pub values: Vec<u16>,
}

/// The serialized form of a table: the count of indices (as a `u32`), the indices,
/// then the values, all little-endian.
pub open spec fn outlier_table_bytes(indices: Seq<u32>, values: Seq<u16>) -> Seq<u8> {
    le32(indices.len() as u32) + le32_all(indices) + le16_all(values)
}

/// Number of outliers announced at the start of a serialized table.
pub open spec fn outlier_count(b: Seq<u8>) -> int {
    u32_at(b, 0) as int
}

/// Whether a serialized table holds every index and value that its count announces.
pub open spec fn outlier_bytes_complete(b: Seq<u8>) -> bool {
    4 + 6 * outlier_count(b) <= b.len()
}

/// The `i`-th index stored in a serialized table.
pub open spec fn outlier_index_at(b: Seq<u8>, i: int) -> u32 {
    u32_at(b, 4 + 4 * i)
}

/// The `i`-th value stored in a serialized table.
pub open spec fn outlier_value_at(b: Seq<u8>, i: int) -> u16 {
    u16_at(b, 4 + 4 * outlier_count(b) + 2 * i)
}

/// The outcome of deserializing `b`: the empty table for input shorter than a count,
/// the announced indices and values when they are all present, and otherwise the
/// end-of-input error.
pub open spec fn outlier_read_ok(b: Seq<u8>, r: Result<SparseOutlierTable>) -> bool {
    if b.len() < 4 {
        r matches Ok(t) && t.indices@.len() == 0 && t.values@.len() == 0
    } else if outlier_bytes_complete(b) {
        r matches Ok(t) && t.indices@.len() == outlier_count(b) && t.values@.len()
            == outlier_count(b) && (forall|i: int|
            0 <= i < outlier_count(b) ==> t.indices@[i] == outlier_index_at(b, i)
                && t.values@[i] == outlier_value_at(b, i))
    } else {
        r matches Err(PoxError::Io(m)) && m@ == "failed to fill whole buffer"@
    }
}

impl SparseOutlierTable {
    pub fn new() -> (r: Self)
        ensures
            r.indices@.len() == 0,
            r.values@.len() == 0,
    {
        SparseOutlierTable { indices: Vec::new(), values: Vec::new() }
    }

    pub fn is_empty(&self) -> (r: bool)
        ensures
            r == (self.indices@.len() == 0),
    {
        self.indices.len() == 0
    }

    pub fn len(&self) -> (r: usize)
        ensures
            r == self.indices@.len(),
    {
        self.indices.len()
    }

    /// Serializes the table: count (u32), indices (count * u32), values (count * u16).
    pub fn to_bytes(&self) -> (r: Vec<u8>)
        ensures
            r@ == outlier_table_bytes(self.indices@, self.values@),
    {
        let count = self.indices.len() as u32;
        let mut buf: Vec<u8> = Vec::new();
        write_u32_le(&mut buf, count);
        let mut i: usize = 0;
        while i < self.indices.len()
            invariant
                0 <= i <= self.indices@.len(),
                count == self.indices@.len() as u32,
                buf@ == le32(count) + le32_all(self.indices@.subrange(0, i as int)),
            decreases self.indices@.len() - i,
        {
            write_u32_le(&mut buf, self.indices[i]);
            assert(self.indices@.subrange(0, i + 1).drop_last() =~= self.indices@.subrange(
                0,
                i as int,
            ));
            i = i + 1;
            assert(buf@ =~= le32(count) + le32_all(self.indices@.subrange(0, i as int)));
        }
        assert(self.indices@.subrange(0, self.indices@.len() as int) =~= self.indices@);
        let ghost mid = buf@;
        let mut j: usize = 0;
        while j < self.values.len()
            invariant
                0 <= j <= self.values@.len(),
                buf@ == mid + le16_all(self.values@.subrange(0, j as int)),
            decreases self.values@.len() - j,
        {
            write_u16_le(&mut buf, self.values[j]);
            assert(self.values@.subrange(0, j + 1).drop_last() =~= self.values@.subrange(
                0,
                j as int,
            ));
            j = j + 1;
            assert(buf@ =~= mid + le16_all(self.values@.subrange(0, j as int)));
        }
        assert(self.values@.subrange(0, self.values@.len() as int) =~= self.values@);
        assert(buf@ =~= outlier_table_bytes(self.indices@, self.values@));
        buf
    }

    /// Deserializes a table; input shorter than a count gives the empty table.
    pub fn from_bytes(bytes: &[u8]) -> (r: Result<Self>)
        ensures
            outlier_read_ok(bytes@, r),
    {
        if bytes.len() < 4 {
            return Ok(Self::new());
        }
        let count = read_u32_le(bytes, 0) as usize;
        if (bytes.len() - 4) / 6 < count {
            assert(!outlier_bytes_complete(bytes@)) by {
                if outlier_bytes_complete(bytes@) {
                    assert(6 * count <= bytes.len() - 4);
                    assert((bytes.len() - 4) / 6 >= count) by (nonlinear_arith)
                        requires
                            6 * count <= bytes.len() - 4,
                    ;
                }
            }
            return Err(PoxError::Io(owned("failed to fill whole buffer")));
        }
        assert(6 * count <= bytes.len() - 4) by (nonlinear_arith)
            requires
                (bytes.len() - 4) / 6 >= count,
        ;
        let mut indices: Vec<u32> = Vec::new();
        let mut i: usize = 0;
        while i < count
            invariant
                0 <= i <= count,
                count == outlier_count(bytes@),
                4 + 6 * count <= bytes@.len(),
                bytes@.len() <= usize::MAX,
                indices@.len() == i,
                forall|k: int| 0 <= k < i ==> indices@[k] == outlier_index_at(bytes@, k),
            decreases count - i,
        {
            let x = read_u32_le(bytes, 4 + 4 * i);
            assert(x == outlier_index_at(bytes@, i as int));
            indices.push(x);
            i = i + 1;
        }
        let mut values: Vec<u16> = Vec::new();
        let mut j: usize = 0;
        while j < count
            invariant
                0 <= j <= count,
                count == outlier_count(bytes@),
                4 + 6 * count <= bytes@.len(),
                bytes@.len() <= usize::MAX,
                values@.len() == j,
                forall|k: int| 0 <= k < j ==> values@[k] == outlier_value_at(bytes@, k),
            decreases count - j,
        {
            let v = read_u16_le(bytes, 4 + 4 * count + 2 * j);
            assert(v == outlier_value_at(bytes@, j as int));
            values.push(v);
            j = j + 1;
        }
        Ok(SparseOutlierTable { indices, values })
    }
}

/// A table whose indices and values pair up, once serialized, is complete and reads
/// back index for index and value for value.
pub proof fn lemma_outlier_table_roundtrip(indices: Seq<u32>, values: Seq<u16>)
    requires
        indices.len() == values.len(),
        indices.len() <= u32::MAX,
    ensures
        ({
            let b = outlier_table_bytes(indices, values);
            &&& b.len() >= 4
            &&& outlier_count(b) == indices.len()
            &&& outlier_bytes_complete(b)
            &&& forall|i: int|
                0 <= i < indices.len() ==> outlier_index_at(b, i) == indices[i]
                    && outlier_value_at(b, i) == values[i]
        }),
{
    let n = indices.len() as int;
    let b = outlier_table_bytes(indices, values);
    lemma_le32_all(indices);
    lemma_le16_all(values);
    lemma_u32_roundtrip(indices.len() as u32);
    assert(b.subrange(0, 4) =~= le32(indices.len() as u32));
    assert(le32(indices.len() as u32).subrange(0, 4) =~= le32(indices.len() as u32));
    lemma_u32_at_subrange(b, le32(indices.len() as u32), 0, 0);
    assert(outlier_count(b) == n);
    assert forall|i: int| 0 <= i < n implies outlier_index_at(b, i) == indices[i]
        && outlier_value_at(b, i) == values[i] by {
        let ib = le32_all(indices);
        let vb = le16_all(values);
        assert(b.subrange(4 + 4 * i, 4 + 4 * i + 4) =~= ib.subrange(4 * i, 4 * i + 4));
        lemma_u32_roundtrip(indices[i]);
        assert(le32(indices[i]).subrange(0, 4) =~= le32(indices[i]));
        lemma_u32_at_subrange(b, le32(indices[i]), 4 + 4 * i, 0);
        assert(b.subrange(4 + 4 * n + 2 * i, 4 + 4 * n + 2 * i + 2) =~= vb.subrange(
            2 * i,
            2 * i + 2,
        ));
        lemma_u16_roundtrip(values[i]);
        assert(le16(values[i]).subrange(0, 2) =~= le16(values[i]));
        lemma_u16_at_subrange(b, le16(values[i]), 4 + 4 * n + 2 * i, 0);
    }
}

} // verus!
