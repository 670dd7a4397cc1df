//! Reading `.pox` containers: the size and header checks, the bounds of each section,
//! tensor lookup by name, and the integrity check of every tensor's digest.
//!
//! The JSON sections are decoded by the caller between the bounds checks; the file
//! itself is held as bytes.

use vstd::prelude::*;
use vstd::hash_map::StringHashMap;
use crate::container::{after_quant_plan, chunk_bytes, container_body, container_bytes, lemma_container_layout, holds_added, opt_bytes, payload_chunk, payload_digest_input, rebased, tensor_aligned, tensor_within, PoxWriter, PoxManifest, PoxMetadata, PoxQuantPlanRecord, PoxSignatureBlock};
use crate::digest::{hex_encode, hex_lower, sha256, sha256_of};
use crate::error::{concat, owned, PoxError, Result};
use crate::pox::{header_read_ok, PoxHeader};
use crate::tensor::TensorMeta;
use crate::bytes::append_bytes;

verus! {

/// A section of a container that the header locates.
#[derive(Debug, Clone, Copy, PartialEq, Eq, Structural)]
pub enum PoxSection {
    Metadata,
    TensorIndex,
    QuantPlan,
    Manifest,
    Signature,
}

/// Offset and length of a section, as the header gives them.
pub open spec fn section_extent(h: PoxHeader, section: PoxSection) -> (u64, u64) {
    match section {
        PoxSection::Metadata => (h.metadata_offset, h.metadata_len),
        PoxSection::TensorIndex => (h.tensor_index_offset, h.tensor_index_len),
        PoxSection::QuantPlan => (h.quant_plan_offset, h.quant_plan_len),
        PoxSection::Manifest => (h.manifest_offset, h.manifest_len),
        PoxSection::Signature => (h.signature_offset, h.signature_len),
    }
}

/// Message of the error raised when a section reaches past the end of the file.
pub open spec fn section_bounds_message(section: PoxSection) -> Seq<char> {
    match section {
        PoxSection::Metadata => "Metadata out of bounds"@,
        PoxSection::TensorIndex => "Tensor index out of bounds"@,
        PoxSection::QuantPlan => "Quant plan out of bounds"@,
        PoxSection::Manifest => "Manifest out of bounds"@,
        PoxSection::Signature => "Signature out of bounds"@,
    }
}

/// Bytes `off .. off + len` of `data`, where they lie within it.
pub open spec fn region(data: Seq<u8>, off: u64, len: u64) -> Option<Seq<u8>> {
    if off + len <= data.len() {
        Some(data.subrange(off as int, off + len))
    } else {
        None
    }
}

/// Message of the error raised when a file is shorter than a header.
pub open spec fn short_file_message() -> Seq<char> {
    "File size smaller than header"@
}

/// The position of each tensor name in a tensor list; where a name occurs more than
/// once, the last position.
pub open spec fn name_index(ts: Seq<TensorMeta>) -> Map<Seq<char>, usize>
    decreases ts.len(),
{
    if ts.len() == 0 {
        Map::empty()
    } else {
        name_index(ts.drop_last()).insert(ts.last().name@, (ts.len() - 1) as usize)
    }
}

/// Every position in the name index is a position of the list, holding that name.
pub proof fn lemma_name_index(ts: Seq<TensorMeta>)
    requires
        ts.len() <= usize::MAX,
    ensures
        forall|k: Seq<char>|
            #[trigger] name_index(ts).contains_key(k) ==> name_index(ts)[k] < ts.len() && ts[name_index(ts)[k] as int].name@ == k,
        forall|i: int| 0 <= i < ts.len() ==> name_index(ts).contains_key(#[trigger] ts[i].name@),
    decreases ts.len(),
{
    if ts.len() > 0 {
        let p = ts.drop_last();
        lemma_name_index(p);
        assert forall|i: int| 0 <= i < ts.len() implies name_index(ts).contains_key(
            #[trigger] ts[i].name@,
        ) by {
            if i < ts.len() - 1 {
                assert(p[i] == ts[i]);
            }
        }
        assert forall|k: Seq<char>| #[trigger] name_index(ts).contains_key(k) implies name_index(
            ts,
        )[k] < ts.len() && ts[name_index(ts)[k] as int].name@ == k by {
            if k != ts.last().name@ {
                assert(p[name_index(p)[k] as int] == ts[name_index(p)[k] as int]);
            }
        }
    }
}

/// A `.pox` container held in memory, with its decoded sections.
pub struct PoxFile {
    pub data: Vec<u8>,
    pub header: PoxHeader,
    pub metadata: PoxMetadata,
    pub tensors: Vec<TensorMeta>,
    pub tensor_map: StringHashMap<usize>,
    pub quant_plan: PoxQuantPlanRecord,
    pub manifest: PoxManifest,
    pub signature: Option<PoxSignatureBlock>,
}

impl PoxFile {
    /// The tensor map indexes the tensor list by name.
    pub open spec fn wf(&self) -> bool {
        &&& self.tensor_map@ == name_index(self.tensors@)
        &&& self.tensors@.len() <= usize::MAX
    }

    /// The tensor that a name stands for, if any.
    pub open spec fn lookup(&self, name: Seq<char>) -> Option<TensorMeta> {
        if name_index(self.tensors@).contains_key(name) {
            Some(self.tensors@[name_index(self.tensors@)[name] as int])
        } else {
            None
        }
    }

    /// The data bytes of the tensor of that name.
    pub open spec fn tensor_data(&self, name: Seq<char>) -> Option<Seq<u8>> {
        match self.lookup(name) {
            Some(t) => region(self.data@, t.data_offset, t.data_len),
            None => None,
        }
    }

    /// The scale bytes of the tensor of that name; none where it has no scales.
    pub open spec fn scale_data(&self, name: Seq<char>) -> Option<Seq<u8>> {
        match self.lookup(name) {
            Some(t) => if t.scale_len == 0 {
                None
            } else {
                region(self.data@, t.scale_offset, t.scale_len)
            },
            None => None,
        }
    }

    /// The outlier bytes of the tensor of that name; none where it has no outliers.
    pub open spec fn outlier_data(&self, name: Seq<char>) -> Option<Seq<u8>> {
        match self.lookup(name) {
            Some(t) => if t.outlier_len == 0 {
                None
            } else {
                region(self.data@, t.outlier_offset, t.outlier_len)
            },
            None => None,
        }
    }

    /// Reads the header of a container, refusing a file shorter than a header.
    pub fn read_header(bytes: &[u8]) -> (r: Result<PoxHeader>)
        ensures
            bytes@.len() < 128 ==> (r matches Err(PoxError::Format(m)) && m@ == short_file_message()),
            bytes@.len() >= 128 ==> header_read_ok(bytes@, r),
    {
        if bytes.len() < 128 {
            return Err(PoxError::Format(owned("File size smaller than header")));
        }
        PoxHeader::read_from(bytes)
    }

    /// The byte range of a section in a file of `file_len` bytes. An absent signature
    /// (length 0) has no range; a section that reaches past the end of the file is refused.
    pub fn section_range(header: &PoxHeader, section: PoxSection, file_len: usize) -> (r: Result<
        Option<(usize, usize)>,
    >)
        ensures
            ({
                let (off, len) = section_extent(*header, section);
                if section == PoxSection::Signature && len == 0 {
                    r == Ok::<Option<(usize, usize)>, PoxError>(None)
                } else if off + len > file_len {
                    r matches Err(PoxError::Security(m)) && m@ == section_bounds_message(section)
                } else {
                    r == Ok::<Option<(usize, usize)>, PoxError>(
                        Some((off as usize, (off + len) as usize)),
                    )
                }
            }),
    {
        let (off, len, msg) = match section {
            PoxSection::Metadata => (
                header.metadata_offset,
                header.metadata_len,
                "Metadata out of bounds",
            ),
            PoxSection::TensorIndex => (
                header.tensor_index_offset,
                header.tensor_index_len,
                "Tensor index out of bounds",
            ),
            PoxSection::QuantPlan => (
                header.quant_plan_offset,
                header.quant_plan_len,
                "Quant plan out of bounds",
            ),
            PoxSection::Manifest => (
                header.manifest_offset,
                header.manifest_len,
                "Manifest out of bounds",
            ),
            PoxSection::Signature => (
                header.signature_offset,
                header.signature_len,
                "Signature out of bounds",
            ),
        };
        if section == PoxSection::Signature && len == 0 {
            return Ok(None);
        }
        if off > file_len as u64 || len > file_len as u64 - off {
            return Err(PoxError::Security(owned(msg)));
        }
        Ok(Some((off as usize, (off + len) as usize)))
    }

    /// A container from its bytes and its decoded sections; the tensor map is built from
    /// the tensor list.
    pub fn assemble(
        data: Vec<u8>,
        header: PoxHeader,
        metadata: PoxMetadata,
        tensors: Vec<TensorMeta>,
        quant_plan: PoxQuantPlanRecord,
        manifest: PoxManifest,
        signature: Option<PoxSignatureBlock>,
    ) -> (r: Self)
        ensures
            r.wf(),
            r.data == data,
            r.header == header,
            r.metadata == metadata,
            r.tensors == tensors,
            r.quant_plan == quant_plan,
            r.manifest == manifest,
            r.signature == signature,
    {
        let mut tensor_map: StringHashMap<usize> = StringHashMap::new();
        let mut i: usize = 0;
        while i < tensors.len()
            invariant
                0 <= i <= tensors@.len(),
                tensor_map@ == name_index(tensors@.subrange(0, i as int)),
            decreases tensors@.len() - i,
        {
            tensor_map.insert(tensors[i].name.clone(), i);
            i = i + 1;
            proof {
                let s = tensors@.subrange(0, i as int);
                assert(s.drop_last() =~= tensors@.subrange(0, i - 1));
            }
        }
        assert(tensors@.subrange(0, tensors@.len() as int) =~= tensors@);
        PoxFile {
            data,
            header,
            metadata,
            tensors,
            tensor_map,
            quant_plan,
            manifest,
            signature,
        }
    }

    fn region_of<'a>(&'a self, off: u64, len: u64) -> (r: Option<&'a [u8]>)
        ensures
            opt_bytes(r) == region(self.data@, off, len),
    {
        let n = self.data.len();
        if off > n as u64 || len > n as u64 - off {
            return None;
        }
        Some(vstd::slice::slice_subrange(self.data.as_slice(), off as usize, (off + len) as usize))
    }

    fn find(&self, name: &str) -> (r: Option<&TensorMeta>)
        requires
            self.wf(),
        ensures
            match r {
                Some(t) => self.lookup(name@) == Some(*t),
                None => self.lookup(name@) is None,
            },
    {
        proof {
            lemma_name_index(self.tensors@);
        }
        match self.tensor_map.get(name) {
            Some(idx) => Some(&self.tensors[*idx]),
            None => None,
        }
    }

    /// The data bytes of the tensor of that name.
    pub fn get_tensor_data(&self, name: &str) -> (r: Option<&[u8]>)
        requires
            self.wf(),
        ensures
            opt_bytes(r) == self.tensor_data(name@),
    {
        let meta = match self.find(name) {
            Some(t) => t,
            None => return None,
        };
        self.region_of(meta.data_offset, meta.data_len)
    }

    /// The scale bytes of the tensor of that name.
    pub fn get_scale_data(&self, name: &str) -> (r: Option<&[u8]>)
        requires
            self.wf(),
        ensures
            opt_bytes(r) == self.scale_data(name@),
    {
        let meta = match self.find(name) {
            Some(t) => t,
            None => return None,
        };
        if meta.scale_len == 0 {
            return None;
        }
        self.region_of(meta.scale_offset, meta.scale_len)
    }

    /// The outlier bytes of the tensor of that name.
    pub fn get_outlier_data(&self, name: &str) -> (r: Option<&[u8]>)
        requires
            self.wf(),
        ensures
            opt_bytes(r) == self.outlier_data(name@),
    {
        let meta = match self.find(name) {
            Some(t) => t,
            None => return None,
        };
        if meta.outlier_len == 0 {
            return None;
        }
        self.region_of(meta.outlier_offset, meta.outlier_len)
    }
    /// The bytes whose digest a tensor's record holds: its data, then its scales and its
    /// outliers where it has them, each found through the tensor's name.
    pub open spec fn digest_input(&self, t: TensorMeta) -> Option<Seq<u8>> {
        match self.tensor_data(t.name@) {
            None => None,
            Some(d) => Some(
                d + (if t.scale_len > 0 {
                    chunk_bytes(self.scale_data(t.name@))
                } else {
                    Seq::empty()
                }) + (if t.outlier_len > 0 {
                    chunk_bytes(self.outlier_data(t.name@))
                } else {
                    Seq::empty()
                }),
            ),
        }
    }

    /// Whether a tensor's recorded digest is the hex SHA-256 of its bytes.
    pub open spec fn tensor_verified(&self, t: TensorMeta) -> bool {
        match self.digest_input(t) {
            Some(b) => hex_lower(sha256_of(b)) == t.sha256@,
            None => false,
        }
    }

    /// The error that reports a tensor whose check failed.
    pub open spec fn integrity_failure(&self, t: TensorMeta, e: PoxError) -> bool {
        match self.digest_input(t) {
            None => e matches PoxError::Format(m) && m@ == "Missing data for tensor "@ + t.name@,
            Some(b) => e matches PoxError::IntegrityHashMismatch { tensor, expected, calculated }
                && tensor@ == t.name@ && expected@ == t.sha256@ && calculated@ == hex_lower(
                sha256_of(b),
            ),
        }
    }

    /// Checks, tensor by tensor in order, that each recorded digest is the hex SHA-256
    /// of the tensor's bytes, and reports the first tensor that fails.
    pub fn verify_integrity(&self) -> (r: Result<()>)
        requires
            self.wf(),
        ensures
            r is Ok <==> forall|i: int|
                0 <= i < self.tensors@.len() ==> self.tensor_verified(#[trigger] self.tensors@[i]),
            r matches Err(e) ==> exists|i: int|
                0 <= i < self.tensors@.len() && (forall|j: int|
                    0 <= j < i ==> self.tensor_verified(#[trigger] self.tensors@[j]))
                    && !self.tensor_verified(#[trigger] self.tensors@[i])
                    && self.integrity_failure(self.tensors@[i], e),
    {
        let mut i: usize = 0;
        while i < self.tensors.len()
            invariant
                self.wf(),
                0 <= i <= self.tensors@.len(),
                forall|j: int| 0 <= j < i ==> self.tensor_verified(#[trigger] self.tensors@[j]),
            decreases self.tensors@.len() - i,
        {
            let meta = &self.tensors[i];
            let data = match self.get_tensor_data(meta.name.as_str()) {
                Some(d) => d,
                None => {
                    return Err(
                        PoxError::Format(concat("Missing data for tensor ", meta.name.as_str())),
                    );
                },
            };
            let mut hashed: Vec<u8> = Vec::new();
            append_bytes(&mut hashed, data);
            if meta.scale_len > 0 {
                match self.get_scale_data(meta.name.as_str()) {
                    Some(sc) => append_bytes(&mut hashed, sc),
                    None => {},
                }
            }
            if meta.outlier_len > 0 {
                match self.get_outlier_data(meta.name.as_str()) {
                    Some(o) => append_bytes(&mut hashed, o),
                    None => {},
                }
            }
            proof {
                let ghost t = self.tensors@[i as int];
                assert(hashed@ =~= self.digest_input(t)->0);
            }
            let digest = sha256(hashed.as_slice());
            let hash = hex_encode(digest.as_slice());
            if hash != meta.sha256 {
                return Err(
                    PoxError::IntegrityHashMismatch {
                        tensor: meta.name.clone(),
                        expected: meta.sha256.clone(),
                        calculated: hash,
                    },
                );
            }
            i = i + 1;
        }
        Ok(())
    }
}

/// Whether no two tensors of a list share a name.
pub open spec fn names_distinct(ts: Seq<TensorMeta>) -> bool {
    forall|i: int, j: int| 0 <= i < ts.len() && 0 <= j < ts.len() && i != j ==> #[trigger] ts[i].name@ != #[trigger] ts[j].name@
}

/// With distinct names, a tensor's name indexes its own position.
pub(crate) proof fn lemma_name_index_distinct(ts: Seq<TensorMeta>, i: int)
    requires
        ts.len() <= usize::MAX,
        names_distinct(ts),
        0 <= i < ts.len(),
    ensures
        name_index(ts).contains_key(ts[i].name@),
        name_index(ts)[ts[i].name@] == i,
{
    lemma_name_index(ts);
    let k = name_index(ts)[ts[i].name@] as int;
    assert(ts[k].name@ == ts[i].name@);
}

/// A container read back from the bytes a writer laid out, whose tensor index decodes to
/// the writer's tensors moved to the file, passes the integrity check; its tensors keep
/// the writer's order, names, shapes, types and group sizes; every tensor's data, scales
/// and outliers read back, under the name it was added with, as the bytes that were
/// passed to `add_tensor` for it, in the order of the calls (no scales or outliers where
/// none, or none non-empty, were passed); and they all start on a multiple of 64 bytes
/// in the file.
pub proof fn lemma_written_container_verifies(
    w: PoxWriter,
    meta: Seq<u8>,
    plan: Seq<u8>,
    index: Seq<u8>,
    manifest: Seq<u8>,
    sig: Option<Seq<u8>>,
    f: PoxFile,
)
    requires
        w.wf(),
        names_distinct(w.tensors@),
        container_body(meta, plan, w.payload_buffer@, index, manifest, sig).len() <= u64::MAX,
        f.wf(),
        f.data@ == container_bytes(meta, plan, w.payload_buffer@, index, manifest, sig),
        f.tensors@.len() == w.tensors@.len(),
        forall|i: int|
            0 <= i < f.tensors@.len() ==> #[trigger] f.tensors@[i] == rebased(
                w.tensors@[i],
                after_quant_plan(meta, plan).len() as u64,
            ),
    ensures
        forall|i: int| 0 <= i < f.tensors@.len() ==> f.tensor_verified(#[trigger] f.tensors@[i]),
        forall|i: int|
            0 <= i < f.tensors@.len() ==> f.tensor_data(#[trigger] f.tensors@[i].name@) == Some(
                w.payload_buffer@.subrange(
                    w.tensors@[i].data_offset as int,
                    w.tensors@[i].data_offset + w.tensors@[i].data_len,
                ),
            ),
        forall|i: int|
            0 <= i < f.tensors@.len() ==> f.scale_data(#[trigger] f.tensors@[i].name@) == payload_chunk(
                w.payload_buffer@,
                w.tensors@[i].scale_offset,
                w.tensors@[i].scale_len,
            ),
        forall|i: int|
            0 <= i < f.tensors@.len() ==> f.outlier_data(#[trigger] f.tensors@[i].name@) == payload_chunk(
                w.payload_buffer@,
                w.tensors@[i].outlier_offset,
                w.tensors@[i].outlier_len,
            ),
        forall|i: int|
            0 <= i < f.tensors@.len() ==> {
                &&& (#[trigger] f.tensors@[i]).name == w.tensors@[i].name
                &&& f.tensors@[i].shape == w.tensors@[i].shape
                &&& f.tensors@[i].dtype == w.tensors@[i].dtype
                &&& f.tensors@[i].group_size == w.tensors@[i].group_size
            },
        forall|i: int| 0 <= i < f.tensors@.len() ==> tensor_aligned(#[trigger] f.tensors@[i]),
        forall|i: int|
            0 <= i < f.tensors@.len() ==> {
                &&& (#[trigger] f.tensors@[i]).name@ == w.added@[i].0
                &&& f.tensor_data(w.added@[i].0) == Some(w.added@[i].1)
                &&& f.scale_data(w.added@[i].0) == w.added@[i].2
                &&& f.outlier_data(w.added@[i].0) == w.added@[i].3
            },
{
    let payload = w.payload_buffer@;
    let d = after_quant_plan(meta, plan).len();
    let c = f.data@;
    lemma_container_layout(meta, plan, payload, index, manifest, sig);
    assert(c.subrange(d as int, (d + payload.len()) as int) == payload);
    assert forall|i: int| 0 <= i < f.tensors@.len() implies f.tensor_verified(
        #[trigger] f.tensors@[i],
    ) && f.tensor_data(f.tensors@[i].name@) == Some(
        payload.subrange(
            w.tensors@[i].data_offset as int,
            w.tensors@[i].data_offset + w.tensors@[i].data_len,
        ),
    ) && f.scale_data(f.tensors@[i].name@) == payload_chunk(
        payload,
        w.tensors@[i].scale_offset,
        w.tensors@[i].scale_len,
    ) && f.outlier_data(f.tensors@[i].name@) == payload_chunk(
        payload,
        w.tensors@[i].outlier_offset,
        w.tensors@[i].outlier_len,
    ) by {
        let u = w.tensors@[i];
        let t = f.tensors@[i];
        assert(tensor_within(u, payload.len()));
        assert(names_distinct(f.tensors@)) by {
            assert forall|a: int, b: int|
                0 <= a < f.tensors@.len() && 0 <= b < f.tensors@.len() && a != b implies #[trigger] f.tensors@[a].name@
                != #[trigger] f.tensors@[b].name@ by {
                assert(f.tensors@[a].name == w.tensors@[a].name);
                assert(f.tensors@[b].name == w.tensors@[b].name);
            }
        }
        lemma_name_index_distinct(f.tensors@, i);
        assert(f.lookup(t.name@) == Some(t));
        lemma_shifted(c, payload, d, u.data_offset, u.data_len);
        assert(f.tensor_data(t.name@) == Some(
            payload.subrange(u.data_offset as int, u.data_offset + u.data_len),
        ));
        if u.scale_len > 0 {
            lemma_shifted(c, payload, d, u.scale_offset, u.scale_len);
        }
        if u.outlier_len > 0 {
            lemma_shifted(c, payload, d, u.outlier_offset, u.outlier_len);
        }
        assert(f.digest_input(t) == Some(payload_digest_input(u, payload)));
    }
    assert forall|i: int| 0 <= i < f.tensors@.len() implies {
        &&& (#[trigger] f.tensors@[i]).name@ == w.added@[i].0
        &&& f.tensor_data(w.added@[i].0) == Some(w.added@[i].1)
        &&& f.scale_data(w.added@[i].0) == w.added@[i].2
        &&& f.outlier_data(w.added@[i].0) == w.added@[i].3
    } by {
        assert(holds_added(w.tensors@[i], w.added@[i], payload));
        assert(f.tensors@[i].name == w.tensors@[i].name);
    }
    lemma_read_back_aligned(w, meta, plan, index, manifest, sig, f);
}

/// The tensors of a written container, moved to the file, stay aligned.
pub proof fn lemma_read_back_aligned(
    w: PoxWriter,
    meta: Seq<u8>,
    plan: Seq<u8>,
    index: Seq<u8>,
    manifest: Seq<u8>,
    sig: Option<Seq<u8>>,
    f: PoxFile,
)
    requires
        w.wf(),
        container_body(meta, plan, w.payload_buffer@, index, manifest, sig).len() <= u64::MAX,
        f.tensors@.len() == w.tensors@.len(),
        forall|i: int|
            0 <= i < f.tensors@.len() ==> #[trigger] f.tensors@[i] == rebased(
                w.tensors@[i],
                after_quant_plan(meta, plan).len() as u64,
            ),
    ensures
        forall|i: int| 0 <= i < f.tensors@.len() ==> tensor_aligned(#[trigger] f.tensors@[i]),
{
    let payload = w.payload_buffer@;
    let q = after_quant_plan(meta, plan);
    let d = q.len();
    let ap = crate::container::after_payload(meta, plan, payload);
    let ai = crate::container::after_index(meta, plan, payload, index);
    crate::bytes::lemma_padded(crate::container::after_metadata(meta) + plan, 64);
    crate::bytes::lemma_padded(q + payload, 64);
    crate::bytes::lemma_padded(ap + index, 64);
    crate::bytes::lemma_padded(ai + manifest, 64);
    assert(d + payload.len() <= u64::MAX);
    assert forall|i: int| 0 <= i < f.tensors@.len() implies tensor_aligned(#[trigger] f.tensors@[i]) by {
        let u = w.tensors@[i];
        assert(tensor_within(u, payload.len()) && tensor_aligned(u));
        lemma_rebased_aligned(u, d as u64, payload.len());
    }
}

/// Moving an aligned tensor by a multiple of 64 keeps it aligned.
proof fn lemma_rebased_aligned(u: TensorMeta, d: u64, n: nat)
    requires
        tensor_aligned(u),
        tensor_within(u, n),
        d % 64 == 0,
        d + n <= u64::MAX,
    ensures
        tensor_aligned(rebased(u, d)),
{
}

/// A range of the payload, moved by the payload's offset in the file, holds the same bytes.
proof fn lemma_shifted(c: Seq<u8>, payload: Seq<u8>, d: nat, off: u64, len: u64)
    requires
        d + payload.len() <= c.len(),
        c.len() <= u64::MAX,
        c.subrange(d as int, (d + payload.len()) as int) == payload,
        off + len <= payload.len(),
    ensures
        region(c, (off + d) as u64, len) == Some(payload.subrange(off as int, off + len)),
{
    assert(c.subrange(off + d, off + d + len) =~= payload.subrange(off as int, off + len)) by {
        assert forall|k: int| 0 <= k < len implies #[trigger] c.subrange(off + d, off + d + len)[k]
            == payload.subrange(off as int, off + len)[k] by {
            assert(c[off + d + k] == c.subrange(d as int, (d + payload.len()) as int)[off + k]);
        }
    }
}

} // verus!
