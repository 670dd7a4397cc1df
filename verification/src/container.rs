//! Building `.pox` containers: the provenance records, the tensor payload buffer and
//! the section layout of the finished file.
//!
//! JSON encoding of the records is done by the caller; the layout here places the
//! encoded sections, aligns them and writes the header.

use vstd::prelude::*;
use crate::arch::ModelConfig;
use crate::bytes::{append_bytes, lemma_padded, pad_to_alignment, padded_to, zeros};
use crate::digest::{hex_encode, hex_lower, sha256, sha256_of};
use crate::pox::{header_accepts, header_bytes, header_fields_at, lemma_header_roundtrip, lemma_header_size, PoxHeader, DATA_ALIGNMENT, HEADER_SIZE, POX_MAGIC, POX_VERSION};
use crate::tensor::{DType, QuantGroupSize, Shape, TensorMeta};

verus! {

/// Metadata stored in a `.pox` container.
#[derive(Debug, Clone)]
pub struct PoxMetadata {
    pub model_config: ModelConfig,
    pub total_parameters: u64,
    pub quantized_by: String,
    pub timestamp_utc: u64,
    pub original_format: String,
    pub base_model_name: String,
}

/// Summary of the quantization plan stored in a `.pox` container.
///
/// `layer_assignments` lists assignments in the order they were made; a later entry
/// for a layer replaces an earlier one.
#[derive(Debug, Clone)]
pub struct PoxQuantPlanRecord {
    pub default_precision: String,
    pub group_size: usize,
    pub outlier_strategy: String,
    pub layer_assignments: Vec<(String, String)>,
}

/// Cryptographic and provenance manifest stored in a `.pox` container.
///
/// `tensor_hashes` lists the digests in the order they were recorded; a later entry
/// for a tensor name replaces an earlier one.
#[derive(Debug, Clone)]
pub struct PoxManifest {
    pub run_id: String,
    pub source_model_sha256: String,
    pub calibration_sha256: Option<String>,
    pub compiler_version: String,
    pub target_arch: String,
    pub tensor_hashes: Vec<(String, String)>,
    pub artifact_sha256: String,
}

/// Signature block of a signed container.
#[derive(Debug, Clone)]
pub struct PoxSignatureBlock {
    pub public_key_hex: String,
    pub signature_hex: String,
}

/// The map that a list of (key, value) entries stands for: later entries win.
pub open spec fn entries_map(s: Seq<(String, String)>) -> Map<Seq<char>, Seq<char>>
    decreases s.len(),
{
    if s.len() == 0 {
        Map::empty()
    } else {
        entries_map(s.drop_last()).insert(s.last().0@, s.last().1@)
    }
}

/// `s` padded with zeros to the container's data alignment.
pub open spec fn aligned(s: Seq<u8>) -> Seq<u8> {
    padded_to(s, 64)
}

/// A chunk placed in a buffer: the buffer is aligned, then the chunk appended.
pub open spec fn place(buf: Seq<u8>, chunk: Option<Seq<u8>>) -> Seq<u8> {
    match chunk {
        Some(c) => aligned(buf) + c,
        None => buf,
    }
}

/// Offset at which `place` puts a chunk (0 where there is none).
pub open spec fn place_offset(buf: Seq<u8>, chunk: Option<Seq<u8>>) -> nat {
    match chunk {
        Some(c) => aligned(buf).len(),
        None => 0,
    }
}

/// Length of an optional chunk (0 where there is none).
pub open spec fn chunk_len(chunk: Option<Seq<u8>>) -> nat {
    match chunk {
        Some(c) => c.len(),
        None => 0,
    }
}

/// The bytes of an optional chunk (empty where there is none).
pub open spec fn chunk_bytes(chunk: Option<Seq<u8>>) -> Seq<u8> {
    match chunk {
        Some(c) => c,
        None => Seq::empty(),
    }
}

/// The view of an optional byte slice.
pub open spec fn opt_bytes(o: Option<&[u8]>) -> Option<Seq<u8>> {
    match o {
        Some(s) => Some(s@),
        None => None,
    }
}

/// A range of a payload, or none where it is empty.
pub open spec fn payload_chunk(payload: Seq<u8>, off: u64, len: u64) -> Option<Seq<u8>> {
    if len == 0 {
        None
    } else {
        Some(payload.subrange(off as int, off + len))
    }
}

/// An optional chunk as it is read back: none where it is absent or empty.
pub open spec fn present_chunk(chunk: Option<Seq<u8>>) -> Option<Seq<u8>> {
    match chunk {
        Some(c) => if c.len() > 0 {
            Some(c)
        } else {
            None
        },
        None => None,
    }
}

/// What was added for a tensor, by name: its data, and its scales and outliers as they
/// read back.
pub type AddedTensor = (Seq<char>, Seq<u8>, Option<Seq<u8>>, Option<Seq<u8>>);

/// Whether a tensor's ranges in a payload hold what was added for it.
pub open spec fn holds_added(t: TensorMeta, a: AddedTensor, payload: Seq<u8>) -> bool {
    &&& t.name@ == a.0
    &&& payload.subrange(t.data_offset as int, t.data_offset + t.data_len) == a.1
    &&& payload_chunk(payload, t.scale_offset, t.scale_len) == a.2
    &&& payload_chunk(payload, t.outlier_offset, t.outlier_len) == a.3
}

/// Whether the data, scale and outlier ranges of a tensor lie within `n` bytes.
pub open spec fn tensor_within(t: TensorMeta, n: nat) -> bool {
    &&& t.data_offset + t.data_len <= n
    &&& t.scale_offset + t.scale_len <= n
    &&& t.outlier_offset + t.outlier_len <= n
}

/// Whether the data of a tensor, and its scales and outliers where present, start on
/// a multiple of the data alignment.
pub open spec fn tensor_aligned(t: TensorMeta) -> bool {
    &&& t.data_offset % 64 == 0
    &&& t.scale_len > 0 ==> t.scale_offset % 64 == 0
    &&& t.outlier_len > 0 ==> t.outlier_offset % 64 == 0
}

/// The bytes a tensor's digest covers, taken from the payload: its data, then its scales
/// and its outliers where it has them.
pub open spec fn payload_digest_input(t: TensorMeta, payload: Seq<u8>) -> Seq<u8> {
    payload.subrange(t.data_offset as int, t.data_offset + t.data_len) + (if t.scale_len > 0 {
        payload.subrange(t.scale_offset as int, t.scale_offset + t.scale_len)
    } else {
        Seq::empty()
    }) + (if t.outlier_len > 0 {
        payload.subrange(t.outlier_offset as int, t.outlier_offset + t.outlier_len)
    } else {
        Seq::empty()
    })
}

/// A tensor's digest bytes do not change when the payload grows past its ranges.
proof fn lemma_digest_input_extends(t: TensorMeta, p0: Seq<u8>, p1: Seq<u8>)
    requires
        tensor_within(t, p0.len()),
        p0.len() <= p1.len(),
        p1.subrange(0, p0.len() as int) == p0,
    ensures
        payload_digest_input(t, p1) == payload_digest_input(t, p0),
{
    assert(p1.subrange(t.data_offset as int, t.data_offset + t.data_len) =~= p0.subrange(
        t.data_offset as int,
        t.data_offset + t.data_len,
    ));
    assert(p1.subrange(t.scale_offset as int, t.scale_offset + t.scale_len) =~= p0.subrange(
        t.scale_offset as int,
        t.scale_offset + t.scale_len,
    ));
    assert(p1.subrange(t.outlier_offset as int, t.outlier_offset + t.outlier_len) =~= p0.subrange(
        t.outlier_offset as int,
        t.outlier_offset + t.outlier_len,
    ));
}

/// Appending a well-placed tensor to a writer's list keeps the others well placed.
proof fn lemma_tensors_extend(old_ts: Seq<TensorMeta>, ts: Seq<TensorMeta>, p0: Seq<u8>, p1: Seq<u8>)
    requires
        ts.len() == old_ts.len() + 1,
        ts.drop_last() == old_ts,
        p0.len() <= p1.len(),
        p1.subrange(0, p0.len() as int) == p0,
        forall|i: int|
            0 <= i < old_ts.len() ==> {
                &&& tensor_within(#[trigger] old_ts[i], p0.len())
                &&& tensor_aligned(old_ts[i])
                &&& old_ts[i].sha256@ == hex_lower(sha256_of(payload_digest_input(old_ts[i], p0)))
            },
        tensor_within(ts.last(), p1.len()),
        tensor_aligned(ts.last()),
        ts.last().sha256@ == hex_lower(sha256_of(payload_digest_input(ts.last(), p1))),
    ensures
        forall|i: int|
            0 <= i < ts.len() ==> {
                &&& tensor_within(#[trigger] ts[i], p1.len())
                &&& tensor_aligned(ts[i])
                &&& ts[i].sha256@ == hex_lower(sha256_of(payload_digest_input(ts[i], p1)))
            },
{
    assert forall|i: int| 0 <= i < ts.len() implies {
        &&& tensor_within(#[trigger] ts[i], p1.len())
        &&& tensor_aligned(ts[i])
        &&& ts[i].sha256@ == hex_lower(sha256_of(payload_digest_input(ts[i], p1)))
    } by {
        if i < old_ts.len() {
            assert(ts[i] == old_ts[i]);
            lemma_digest_input_extends(old_ts[i], p0, p1);
        }
    }
}

/// Appending a tensor that holds what was added for it keeps the earlier ones holding theirs.
proof fn lemma_added_extend(
    old_ts: Seq<TensorMeta>,
    ts: Seq<TensorMeta>,
    old_added: Seq<AddedTensor>,
    added: Seq<AddedTensor>,
    p0: Seq<u8>,
    p1: Seq<u8>,
)
    requires
        ts.len() == old_ts.len() + 1,
        ts.drop_last() == old_ts,
        old_added.len() == old_ts.len(),
        added == old_added.push(added.last()),
        p0.len() <= p1.len(),
        p1.subrange(0, p0.len() as int) == p0,
        forall|i: int|
            0 <= i < old_ts.len() ==> tensor_within(#[trigger] old_ts[i], p0.len()) && holds_added(
                old_ts[i],
                old_added[i],
                p0,
            ),
        holds_added(ts.last(), added.last(), p1),
    ensures
        forall|i: int| 0 <= i < ts.len() ==> holds_added(#[trigger] ts[i], added[i], p1),
{
    assert forall|i: int| 0 <= i < ts.len() implies holds_added(#[trigger] ts[i], added[i], p1) by {
        if i < old_ts.len() {
            let t = old_ts[i];
            assert(ts[i] == t);
            assert(added[i] == old_added[i]);
            assert(p1.subrange(t.data_offset as int, t.data_offset + t.data_len) =~= p0.subrange(
                t.data_offset as int,
                t.data_offset + t.data_len,
            ));
            assert(p1.subrange(t.scale_offset as int, t.scale_offset + t.scale_len) =~= p0.subrange(
                t.scale_offset as int,
                t.scale_offset + t.scale_len,
            ));
            assert(p1.subrange(t.outlier_offset as int, t.outlier_offset + t.outlier_len) =~= p0.subrange(
                t.outlier_offset as int,
                t.outlier_offset + t.outlier_len,
            ));
        } else {
            assert(ts[i] == ts.last());
        }
    }
}

/// A tensor whose offsets are moved by `base`; absent scales and outliers keep their offset.
pub open spec fn rebased(t: TensorMeta, base: u64) -> TensorMeta {
    TensorMeta {
        name: t.name,
        shape: t.shape,
        dtype: t.dtype,
        group_size: t.group_size,
        data_offset: (t.data_offset + base) as u64,
        data_len: t.data_len,
        scale_offset: if t.scale_len > 0 {
            (t.scale_offset + base) as u64
        } else {
            t.scale_offset
        },
        scale_len: t.scale_len,
        outlier_offset: if t.outlier_len > 0 {
            (t.outlier_offset + base) as u64
        } else {
            t.outlier_offset
        },
        outlier_len: t.outlier_len,
        sha256: t.sha256,
    }
}

/// Header and metadata section, aligned.
pub open spec fn after_metadata(meta: Seq<u8>) -> Seq<u8> {
    aligned(zeros(128) + meta)
}

/// ... followed by the quantization plan section, aligned.
pub open spec fn after_quant_plan(meta: Seq<u8>, plan: Seq<u8>) -> Seq<u8> {
    aligned(after_metadata(meta) + plan)
}

/// ... followed by the tensor payload, aligned.
pub open spec fn after_payload(meta: Seq<u8>, plan: Seq<u8>, payload: Seq<u8>) -> Seq<u8> {
    aligned(after_quant_plan(meta, plan) + payload)
}

/// ... followed by the tensor index, aligned.
pub open spec fn after_index(meta: Seq<u8>, plan: Seq<u8>, payload: Seq<u8>, index: Seq<u8>) -> Seq<u8> {
    aligned(after_payload(meta, plan, payload) + index)
}

/// The artifact digest: hex SHA-256 of everything after the header up to the end of
/// the aligned tensor index.
pub open spec fn artifact_digest(meta: Seq<u8>, plan: Seq<u8>, payload: Seq<u8>, index: Seq<u8>) -> Seq<char> {
    let s = after_index(meta, plan, payload, index);
    hex_lower(sha256_of(s.subrange(128, s.len() as int)))
}

/// ... followed by the manifest, aligned.
pub open spec fn after_manifest(
    meta: Seq<u8>,
    plan: Seq<u8>,
    payload: Seq<u8>,
    index: Seq<u8>,
    manifest: Seq<u8>,
) -> Seq<u8> {
    aligned(after_index(meta, plan, payload, index) + manifest)
}

/// Every section in place, the header still zeroed.
pub open spec fn container_body(
    meta: Seq<u8>,
    plan: Seq<u8>,
    payload: Seq<u8>,
    index: Seq<u8>,
    manifest: Seq<u8>,
    sig: Option<Seq<u8>>,
) -> Seq<u8> {
    after_manifest(meta, plan, payload, index, manifest) + chunk_bytes(sig)
}

/// The header that describes the sections of a container.
pub open spec fn container_header(
    meta: Seq<u8>,
    plan: Seq<u8>,
    payload: Seq<u8>,
    index: Seq<u8>,
    manifest: Seq<u8>,
    sig: Option<Seq<u8>>,
) -> PoxHeader {
    PoxHeader {
        magic: POX_MAGIC,
        format_version: POX_VERSION,
        flags: 0,
        metadata_offset: 128,
        metadata_len: meta.len() as u64,
        tensor_index_offset: after_payload(meta, plan, payload).len() as u64,
        tensor_index_len: index.len() as u64,
        quant_plan_offset: after_metadata(meta).len() as u64,
        quant_plan_len: plan.len() as u64,
        data_offset: after_quant_plan(meta, plan).len() as u64,
        data_len: payload.len() as u64,
        manifest_offset: after_index(meta, plan, payload, index).len() as u64,
        manifest_len: manifest.len() as u64,
        signature_offset: match sig {
            Some(_) => after_manifest(meta, plan, payload, index, manifest).len() as u64,
            None => 0,
        },
        signature_len: chunk_len(sig) as u64,
    }
}

/// The bytes of a finished container: the header followed by the sections.
pub open spec fn container_bytes(
    meta: Seq<u8>,
    plan: Seq<u8>,
    payload: Seq<u8>,
    index: Seq<u8>,
    manifest: Seq<u8>,
    sig: Option<Seq<u8>>,
) -> Seq<u8> {
    let body = container_body(meta, plan, payload, index, manifest, sig);
    header_bytes(container_header(meta, plan, payload, index, manifest, sig)) + body.subrange(
        128,
        body.len() as int,
    )
}

/// Builder of `.pox` containers.
pub struct PoxWriter {
    pub metadata: PoxMetadata,
    pub quant_plan: PoxQuantPlanRecord,
    pub manifest: PoxManifest,
    pub signature: Option<PoxSignatureBlock>,
    pub tensors: Vec<TensorMeta>,
    pub payload_buffer: Vec<u8>,
    /// What was added for each tensor, in the order it was added.
    pub added: Ghost<Seq<AddedTensor>>,
}

impl PoxWriter {
    /// Every tensor's ranges lie within the payload and start aligned, hold what was
    /// added for it, and its digest is the hex SHA-256 of its bytes in the payload.
    pub open spec fn wf(&self) -> bool {
        &&& self.added@.len() == self.tensors@.len()
        &&& forall|i: int|
            0 <= i < self.tensors@.len() ==> {
                &&& tensor_within(#[trigger] self.tensors@[i], self.payload_buffer@.len())
                &&& tensor_aligned(self.tensors@[i])
                &&& self.tensors@[i].sha256@ == hex_lower(
                    sha256_of(payload_digest_input(self.tensors@[i], self.payload_buffer@)),
                )
                &&& holds_added(self.tensors@[i], self.added@[i], self.payload_buffer@)
            }
    }

    /// A writer with no tensors, no signature, and a manifest that records the run,
    /// the compiler version and the target architecture.
    pub fn new(
        metadata: PoxMetadata,
        quant_plan: PoxQuantPlanRecord,
        run_id: String,
        compiler_version: String,
        target_arch: String,
    ) -> (r: Self)
        ensures
            r.wf(),
            r.metadata == metadata,
            r.quant_plan == quant_plan,
            r.manifest.run_id == run_id,
            r.manifest.source_model_sha256@ == Seq::<char>::empty(),
            r.manifest.calibration_sha256 is None,
            r.manifest.compiler_version == compiler_version,
            r.manifest.target_arch == target_arch,
            r.manifest.tensor_hashes@.len() == 0,
            r.manifest.artifact_sha256@ == Seq::<char>::empty(),
            r.signature is None,
            r.tensors@.len() == 0,
            r.payload_buffer@.len() == 0,
            r.added@.len() == 0,
    {
        PoxWriter {
            metadata,
            quant_plan,
            manifest: PoxManifest {
                run_id,
                source_model_sha256: String::new(),
                calibration_sha256: None,
                compiler_version,
                target_arch,
                tensor_hashes: Vec::new(),
                artifact_sha256: String::new(),
            },
            signature: None,
            tensors: Vec::new(),
            payload_buffer: Vec::new(),
            added: Ghost(Seq::empty()),
        }
    }

    pub fn set_source_hash(&mut self, hash: String)
        ensures
            final(self).manifest.source_model_sha256 == hash,
            final(self).manifest.run_id == old(self).manifest.run_id,
            final(self).manifest.calibration_sha256 == old(self).manifest.calibration_sha256,
            final(self).manifest.compiler_version == old(self).manifest.compiler_version,
            final(self).manifest.target_arch == old(self).manifest.target_arch,
            final(self).manifest.tensor_hashes == old(self).manifest.tensor_hashes,
            final(self).manifest.artifact_sha256 == old(self).manifest.artifact_sha256,
            final(self).metadata == old(self).metadata,
            final(self).quant_plan == old(self).quant_plan,
            final(self).signature == old(self).signature,
            final(self).tensors == old(self).tensors,
            final(self).payload_buffer == old(self).payload_buffer,
            final(self).added == old(self).added,
    {
        self.manifest.source_model_sha256 = hash;
    }

    pub fn set_calibration_hash(&mut self, hash: Option<String>)
        ensures
            final(self).manifest.calibration_sha256 == hash,
            final(self).manifest.run_id == old(self).manifest.run_id,
            final(self).manifest.source_model_sha256 == old(self).manifest.source_model_sha256,
            final(self).manifest.compiler_version == old(self).manifest.compiler_version,
            final(self).manifest.target_arch == old(self).manifest.target_arch,
            final(self).manifest.tensor_hashes == old(self).manifest.tensor_hashes,
            final(self).manifest.artifact_sha256 == old(self).manifest.artifact_sha256,
            final(self).metadata == old(self).metadata,
            final(self).quant_plan == old(self).quant_plan,
            final(self).signature == old(self).signature,
            final(self).tensors == old(self).tensors,
            final(self).payload_buffer == old(self).payload_buffer,
            final(self).added == old(self).added,
    {
        self.manifest.calibration_sha256 = hash;
    }

    pub fn set_signature(&mut self, pubkey_hex: String, signature_hex: String)
        ensures
            final(self).signature == Some(
                PoxSignatureBlock { public_key_hex: pubkey_hex, signature_hex },
            ),
            final(self).manifest == old(self).manifest,
            final(self).metadata == old(self).metadata,
            final(self).quant_plan == old(self).quant_plan,
            final(self).tensors == old(self).tensors,
            final(self).payload_buffer == old(self).payload_buffer,
            final(self).added == old(self).added,
    {
        self.signature = Some(PoxSignatureBlock { public_key_hex: pubkey_hex, signature_hex });
    }
    /// Adds a tensor with its data and optional scales and outliers. Each present chunk
    /// is appended to the payload at the next multiple of 64 bytes; the manifest records
    /// the SHA-256 of data, scales and outliers taken together.
    pub fn add_tensor(
        &mut self,
        name: String,
        shape: Shape,
        dtype: DType,
        group_size: QuantGroupSize,
        data: &[u8],
        scales: Option<&[u8]>,
        outliers: Option<&[u8]>,
    )
        requires
            old(self).wf(),
        ensures
            final(self).wf(),
            final(self).payload_buffer@ == place(
                place(place(old(self).payload_buffer@, Some(data@)), opt_bytes(scales)),
                opt_bytes(outliers),
            ),
            final(self).tensors@.len() == old(self).tensors@.len() + 1,
            final(self).tensors@.drop_last() == old(self).tensors@,
            final(self).added@ == old(self).added@.push(
                (name@, data@, present_chunk(opt_bytes(scales)), present_chunk(opt_bytes(outliers))),
            ),
            ({
                let t = final(self).tensors@.last();
                let p0 = old(self).payload_buffer@;
                let p1 = place(p0, Some(data@));
                let p2 = place(p1, opt_bytes(scales));
                &&& t.name == name
                &&& t.shape == shape
                &&& t.dtype == dtype
                &&& t.group_size == group_size
                &&& t.data_offset == place_offset(p0, Some(data@))
                &&& t.data_len == data@.len()
                &&& t.scale_offset == place_offset(p1, opt_bytes(scales))
                &&& t.scale_len == chunk_len(opt_bytes(scales))
                &&& t.outlier_offset == place_offset(p2, opt_bytes(outliers))
                &&& t.outlier_len == chunk_len(opt_bytes(outliers))
                &&& t.sha256@ == hex_lower(
                    sha256_of(
                        data@ + chunk_bytes(opt_bytes(scales)) + chunk_bytes(opt_bytes(outliers)),
                    ),
                )
                &&& entries_map(final(self).manifest.tensor_hashes@) == entries_map(
                    old(self).manifest.tensor_hashes@,
                ).insert(name@, t.sha256@)
            }),
            final(self).manifest.run_id == old(self).manifest.run_id,
            final(self).manifest.source_model_sha256 == old(self).manifest.source_model_sha256,
            final(self).manifest.calibration_sha256 == old(self).manifest.calibration_sha256,
            final(self).manifest.compiler_version == old(self).manifest.compiler_version,
            final(self).manifest.target_arch == old(self).manifest.target_arch,
            final(self).manifest.artifact_sha256 == old(self).manifest.artifact_sha256,
            final(self).metadata == old(self).metadata,
            final(self).quant_plan == old(self).quant_plan,
            final(self).signature == old(self).signature,
    {
        let ghost p0 = self.payload_buffer@;
        let ghost entry: AddedTensor = (
            name@,
            data@,
            present_chunk(opt_bytes(scales)),
            present_chunk(opt_bytes(outliers)),
        );
        let mut hashed: Vec<u8> = Vec::new();
        append_bytes(&mut hashed, data);
        match scales {
            Some(s) => append_bytes(&mut hashed, s),
            None => {},
        }
        match outliers {
            Some(o) => append_bytes(&mut hashed, o),
            None => {},
        }
        assert(hashed@ =~= data@ + chunk_bytes(opt_bytes(scales)) + chunk_bytes(
            opt_bytes(outliers),
        ));
        let digest = sha256(hashed.as_slice());
        let tensor_sha256 = hex_encode(digest.as_slice());
        self.manifest.tensor_hashes.push((name.clone(), tensor_sha256.clone()));
        proof {
            let th = self.manifest.tensor_hashes@;
            assert(th.drop_last() =~= old(self).manifest.tensor_hashes@);
        }

        pad_to_alignment(&mut self.payload_buffer, DATA_ALIGNMENT);
        proof {
            lemma_padded(p0, 64);
        }
        let data_offset = self.payload_buffer.len() as u64;
        append_bytes(&mut self.payload_buffer, data);
        let data_len = data.len() as u64;
        let ghost p1 = self.payload_buffer@;

        let (scale_offset, scale_len): (u64, u64) = match scales {
            Some(s) => {
                pad_to_alignment(&mut self.payload_buffer, DATA_ALIGNMENT);
                proof {
                    lemma_padded(p1, 64);
                }
                let off = self.payload_buffer.len() as u64;
                append_bytes(&mut self.payload_buffer, s);
                (off, s.len() as u64)
            },
            None => (0, 0),
        };
        let ghost p2 = self.payload_buffer@;

        let (outlier_offset, outlier_len): (u64, u64) = match outliers {
            Some(o) => {
                pad_to_alignment(&mut self.payload_buffer, DATA_ALIGNMENT);
                proof {
                    lemma_padded(p2, 64);
                }
                let off = self.payload_buffer.len() as u64;
                append_bytes(&mut self.payload_buffer, o);
                (off, o.len() as u64)
            },
            None => (0, 0),
        };
        let ghost p3 = self.payload_buffer@;
        assert(p0.len() <= p1.len() <= p2.len() <= p3.len());

        self.tensors.push(
            TensorMeta {
                name,
                shape,
                dtype,
                group_size,
                data_offset,
                data_len,
                scale_offset,
                scale_len,
                outlier_offset,
                outlier_len,
                sha256: tensor_sha256,
            },
        );
        proof {
            assert(self.tensors@.drop_last() =~= old(self).tensors@);
            let t = self.tensors@.last();
            assert(p3.subrange(0, p0.len() as int) =~= p0);
            assert(payload_digest_input(t, p3) =~= data@ + chunk_bytes(opt_bytes(scales))
                + chunk_bytes(opt_bytes(outliers)));
            lemma_tensors_extend(old(self).tensors@, self.tensors@, p0, p3);
        }
        self.added = Ghost(self.added@.push(entry));
        proof {
            let t = self.tensors@.last();
            assert(p3.subrange(t.data_offset as int, t.data_offset + t.data_len) =~= data@);
            if t.scale_len > 0 {
                assert(p3.subrange(t.scale_offset as int, t.scale_offset + t.scale_len)
                    =~= chunk_bytes(opt_bytes(scales)));
            }
            if t.outlier_len > 0 {
                assert(p3.subrange(t.outlier_offset as int, t.outlier_offset + t.outlier_len)
                    =~= chunk_bytes(opt_bytes(outliers)));
            }
            assert(holds_added(t, entry, p3));
            lemma_added_extend(old(self).tensors@, self.tensors@, old(self).added@, self.added@, p0, p3);
        }
    }
}

/// A container being laid out. After `PoxWriter::begin_layout` the header space, the
/// metadata, the quantization plan and the payload are in place; `add_index` places
/// the tensor index and records the artifact digest; `finish` places the manifest and
/// the signature and writes the header.
pub struct PoxLayout {
    pub out: Vec<u8>,
    pub tensors: Vec<TensorMeta>,
    pub manifest: PoxManifest,
    pub signature: Option<PoxSignatureBlock>,
    pub metadata_len: u64,
    pub quant_plan_offset: u64,
    pub quant_plan_len: u64,
    pub data_offset: u64,
    pub data_len: u64,
    pub tensor_index_offset: u64,
    pub tensor_index_len: u64,
    pub metadata_bytes: Ghost<Seq<u8>>,
    pub quant_plan_bytes: Ghost<Seq<u8>>,
    pub payload_bytes: Ghost<Seq<u8>>,
    pub index_bytes: Ghost<Option<Seq<u8>>>,
}

impl PoxLayout {
    /// The bytes laid out so far are the sections recorded in the ghost fields, and the
    /// offsets and lengths are theirs.
    pub open spec fn wf(&self) -> bool {
        let m = self.metadata_bytes@;
        let p = self.quant_plan_bytes@;
        let pl = self.payload_bytes@;
        &&& self.metadata_len == m.len()
        &&& self.quant_plan_offset == after_metadata(m).len()
        &&& self.quant_plan_len == p.len()
        &&& self.data_offset == after_quant_plan(m, p).len()
        &&& self.data_len == pl.len()
        &&& match self.index_bytes@ {
            None => self.out@ == after_payload(m, p, pl),
            Some(ix) => {
                &&& self.out@ == after_index(m, p, pl, ix)
                &&& self.tensor_index_offset == after_payload(m, p, pl).len()
                &&& self.tensor_index_len == ix.len()
            },
        }
    }
}

impl PoxWriter {
    /// Lays out the header space, the encoded metadata, the encoded quantization plan and
    /// the payload, each section starting on a multiple of 64 bytes, and moves every
    /// tensor's offsets from the payload to the file.
    pub fn begin_layout(self, metadata_json: &[u8], quant_plan_json: &[u8]) -> (r: PoxLayout)
        requires
            self.wf(),
        ensures
            r.wf(),
            r.metadata_bytes@ == metadata_json@,
            r.quant_plan_bytes@ == quant_plan_json@,
            r.payload_bytes@ == self.payload_buffer@,
            r.index_bytes@ is None,
            r.manifest == self.manifest,
            r.signature == self.signature,
            r.tensors@.len() == self.tensors@.len(),
            forall|i: int|
                0 <= i < r.tensors@.len() ==> #[trigger] r.tensors@[i] == rebased(
                    self.tensors@[i],
                    r.data_offset,
                ),
            forall|i: int| 0 <= i < r.tensors@.len() ==> tensor_aligned(#[trigger] r.tensors@[i]),
    {
        let PoxWriter { metadata: _, quant_plan: _, manifest, signature, tensors, payload_buffer, added: _ } =
            self;
        let mut out: Vec<u8> = Vec::new();
        let mut i: usize = 0;
        while i < 128
            invariant
                0 <= i <= 128,
                out@ == zeros(i as nat),
            decreases 128 - i,
        {
            out.push(0u8);
            i = i + 1;
            assert(out@ =~= zeros(i as nat));
        }
        append_bytes(&mut out, metadata_json);
        let metadata_len = metadata_json.len() as u64;
        pad_to_alignment(&mut out, DATA_ALIGNMENT);
        let quant_plan_offset = out.len() as u64;
        append_bytes(&mut out, quant_plan_json);
        let quant_plan_len = quant_plan_json.len() as u64;
        pad_to_alignment(&mut out, DATA_ALIGNMENT);
        let data_offset = out.len() as u64;
        proof {
            lemma_padded(after_metadata(metadata_json@) + quant_plan_json@, 64);
        }
        append_bytes(&mut out, payload_buffer.as_slice());
        let data_len = payload_buffer.len() as u64;
        pad_to_alignment(&mut out, DATA_ALIGNMENT);
        let total = out.len();
        let ghost src = tensors@;
        let mut moved: Vec<TensorMeta> = Vec::new();
        let mut rest = tensors;
        let ghost n = src.len();
        while rest.len() > 0
            invariant
                moved@.len() + rest@.len() == n,
                n == src.len(),
                rest@ == src.subrange(moved@.len() as int, n as int),
                forall|k: int| 0 <= k < moved@.len() ==> #[trigger] moved@[k] == rebased(src[k], data_offset),
                forall|k: int| 0 <= k < moved@.len() ==> tensor_aligned(#[trigger] moved@[k]),
                forall|k: int|
                    0 <= k < src.len() ==> tensor_within(#[trigger] src[k], payload_buffer@.len())
                        && tensor_aligned(src[k]),
                data_offset + payload_buffer@.len() <= total,
                data_offset % 64 == 0,
            decreases rest@.len(),
        {
            let mut t = rest.remove(0);
            let ghost k = moved@.len() as int;
            assert(t == src[k]);
            t.data_offset = t.data_offset + data_offset;
            if t.scale_len > 0 {
                t.scale_offset = t.scale_offset + data_offset;
            }
            if t.outlier_len > 0 {
                t.outlier_offset = t.outlier_offset + data_offset;
            }
            moved.push(t);
            proof {
                assert(moved@[k] == rebased(src[k], data_offset));
                assert(rest@ =~= src.subrange(moved@.len() as int, n as int));
            }
        }
        PoxLayout {
            out,
            tensors: moved,
            manifest,
            signature,
            metadata_len,
            quant_plan_offset,
            quant_plan_len,
            data_offset,
            data_len,
            tensor_index_offset: 0,
            tensor_index_len: 0,
            metadata_bytes: Ghost(metadata_json@),
            quant_plan_bytes: Ghost(quant_plan_json@),
            payload_bytes: Ghost(payload_buffer@),
            index_bytes: Ghost(None),
        }
    }
}

impl PoxLayout {
    /// Places the encoded tensor index after the payload, aligns it, and records in the
    /// manifest the hex SHA-256 of everything after the header.
    pub fn add_index(&mut self, tensor_index_json: &[u8])
        requires
            old(self).wf(),
            old(self).index_bytes@ is None,
        ensures
            final(self).wf(),
            final(self).index_bytes@ == Some(tensor_index_json@),
            final(self).metadata_bytes == old(self).metadata_bytes,
            final(self).quant_plan_bytes == old(self).quant_plan_bytes,
            final(self).payload_bytes == old(self).payload_bytes,
            final(self).manifest.artifact_sha256@ == artifact_digest(
                old(self).metadata_bytes@,
                old(self).quant_plan_bytes@,
                old(self).payload_bytes@,
                tensor_index_json@,
            ),
            final(self).manifest.run_id == old(self).manifest.run_id,
            final(self).manifest.source_model_sha256 == old(self).manifest.source_model_sha256,
            final(self).manifest.calibration_sha256 == old(self).manifest.calibration_sha256,
            final(self).manifest.compiler_version == old(self).manifest.compiler_version,
            final(self).manifest.target_arch == old(self).manifest.target_arch,
            final(self).manifest.tensor_hashes == old(self).manifest.tensor_hashes,
            final(self).tensors == old(self).tensors,
            final(self).signature == old(self).signature,
    {
        proof {
            lemma_padded(zeros(128) + self.metadata_bytes@, 64);
        }
        let offset = self.out.len() as u64;
        append_bytes(&mut self.out, tensor_index_json);
        pad_to_alignment(&mut self.out, DATA_ALIGNMENT);
        self.tensor_index_offset = offset;
        self.tensor_index_len = tensor_index_json.len() as u64;
        self.index_bytes = Ghost(Some(tensor_index_json@));
        assert(self.out@.len() >= 128);
        let body = vstd::slice::slice_subrange(self.out.as_slice(), 128, self.out.len());
        let digest = sha256(body);
        self.manifest.artifact_sha256 = hex_encode(digest.as_slice());
    }

    /// Places the encoded manifest, aligned, then the encoded signature block where there
    /// is one, and writes the header that describes every section.
    pub fn finish(self, manifest_json: &[u8], signature_json: Option<&[u8]>) -> (r: Vec<u8>)
        requires
            self.wf(),
            self.index_bytes@ is Some,
        ensures
            r@ == container_bytes(
                self.metadata_bytes@,
                self.quant_plan_bytes@,
                self.payload_bytes@,
                self.index_bytes@->0,
                manifest_json@,
                opt_bytes(signature_json),
            ),
    {
        let ghost m = self.metadata_bytes@;
        let ghost p = self.quant_plan_bytes@;
        let ghost pl = self.payload_bytes@;
        let ghost ix = self.index_bytes@->0;
        let ghost sig = opt_bytes(signature_json);
        proof {
            lemma_padded(zeros(128) + m, 64);
        }
        let mut out = self.out;
        let manifest_offset = out.len() as u64;
        append_bytes(&mut out, manifest_json);
        let manifest_len = manifest_json.len() as u64;
        pad_to_alignment(&mut out, DATA_ALIGNMENT);
        let (signature_offset, signature_len): (u64, u64) = match signature_json {
            Some(sj) => {
                let off = out.len() as u64;
                append_bytes(&mut out, sj);
                (off, sj.len() as u64)
            },
            None => (0, 0),
        };
        let ghost body = out@;
        assert(body =~= container_body(m, p, pl, ix, manifest_json@, sig));
        let total = out.len();
        let header = PoxHeader {
            magic: POX_MAGIC,
            format_version: POX_VERSION,
            flags: 0,
            metadata_offset: HEADER_SIZE,
            metadata_len: self.metadata_len,
            tensor_index_offset: self.tensor_index_offset,
            tensor_index_len: self.tensor_index_len,
            quant_plan_offset: self.quant_plan_offset,
            quant_plan_len: self.quant_plan_len,
            data_offset: self.data_offset,
            data_len: self.data_len,
            manifest_offset,
            manifest_len,
            signature_offset,
            signature_len,
        };
        assert(header == container_header(m, p, pl, ix, manifest_json@, sig));
        let mut header_buf: Vec<u8> = Vec::new();
        header.write_to(&mut header_buf);
        proof {
            lemma_header_size(header);
        }
        let mut i: usize = 0;
        while i < 128
            invariant
                0 <= i <= 128,
                out@.len() == body.len(),
                body.len() >= 128,
                header_buf@.len() == 128,
                out@ == header_buf@.subrange(0, i as int) + body.subrange(i as int, body.len() as int),
            decreases 128 - i,
        {
            out.set(i, header_buf[i]);
            i = i + 1;
            assert(out@ =~= header_buf@.subrange(0, i as int) + body.subrange(i as int, body.len() as int));
        }
        assert(header_buf@.subrange(0, 128) =~= header_buf@);
        out
    }
}

/// `x` sits at the end of `prefix + x`, and so in anything that starts with it.
proof fn lemma_section_at(whole: Seq<u8>, prefix: Seq<u8>, x: Seq<u8>)
    requires
        prefix.len() + x.len() <= whole.len(),
        whole.subrange(0, (prefix.len() + x.len()) as int) == prefix + x,
    ensures
        whole.subrange(prefix.len() as int, (prefix.len() + x.len()) as int) == x,
        whole.subrange(0, prefix.len() as int) == prefix,
{
    assert(whole.subrange(prefix.len() as int, (prefix.len() + x.len()) as int) =~= (prefix + x).subrange(
        prefix.len() as int,
        (prefix.len() + x.len()) as int,
    ));
    assert(whole.subrange(0, prefix.len() as int) =~= (prefix + x).subrange(0, prefix.len() as int));
}

/// If `a` starts `b` and `b` starts `c`, then `a` starts `c`.
proof fn lemma_prefix_trans(a: Seq<u8>, b: Seq<u8>, c: Seq<u8>)
    requires
        a.len() <= b.len() <= c.len(),
        b.subrange(0, a.len() as int) == a,
        c.subrange(0, b.len() as int) == b,
    ensures
        c.subrange(0, a.len() as int) == a,
{
    assert(c.subrange(0, a.len() as int) =~= b.subrange(0, a.len() as int));
}

/// Appending and aligning keeps what was there as a prefix.
proof fn lemma_aligned_append(s: Seq<u8>, x: Seq<u8>)
    ensures
        aligned(s + x).subrange(0, (s.len() + x.len()) as int) == s + x,
        s.len() + x.len() <= aligned(s + x).len() < s.len() + x.len() + 64,
        aligned(s + x).len() % 64 == 0,
        aligned(s + x).subrange(0, s.len() as int) == s,
{
    lemma_padded(s + x, 64);
    lemma_section_at(aligned(s + x), s, x);
}

/// Where the sections lie in the body of a container, and that each starts aligned.
proof fn lemma_body_sections(
    meta: Seq<u8>,
    plan: Seq<u8>,
    payload: Seq<u8>,
    index: Seq<u8>,
    manifest: Seq<u8>,
    sig: Option<Seq<u8>>,
)
    ensures
        ({
            let body = container_body(meta, plan, payload, index, manifest, sig);
            let s1 = after_metadata(meta);
            let s2 = after_quant_plan(meta, plan);
            let s3 = after_payload(meta, plan, payload);
            let s4 = after_index(meta, plan, payload, index);
            let s5 = after_manifest(meta, plan, payload, index, manifest);
            &&& 128 + meta.len() <= s1.len()
            &&& s1.len() + plan.len() <= s2.len()
            &&& s2.len() + payload.len() <= s3.len()
            &&& s3.len() + index.len() <= s4.len()
            &&& s4.len() + manifest.len() <= s5.len()
            &&& body.len() == s5.len() + chunk_len(sig)
            &&& body.subrange(128, (128 + meta.len()) as int) == meta
            &&& body.subrange(s1.len() as int, (s1.len() + plan.len()) as int) == plan
            &&& body.subrange(s2.len() as int, (s2.len() + payload.len()) as int) == payload
            &&& body.subrange(s3.len() as int, (s3.len() + index.len()) as int) == index
            &&& body.subrange(s4.len() as int, (s4.len() + manifest.len()) as int) == manifest
            &&& body.subrange(s5.len() as int, body.len() as int) == chunk_bytes(sig)
            &&& s1.len() % 64 == 0
            &&& s2.len() % 64 == 0
            &&& s3.len() % 64 == 0
            &&& s4.len() % 64 == 0
            &&& s5.len() % 64 == 0
        }),
{
    let z = zeros(128);
    let s1 = after_metadata(meta);
    let s2 = after_quant_plan(meta, plan);
    let s3 = after_payload(meta, plan, payload);
    let s4 = after_index(meta, plan, payload, index);
    let s5 = after_manifest(meta, plan, payload, index, manifest);
    let body = container_body(meta, plan, payload, index, manifest, sig);
    lemma_aligned_append(z, meta);
    lemma_aligned_append(s1, plan);
    lemma_aligned_append(s2, payload);
    lemma_aligned_append(s3, index);
    lemma_aligned_append(s4, manifest);
    assert(body.subrange(0, s5.len() as int) =~= s5);
    assert(body.subrange(s5.len() as int, body.len() as int) =~= chunk_bytes(sig));
    lemma_prefix_trans(s4, s5, body);
    lemma_prefix_trans(s3, s4, body);
    lemma_prefix_trans(s2, s3, body);
    lemma_prefix_trans(s1, s2, body);
    lemma_prefix_trans(s4 + manifest, s5, body);
    lemma_prefix_trans(s3 + index, s4, body);
    lemma_prefix_trans(s2 + payload, s3, body);
    lemma_prefix_trans(s1 + plan, s2, body);
    lemma_prefix_trans(z + meta, s1, body);
    lemma_section_at(body, z, meta);
    lemma_section_at(body, s1, plan);
    lemma_section_at(body, s2, payload);
    lemma_section_at(body, s3, index);
    lemma_section_at(body, s4, manifest);
}

/// In a finished container the header reads back as the one that describes it, every
/// section is found at the offset and with the length the header gives, and every
/// section starts on a multiple of 64 bytes.
pub proof fn lemma_container_layout(
    meta: Seq<u8>,
    plan: Seq<u8>,
    payload: Seq<u8>,
    index: Seq<u8>,
    manifest: Seq<u8>,
    sig: Option<Seq<u8>>,
)
    requires
        container_body(meta, plan, payload, index, manifest, sig).len() <= u64::MAX,
    ensures
        ({
            let c = container_bytes(meta, plan, payload, index, manifest, sig);
            let h = container_header(meta, plan, payload, index, manifest, sig);
            &&& c.len() == container_body(meta, plan, payload, index, manifest, sig).len()
            &&& header_accepts(c)
            &&& header_fields_at(h, c)
            &&& h.metadata_offset + h.metadata_len <= c.len()
            &&& c.subrange(h.metadata_offset as int, h.metadata_offset + h.metadata_len) == meta
            &&& h.quant_plan_offset + h.quant_plan_len <= c.len()
            &&& c.subrange(h.quant_plan_offset as int, h.quant_plan_offset + h.quant_plan_len) == plan
            &&& h.data_offset + h.data_len <= c.len()
            &&& c.subrange(h.data_offset as int, h.data_offset + h.data_len) == payload
            &&& h.tensor_index_offset + h.tensor_index_len <= c.len()
            &&& c.subrange(h.tensor_index_offset as int, h.tensor_index_offset + h.tensor_index_len)
                == index
            &&& h.manifest_offset + h.manifest_len <= c.len()
            &&& c.subrange(h.manifest_offset as int, h.manifest_offset + h.manifest_len) == manifest
            &&& h.signature_offset + h.signature_len <= c.len()
            &&& (sig matches Some(sb) ==> c.subrange(
                h.signature_offset as int,
                h.signature_offset + h.signature_len,
            ) == sb)
            &&& h.metadata_offset % 64 == 0
            &&& h.quant_plan_offset % 64 == 0
            &&& h.data_offset % 64 == 0
            &&& h.tensor_index_offset % 64 == 0
            &&& h.manifest_offset % 64 == 0
            &&& (sig is Some ==> h.signature_offset % 64 == 0)
        }),
{
    let body = container_body(meta, plan, payload, index, manifest, sig);
    let h = container_header(meta, plan, payload, index, manifest, sig);
    let c = container_bytes(meta, plan, payload, index, manifest, sig);
    let s1 = after_metadata(meta);
    let s2 = after_quant_plan(meta, plan);
    let s3 = after_payload(meta, plan, payload);
    let s4 = after_index(meta, plan, payload, index);
    let s5 = after_manifest(meta, plan, payload, index, manifest);
    lemma_body_sections(meta, plan, payload, index, manifest, sig);
    lemma_container_header(meta, plan, payload, index, manifest, sig);
    assert(c.subrange(128, (128 + meta.len()) as int) =~= body.subrange(128, (128 + meta.len()) as int));
    assert(c.subrange(s1.len() as int, (s1.len() + plan.len()) as int) =~= body.subrange(
        s1.len() as int,
        (s1.len() + plan.len()) as int,
    ));
    assert(c.subrange(s2.len() as int, (s2.len() + payload.len()) as int) =~= body.subrange(
        s2.len() as int,
        (s2.len() + payload.len()) as int,
    ));
    assert(c.subrange(s3.len() as int, (s3.len() + index.len()) as int) =~= body.subrange(
        s3.len() as int,
        (s3.len() + index.len()) as int,
    ));
    assert(c.subrange(s4.len() as int, (s4.len() + manifest.len()) as int) =~= body.subrange(
        s4.len() as int,
        (s4.len() + manifest.len()) as int,
    ));
    if sig is Some {
        assert(c.subrange(s5.len() as int, body.len() as int) =~= body.subrange(
            s5.len() as int,
            body.len() as int,
        ));
    }
}

/// A finished container starts with the header that describes it.
proof fn lemma_container_header(
    meta: Seq<u8>,
    plan: Seq<u8>,
    payload: Seq<u8>,
    index: Seq<u8>,
    manifest: Seq<u8>,
    sig: Option<Seq<u8>>,
)
    ensures
        ({
            let c = container_bytes(meta, plan, payload, index, manifest, sig);
            let h = container_header(meta, plan, payload, index, manifest, sig);
            &&& c.len() == container_body(meta, plan, payload, index, manifest, sig).len()
            &&& header_accepts(c)
            &&& header_fields_at(h, c)
            &&& forall|a: int, b: int|
                128 <= a <= b <= c.len() ==> #[trigger] c.subrange(a, b) == container_body(
                    meta,
                    plan,
                    payload,
                    index,
                    manifest,
                    sig,
                ).subrange(a, b)
        }),
{
    let body = container_body(meta, plan, payload, index, manifest, sig);
    let h = container_header(meta, plan, payload, index, manifest, sig);
    let c = container_bytes(meta, plan, payload, index, manifest, sig);
    lemma_body_sections(meta, plan, payload, index, manifest, sig);
    lemma_header_size(h);
    lemma_header_roundtrip(h);
    let hb = header_bytes(h);
    assert(c.subrange(0, 128) =~= hb);
    lemma_fields_prefix(h, c);
    assert forall|a: int, b: int| 128 <= a <= b <= c.len() implies #[trigger] c.subrange(a, b)
        == body.subrange(a, b) by {
        assert(c.subrange(a, b) =~= body.subrange(a, b));
    }
}

/// Header fields read from the first 128 bytes are the same in any longer sequence.
proof fn lemma_fields_prefix(h: PoxHeader, c: Seq<u8>)
    requires
        c.len() >= 128,
        c.subrange(0, 128) == header_bytes(h),
        header_fields_at(h, header_bytes(h)),
    ensures
        header_fields_at(h, c),
{
    let hb = header_bytes(h);
    assert forall|i: int| 0 <= i < 128 implies c[i] == hb[i] by {
        assert(c[i] == c.subrange(0, 128)[i]);
    }
    assert(c.subrange(0, 4) =~= hb.subrange(0, 4));
}

} // verus!
