//! Verification of a `.pox` container: header magic, tensor digests, the artifact root
//! hash recomputed over the covered bytes, and the Ed25519 signature over that hash,
//! gathered in a report.

use vstd::prelude::*;
use vstd::string::StringSliceAdditionalSpecFns;
use crate::digest::{hex_encode, hex_lower, sha256, sha256_of};
use crate::error::{concat, error_message, owned, PoxError, Result};
use crate::pox::{PoxHeader, POX_MAGIC};
use crate::reader::{names_distinct, PoxFile};
use crate::container::{after_index, after_manifest, after_metadata, after_payload, after_quant_plan, artifact_digest, container_body, container_bytes, container_header, rebased, PoxWriter};
use crate::bytes::lemma_padded;
use crate::pox::lemma_header_size;
use crate::signature::{signature_check, verify_signature_hex};
use crate::tensor::TensorMeta;
use crate::text::{decimal, u64_to_decimal};

verus! {

/// Outcome of verifying a container.
#[derive(Debug, Clone)]
pub struct VerificationReport {
    pub container_valid: bool,
    pub tensor_integrity_valid: bool,
    pub manifest_valid: bool,
    pub signature_valid: Option<bool>,
    pub signer_pubkey: Option<String>,
    pub source_hash: String,
    pub tensor_count: usize,
    pub details: Vec<String>,
}

impl VerificationReport {
    /// Whether the report shows a trustworthy container: header, tensors and manifest
    /// check out, and, where a signature is required, it verified.
    pub open spec fn trusted(&self, require_signature: bool) -> bool {
        &&& self.container_valid
        &&& self.tensor_integrity_valid
        &&& self.manifest_valid
        &&& require_signature ==> self.signature_valid == Some(true)
    }

    pub fn is_trusted(&self, require_signature: bool) -> (r: bool)
        ensures
            r == self.trusted(require_signature),
            r ==> self.container_valid && self.tensor_integrity_valid && self.manifest_valid,
            r && require_signature ==> self.signature_valid == Some(true),
    {
        let base_ok = self.container_valid && self.tensor_integrity_valid && self.manifest_valid;
        if require_signature {
            base_ok && self.signature_valid == Some(true)
        } else {
            base_ok
        }
    }
}

/// A report is trusted, with or without a required signature, only when the header,
/// every tensor digest and the manifest checked out, and with a required signature
/// only when the signature verified; when all of those hold it is trusted.
pub proof fn lemma_trusted_requires_every_check(report: VerificationReport, require_signature: bool)
    ensures
        report.trusted(require_signature) ==> report.container_valid,
        report.trusted(require_signature) ==> report.tensor_integrity_valid,
        report.trusted(require_signature) ==> report.manifest_valid,
        !report.tensor_integrity_valid ==> !report.trusted(true) && !report.trusted(false),
        report.trusted(true) ==> report.signature_valid == Some(true),
        report.container_valid && report.tensor_integrity_valid && report.manifest_valid ==> report.trusted(
            false,
        ),
        report.container_valid && report.tensor_integrity_valid && report.manifest_valid
            && report.signature_valid == Some(true) ==> report.trusted(true),
{
}

/// A report trusted with a required signature is trusted without one.
pub proof fn lemma_trusted_signed_implies_unsigned(report: VerificationReport)
    ensures
        report.trusted(true) ==> report.trusted(false),
{
}

/// The largest character boundary of `b` that is at most `k`.
pub open spec fn floor_boundary(b: Seq<u8>, k: int) -> int
    decreases k,
{
    if k <= 0 || vstd::utf8::is_char_boundary(b, k) {
        if k <= 0 {
            0
        } else {
            k
        }
    } else {
        floor_boundary(b, k - 1)
    }
}

/// The start of a public key shown in a report: at most its first 16 bytes, cut at a
/// character boundary.
pub open spec fn key_prefix(key: Seq<char>) -> Seq<char> {
    let b = vstd::utf8::encode_utf8(key);
    let n = if b.len() < 16 {
        b.len() as int
    } else {
        16
    };
    vstd::utf8::decode_utf8(b.subrange(0, floor_boundary(b, n)))
}

/// Whether position `i` holds the first tensor whose digest check fails.
pub open spec fn first_failure(f: PoxFile, i: int) -> bool {
    &&& 0 <= i < f.tensors@.len()
    &&& !f.tensor_verified(f.tensors@[i])
    &&& forall|j: int| 0 <= j < i ==> f.tensor_verified(#[trigger] f.tensors@[j])
}

/// Text of the error that reports a failing tensor.
pub open spec fn failure_message(f: PoxFile, t: TensorMeta) -> Seq<char> {
    match f.digest_input(t) {
        None => "Format error: "@ + ("Missing data for tensor "@ + t.name@),
        Some(b) => "Integrity hash mismatch for tensor '"@ + t.name@ + "': expected "@ + t.sha256@
            + ", calculated "@ + hex_lower(crate::digest::sha256_of(b)),
    }
}

/// Whether every tensor's digest checks out.
pub open spec fn all_verified(f: PoxFile) -> bool {
    forall|i: int| 0 <= i < f.tensors@.len() ==> f.tensor_verified(#[trigger] f.tensors@[i])
}

/// End of the region that the artifact root hash covers: the end of the tensor index,
/// rounded up to the next multiple of 64.
pub open spec fn covered_end(h: PoxHeader) -> int {
    let x = h.tensor_index_offset + h.tensor_index_len;
    if x % 64 == 0 {
        x
    } else {
        x - x % 64 + 64
    }
}

/// The bytes that the artifact root hash covers: from the end of the 128-byte header to
/// `covered_end`; none where that range does not lie inside the file.
pub open spec fn covered_bytes(f: PoxFile) -> Option<Seq<u8>> {
    let end = covered_end(f.header);
    if 128 <= end <= f.data@.len() {
        Some(f.data@.subrange(128, end))
    } else {
        None
    }
}

/// Whether the recorded artifact root hash is the hex SHA-256 of the covered bytes.
pub open spec fn root_hash_valid(f: PoxFile) -> bool {
    match covered_bytes(f) {
        Some(b) => f.manifest.artifact_sha256@ == hex_lower(sha256_of(b)),
        None => false,
    }
}

/// The public key a signature is checked against: the trusted one where given, else the
/// one the signature block names.
pub open spec fn checking_key(f: PoxFile, trusted: Option<Seq<char>>) -> Seq<char> {
    match trusted {
        Some(k) => k,
        None => f.signature->0.public_key_hex@,
    }
}

/// Outcome of checking the container's signature over the artifact root hash.
pub open spec fn signature_outcome(f: PoxFile, trusted: Option<Seq<char>>) -> core::result::Result<bool, Seq<char>> {
    signature_check(
        vstd::utf8::encode_utf8(f.manifest.artifact_sha256@),
        checking_key(f, trusted),
        f.signature->0.signature_hex@,
    )
}

/// The report lines of a verification, in order.
pub open spec fn report_details(f: PoxFile, trusted: Option<Seq<char>>) -> Seq<Seq<char>> {
    let magic = if f.header.magic@ == POX_MAGIC@ {
        seq!["Container header and magic verified"@]
    } else {
        Seq::empty()
    };
    let integrity = if all_verified(f) {
        seq![
            "All "@ + decimal(f.tensors@.len()) + " tensors verified against cryptographic SHA-256 manifest"@,
        ]
    } else {
        let i = choose|i: int| first_failure(f, i);
        seq!["Tensor integrity verification failed: "@ + failure_message(f, f.tensors@[i])]
    };
    let manifest = if root_hash_valid(f) {
        seq!["Artifact root hash verified: "@ + f.manifest.artifact_sha256@]
    } else {
        seq!["Artifact root hash does not match the container contents"@]
    };
    let signature = match f.signature {
        None => seq!["No digital signature block in artifact"@],
        Some(_) => match signature_outcome(f, trusted) {
            Ok(true) => seq![
                "Ed25519 signature verified for public key "@ + key_prefix(checking_key(f, trusted)),
            ],
            Ok(false) => seq!["Ed25519 signature is INVALID"@],
            Err(m) => seq!["Signature verification error: "@ + ("Security violation: "@ + m)],
        },
    };
    magic + integrity + manifest + signature
}

/// The views of a list of strings.
pub open spec fn texts(v: Seq<String>) -> Seq<Seq<char>> {
    v.map_values(|s: String| s@)
}

/// At most the first 16 bytes of `key`, cut at a character boundary.
fn key_prefix_of(key: &str) -> (r: &str)
    ensures
        r@ == key_prefix(key@),
{
    broadcast use vstd::utf8::encode_utf8_valid_utf8, vstd::utf8::encode_utf8_decode_utf8;

    let n = key.as_bytes().len();
    let mut k: usize = if n < 16 {
        n
    } else {
        16
    };
    let ghost b = key.spec_bytes();
    let ghost start = k as int;
    while k > 0 && !key.is_char_boundary(k)
        invariant
            0 <= k <= start,
            b == key.spec_bytes(),
            start <= b.len(),
            floor_boundary(b, k as int) == floor_boundary(b, start),
        decreases k,
    {
        k = k - 1;
    }
    assert(vstd::utf8::is_char_boundary(b, 0));
    let (head, _) = key.split_at(k);
    assert(head.spec_bytes() == b.subrange(0, floor_boundary(b, start)));
    assert(head@ == vstd::utf8::decode_utf8(vstd::utf8::encode_utf8(head@)));
    assert(b == vstd::utf8::encode_utf8(key@));
    assert(start == if b.len() < 16 { b.len() as int } else { 16 });
    assert(head@ == vstd::utf8::decode_utf8(b.subrange(0, floor_boundary(b, start))));
    head
}

/// Recomputes the artifact root hash over the covered bytes and compares it with the
/// one the manifest records.
fn check_root_hash(file: &PoxFile) -> (r: bool)
    ensures
        r == root_hash_valid(*file),
{
    let n = file.data.len();
    let x: u128 = file.header.tensor_index_offset as u128 + file.header.tensor_index_len as u128;
    let rem: u128 = x % 64;
    let end: u128 = if rem == 0 {
        x
    } else {
        x - rem + 64
    };
    if end < 128 || end > n as u128 {
        return false;
    }
    let body = vstd::slice::slice_subrange(file.data.as_slice(), 128, end as usize);
    let digest = sha256(body);
    let hash = hex_encode(digest.as_slice());
    hash == file.manifest.artifact_sha256
}

/// Verifies a container: its magic, every tensor's digest, the artifact root hash
/// recomputed over the covered bytes, and the signature over that hash, checked against `trusted_public_key`
/// where given and else against the key the signature block names.
pub fn verify_pox_file(file: &PoxFile, trusted_public_key: Option<&str>) -> (r: Result<
    VerificationReport,
>)
    requires
        file.wf(),
    ensures
        r matches Ok(rep) && {
            let trusted = match trusted_public_key {
                Some(k) => Some(k@),
                None => None,
            };
            &&& rep.container_valid == (file.header.magic@ == POX_MAGIC@)
            &&& rep.tensor_integrity_valid == all_verified(*file)
            &&& rep.manifest_valid == root_hash_valid(*file)
            &&& rep.signature_valid == match file.signature {
                None => None,
                Some(_) => Some(signature_outcome(*file, trusted) == Ok::<bool, Seq<char>>(true)),
            }
            &&& match file.signature {
                None => rep.signer_pubkey is None,
                Some(_) => match signature_outcome(*file, trusted) {
                    Ok(_) => rep.signer_pubkey matches Some(k) && k@ == checking_key(*file, trusted),
                    Err(_) => rep.signer_pubkey is None,
                },
            }
            &&& rep.source_hash@ == file.manifest.source_model_sha256@
            &&& rep.tensor_count == file.tensors@.len()
            &&& texts(rep.details@) == report_details(*file, trusted)
        },
{
    let ghost trusted = match trusted_public_key {
        Some(k) => Some(k@),
        None => None::<Seq<char>>,
    };
    let mut details: Vec<String> = Vec::new();
    let container_valid = file.header.magic[0] == POX_MAGIC[0] && file.header.magic[1]
        == POX_MAGIC[1] && file.header.magic[2] == POX_MAGIC[2] && file.header.magic[3]
        == POX_MAGIC[3];
    proof {
        if container_valid {
            assert(file.header.magic@ =~= POX_MAGIC@);
        } else {
            assert(file.header.magic@ != POX_MAGIC@) by {
                if file.header.magic@ == POX_MAGIC@ {
                    assert(file.header.magic@[0] == POX_MAGIC@[0]);
                    assert(file.header.magic@[1] == POX_MAGIC@[1]);
                    assert(file.header.magic@[2] == POX_MAGIC@[2]);
                    assert(file.header.magic@[3] == POX_MAGIC@[3]);
                }
            }
        }
    }
    if container_valid {
        details.push(owned("Container header and magic verified"));
    }
    let ghost d1 = texts(details@);

    let tensor_integrity_valid = match file.verify_integrity() {
        Ok(()) => {
            let mut m = owned("All ");
            m.append(u64_to_decimal(file.tensors.len() as u64).as_str());
            m.append(" tensors verified against cryptographic SHA-256 manifest");
            details.push(m);
            true
        },
        Err(e) => {
            proof {
                let i = choose|i: int|
                    0 <= i < file.tensors@.len() && (forall|j: int|
                        0 <= j < i ==> file.tensor_verified(#[trigger] file.tensors@[j]))
                        && !file.tensor_verified(#[trigger] file.tensors@[i])
                        && file.integrity_failure(file.tensors@[i], e);
                assert(first_failure(*file, i));
                let k = choose|k: int| first_failure(*file, k);
                lemma_first_failure_unique(*file, i, k);
                assert(error_message(e) == failure_message(*file, file.tensors@[i]));
            }
            details.push(concat("Tensor integrity verification failed: ", e.message().as_str()));
            false
        },
    };
    let ghost d2 = texts(details@);

    let manifest_valid = check_root_hash(file);
    if manifest_valid {
        details.push(
            concat("Artifact root hash verified: ", file.manifest.artifact_sha256.as_str()),
        );
    } else {
        details.push(owned("Artifact root hash does not match the container contents"));
    }
    let ghost d3 = texts(details@);

    let (signature_valid, signer_pubkey): (Option<bool>, Option<String>) = match &file.signature {
        Some(sig) => {
            let pubkey: &str = match trusted_public_key {
                Some(k) => k,
                None => sig.public_key_hex.as_str(),
            };
            let artifact_hash_bytes = file.manifest.artifact_sha256.as_str().as_bytes();
            match verify_signature_hex(artifact_hash_bytes, pubkey, sig.signature_hex.as_str()) {
                Ok(true) => {
                    details.push(
                        concat(
                            "Ed25519 signature verified for public key ",
                            key_prefix_of(pubkey),
                        ),
                    );
                    (Some(true), Some(owned(pubkey)))
                },
                Ok(false) => {
                    details.push(owned("Ed25519 signature is INVALID"));
                    (Some(false), Some(owned(pubkey)))
                },
                Err(e) => {
                    details.push(concat("Signature verification error: ", e.message().as_str()));
                    (Some(false), None)
                },
            }
        },
        None => {
            details.push(owned("No digital signature block in artifact"));
            (None, None)
        },
    };
    proof {
        assert(texts(details@) =~= report_details(*file, trusted));
    }
    let source_hash = file.manifest.source_model_sha256.clone();
    Ok(
        VerificationReport {
            container_valid,
            tensor_integrity_valid,
            manifest_valid,
            signature_valid,
            signer_pubkey,
            source_hash,
            tensor_count: file.tensors.len(),
            details,
        },
    )
}

/// In a finished container the root-hash region ends where the aligned tensor index
/// ends, and it holds the bytes that the writer hashed.
proof fn lemma_covered_written(
    meta: Seq<u8>,
    plan: Seq<u8>,
    payload: Seq<u8>,
    index: Seq<u8>,
    manifest: Seq<u8>,
    sig: Option<Seq<u8>>,
)
    requires
        container_body(meta, plan, payload, index, manifest, sig).len() <= u64::MAX,
    ensures
        ({
            let c = container_bytes(meta, plan, payload, index, manifest, sig);
            let h = container_header(meta, plan, payload, index, manifest, sig);
            let ai = after_index(meta, plan, payload, index);
            &&& covered_end(h) == ai.len()
            &&& 128 <= ai.len() <= c.len()
            &&& c.subrange(128, ai.len() as int) == ai.subrange(128, ai.len() as int)
        }),
{
    let c = container_bytes(meta, plan, payload, index, manifest, sig);
    let h = container_header(meta, plan, payload, index, manifest, sig);
    let body = container_body(meta, plan, payload, index, manifest, sig);
    let am0 = after_metadata(meta);
    let q = after_quant_plan(meta, plan);
    let ap = after_payload(meta, plan, payload);
    let ai = after_index(meta, plan, payload, index);
    let am = after_manifest(meta, plan, payload, index, manifest);
    lemma_padded(crate::bytes::zeros(128) + meta, 64);
    lemma_padded(am0 + plan, 64);
    lemma_padded(q + payload, 64);
    lemma_padded(ap + index, 64);
    lemma_padded(ai + manifest, 64);
    lemma_header_size(h);
    let l = ai.len() as int;
    let x = ap.len() + index.len();
    assert(h.tensor_index_offset + h.tensor_index_len == x);
    assert(covered_end(h) == l) by {
        assert(l % 64 == 0);
        assert(x <= l < x + 64);
    }
    assert(c.len() == body.len());
    assert forall|k: int| 128 <= k < l implies #[trigger] c[k] == ai[k] by {
        assert(c[k] == body[k]);
        assert(body[k] == am[k]);
        assert(am.subrange(0, (ai + manifest).len() as int)[k] == (ai + manifest)[k]);
    }
    assert(c.subrange(128, l) =~= ai.subrange(128, l));
}

/// A container read back from the bytes a writer laid out, with the header those bytes
/// hold and a manifest that records the writer's artifact digest, passes the magic and
/// root-hash checks; with its tensor index decoding to the writer's tensors moved to the
/// file, it passes every tensor's digest check too, so `verify_pox_file` reports it
/// trusted.
pub proof fn lemma_written_container_trusted(
    w: PoxWriter,
    meta: Seq<u8>,
    plan: Seq<u8>,
    index: Seq<u8>,
    manifest: Seq<u8>,
    sig: Option<Seq<u8>>,
    f: PoxFile,
)
    requires
        w.wf(),
        names_distinct(w.tensors@),
        container_body(meta, plan, w.payload_buffer@, index, manifest, sig).len() <= u64::MAX,
        f.wf(),
        f.data@ == container_bytes(meta, plan, w.payload_buffer@, index, manifest, sig),
        f.header == container_header(meta, plan, w.payload_buffer@, index, manifest, sig),
        f.manifest.artifact_sha256@ == artifact_digest(meta, plan, w.payload_buffer@, index),
        f.tensors@.len() == w.tensors@.len(),
        forall|i: int|
            0 <= i < f.tensors@.len() ==> #[trigger] f.tensors@[i] == rebased(
                w.tensors@[i],
                after_quant_plan(meta, plan).len() as u64,
            ),
    ensures
        f.header.magic@ == POX_MAGIC@,
        all_verified(f),
        root_hash_valid(f),
{
    crate::reader::lemma_written_container_verifies(w, meta, plan, index, manifest, sig, f);
    lemma_covered_written(meta, plan, w.payload_buffer@, index, manifest, sig);
}

/// Whether byte `p` of a file lies in a region that a tensor's digest covers: its data,
/// or its scales or outliers where it has them.
pub open spec fn digest_covers(t: TensorMeta, p: int) -> bool {
    ||| t.data_offset <= p < t.data_offset + t.data_len
    ||| (t.scale_len > 0 && t.scale_offset <= p < t.scale_offset + t.scale_len)
    ||| (t.outlier_len > 0 && t.outlier_offset <= p < t.outlier_offset + t.outlier_len)
}

/// Whether two files of the same length differ at byte `p` and nowhere else.
pub open spec fn differ_only_at(a: Seq<u8>, b: Seq<u8>, p: int) -> bool {
    &&& a.len() == b.len()
    &&& 0 <= p < a.len()
    &&& a[p] != b[p]
    &&& forall|q: int| 0 <= q < a.len() && q != p ==> #[trigger] a[q] == b[q]
}

/// Editing one byte that tensor `i`'s digest covers and no other tensor's digest covers,
/// in a container with distinct tensor names whose digests all checked out, makes
/// tensor `i` the first to fail, so the integrity check reports a hash mismatch for that
/// tensor; this holds barring a SHA-256 collision between the tensor's old and new bytes.
pub proof fn lemma_tampered_tensor_fails(f: PoxFile, g: PoxFile, i: int, p: int)
    requires
        f.wf(),
        g.tensors == f.tensors,
        names_distinct(f.tensors@),
        all_verified(f),
        0 <= i < f.tensors@.len(),
        crate::container::tensor_within(f.tensors@[i], f.data@.len()),
        digest_covers(f.tensors@[i], p),
        forall|j: int|
            0 <= j < f.tensors@.len() && j != i ==> !digest_covers(#[trigger] f.tensors@[j], p),
        differ_only_at(f.data@, g.data@, p),
        g.digest_input(f.tensors@[i]) != f.digest_input(f.tensors@[i]) ==> sha256_of(
            g.digest_input(f.tensors@[i])->0,
        ) != sha256_of(f.digest_input(f.tensors@[i])->0),
    ensures
        first_failure(g, i),
        forall|j: int, e: PoxError|
            first_failure(g, j) && #[trigger] g.integrity_failure(g.tensors@[j], e) ==> (e matches PoxError::IntegrityHashMismatch { tensor, .. } && tensor@ == f.tensors@[i].name@),
{
    let t = f.tensors@[i];
    assert forall|j: int| 0 <= j < f.tensors@.len() && j != i implies g.tensor_verified(
        #[trigger] g.tensors@[j],
    ) by {
        lemma_untouched_tensor(f, g, j, p);
    }
    crate::reader::lemma_name_index_distinct(f.tensors@, i);
    lemma_digest_input_differs(f, g, t, p);
    let fin = f.digest_input(t)->0;
    let gin = g.digest_input(t)->0;
    if g.tensor_verified(t) {
        assert(f.tensor_verified(f.tensors@[i]));
        crate::digest::lemma_hex_injective(sha256_of(gin), sha256_of(fin));
    }
    assert forall|j: int, e: PoxError|
        first_failure(g, j) && #[trigger] g.integrity_failure(g.tensors@[j], e) implies (e matches PoxError::IntegrityHashMismatch { tensor, .. } && tensor@ == t.name@) by {
        lemma_first_failure_unique(g, i, j);
    }
}

/// A region that does not hold the edited byte reads the same in both files.
proof fn lemma_region_untouched(a: Seq<u8>, b: Seq<u8>, p: int, off: u64, len: u64)
    requires
        differ_only_at(a, b, p),
        !(off <= p < off + len),
    ensures
        crate::reader::region(b, off, len) == crate::reader::region(a, off, len),
{
    if off + len <= a.len() {
        assert(b.subrange(off as int, off + len) =~= a.subrange(off as int, off + len)) by {
            assert forall|k: int| 0 <= k < len implies #[trigger] b.subrange(off as int, off + len)[k]
                == a.subrange(off as int, off + len)[k] by {
                assert(b[off + k] == a[off + k]);
            }
        }
    }
}

/// A tensor whose digest does not cover the edited byte still checks out.
proof fn lemma_untouched_tensor(f: PoxFile, g: PoxFile, j: int, p: int)
    requires
        f.wf(),
        g.tensors == f.tensors,
        names_distinct(f.tensors@),
        all_verified(f),
        0 <= j < f.tensors@.len(),
        !digest_covers(f.tensors@[j], p),
        differ_only_at(f.data@, g.data@, p),
    ensures
        g.tensor_verified(g.tensors@[j]),
{
    let u = f.tensors@[j];
    assert(f.tensor_verified(f.tensors@[j]));
    crate::reader::lemma_name_index_distinct(f.tensors@, j);
    assert(f.lookup(u.name@) == Some(u));
    assert(g.lookup(u.name@) == Some(u));
    lemma_region_untouched(f.data@, g.data@, p, u.data_offset, u.data_len);
    if u.scale_len > 0 {
        lemma_region_untouched(f.data@, g.data@, p, u.scale_offset, u.scale_len);
    }
    if u.outlier_len > 0 {
        lemma_region_untouched(f.data@, g.data@, p, u.outlier_offset, u.outlier_len);
    }
    assert(g.digest_input(u) == f.digest_input(u));
}

/// Editing a byte that a tensor's digest covers changes the bytes the digest is taken of.
proof fn lemma_digest_input_differs(f: PoxFile, g: PoxFile, t: TensorMeta, p: int)
    requires
        g.tensors == f.tensors,
        f.lookup(t.name@) == Some(t),
        crate::container::tensor_within(t, f.data@.len()),
        digest_covers(t, p),
        differ_only_at(f.data@, g.data@, p),
    ensures
        f.digest_input(t) is Some,
        g.digest_input(t) is Some,
        g.digest_input(t) != f.digest_input(t),
{
    let a = f.data@;
    let b = g.data@;
    assert(g.lookup(t.name@) == Some(t));
    let fd = a.subrange(t.data_offset as int, t.data_offset + t.data_len);
    let gd = b.subrange(t.data_offset as int, t.data_offset + t.data_len);
    let fs = if t.scale_len > 0 {
        a.subrange(t.scale_offset as int, t.scale_offset + t.scale_len)
    } else {
        Seq::empty()
    };
    let gs = if t.scale_len > 0 {
        b.subrange(t.scale_offset as int, t.scale_offset + t.scale_len)
    } else {
        Seq::empty()
    };
    let fo = if t.outlier_len > 0 {
        a.subrange(t.outlier_offset as int, t.outlier_offset + t.outlier_len)
    } else {
        Seq::empty()
    };
    let go = if t.outlier_len > 0 {
        b.subrange(t.outlier_offset as int, t.outlier_offset + t.outlier_len)
    } else {
        Seq::empty()
    };
    assert(f.digest_input(t) == Some(fd + fs + fo));
    assert(g.digest_input(t) == Some(gd + gs + go));
    let fin = fd + fs + fo;
    let gin = gd + gs + go;
    if t.data_offset <= p < t.data_offset + t.data_len {
        let k = p - t.data_offset;
        assert(gin[k] == b[p] && fin[k] == a[p]);
    } else if t.scale_len > 0 && t.scale_offset <= p < t.scale_offset + t.scale_len {
        let k = t.data_len + (p - t.scale_offset);
        assert(gin[k] == b[p] && fin[k] == a[p]);
    } else {
        let k = t.data_len + fs.len() + (p - t.outlier_offset);
        assert(gin[k] == b[p] && fin[k] == a[p]);
    }
}

/// Editing one byte of the region the artifact root hash covers, in a container whose
/// root hash checked out, makes the root-hash check fail, barring a SHA-256 collision
/// between the old and new covered bytes.
pub proof fn lemma_tampered_cover_fails(f: PoxFile, g: PoxFile, p: int)
    requires
        g.header == f.header,
        g.manifest == f.manifest,
        g.data@.len() == f.data@.len(),
        root_hash_valid(f),
        128 <= p < covered_end(f.header),
        g.data@[p] != f.data@[p],
        covered_bytes(g) != covered_bytes(f) ==> sha256_of(covered_bytes(g)->0) != sha256_of(
            covered_bytes(f)->0,
        ),
    ensures
        !root_hash_valid(g),
{
    let fb = covered_bytes(f)->0;
    let gb = covered_bytes(g)->0;
    assert(gb[p - 128] != fb[p - 128]);
    assert(gb != fb);
    if root_hash_valid(g) {
        crate::digest::lemma_hex_injective(sha256_of(gb), sha256_of(fb));
    }
}

/// Only one position holds the first failing tensor.
proof fn lemma_first_failure_unique(f: PoxFile, i: int, k: int)
    requires
        first_failure(f, i),
        first_failure(f, k),
    ensures
        i == k,
{
    if i < k {
        assert(f.tensor_verified(f.tensors@[i]));
    }
    if k < i {
        assert(f.tensor_verified(f.tensors@[k]));
    }
}

} // verus!
