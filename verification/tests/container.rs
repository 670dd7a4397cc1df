use paraoxidizer::arch::ModelConfig;
use paraoxidizer::container::{PoxManifest, PoxMetadata, PoxQuantPlanRecord, PoxWriter};
use paraoxidizer::error::PoxError;
use paraoxidizer::pox::{PoxHeader, DATA_ALIGNMENT, HEADER_SIZE, POX_MAGIC, POX_VERSION};
use paraoxidizer::reader::{PoxFile, PoxSection};
use paraoxidizer::tensor::{DType, QuantGroupSize, Shape, TensorMeta};
use sha2::Digest;

fn metadata() -> PoxMetadata {
    PoxMetadata {
        model_config: ModelConfig::default(),
        total_parameters: 1000,
        quantized_by: "test".to_string(),
        timestamp_utc: 0,
        original_format: "safetensors".to_string(),
        base_model_name: "tiny".to_string(),
    }
}

fn plan() -> PoxQuantPlanRecord {
    PoxQuantPlanRecord {
        default_precision: "INT4".to_string(),
        group_size: 128,
        outlier_strategy: "automatic".to_string(),
        layer_assignments: vec![("a".to_string(), "INT4".to_string())],
    }
}

fn writer() -> PoxWriter {
    PoxWriter::new(metadata(), plan(), "run-1".to_string(), "0.1.0".to_string(), "x86_64".to_string())
}

struct Built {
    bytes: Vec<u8>,
    tensors: Vec<TensorMeta>,
    manifest: PoxManifest,
}

fn build(mut w: PoxWriter, with_sig: bool) -> Built {
    w.add_tensor(
        "w1".to_string(),
        Shape::new(vec![2, 3]),
        DType::I4,
        QuantGroupSize::G128,
        &[1, 2, 3],
        Some(&[9, 9]),
        None,
    );
    w.add_tensor(
        "w2".to_string(),
        Shape::new(vec![4]),
        DType::I8,
        QuantGroupSize::Ungrouped,
        &[5; 70],
        None,
        Some(&[7, 7, 7]),
    );
    if with_sig {
        w.set_signature("pk".to_string(), "sig".to_string());
    }
    let mut layout = w.begin_layout(b"{\"m\":1}", b"{\"p\":2}");
    layout.add_index(b"[\"index\"]");
    let tensors = layout.tensors.clone();
    let manifest = layout.manifest.clone();
    let sig: Option<&[u8]> = if with_sig { Some(b"{\"s\":3}") } else { None };
    let bytes = layout.finish(b"{\"manifest\":4}", sig);
    Built { bytes, tensors, manifest }
}

fn read_back(b: &Built) -> PoxFile {
    let header = PoxFile::read_header(&b.bytes).unwrap();
    PoxFile::assemble(
        b.bytes.clone(),
        header,
        metadata(),
        b.tensors.clone(),
        plan(),
        b.manifest.clone(),
        None,
    )
}

#[test]
fn written_container_header_reads_back() {
    let b = build(writer(), true);
    let h = PoxHeader::read_from(&b.bytes).unwrap();
    assert_eq!(h.magic, POX_MAGIC);
    assert_eq!(&b.bytes[..4], &[0x50u8, 0x4F, 0x58, 0x00]);
    assert_eq!(h.format_version, POX_VERSION);
    assert_eq!(h.metadata_offset, HEADER_SIZE);
    assert_eq!(h.metadata_len, 7);
    assert_eq!(h.quant_plan_offset, 192);
    assert_eq!(h.data_offset, 256);
    for off in [h.quant_plan_offset, h.data_offset, h.tensor_index_offset, h.manifest_offset, h.signature_offset] {
        assert_eq!(off % DATA_ALIGNMENT as u64, 0);
    }
    let r = PoxFile::section_range(&h, PoxSection::Metadata, b.bytes.len()).unwrap().unwrap();
    assert_eq!(&b.bytes[r.0..r.1], b"{\"m\":1}");
    let r = PoxFile::section_range(&h, PoxSection::QuantPlan, b.bytes.len()).unwrap().unwrap();
    assert_eq!(&b.bytes[r.0..r.1], b"{\"p\":2}");
    let r = PoxFile::section_range(&h, PoxSection::TensorIndex, b.bytes.len()).unwrap().unwrap();
    assert_eq!(&b.bytes[r.0..r.1], b"[\"index\"]");
    let r = PoxFile::section_range(&h, PoxSection::Manifest, b.bytes.len()).unwrap().unwrap();
    assert_eq!(&b.bytes[r.0..r.1], b"{\"manifest\":4}");
    let r = PoxFile::section_range(&h, PoxSection::Signature, b.bytes.len()).unwrap().unwrap();
    assert_eq!(&b.bytes[r.0..r.1], b"{\"s\":3}");
    assert_eq!(r.1, b.bytes.len());
}

#[test]
fn unsigned_container_has_no_signature_section() {
    let b = build(writer(), false);
    let h = PoxHeader::read_from(&b.bytes).unwrap();
    assert_eq!(h.signature_offset, 0);
    assert_eq!(h.signature_len, 0);
    assert_eq!(PoxFile::section_range(&h, PoxSection::Signature, b.bytes.len()).unwrap(), None);
    assert_eq!(b.bytes.len() % 64, 0);
}

#[test]
fn tensor_offsets_are_aligned_and_data_reads_back() {
    let b = build(writer(), false);
    for t in &b.tensors {
        assert_eq!(t.data_offset % 64, 0);
        if t.scale_len > 0 {
            assert_eq!(t.scale_offset % 64, 0);
        }
        if t.outlier_len > 0 {
            assert_eq!(t.outlier_offset % 64, 0);
        }
    }
    assert_eq!(b.tensors[0].data_offset, 256);
    assert_eq!(b.tensors[0].scale_offset, 320);
    assert_eq!(b.tensors[1].data_offset, 384);
    assert_eq!(b.tensors[1].outlier_offset, 512);
    let f = read_back(&b);
    assert_eq!(f.get_tensor_data("w1").unwrap(), &[1, 2, 3]);
    assert_eq!(f.get_scale_data("w1").unwrap(), &[9, 9]);
    assert_eq!(f.get_outlier_data("w1"), None);
    assert_eq!(f.get_tensor_data("w2").unwrap(), &[5u8; 70][..]);
    assert_eq!(f.get_outlier_data("w2").unwrap(), &[7, 7, 7]);
    assert_eq!(f.get_scale_data("w2"), None);
    assert_eq!(f.get_tensor_data("missing"), None);
}

#[test]
fn manifest_records_tensor_and_artifact_digests() {
    let b = build(writer(), false);
    let expected_w1 = hex::encode(sha2::Sha256::digest([1u8, 2, 3, 9, 9]));
    assert_eq!(b.tensors[0].sha256, expected_w1);
    assert_eq!(b.manifest.tensor_hashes[0], ("w1".to_string(), expected_w1));
    let h = PoxHeader::read_from(&b.bytes).unwrap();
    let end = h.manifest_offset as usize;
    let artifact = hex::encode(sha2::Sha256::digest(&b.bytes[128..end]));
    assert_eq!(b.manifest.artifact_sha256, artifact);
    assert_eq!(b.manifest.run_id, "run-1");
    assert_eq!(b.manifest.compiler_version, "0.1.0");
    assert_eq!(b.manifest.target_arch, "x86_64");
}

#[test]
fn fresh_container_passes_integrity_check() {
    let b = build(writer(), false);
    let f = read_back(&b);
    assert_eq!(f.verify_integrity(), Ok(()));
}

#[test]
fn tampered_payload_fails_integrity_check() {
    let mut b = build(writer(), false);
    b.bytes[257] ^= 0xFF;
    let f = read_back(&b);
    match f.verify_integrity() {
        Err(PoxError::IntegrityHashMismatch { tensor, expected, calculated }) => {
            assert_eq!(tensor, "w1");
            assert_eq!(expected, b.tensors[0].sha256);
            assert_eq!(calculated, hex::encode(sha2::Sha256::digest([1u8, 2 ^ 0xFF, 3, 9, 9])));
        }
        other => panic!("unexpected {:?}", other),
    }
}

#[test]
fn tampered_scales_or_outliers_name_their_tensor() {
    // A scale byte of w1 (scales at 320).
    let mut b = build(writer(), false);
    b.bytes[320] ^= 1;
    match read_back(&b).verify_integrity() {
        Err(PoxError::IntegrityHashMismatch { tensor, .. }) => assert_eq!(tensor, "w1"),
        other => panic!("unexpected {:?}", other),
    }
    // An outlier byte of w2 (outliers at 512); w1 still checks out, so w2 is reported.
    let mut b = build(writer(), false);
    b.bytes[513] ^= 1;
    match read_back(&b).verify_integrity() {
        Err(PoxError::IntegrityHashMismatch { tensor, calculated, .. }) => {
            assert_eq!(tensor, "w2");
            let mut hashed = vec![5u8; 70];
            hashed.extend_from_slice(&[7, 6, 7]);
            assert_eq!(calculated, hex::encode(sha2::Sha256::digest(&hashed)));
        }
        other => panic!("unexpected {:?}", other),
    }
}

#[test]
fn missing_tensor_data_is_reported() {
    let b = build(writer(), false);
    let mut tensors = b.tensors.clone();
    tensors[1].data_offset = 1 << 40;
    let header = PoxFile::read_header(&b.bytes).unwrap();
    let f = PoxFile::assemble(b.bytes.clone(), header, metadata(), tensors, plan(), b.manifest.clone(), None);
    assert_eq!(
        f.verify_integrity(),
        Err(PoxError::Format("Missing data for tensor w2".to_string()))
    );
}

#[test]
fn short_file_and_out_of_bounds_sections_are_refused() {
    assert_eq!(
        PoxFile::read_header(&[0u8; 10]),
        Err(PoxError::Format("File size smaller than header".to_string()))
    );
    let b = build(writer(), false);
    let h = PoxHeader::read_from(&b.bytes).unwrap();
    assert_eq!(
        PoxFile::section_range(&h, PoxSection::Manifest, 100),
        Err(PoxError::Security("Manifest out of bounds".to_string()))
    );
    let mut bad = h.clone();
    bad.tensor_index_offset = u64::MAX;
    assert_eq!(
        PoxFile::section_range(&bad, PoxSection::TensorIndex, b.bytes.len()),
        Err(PoxError::Security("Tensor index out of bounds".to_string()))
    );
}

#[test]
fn header_read_errors() {
    let mut bytes = vec![0u8; 128];
    bytes[..4].copy_from_slice(b"POX\x02");
    assert_eq!(
        PoxHeader::read_from(&bytes),
        Err(PoxError::InvalidMagic { expected: *b"POX\0", found: *b"POX\x02" })
    );
    bytes[..4].copy_from_slice(b"POX\0");
    bytes[4] = 9;
    assert_eq!(PoxHeader::read_from(&bytes), Err(PoxError::UnsupportedVersion(9)));
    assert_eq!(
        PoxHeader::read_from(&bytes[..2]),
        Err(PoxError::Io("failed to fill whole buffer".to_string()))
    );
}

#[test]
fn header_write_then_read_roundtrip() {
    let h = PoxHeader {
        magic: POX_MAGIC,
        format_version: POX_VERSION,
        flags: 7,
        metadata_offset: 1,
        metadata_len: 2,
        tensor_index_offset: 3,
        tensor_index_len: 4,
        quant_plan_offset: 5,
        quant_plan_len: 6,
        data_offset: 7,
        data_len: 8,
        manifest_offset: 9,
        manifest_len: 10,
        signature_offset: 11,
        signature_len: u64::MAX,
    };
    let mut out = Vec::new();
    h.write_to(&mut out);
    assert_eq!(out.len(), 128);
    assert_eq!(PoxHeader::read_from(&out), Ok(h));
}

#[test]
fn writer_setters_fill_manifest() {
    let mut w = writer();
    w.set_source_hash("abc".to_string());
    w.set_calibration_hash(Some("def".to_string()));
    assert_eq!(w.manifest.source_model_sha256, "abc");
    assert_eq!(w.manifest.calibration_sha256.as_deref(), Some("def"));
    assert!(w.signature.is_none());
    w.set_signature("k".to_string(), "s".to_string());
    assert_eq!(w.signature.as_ref().unwrap().public_key_hex, "k");
}
