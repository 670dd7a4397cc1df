use paraoxidizer::arch::ModelConfig;
use paraoxidizer::container::{PoxMetadata, PoxQuantPlanRecord, PoxSignatureBlock, PoxWriter};
use paraoxidizer::error::PoxError;
use paraoxidizer::reader::PoxFile;
use paraoxidizer::resource::ResourceLimits;
use paraoxidizer::signature::{verify_signature_hex, KeyPair};
use paraoxidizer::tensor::{DType, QuantGroupSize, Shape};
use paraoxidizer::verification::{verify_pox_file, VerificationReport};

// RFC 8032 test vector 1.
const SECRET_1: &str = "9d61b19deffd5a60ba844af492ec2cc44449c5697b326919703bac031cae7f60";
const PUBLIC_1: &str = "d75a980182b10ab7d54bfed3c964073a0ee172f3daa62325af021a68f707511a";
const SIG_EMPTY_1: &str = "e5564300c360ac729086e2cc806e828a84877f1eb8e5d974d873e065224901555fb8821590a33bacc61e39701cf9b46bd25bf5f0595bbe24655141438e7a100b";

#[test]
fn test_cryptographic_supply_chain() {
    let keypair = KeyPair::generate();
    let pub_hex = keypair.public_key_hex();
    let message = b"Model artifact SHA-256 integrity hash payload";

    let signature_hex = keypair.sign_message(message);

    let valid = verify_signature_hex(message, &pub_hex, &signature_hex).unwrap();
    assert!(valid);

    let invalid = verify_signature_hex(b"Tampered payload", &pub_hex, &signature_hex).unwrap();
    assert!(!invalid);
}

#[test]
fn known_key_and_signature_vector() {
    let kp = KeyPair::from_private_hex(SECRET_1).unwrap();
    assert_eq!(kp.public_key_hex(), PUBLIC_1);
    assert_eq!(kp.private_key_hex(), SECRET_1);
    assert_eq!(kp.sign_message(b""), SIG_EMPTY_1);
    assert_eq!(verify_signature_hex(b"", PUBLIC_1, SIG_EMPTY_1), Ok(true));
    assert_eq!(verify_signature_hex(b"", &format!("  {}\n", PUBLIC_1.to_uppercase()), SIG_EMPTY_1), Ok(true));
}

#[test]
fn private_key_hex_roundtrip_and_trim() {
    let kp = KeyPair::from_private_hex(&format!("\t{}  ", SECRET_1)).unwrap();
    assert_eq!(kp.private_key_hex(), SECRET_1);
    let again = KeyPair::from_private_hex(&kp.private_key_hex()).unwrap();
    assert_eq!(again, kp);
}

#[test]
fn private_key_errors() {
    assert_eq!(
        KeyPair::from_private_hex("abcd"),
        Err(PoxError::Security("Private key must be exactly 32 bytes".to_string()))
    );
    assert_eq!(
        KeyPair::from_private_hex("abc"),
        Err(PoxError::Security("Invalid private key hex: Odd number of digits".to_string()))
    );
    assert_eq!(
        KeyPair::from_private_hex("zz"),
        Err(PoxError::Security("Invalid private key hex: Invalid character 'z' at position 0".to_string()))
    );
}

#[test]
fn signature_check_errors() {
    assert_eq!(
        verify_signature_hex(b"m", "00", SIG_EMPTY_1),
        Err(PoxError::Security("Public key must be 32 bytes".to_string()))
    );
    assert_eq!(
        verify_signature_hex(b"m", PUBLIC_1, "00"),
        Err(PoxError::Security("Signature must be 64 bytes".to_string()))
    );
    assert_eq!(
        verify_signature_hex(b"m", PUBLIC_1, "0g"),
        Err(PoxError::Security("Invalid signature hex: Invalid character 'g' at position 1".to_string()))
    );
    assert_eq!(
        verify_signature_hex(b"m", "x", SIG_EMPTY_1),
        Err(PoxError::Security("Invalid public key hex: Odd number of digits".to_string()))
    );
    // The y-coordinate 2 is not on the curve.
    let bad_point = format!("02{}", "00".repeat(31));
    match verify_signature_hex(b"m", &bad_point, SIG_EMPTY_1) {
        Err(PoxError::Security(m)) => assert!(m.starts_with("Invalid verifying key: ")),
        other => panic!("unexpected {:?}", other),
    }
}

fn signed_file(kp: &KeyPair, tamper_sig: bool) -> PoxFile {
    let metadata = PoxMetadata {
        model_config: ModelConfig::default(),
        total_parameters: 1,
        quantized_by: "t".to_string(),
        timestamp_utc: 0,
        original_format: "f".to_string(),
        base_model_name: "b".to_string(),
    };
    let plan = PoxQuantPlanRecord {
        default_precision: "INT8".to_string(),
        group_size: 0,
        outlier_strategy: "disabled".to_string(),
        layer_assignments: vec![],
    };
    let mut w = PoxWriter::new(metadata.clone(), plan.clone(), "r".to_string(), "v".to_string(), "a".to_string());
    w.set_source_hash("source".to_string());
    w.add_tensor("t".to_string(), Shape::new(vec![2]), DType::I8, QuantGroupSize::Ungrouped, &[1, 2], None, None);
    let mut layout = w.begin_layout(b"{}", b"{}");
    layout.add_index(b"[]");
    let tensors = layout.tensors.clone();
    let manifest = layout.manifest.clone();
    let mut sig = kp.sign_message(manifest.artifact_sha256.as_bytes());
    if tamper_sig {
        sig = kp.sign_message(b"something else");
    }
    let bytes = layout.finish(b"{}", None);
    let header = PoxFile::read_header(&bytes).unwrap();
    PoxFile::assemble(
        bytes,
        header,
        metadata,
        tensors,
        plan,
        manifest,
        Some(PoxSignatureBlock { public_key_hex: kp.public_key_hex(), signature_hex: sig }),
    )
}

#[test]
fn verify_signed_container_report() {
    let kp = KeyPair::from_private_hex(SECRET_1).unwrap();
    let f = signed_file(&kp, false);
    let report = verify_pox_file(&f, None).unwrap();
    assert!(report.container_valid);
    assert!(report.tensor_integrity_valid);
    assert!(report.manifest_valid);
    assert_eq!(report.signature_valid, Some(true));
    assert_eq!(report.signer_pubkey.as_deref(), Some(PUBLIC_1));
    assert_eq!(report.source_hash, "source");
    assert_eq!(report.tensor_count, 1);
    assert!(report.is_trusted(true));
    assert_eq!(report.details.len(), 4);
    assert_eq!(report.details[0], "Container header and magic verified");
    assert_eq!(report.details[1], "All 1 tensors verified against cryptographic SHA-256 manifest");
    assert_eq!(report.details[2], format!("Artifact root hash verified: {}", f.manifest.artifact_sha256));
    assert_eq!(report.details[3], format!("Ed25519 signature verified for public key {}", &PUBLIC_1[..16]));
}

#[test]
fn verify_report_with_bad_signature_and_other_key() {
    let kp = KeyPair::from_private_hex(SECRET_1).unwrap();
    let f = signed_file(&kp, true);
    let report = verify_pox_file(&f, None).unwrap();
    assert_eq!(report.signature_valid, Some(false));
    assert_eq!(report.details[3], "Ed25519 signature is INVALID");
    assert!(!report.is_trusted(true));
    assert!(report.is_trusted(false));

    let good = signed_file(&kp, false);
    let report = verify_pox_file(&good, Some("zz")).unwrap();
    assert_eq!(report.signature_valid, Some(false));
    assert_eq!(report.signer_pubkey, None);
    assert_eq!(
        report.details[3],
        "Signature verification error: Security violation: Invalid public key hex: Invalid character 'z' at position 0"
    );
}

#[test]
fn verify_report_of_tampered_unsigned_container() {
    let kp = KeyPair::from_private_hex(SECRET_1).unwrap();
    let mut f = signed_file(&kp, false);
    f.signature = None;
    f.data[f.tensors[0].data_offset as usize] ^= 1;
    let report = verify_pox_file(&f, None).unwrap();
    assert!(!report.tensor_integrity_valid);
    assert_eq!(report.signature_valid, None);
    assert!(report.details[1].starts_with("Tensor integrity verification failed: Integrity hash mismatch for tensor 't': expected "));
    assert!(!report.manifest_valid);
    assert_eq!(report.details[2], "Artifact root hash does not match the container contents");
    assert_eq!(report.details[3], "No digital signature block in artifact");
    assert!(!report.is_trusted(false));
}

#[test]
fn verify_report_of_container_with_edited_metadata() {
    let kp = KeyPair::from_private_hex(SECRET_1).unwrap();
    let mut f = signed_file(&kp, false);
    // The metadata section starts right after the 128-byte header.
    assert_eq!(&f.data[128..130], b"{}");
    f.data[128] = b'[';
    let report = verify_pox_file(&f, None).unwrap();
    assert!(report.container_valid);
    assert!(report.tensor_integrity_valid);
    assert!(!report.manifest_valid);
    assert_eq!(report.details[2], "Artifact root hash does not match the container contents");
    assert_eq!(report.signature_valid, Some(true));
    assert!(!report.is_trusted(false));
    assert!(!report.is_trusted(true));
}

#[test]
fn trusted_requires_signature_only_when_asked() {
    let mut r = VerificationReport {
        container_valid: true,
        tensor_integrity_valid: true,
        manifest_valid: true,
        signature_valid: None,
        signer_pubkey: None,
        source_hash: String::new(),
        tensor_count: 0,
        details: vec![],
    };
    assert!(r.is_trusted(false));
    assert!(!r.is_trusted(true));
    r.signature_valid = Some(true);
    assert!(r.is_trusted(true));
    r.manifest_valid = false;
    assert!(!r.is_trusted(false));
}

#[test]
fn resource_limits_messages() {
    let limits = ResourceLimits::default();
    assert!(limits.validate_file_size(10).is_ok());
    assert!(limits.validate_tensor_count(10).is_ok());
    assert!(limits.validate_tensor_bounds(0, 10, 10).is_ok());
    assert_eq!(
        limits.validate_tensor_bounds(5, 10, 10),
        Err(PoxError::Security("Tensor boundary [5..15] extends past file size 10".to_string()))
    );
    assert_eq!(
        limits.validate_tensor_bounds(u64::MAX, 1, 10),
        Err(PoxError::Security("Arithmetic overflow calculating tensor boundaries".to_string()))
    );
    assert_eq!(
        limits.validate_file_size(100 * 1024 * 1024 * 1024 + 1),
        Err(PoxError::ResourceLimit("File size 107374182401 exceeds maximum quota 107374182400".to_string()))
    );
    assert_eq!(
        limits.validate_tensor_count(100_001),
        Err(PoxError::ResourceLimit("Tensor count 100001 exceeds maximum allowed 100000".to_string()))
    );
}
