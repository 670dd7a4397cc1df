use paraoxidizer::arch::{ComponentType, ModelArchitecture, ModelConfig, DEFAULT_RMS_NORM_EPS_BITS, DEFAULT_ROPE_THETA_BITS};
use paraoxidizer::error::PoxError;
use paraoxidizer::gguf::{GgufReader, GgufValue};
use paraoxidizer::hf::{HfConfigJson, TokenIdValue};
use paraoxidizer::kernels::{pack_i4, unpack_i4};
use paraoxidizer::outlier::{OutlierPolicy, SparseOutlierTable};
use paraoxidizer::tensor::{DType, QuantGroupSize, Shape, TensorMeta};
use paraoxidizer::weights::{safetensors_layout, safetensors_tensors, StElement};

fn gguf_string(out: &mut Vec<u8>, s: &[u8]) {
    out.extend_from_slice(&(s.len() as u64).to_le_bytes());
    out.extend_from_slice(s);
}

fn gguf_file(kv_count: u64) -> Vec<u8> {
    let mut b = b"GGUF".to_vec();
    b.extend_from_slice(&3u32.to_le_bytes());
    b.extend_from_slice(&7u64.to_le_bytes());
    b.extend_from_slice(&kv_count.to_le_bytes());
    b
}

#[test]
fn gguf_reads_header_and_entries() {
    let mut b = gguf_file(5);
    gguf_string(&mut b, b"general.name");
    b.extend_from_slice(&8u32.to_le_bytes());
    gguf_string(&mut b, b"tiny");
    gguf_string(&mut b, b"layers");
    b.extend_from_slice(&4u32.to_le_bytes());
    b.extend_from_slice(&22u32.to_le_bytes());
    gguf_string(&mut b, b"offset");
    b.extend_from_slice(&5u32.to_le_bytes());
    b.extend_from_slice(&(-12i32).to_le_bytes());
    gguf_string(&mut b, b"eps");
    b.extend_from_slice(&6u32.to_le_bytes());
    b.extend_from_slice(&1.5f32.to_bits().to_le_bytes());
    gguf_string(&mut b, b"array");
    b.extend_from_slice(&9u32.to_le_bytes());
    let g = GgufReader::parse(&b).unwrap();
    assert_eq!(g.metadata.version, 3);
    assert_eq!(g.metadata.tensor_count, 7);
    assert_eq!(g.metadata.kv_count, 5);
    assert_eq!(
        g.metadata.kv_pairs,
        vec![
            ("general.name".to_string(), GgufValue::Text("tiny".to_string())),
            ("layers".to_string(), GgufValue::Text("22".to_string())),
            ("offset".to_string(), GgufValue::Text("-12".to_string())),
            ("eps".to_string(), GgufValue::F32Bits(1.5f32.to_bits())),
        ]
    );
}

#[test]
fn gguf_skips_unreadable_values_and_stops_at_end() {
    let mut b = gguf_file(3);
    gguf_string(&mut b, b"bad");
    b.extend_from_slice(&8u32.to_le_bytes());
    gguf_string(&mut b, &[0xff, 0xfe]);
    gguf_string(&mut b, b"ok");
    b.extend_from_slice(&4u32.to_le_bytes());
    b.extend_from_slice(&1u32.to_le_bytes());
    let g = GgufReader::parse(&b).unwrap();
    assert_eq!(g.metadata.kv_pairs, vec![("ok".to_string(), GgufValue::Text("1".to_string()))]);
}

#[test]
fn gguf_errors() {
    assert_eq!(
        GgufReader::parse(b"GGU").err(),
        Some(PoxError::Io("failed to fill whole buffer".to_string()))
    );
    assert_eq!(
        GgufReader::parse(b"GGML0000").err(),
        Some(PoxError::InvalidMagic { expected: *b"GGUF", found: *b"GGML" })
    );
    assert_eq!(
        GgufReader::parse(b"GGUF\x03\x00\x00\x00").err(),
        Some(PoxError::Io("failed to fill whole buffer".to_string()))
    );
    let g = GgufReader::parse(&gguf_file(1000)).unwrap();
    assert!(g.metadata.kv_pairs.is_empty());
}

fn hf_config() -> HfConfigJson {
    HfConfigJson {
        architectures: vec![],
        model_type: None,
        hidden_size: None,
        intermediate_size: None,
        num_hidden_layers: None,
        num_attention_heads: None,
        num_key_value_heads: None,
        vocab_size: None,
        max_position_embeddings: None,
        rms_norm_eps_bits: None,
        rope_theta_bits: None,
        tie_word_embeddings: None,
        eos_token_id: None,
        bos_token_id: None,
    }
}

#[test]
fn hf_config_defaults() {
    let c = hf_config().to_model_config();
    assert_eq!(c.architecture, ModelArchitecture::Llama);
    assert_eq!(c.hidden_size, 2048);
    assert_eq!(c.intermediate_size, 2048 * 8 / 3);
    assert_eq!(c.num_hidden_layers, 22);
    assert_eq!(c.num_attention_heads, 32);
    assert_eq!(c.num_key_value_heads, 32);
    assert_eq!(c.vocab_size, 32000);
    assert_eq!(c.max_position_embeddings, 4096);
    assert_eq!(c.rms_norm_eps_bits, DEFAULT_RMS_NORM_EPS_BITS);
    assert_eq!(f64::from_bits(c.rms_norm_eps_bits), 1e-5);
    assert_eq!(f64::from_bits(c.rope_theta_bits), 10000.0);
    assert_eq!(c.rope_theta_bits, DEFAULT_ROPE_THETA_BITS);
    assert!(!c.tie_word_embeddings);
    assert_eq!((c.eos_token_id, c.bos_token_id), (2, 1));
}

#[test]
fn hf_config_fields_and_token_ids() {
    let mut h = hf_config();
    h.architectures = vec!["Qwen2ForCausalLM".to_string()];
    h.model_type = Some("llama".to_string());
    h.hidden_size = Some(64);
    h.num_attention_heads = Some(4);
    h.num_key_value_heads = Some(2);
    h.eos_token_id = Some(TokenIdValue::Array(Some(151645)));
    h.bos_token_id = Some(TokenIdValue::Array(Some(7)));
    let c = h.to_model_config();
    assert_eq!(c.architecture, ModelArchitecture::Qwen);
    assert_eq!(c.intermediate_size, 170);
    assert_eq!(c.num_key_value_heads, 2);
    assert_eq!(c.eos_token_id, 151645);
    assert_eq!(c.bos_token_id, 1);
    h.architectures = vec![];
    h.model_type = Some("gemma".to_string());
    h.eos_token_id = Some(TokenIdValue::Number(Some((1u64 << 32) + 5)));
    h.bos_token_id = Some(TokenIdValue::Number(None));
    let c = h.to_model_config();
    assert_eq!(c.architecture, ModelArchitecture::Gemma);
    assert_eq!(c.eos_token_id, 5);
    assert_eq!(c.bos_token_id, 1);
    h.eos_token_id = Some(TokenIdValue::Other);
    assert_eq!(h.to_model_config().eos_token_id, 2);
}

#[test]
fn outlier_table_roundtrip_keeps_half_values() {
    let table = SparseOutlierTable {
        indices: vec![50, 120],
        values: vec![half::f16::from_f32(15.0).to_bits(), half::f16::from_f32(-18.0).to_bits()],
    };
    assert_eq!(table.len(), 2);
    let bytes = table.to_bytes();
    let deserialized = SparseOutlierTable::from_bytes(&bytes).unwrap();
    assert_eq!(deserialized.len(), 2);
    assert_eq!(deserialized, table);
    assert_eq!(half::f16::from_bits(deserialized.values[0]).to_f32(), 15.0);
    assert_eq!(half::f16::from_bits(deserialized.values[1]).to_f32(), -18.0);
}

#[test]
fn outlier_table_bytes_and_errors() {
    let table = SparseOutlierTable { indices: vec![1, 0x01020304], values: vec![0xaabb, 7] };
    assert_eq!(
        table.to_bytes(),
        vec![2, 0, 0, 0, 1, 0, 0, 0, 4, 3, 2, 1, 0xbb, 0xaa, 7, 0]
    );
    assert!(SparseOutlierTable::from_bytes(&[1, 2]).unwrap().is_empty());
    assert_eq!(
        SparseOutlierTable::from_bytes(&[1, 0, 0, 0, 1]),
        Err(PoxError::Io("failed to fill whole buffer".to_string()))
    );
    assert!(SparseOutlierTable::new().is_empty());
    assert_eq!(OutlierPolicy::from_str_name("NONE"), OutlierPolicy::Disabled);
    assert_eq!(OutlierPolicy::from_str_name("Conservative"), OutlierPolicy::Conservative);
    assert_eq!(OutlierPolicy::from_str_name("aggressive"), OutlierPolicy::Aggressive);
    assert_eq!(OutlierPolicy::from_str_name("whatever"), OutlierPolicy::Automatic);
}

#[test]
fn nibble_packing() {
    assert_eq!(pack_i4(0x3, 0xA), 0xA3);
    assert_eq!(pack_i4(0x13, 0xFA), 0xA3);
    assert_eq!(unpack_i4(0xA3), (0x3, 0xA));
    for b in 0..=255u8 {
        let (lo, hi) = unpack_i4(b);
        assert_eq!(pack_i4(lo, hi), b);
    }
}

#[test]
fn tensor_descriptors() {
    assert_eq!(DType::F32.bits(), 32);
    assert_eq!(DType::BF16.bits(), 16);
    assert_eq!(DType::I4.bits(), 4);
    assert!(DType::F8E5M2.is_quantized());
    assert!(!DType::F16.is_quantized());
    assert_eq!(QuantGroupSize::G64.as_usize(), Some(64));
    assert_eq!(QuantGroupSize::Ungrouped.as_usize(), None);
    assert_eq!(QuantGroupSize::from_usize(256), Some(QuantGroupSize::G256));
    assert_eq!(QuantGroupSize::from_usize(0), Some(QuantGroupSize::Ungrouped));
    assert_eq!(QuantGroupSize::from_usize(100), None);
    let s = Shape::new(vec![2, 3, 4]);
    assert_eq!(s.numel(), 24);
    assert_eq!(s.rank(), 3);
    assert_eq!(s.dims(), &[2, 3, 4]);
    assert_eq!(Shape::new(vec![]).numel(), 0);
    assert_eq!(Shape::new(vec![2, 3, 4]).to_text(), "[2, 3, 4]");
    assert_eq!(Shape::new(vec![7]).to_text(), "[7]");
    assert_eq!(Shape::new(vec![]).to_text(), "[]");
    let t = TensorMeta {
        name: "x".to_string(),
        shape: s,
        dtype: DType::I4,
        group_size: QuantGroupSize::G32,
        data_offset: 0,
        data_len: 10,
        scale_offset: 0,
        scale_len: 5,
        outlier_offset: 0,
        outlier_len: 1,
        sha256: String::new(),
    };
    assert_eq!(t.total_bytes(), 16);
}

#[test]
fn architecture_and_components() {
    assert_eq!(ModelArchitecture::from_str_name("MistralForCausalLM"), ModelArchitecture::Mistral);
    assert_eq!(ModelArchitecture::from_str_name("Mixtral"), ModelArchitecture::Mistral);
    assert_eq!(ModelArchitecture::from_str_name("Phi3"), ModelArchitecture::Phi);
    assert_eq!(ModelArchitecture::from_str_name("gpt2"), ModelArchitecture::Custom);
    assert_eq!(ComponentType::classify_tensor_name("model.layers.0.self_attn.q_proj.weight"), ComponentType::AttentionQ);
    assert_eq!(ComponentType::classify_tensor_name("model.embed_tokens.weight"), ComponentType::Embedding);
    assert_eq!(ComponentType::classify_tensor_name("lm_head.weight"), ComponentType::LmHead);
    assert_eq!(ComponentType::classify_tensor_name("model.layers.0.mlp.down_proj.weight"), ComponentType::MlpDown);
    let c = ModelConfig::default();
    assert_eq!(c.head_dim(), 64);
    assert_eq!(c.total_parameters_approx(), 1_099_956_224);
    assert_eq!(ModelArchitecture::Qwen.name(), "Qwen");
}

fn safetensors_file(header: &str, data: &[u8]) -> Vec<u8> {
    let mut b = (header.len() as u64).to_le_bytes().to_vec();
    b.extend_from_slice(header.as_bytes());
    b.extend_from_slice(data);
    b
}

#[test]
fn safetensors_layout_reads_tensors() {
    let header = r#"{"w":{"dtype":"F32","shape":[2],"data_offsets":[0,8]},"b":{"dtype":"I8","shape":[2,1],"data_offsets":[8,10]}}"#;
    let data = [0u8, 0, 128, 63, 0, 0, 0, 64, 7, 250];
    let mut ts = safetensors_layout(&safetensors_file(header, &data)).unwrap();
    ts.sort_by(|a, b| a.name.cmp(&b.name));
    assert_eq!(ts.len(), 2);
    assert_eq!(ts[0].name, "b");
    assert_eq!(ts[0].shape.0, vec![2, 1]);
    assert_eq!(ts[0].element, StElement::I8);
    assert_eq!(ts[0].dtype, DType::F32);
    assert_eq!(ts[0].data, vec![7, 250]);
    assert_eq!(ts[1].name, "w");
    assert_eq!(ts[1].element, StElement::F32);
    assert_eq!(ts[1].dtype, DType::F32);
    assert_eq!(ts[1].data, data[..8].to_vec());
}

#[test]
fn safetensors_layout_keeps_half_types() {
    let header = r#"{"h":{"dtype":"BF16","shape":[1],"data_offsets":[0,2]}}"#;
    let ts = safetensors_layout(&safetensors_file(header, &[1, 2])).unwrap();
    assert_eq!(ts.len(), 1);
    assert_eq!(ts[0].element, StElement::BF16);
    assert_eq!(ts[0].dtype, DType::BF16);
}

#[test]
fn safetensors_layout_refuses_unsupported_dtype() {
    let header = r#"{"d":{"dtype":"F64","shape":[1],"data_offsets":[0,8]}}"#;
    let r = safetensors_layout(&safetensors_file(header, &[0; 8]));
    assert_eq!(r.err(), Some(PoxError::Format("Unsupported SafeTensors dtype: F64".to_string())));
}

#[test]
fn safetensors_layout_refuses_bad_file() {
    let r = safetensors_layout(&[1, 2, 3]);
    match r {
        Err(PoxError::Format(m)) => assert!(m.starts_with("Failed to parse SafeTensors: ")),
        _ => panic!("expected a parse error"),
    }
}

#[test]
fn safetensors_tensors_maps_parse_results() {
    let r = safetensors_tensors(Err("bad header".to_string()));
    assert_eq!(r.err(), Some(PoxError::Format("Failed to parse SafeTensors: bad header".to_string())));
    let entries = vec![
        ("a".to_string(), vec![1], "U8".to_string(), vec![5]),
        ("b".to_string(), vec![1], "F8_E4M3".to_string(), vec![6]),
        ("c".to_string(), vec![1], "C64".to_string(), vec![0; 8]),
    ];
    let r = safetensors_tensors(Ok(entries));
    assert_eq!(r.err(), Some(PoxError::Format("Unsupported SafeTensors dtype: F8_E4M3".to_string())));
    let ok = safetensors_tensors(Ok(vec![
        ("x".to_string(), vec![3], "F16".to_string(), vec![0; 6]),
        ("y".to_string(), vec![], "BOOL".to_string(), vec![1]),
    ]))
    .unwrap();
    assert_eq!(ok.len(), 2);
    assert_eq!(ok[0].name, "x");
    assert_eq!(ok[0].dtype, DType::F16);
    assert_eq!(ok[1].element, StElement::Bool);
    assert_eq!(ok[1].dtype, DType::F32);
    assert_eq!(ok[1].shape.0, Vec::<usize>::new());
}

#[test]
fn arch_names_parse_back() {
    for a in [
        ModelArchitecture::Llama,
        ModelArchitecture::Qwen,
        ModelArchitecture::Mistral,
        ModelArchitecture::Gemma,
        ModelArchitecture::Phi,
        ModelArchitecture::Custom,
    ] {
        assert_eq!(ModelArchitecture::from_str_name(&a.name()), a);
        assert_eq!(ModelArchitecture::from_str_name(&a.name().to_uppercase()), a);
    }
}
