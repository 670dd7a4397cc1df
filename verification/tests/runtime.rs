use paraoxidizer::config;
use paraoxidizer::hardware::HardwareInfo;
use paraoxidizer::metrics::ServerMetrics;
use paraoxidizer::server::{build_chat_prompt, default_max_tokens, ChatCompletionResponse, ChatMessage};
use paraoxidizer::tokenizer::PoxTokenizer;

#[test]
fn byte_tokenizer_roundtrip() {
    let t = PoxTokenizer::new_byte_fallback();
    assert_eq!(t.bos_id, 1);
    assert_eq!(t.eos_id, 2);
    let ids = t.encode("Hi!");
    assert_eq!(ids, vec![72 + 3, 105 + 3, 33 + 3]);
    assert_eq!(t.decode(&ids), "Hi!");
    assert_eq!(t.decode(&[1, 75, 2]), "H");
    assert_eq!(t.decode(&[1, 75, 108, 2, 0]), "Hi");
}

#[test]
fn byte_tokenizer_falls_back_to_utf8_bytes() {
    let t = PoxTokenizer::new_byte_fallback();
    // Only ASCII characters have tokens of their own; others go as their UTF-8 bytes.
    assert_eq!(t.encode("é"), vec![0xC3 + 3, 0xA9 + 3]);
    assert_eq!(t.encode("€"), vec![0xE2 + 3, 0x82 + 3, 0xAC + 3]);
    assert_eq!(t.decode(&[0xE2 + 3, 0x82 + 3, 0xAC + 3]), "€");
    // A lone byte that is not UTF-8 comes back as the character of that code point.
    assert_eq!(t.decode(&[0xE2 + 3]), "\u{e2}");
}

#[test]
fn byte_tokenizer_reverses_any_text() {
    let t = PoxTokenizer::new_byte_fallback();
    for text in ["", "plain ASCII", "héllo wörld", "€ 100", "日本語 🦀 mixed\ttext", "\u{80}\u{ff}\u{100}"] {
        assert_eq!(t.decode(&t.encode(text)), text);
    }
    // Byte runs split by ASCII tokens are decoded run by run.
    let mut ids = t.encode("é");
    ids.extend(t.encode("a"));
    ids.extend(t.encode("€"));
    assert_eq!(t.decode(&ids), "éa€");
}

#[test]
fn chat_prompt_layout() {
    let msgs = vec![
        ChatMessage { role: "system".to_string(), content: "Be brief.".to_string() },
        ChatMessage { role: "user".to_string(), content: "Hello!".to_string() },
    ];
    assert_eq!(
        build_chat_prompt(&msgs),
        "<|system|>\nBe brief.\n<|user|>\nHello!\n<|assistant|>\n"
    );
    assert_eq!(build_chat_prompt(&[]), "<|assistant|>\n");
    assert_eq!(default_max_tokens(), 128);
    let r = ChatCompletionResponse::completed("m".to_string(), "hi".to_string());
    assert_eq!(r.id, "chatcmpl-pox");
    assert_eq!(r.object, "chat.completion");
    assert_eq!(r.choices.len(), 1);
    assert_eq!(r.choices[0].message.role, "assistant");
    assert_eq!(r.choices[0].message.content, "hi");
    assert_eq!(r.choices[0].finish_reason, "stop");
}

#[test]
fn metrics_count_requests_with_wrapping() {
    let mut m = ServerMetrics::default();
    m.record_request(10, 250);
    m.record_request(5, 50);
    assert_eq!(m.requests_total, 2);
    assert_eq!(m.tokens_generated_total, 15);
    assert_eq!(m.total_latency_ms, 300);
    m.tokens_generated_total = u64::MAX;
    m.record_request(2, 0);
    assert_eq!(m.tokens_generated_total, 1);
}

fn hw() -> HardwareInfo {
    HardwareInfo {
        os: "linux".to_string(),
        arch: "x86_64".to_string(),
        cpu_brand: "cpu".to_string(),
        physical_cores: 4,
        logical_cores: 8,
        total_ram_mb: 16000,
        available_ram_mb: 8000,
        simd_neon: false,
        simd_avx2: true,
        simd_avx512: false,
        has_apple_silicon_gpu: false,
        has_cuda_gpu: false,
        unified_memory: false,
    }
}

#[test]
fn hardware_recommendations() {
    let mut h = hw();
    assert_eq!(h.recommended_format(), "INT4 (group 128) with AVX2 FMA acceleration");
    assert_eq!(h.recommended_runtime_backend(), "x86 SIMD CPU runtime");
    h.simd_avx2 = false;
    assert_eq!(h.recommended_format(), "INT8 symmetric (portable scalar fallback)");
    assert_eq!(h.recommended_runtime_backend(), "Scalar CPU runtime");
    h.has_cuda_gpu = true;
    assert_eq!(h.recommended_runtime_backend(), "CUDA runtime");
    h.has_apple_silicon_gpu = true;
    assert_eq!(h.recommended_runtime_backend(), "Accelerate / NEON unified-memory CPU runtime");
}

#[test]
fn configuration_defaults() {
    assert_eq!(config::default_samples(), 256);
    assert_eq!(config::default_seq_len(), 512);
    assert_eq!(config::default_algorithm(), "min-max");
    assert_eq!(config::default_allowed_precisions(), vec!["INT4", "INT8", "FP16"]);
    assert_eq!(config::default_group_sizes(), vec![32, 64, 128, 256]);
    assert_eq!(config::default_outlier_policy(), "automatic");
    assert_eq!(config::default_target_hardware(), "auto");
    assert!(config::default_true());
    assert_eq!(config::default_backend(), "auto");
    assert_eq!(config::default_context_length(), 2048);
    assert_eq!(config::default_batch_size(), 1);
}

#[test]
fn tokenizer_from_vocab_and_default() {
    let t = PoxTokenizer::from_vocab(vec![
        ("hello".to_string(), 10),
        ("h".to_string(), 11),
        ("dup".to_string(), 11),
    ]);
    assert_eq!(t.encode("h"), vec![11]);
    // Characters missing from the vocabulary fall back to byte tokens.
    assert_eq!(t.encode("a"), vec![97 + 3]);
    assert_eq!(t.decode(&[10, 11]), "hellodup");
    assert_eq!(t.decode(&[100]), "a");
    let d = PoxTokenizer::default();
    assert_eq!(d.encode("A"), vec![68]);
}

#[test]
fn vocab_tokenizer_joins_byte_runs() {
    let t = PoxTokenizer::from_vocab(Vec::new());
    assert_eq!(t.decode(&[198, 172]), "é");
    assert_eq!(t.decode(&t.encode("né")), "né");
    // A lone continuation byte is not UTF-8 and reads as its own character.
    assert_eq!(t.decode(&[172]), "\u{a9}");
}
