use paraoxidizer::arch::ComponentType;
use paraoxidizer::error::PoxError;
use paraoxidizer::planning::{component_label, layer_assignment, recommendation, SensitivityLevel};
use paraoxidizer::recorder::{activation_class, check_poxcal_magic, ActivationClass, CalibrationEngine};
use paraoxidizer::workload::WorkloadProfile;
use sha2::Digest;

fn digest_of(samples: &[&str]) -> String {
    let mut h = sha2::Sha256::new();
    for s in samples {
        h.update(s.as_bytes());
    }
    hex::encode(h.finalize())
}

#[test]
fn engine_from_profile_fingerprints_its_prompts() {
    let e = CalibrationEngine::new_with_profile(WorkloadProfile::Reasoning);
    let prompts = WorkloadProfile::Reasoning.sample_prompts();
    assert_eq!(e.samples(), &prompts[..]);
    assert_eq!(e.samples().len(), 2);
    let refs: Vec<&str> = prompts.iter().map(|s| s.as_str()).collect();
    assert_eq!(e.dataset_sha256(), digest_of(&refs));
    assert_eq!(e.profile(), WorkloadProfile::Reasoning);
}

#[test]
fn engine_from_dataset_lines_trims_and_skips_blank_lines() {
    let lines = vec!["  first line ".to_string(), "".to_string(), "\t".to_string(), "second".to_string()];
    let e = CalibrationEngine::from_dataset_lines(lines, WorkloadProfile::Coding).unwrap();
    assert_eq!(e.samples(), &["first line".to_string(), "second".to_string()]);
    assert_eq!(e.dataset_sha256(), digest_of(&["first line", "second"]));
}

#[test]
fn empty_dataset_is_refused() {
    let r = CalibrationEngine::from_dataset_lines(vec!["   ".to_string()], WorkloadProfile::General);
    assert_eq!(r.err(), Some(PoxError::Calibration("Dataset file is empty".to_string())));
}

#[test]
fn activation_classes() {
    assert_eq!(activation_class("model.layers.0.input_layernorm.weight"), ActivationClass::Norm);
    assert_eq!(activation_class("model.layers.0.self_attn.V_PROJ.weight"), ActivationClass::KeyValueProjection);
    assert_eq!(activation_class("model.layers.0.mlp.down_proj.weight"), ActivationClass::DownProjection);
    assert_eq!(activation_class("lm_head.weight"), ActivationClass::LmHead);
    assert_eq!(activation_class("model.layers.0.self_attn.q_proj.weight"), ActivationClass::Other);
}

#[test]
fn poxcal_magic_check() {
    assert_eq!(check_poxcal_magic("PXCL"), Ok(()));
    assert_eq!(
        check_poxcal_magic("PXCX"),
        Err(PoxError::Calibration("Invalid .poxcal magic".to_string()))
    );
}

#[test]
fn workload_profiles() {
    assert_eq!(WorkloadProfile::from_str_name("Coding-Agent"), WorkloadProfile::Agentic);
    assert_eq!(WorkloadProfile::from_str_name("math"), WorkloadProfile::Reasoning);
    assert_eq!(WorkloadProfile::from_str_name("LONG"), WorkloadProfile::LongContext);
    assert_eq!(WorkloadProfile::from_str_name("dialogue"), WorkloadProfile::Chat);
    assert_eq!(WorkloadProfile::from_str_name("unknown"), WorkloadProfile::General);
    for p in [
        WorkloadProfile::General,
        WorkloadProfile::Coding,
        WorkloadProfile::Reasoning,
        WorkloadProfile::LongContext,
        WorkloadProfile::Chat,
        WorkloadProfile::Agentic,
        WorkloadProfile::Custom,
    ] {
        assert_eq!(WorkloadProfile::from_str_name(&p.name()), p);
        assert!(!p.sample_prompts().is_empty());
    }
    assert_eq!(WorkloadProfile::LongContext.name(), "long-context");
    assert_eq!(WorkloadProfile::Custom.sample_prompts(), vec!["Custom calibration sample text.".to_string()]);
}

#[test]
fn sensitivity_levels_and_recommendations() {
    assert_eq!(SensitivityLevel::Critical.name(), "CRITICAL");
    assert_eq!(SensitivityLevel::Low.name(), "LOW");
    assert!(SensitivityLevel::Low < SensitivityLevel::Critical);
    assert_eq!(recommendation(ComponentType::Norm), ("FP16".to_string(), 0));
    assert_eq!(recommendation(ComponentType::AttentionK), ("INT8".to_string(), 64));
    assert_eq!(recommendation(ComponentType::MlpDown), ("INT4".to_string(), 64));
    assert_eq!(recommendation(ComponentType::MlpUp), ("INT4".to_string(), 128));
    assert_eq!(component_label(ComponentType::AttentionOutput), "AttentionOutput");
    assert_eq!(component_label(ComponentType::LmHead), format!("{:?}", ComponentType::LmHead));
}

#[test]
fn layer_assignments_per_strategy() {
    assert_eq!(layer_assignment("INT4-Compact", SensitivityLevel::Critical), ("INT4".to_string(), 128));
    assert_eq!(layer_assignment("INT8-Fast", SensitivityLevel::Low), ("INT8".to_string(), 0));
    assert_eq!(layer_assignment("FP16-Baseline", SensitivityLevel::Medium), ("FP16".to_string(), 0));
    assert_eq!(layer_assignment("Adaptive-Mixed", SensitivityLevel::Critical), ("FP16".to_string(), 0));
    assert_eq!(layer_assignment("Adaptive-Mixed", SensitivityLevel::High), ("INT8".to_string(), 0));
    assert_eq!(layer_assignment("Selective-INT8", SensitivityLevel::Medium), ("INT4".to_string(), 64));
    assert_eq!(layer_assignment("Selective-INT8", SensitivityLevel::Low), ("INT4".to_string(), 128));
}
