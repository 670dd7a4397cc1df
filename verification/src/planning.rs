//! Sensitivity levels and the precision choices derived from them: the recommendation
//! for each kind of layer and the per-layer assignment of a quantization strategy.

use vstd::prelude::*;
use crate::arch::ComponentType;
use crate::error::owned;

verus! {

/// How sensitive a layer is to quantization.
#[derive(Debug, Clone, Copy, PartialEq, Eq, PartialOrd, Ord, Hash, Structural)]
pub enum SensitivityLevel {
    Low,
    Medium,
    High,
    Critical,
}

impl SensitivityLevel {
    /// Display name of the level.
    pub open spec fn spec_name(self) -> Seq<char> {
        match self {
            SensitivityLevel::Low => "LOW"@,
            SensitivityLevel::Medium => "MEDIUM"@,
            SensitivityLevel::High => "HIGH"@,
            SensitivityLevel::Critical => "CRITICAL"@,
        }
    }

    pub fn name(&self) -> (r: String)
        ensures
            r@ == self.spec_name(),
    {
        match self {
            SensitivityLevel::Low => owned("LOW"),
            SensitivityLevel::Medium => owned("MEDIUM"),
            SensitivityLevel::High => owned("HIGH"),
            SensitivityLevel::Critical => owned("CRITICAL"),
        }
    }
}

/// Name of a layer component, as written in reports.
pub open spec fn component_name(c: ComponentType) -> Seq<char> {
    match c {
        ComponentType::Embedding => "Embedding"@,
        ComponentType::AttentionQ => "AttentionQ"@,
        ComponentType::AttentionK => "AttentionK"@,
        ComponentType::AttentionV => "AttentionV"@,
        ComponentType::AttentionOutput => "AttentionOutput"@,
        ComponentType::MlpGate => "MlpGate"@,
        ComponentType::MlpUp => "MlpUp"@,
        ComponentType::MlpDown => "MlpDown"@,
        ComponentType::Norm => "Norm"@,
        ComponentType::LmHead => "LmHead"@,
        ComponentType::Other => "Other"@,
    }
}

/// Name of a layer component, as written in reports.
pub fn component_label(c: ComponentType) -> (r: String)
    ensures
        r@ == component_name(c),
{
    match c {
        ComponentType::Embedding => owned("Embedding"),
        ComponentType::AttentionQ => owned("AttentionQ"),
        ComponentType::AttentionK => owned("AttentionK"),
        ComponentType::AttentionV => owned("AttentionV"),
        ComponentType::AttentionOutput => owned("AttentionOutput"),
        ComponentType::MlpGate => owned("MlpGate"),
        ComponentType::MlpUp => owned("MlpUp"),
        ComponentType::MlpDown => owned("MlpDown"),
        ComponentType::Norm => owned("Norm"),
        ComponentType::LmHead => owned("LmHead"),
        ComponentType::Other => owned("Other"),
    }
}

/// Recommended precision and group size for each kind of layer.
pub open spec fn recommended(c: ComponentType) -> (Seq<char>, usize) {
    match c {
        ComponentType::Norm => ("FP16"@, 0),
        ComponentType::LmHead => ("INT8"@, 0),
        ComponentType::Embedding => ("INT8"@, 0),
        ComponentType::AttentionK | ComponentType::AttentionV => ("INT8"@, 64),
        ComponentType::MlpDown => ("INT4"@, 64),
        ComponentType::AttentionOutput | ComponentType::MlpGate => ("INT4"@, 128),
        ComponentType::AttentionQ | ComponentType::MlpUp => ("INT4"@, 128),
        ComponentType::Other => ("INT4"@, 128),
    }
}

/// Recommended precision and group size for a kind of layer.
pub fn recommendation(c: ComponentType) -> (r: (String, usize))
    ensures
        r.0@ == recommended(c).0,
        r.1 == recommended(c).1,
        c == ComponentType::Norm || c == ComponentType::LmHead || c == ComponentType::Embedding
            ==> precision_bits(r.0@) >= 8 && r.1 == 0,
        c == ComponentType::LmHead ==> precision_bits(r.0@) == 8,
{
    proof {
        lemma_recommendation_precision(c);
    }
    match c {
        ComponentType::Norm => (owned("FP16"), 0),
        ComponentType::LmHead => (owned("INT8"), 0),
        ComponentType::Embedding => (owned("INT8"), 0),
        ComponentType::AttentionK | ComponentType::AttentionV => (owned("INT8"), 64),
        ComponentType::MlpDown => (owned("INT4"), 64),
        ComponentType::AttentionOutput | ComponentType::MlpGate => (owned("INT4"), 128),
        ComponentType::AttentionQ | ComponentType::MlpUp => (owned("INT4"), 128),
        ComponentType::Other => (owned("INT4"), 128),
    }
}

/// Precision and group size of a layer under a strategy: uniform for the named uniform
/// strategies, and by sensitivity level for the adaptive one (any other name).
pub open spec fn assigned(strategy: Seq<char>, level: SensitivityLevel) -> (Seq<char>, usize) {
    if strategy == "INT4-Compact"@ {
        ("INT4"@, 128)
    } else if strategy == "INT8-Fast"@ {
        ("INT8"@, 0)
    } else if strategy == "FP16-Baseline"@ {
        ("FP16"@, 0)
    } else {
        match level {
            SensitivityLevel::Critical => ("FP16"@, 0),
            SensitivityLevel::High => ("INT8"@, 0),
            SensitivityLevel::Medium => ("INT4"@, 64),
            SensitivityLevel::Low => ("INT4"@, 128),
        }
    }
}

/// Precision and group size of a layer of the given sensitivity under a strategy.
pub fn layer_assignment(strategy: &str, level: SensitivityLevel) -> (r: (String, usize))
    ensures
        r.0@ == assigned(strategy@, level).0,
        r.1 == assigned(strategy@, level).1,
{
    let s = owned(strategy);
    if s == owned("INT4-Compact") {
        (owned("INT4"), 128)
    } else if s == owned("INT8-Fast") {
        (owned("INT8"), 0)
    } else if s == owned("FP16-Baseline") {
        (owned("FP16"), 0)
    } else {
        match level {
            SensitivityLevel::Critical => (owned("FP16"), 0),
            SensitivityLevel::High => (owned("INT8"), 0),
            SensitivityLevel::Medium => (owned("INT4"), 64),
            SensitivityLevel::Low => (owned("INT4"), 128),
        }
    }
}

/// Under the adaptive strategy, a more sensitive layer never gets fewer bits.
pub proof fn lemma_adaptive_monotone(strategy: Seq<char>, a: SensitivityLevel, b: SensitivityLevel)
    requires
        strategy != "INT4-Compact"@,
        strategy != "INT8-Fast"@,
        strategy != "FP16-Baseline"@,
        level_rank(a) <= level_rank(b),
    ensures
        precision_bits(assigned(strategy, a).0) <= precision_bits(assigned(strategy, b).0),
{
    reveal_strlit("INT4");
    reveal_strlit("INT8");
    reveal_strlit("FP16");
    assert("INT4"@[3] != "INT8"@[3]);
    assert("INT4"@[0] != "FP16"@[0]);
    assert("INT8"@[0] != "FP16"@[0]);
}

/// Rank of a level, from low to critical.
pub open spec fn level_rank(l: SensitivityLevel) -> int {
    match l {
        SensitivityLevel::Low => 0,
        SensitivityLevel::Medium => 1,
        SensitivityLevel::High => 2,
        SensitivityLevel::Critical => 3,
    }
}

/// Bits per weight of a precision name (0 for an unknown one).
pub open spec fn precision_bits(p: Seq<char>) -> int {
    if p == "INT4"@ {
        4
    } else if p == "INT8"@ {
        8
    } else if p == "FP16"@ {
        16
    } else {
        0
    }
}

/// The recommendation always names a known precision, and never gives a layer kind the
/// model cannot do without too few bits: normalization layers get the most bits of any
/// kind (16); the LM head and the embedding get 8 bits, ungrouped; the key and value
/// projections at least 8 bits; and every 4-bit recommendation is grouped.
pub proof fn lemma_recommendation_precision(c: ComponentType)
    ensures
        precision_bits(recommended(c).0) > 0,
        precision_bits(recommended(c).0) <= precision_bits(recommended(ComponentType::Norm).0),
        precision_bits(recommended(ComponentType::Norm).0) == 16,
        recommended(ComponentType::Norm).1 == 0,
        c == ComponentType::LmHead || c == ComponentType::Embedding ==> precision_bits(recommended(c).0) == 8
            && recommended(c).1 == 0,
        c == ComponentType::AttentionK || c == ComponentType::AttentionV ==> precision_bits(
            recommended(c).0,
        ) >= 8,
        precision_bits(recommended(c).0) == 4 ==> recommended(c).1 > 0,
{
    reveal_strlit("INT4");
    reveal_strlit("INT8");
    reveal_strlit("FP16");
    assert("INT4"@[3] != "INT8"@[3]);
    assert("INT4"@[0] != "FP16"@[0]);
    assert("INT8"@[0] != "FP16"@[0]);
}

} // verus!
