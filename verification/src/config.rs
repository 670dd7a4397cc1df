//! Sections of the declarative pipeline file (`paraoxidizer.toml`) and their defaults.

use vstd::prelude::*;
use crate::error::owned;

verus! {

#[derive(Debug, Clone, PartialEq, Eq)]
pub struct ModelSection {
    pub source: String,
    pub architecture: Option<String>,
    pub output: Option<String>,
}

#[derive(Debug, Clone, PartialEq, Eq)]
pub struct CalibrationSection {
    pub dataset: String,
    pub samples: usize,
    pub sequence_length: usize,
    pub profile: Option<String>,
}

#[derive(Debug, Clone, PartialEq, Eq)]
pub struct QuantizationSection {
    pub algorithm: String,
    pub allowed_precisions: Vec<String>,
    pub group_sizes: Vec<usize>,
    pub outlier_policy: String,
}

#[derive(Debug, Clone, PartialEq, Eq)]
pub struct SecuritySection {
    pub verify_source: bool,
    pub require_signature: bool,
    pub signature_pubkey: Option<String>,
    pub memory_limit: Option<String>,
    pub artifact_integrity: bool,
}

#[derive(Debug, Clone, PartialEq, Eq)]
pub struct RuntimeSection {
    pub backend: String,
    pub context: usize,
    pub batching: usize,
}

/// Calibration samples when the file gives none.
pub fn default_samples() -> (r: usize)
    ensures
        r == 256,
{
    256
}

/// Calibration sequence length when the file gives none.
pub fn default_seq_len() -> (r: usize)
    ensures
        r == 512,
{
    512
}

/// Quantization algorithm when the file gives none.
pub fn default_algorithm() -> (r: String)
    ensures
        r@ == "min-max"@,
{
    owned("min-max")
}

/// Precisions the optimizer may choose when the file lists none.
pub fn default_allowed_precisions() -> (r: Vec<String>)
    ensures
        r@.map_values(|s: String| s@) == seq!["INT4"@, "INT8"@, "FP16"@],
{
    let mut v: Vec<String> = Vec::new();
    v.push(owned("INT4"));
    v.push(owned("INT8"));
    v.push(owned("FP16"));
    assert(v@.map_values(|s: String| s@) =~= seq!["INT4"@, "INT8"@, "FP16"@]);
    v
}

/// Group sizes the optimizer may choose when the file lists none.
pub fn default_group_sizes() -> (r: Vec<usize>)
    ensures
        r@ == seq![32usize, 64, 128, 256],
{
    let mut v: Vec<usize> = Vec::new();
    v.push(32);
    v.push(64);
    v.push(128);
    v.push(256);
    assert(v@ =~= seq![32usize, 64, 128, 256]);
    v
}

/// Outlier policy when the file gives none.
pub fn default_outlier_policy() -> (r: String)
    ensures
        r@ == "automatic"@,
{
    owned("automatic")
}

/// Target hardware when the file gives none.
pub fn default_target_hardware() -> (r: String)
    ensures
        r@ == "auto"@,
{
    owned("auto")
}

/// Default of the security switches that are on unless turned off.
pub fn default_true() -> (r: bool)
    ensures
        r,
{
    true
}

/// Runtime backend when the file gives none.
pub fn default_backend() -> (r: String)
    ensures
        r@ == "auto"@,
{
    owned("auto")
}

/// Context length when the file gives none.
pub fn default_context_length() -> (r: usize)
    ensures
        r == 2048,
{
    2048
}

/// Batch size when the file gives none.
pub fn default_batch_size() -> (r: usize)
    ensures
        r == 1,
{
    1
}

} // verus!
