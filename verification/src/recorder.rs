//! Calibration datasets: the sample texts of a workload profile or of a dataset file,
//! their SHA-256 fingerprint, and the activation class of each layer.

use vstd::prelude::*;
use crate::digest::{hex_encode, hex_lower, lemma_hex_lower_len, sha256, sha256_of};
use crate::error::{owned, PoxError, Result};
use crate::text::{chars_of, contains_chars, contains_seq, lowercase_of, to_lowercase, trim_str, trimmed};
use crate::bytes::append_bytes;
use crate::workload::{profile_prompts, WorkloadProfile};

verus! {

/// The UTF-8 bytes of the texts, one after the other.
pub open spec fn concat_utf8(texts: Seq<Seq<char>>) -> Seq<u8>
    decreases texts.len(),
{
    if texts.len() == 0 {
        Seq::empty()
    } else {
        concat_utf8(texts.drop_last()) + vstd::utf8::encode_utf8(texts.last())
    }
}

/// Hex SHA-256 fingerprint of a dataset: the digest of its samples' bytes in order.
pub open spec fn dataset_digest(samples: Seq<Seq<char>>) -> Seq<char> {
    hex_lower(sha256_of(concat_utf8(samples)))
}

/// The samples of a dataset file: each line trimmed, blank lines left out.
pub open spec fn dataset_samples(lines: Seq<Seq<char>>) -> Seq<Seq<char>>
    decreases lines.len(),
{
    if lines.len() == 0 {
        Seq::empty()
    } else {
        let t = trimmed(lines.last());
        if t.len() == 0 {
            dataset_samples(lines.drop_last())
        } else {
            dataset_samples(lines.drop_last()).push(t)
        }
    }
}

/// The views of a list of strings.
pub open spec fn string_views(v: Seq<String>) -> Seq<Seq<char>> {
    v.map_values(|s: String| s@)
}

/// Engine that holds a calibration dataset and its fingerprint.
pub struct CalibrationEngine {
    profile: WorkloadProfile,
    samples: Vec<String>,
    dataset_sha256: String,
}

/// Fingerprint of a list of samples.
fn fingerprint(samples: &Vec<String>) -> (r: String)
    ensures
        r@ == dataset_digest(string_views(samples@)),
        r@.len() == 64,
{
    let mut bytes: Vec<u8> = Vec::new();
    let mut i: usize = 0;
    while i < samples.len()
        invariant
            0 <= i <= samples@.len(),
            bytes@ == concat_utf8(string_views(samples@.subrange(0, i as int))),
        decreases samples@.len() - i,
    {
        append_bytes(&mut bytes, samples[i].as_str().as_bytes());
        i = i + 1;
        proof {
            let v = string_views(samples@.subrange(0, i as int));
            assert(v.drop_last() =~= string_views(samples@.subrange(0, i - 1)));
        }
    }
    assert(samples@.subrange(0, samples@.len() as int) =~= samples@);
    let digest = sha256(bytes.as_slice());
    proof {
        lemma_hex_lower_len(digest@);
    }
    hex_encode(digest.as_slice())
}

impl CalibrationEngine {
    pub closed spec fn spec_profile(&self) -> WorkloadProfile {
        self.profile
    }

    pub closed spec fn spec_samples(&self) -> Seq<Seq<char>> {
        string_views(self.samples@)
    }

    pub closed spec fn spec_dataset_sha256(&self) -> Seq<char> {
        self.dataset_sha256@
    }

    /// The fingerprint is the one of the samples.
    pub closed spec fn wf(&self) -> bool {
        &&& self.dataset_sha256@ == dataset_digest(string_views(self.samples@))
        &&& self.dataset_sha256@.len() == 64
    }

    /// The built-in sample texts of a profile.
    pub fn new_with_profile(profile: WorkloadProfile) -> (r: Self)
        ensures
            r.wf(),
            r.spec_profile() == profile,
            r.spec_samples() == profile_prompts(profile),
            r.spec_dataset_sha256() == dataset_digest(profile_prompts(profile)),
            r.spec_dataset_sha256().len() == 64,
    {
        let samples = profile.sample_prompts();
        let dataset_sha256 = fingerprint(&samples);
        CalibrationEngine { profile, samples, dataset_sha256 }
    }

    /// The samples of a dataset file given as its lines: each line trimmed, blank lines
    /// left out. A file without samples is refused.
    pub fn from_dataset_lines(lines: Vec<String>, profile: WorkloadProfile) -> (r: Result<Self>)
        ensures
            dataset_samples(string_views(lines@)).len() == 0 ==> (r matches Err(
                PoxError::Calibration(m),
            ) && m@ == "Dataset file is empty"@),
            dataset_samples(string_views(lines@)).len() > 0 ==> (r matches Ok(e) && e.wf()
                && e.spec_profile() == profile && e.spec_samples() == dataset_samples(
                string_views(lines@),
            ) && e.spec_dataset_sha256() == dataset_digest(
                dataset_samples(string_views(lines@)),
            ) && e.spec_dataset_sha256().len() == 64),
    {
        let mut samples: Vec<String> = Vec::new();
        let mut i: usize = 0;
        while i < lines.len()
            invariant
                0 <= i <= lines@.len(),
                string_views(samples@) == dataset_samples(
                    string_views(lines@.subrange(0, i as int)),
                ),
            decreases lines@.len() - i,
        {
            let t = trim_str(lines[i].as_str());
            let ghost before = samples@;
            if !t.is_empty() {
                samples.push(owned(t));
                assert(string_views(samples@) =~= string_views(before).push(t@));
            }
            i = i + 1;
            proof {
                let v = string_views(lines@.subrange(0, i as int));
                assert(v.drop_last() =~= string_views(lines@.subrange(0, i - 1)));
                assert(v.last() == lines@[i - 1]@);
            }
        }
        assert(lines@.subrange(0, lines@.len() as int) =~= lines@);
        if samples.len() == 0 {
            return Err(PoxError::Calibration(owned("Dataset file is empty")));
        }
        let dataset_sha256 = fingerprint(&samples);
        Ok(CalibrationEngine { profile, samples, dataset_sha256 })
    }

    pub fn samples(&self) -> (r: &[String])
        ensures
            string_views(r@) == self.spec_samples(),
    {
        self.samples.as_slice()
    }

    pub fn dataset_sha256(&self) -> (r: &str)
        ensures
            r@ == self.spec_dataset_sha256(),
    {
        self.dataset_sha256.as_str()
    }

    pub fn profile(&self) -> (r: WorkloadProfile)
        ensures
            r == self.spec_profile(),
    {
        self.profile
    }
}

/// How a layer's activations behave during calibration, by the kind of layer.
#[derive(Debug, Clone, Copy, PartialEq, Eq, Structural)]
pub enum ActivationClass {
    Norm,
    KeyValueProjection,
    DownProjection,
    LmHead,
    Other,
}

/// The activation class of a layer name, given in lowercase.
pub open spec fn activation_class_of(l: Seq<char>) -> ActivationClass {
    if contains_seq(l, "norm"@) {
        ActivationClass::Norm
    } else if contains_seq(l, "k_proj"@) || contains_seq(l, "v_proj"@) {
        ActivationClass::KeyValueProjection
    } else if contains_seq(l, "down_proj"@) {
        ActivationClass::DownProjection
    } else if contains_seq(l, "lm_head"@) {
        ActivationClass::LmHead
    } else {
        ActivationClass::Other
    }
}

/// The activation class of a layer, by its (case-insensitive) name.
pub fn activation_class(name: &str) -> (r: ActivationClass)
    ensures
        r == activation_class_of(lowercase_of(name@)),
{
    let lower = to_lowercase(name);
    let l = chars_of(lower.as_str());
    if contains_chars(&l, "norm") {
        ActivationClass::Norm
    } else if contains_chars(&l, "k_proj") || contains_chars(&l, "v_proj") {
        ActivationClass::KeyValueProjection
    } else if contains_chars(&l, "down_proj") {
        ActivationClass::DownProjection
    } else if contains_chars(&l, "lm_head") {
        ActivationClass::LmHead
    } else {
        ActivationClass::Other
    }
}

/// Magic text of a calibration artifact.
pub open spec fn poxcal_magic() -> Seq<char> {
    "PXCL"@
}

/// Accepts the magic text of a calibration artifact and refuses any other.
pub fn check_poxcal_magic(magic: &str) -> (r: Result<()>)
    ensures
        magic@ == poxcal_magic() ==> r is Ok,
        magic@ != poxcal_magic() ==> (r matches Err(PoxError::Calibration(m)) && m@
            == "Invalid .poxcal magic"@),
{
    if owned(magic) == owned("PXCL") {
        Ok(())
    } else {
        Err(PoxError::Calibration(owned("Invalid .poxcal magic")))
    }
}

} // verus!
