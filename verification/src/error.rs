//! The library's error type.

use vstd::prelude::*;
use crate::text::{decimal, u64_to_decimal};

verus! {

/// Errors raised by parsing, validation, quantization, verification and the runtime.
///
/// Errors that come from I/O, JSON or TOML carry the text of the underlying error.
#[derive(Debug, Clone, PartialEq, Eq)]
#[allow(inconsistent_fields)]
pub enum PoxError {
    Io(String),
    Json(String),
    Toml(String),
    Format(String),
    InvalidMagic { expected: [u8; 4], found: [u8; 4] },
    UnsupportedVersion(u32),
    Quantization(String),
    Optimizer(String),
    Calibration(String),
    Security(String),
    ResourceLimit(String),
    SignatureVerificationFailed(String),
    IntegrityHashMismatch { tensor: String, expected: String, calculated: String },
    Runtime(String),
    Architecture(String),
    Config(String),
}

pub type Result<T> = core::result::Result<T, PoxError>;

/// An owned copy of a string slice.
pub fn owned(s: &str) -> (r: String)
    ensures
        r@ == s@,
{
    broadcast use vstd::string::group_string_axioms;

    s.to_string()
}

/// Debug text of four bytes: `[b0, b1, b2, b3]` in decimal.
pub open spec fn byte_list(b: Seq<u8>) -> Seq<char> {
    "["@ + decimal(b[0] as nat) + ", "@ + decimal(b[1] as nat) + ", "@ + decimal(b[2] as nat)
        + ", "@ + decimal(b[3] as nat) + "]"@
}

/// The display text of an error.
pub open spec fn error_message(e: PoxError) -> Seq<char> {
    match e {
        PoxError::Io(m) => "I/O error: "@ + m@,
        PoxError::Json(m) => "Serialization/deserialization error: "@ + m@,
        PoxError::Toml(m) => "TOML error: "@ + m@,
        PoxError::Format(m) => "Format error: "@ + m@,
        PoxError::InvalidMagic { expected, found } => "Invalid magic bytes: expected "@
            + byte_list(expected@) + ", found "@ + byte_list(found@),
        PoxError::UnsupportedVersion(v) => "Unsupported version: "@ + decimal(v as nat),
        PoxError::Quantization(m) => "Quantization error: "@ + m@,
        PoxError::Optimizer(m) => "Optimizer error: "@ + m@,
        PoxError::Calibration(m) => "Calibration error: "@ + m@,
        PoxError::Security(m) => "Security violation: "@ + m@,
        PoxError::ResourceLimit(m) => "Resource limit exceeded: "@ + m@,
        PoxError::SignatureVerificationFailed(m) => "Cryptographic signature verification failed: "@
            + m@,
        PoxError::IntegrityHashMismatch { tensor, expected, calculated } =>
            "Integrity hash mismatch for tensor '"@ + tensor@ + "': expected "@ + expected@
            + ", calculated "@ + calculated@,
        PoxError::Runtime(m) => "Runtime error: "@ + m@,
        PoxError::Architecture(m) => "Model architecture mismatch: "@ + m@,
        PoxError::Config(m) => "Config error: "@ + m@,
    }
}

/// `prefix` followed by `rest`.
pub fn concat(prefix: &str, rest: &str) -> (r: String)
    ensures
        r@ == prefix@ + rest@,
{
    let mut r = owned(prefix);
    r.append(rest);
    r
}

fn byte_list_text(b: &[u8; 4]) -> (r: String)
    ensures
        r@ == byte_list(b@),
{
    let mut r = owned("[");
    r.append(u64_to_decimal(b[0] as u64).as_str());
    r.append(", ");
    r.append(u64_to_decimal(b[1] as u64).as_str());
    r.append(", ");
    r.append(u64_to_decimal(b[2] as u64).as_str());
    r.append(", ");
    r.append(u64_to_decimal(b[3] as u64).as_str());
    r.append("]");
    r
}

impl PoxError {
    /// The display text of the error.
    pub fn message(&self) -> (r: String)
        ensures
            r@ == error_message(*self),
    {
        match self {
            PoxError::Io(m) => concat("I/O error: ", m.as_str()),
            PoxError::Json(m) => concat("Serialization/deserialization error: ", m.as_str()),
            PoxError::Toml(m) => concat("TOML error: ", m.as_str()),
            PoxError::Format(m) => concat("Format error: ", m.as_str()),
            PoxError::InvalidMagic { expected, found } => {
                let mut r = owned("Invalid magic bytes: expected ");
                r.append(byte_list_text(expected).as_str());
                r.append(", found ");
                r.append(byte_list_text(found).as_str());
                r
            },
            PoxError::UnsupportedVersion(v) => concat(
                "Unsupported version: ",
                u64_to_decimal(*v as u64).as_str(),
            ),
            PoxError::Quantization(m) => concat("Quantization error: ", m.as_str()),
            PoxError::Optimizer(m) => concat("Optimizer error: ", m.as_str()),
            PoxError::Calibration(m) => concat("Calibration error: ", m.as_str()),
            PoxError::Security(m) => concat("Security violation: ", m.as_str()),
            PoxError::ResourceLimit(m) => concat("Resource limit exceeded: ", m.as_str()),
            PoxError::SignatureVerificationFailed(m) => concat(
                "Cryptographic signature verification failed: ",
                m.as_str(),
            ),
            PoxError::IntegrityHashMismatch { tensor, expected, calculated } => {
                let mut r = owned("Integrity hash mismatch for tensor '");
                r.append(tensor.as_str());
                r.append("': expected ");
                r.append(expected.as_str());
                r.append(", calculated ");
                r.append(calculated.as_str());
                r
            },
            PoxError::Runtime(m) => concat("Runtime error: ", m.as_str()),
            PoxError::Architecture(m) => concat("Model architecture mismatch: ", m.as_str()),
            PoxError::Config(m) => concat("Config error: ", m.as_str()),
        }
    }
}

} // verus!
