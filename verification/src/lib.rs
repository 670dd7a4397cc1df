//! ParaOxidizer: the verified core of an LLM quantization and packaging toolkit.
//!
//! The library holds the `.pox` container layout, the tensor descriptors, the
//! byte-level codecs, the paged KV-cache allocator, the byte-level tokenizer and
//! the decision logic of calibration, verification and serving.

pub mod tensor;
pub mod bytes;
pub mod error;
pub mod pox;
pub mod outlier;
pub mod kernels;
pub mod paged_cache;
pub mod text;
pub mod arch;
pub mod tokenizer;
pub mod workload;
pub mod resource;
pub mod hardware;
pub mod config;
pub mod metrics;
pub mod server;
pub mod digest;
pub mod signature;
pub mod container;
pub mod reader;
pub mod verification;
pub mod hf;
pub mod gguf;
pub mod recorder;
pub mod planning;
pub mod weights;
