//! Host hardware description and the formats and runtimes recommended for it.

use vstd::prelude::*;

verus! {

/// Capabilities of the host machine.
#[derive(Debug, Clone, PartialEq, Eq)]
pub struct HardwareInfo {
    pub os: String,
    pub arch: String,
    pub cpu_brand: String,
    pub physical_cores: usize,
    pub logical_cores: usize,
    pub total_ram_mb: u64,
    pub available_ram_mb: u64,
    pub simd_neon: bool,
    pub simd_avx2: bool,
    pub simd_avx512: bool,
    pub has_apple_silicon_gpu: bool,
    pub has_cuda_gpu: bool,
    pub unified_memory: bool,
}

impl HardwareInfo {
    /// Recommended quantization format: Apple GPU first, then AVX-512, then AVX2.
    pub open spec fn spec_recommended_format(&self) -> Seq<char> {
        if self.has_apple_silicon_gpu {
            "INT4 (group 128) with FP16 sensitive layers (Metal / NEON optimized)"@
        } else if self.simd_avx512 {
            "INT4 (group 64) with AVX-512 VNNI vectorization"@
        } else if self.simd_avx2 {
            "INT4 (group 128) with AVX2 FMA acceleration"@
        } else {
            "INT8 symmetric (portable scalar fallback)"@
        }
    }

    pub fn recommended_format(&self) -> (r: &'static str)
        ensures
            r@ == self.spec_recommended_format(),
    {
        if self.has_apple_silicon_gpu {
            "INT4 (group 128) with FP16 sensitive layers (Metal / NEON optimized)"
        } else if self.simd_avx512 {
            "INT4 (group 64) with AVX-512 VNNI vectorization"
        } else if self.simd_avx2 {
            "INT4 (group 128) with AVX2 FMA acceleration"
        } else {
            "INT8 symmetric (portable scalar fallback)"
        }
    }

    /// Recommended runtime: Apple unified memory first, then CUDA, then x86 SIMD.
    pub open spec fn spec_recommended_runtime_backend(&self) -> Seq<char> {
        if self.has_apple_silicon_gpu {
            "Accelerate / NEON unified-memory CPU runtime"@
        } else if self.has_cuda_gpu {
            "CUDA runtime"@
        } else if self.simd_avx512 || self.simd_avx2 {
            "x86 SIMD CPU runtime"@
        } else {
            "Scalar CPU runtime"@
        }
    }

    pub fn recommended_runtime_backend(&self) -> (r: &'static str)
        ensures
            r@ == self.spec_recommended_runtime_backend(),
    {
        if self.has_apple_silicon_gpu {
            "Accelerate / NEON unified-memory CPU runtime"
        } else if self.has_cuda_gpu {
            "CUDA runtime"
        } else if self.simd_avx512 || self.simd_avx2 {
            "x86 SIMD CPU runtime"
        } else {
            "Scalar CPU runtime"
        }
    }
}

} // verus!
