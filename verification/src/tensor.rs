//! Numerical data types, quantization group sizes, shapes and tensor descriptors.

use vstd::prelude::*;
use crate::text::{decimal, u64_to_decimal};

verus! {

/// Supported numerical data types.
#[derive(Debug, Clone, Copy, PartialEq, Eq, Hash, Structural)]
pub enum DType {
    /// 32-bit IEEE 754 floating point
    F32,
    /// 16-bit IEEE 754 half-precision floating point
    F16,
    /// 16-bit brain floating point
    BF16,
    /// 8-bit signed integer
    I8,
    /// 4-bit packed integer (two values per byte)
    I4,
    /// 8-bit FP8 E4M3
    F8E4M3,
    /// 8-bit FP8 E5M2
    F8E5M2,
}

impl DType {
    /// Storage width in bits of one element.
    pub open spec fn spec_bits(self) -> nat {
        match self {
            DType::F32 => 32,
            DType::F16 | DType::BF16 => 16,
            DType::I8 | DType::F8E4M3 | DType::F8E5M2 => 8,
            DType::I4 => 4,
        }
    }

    /// Whether the type is one of the quantized (integer or FP8) formats.
    pub open spec fn spec_is_quantized(self) -> bool {
        self is I8 || self is I4 || self is F8E4M3 || self is F8E5M2
    }

    pub fn bits(&self) -> (r: usize)
        ensures
            r == self.spec_bits(),
    {
        match self {
            DType::F32 => 32,
            DType::F16 | DType::BF16 => 16,
            DType::I8 | DType::F8E4M3 | DType::F8E5M2 => 8,
            DType::I4 => 4,
        }
    }

    pub fn is_quantized(&self) -> (r: bool)
        ensures
            r == self.spec_is_quantized(),
    {
        matches!(self, DType::I8 | DType::I4 | DType::F8E4M3 | DType::F8E5M2)
    }
}

/// Group size for group-wise quantization.
#[derive(Debug, Clone, Copy, PartialEq, Eq, Hash, Structural)]
pub enum QuantGroupSize {
    /// Ungrouped (per-tensor) quantization
    Ungrouped,
    G32,
    G64,
    G128,
    G256,
}

impl QuantGroupSize {
    /// The number of elements per group, `None` for ungrouped quantization.
    pub open spec fn spec_as_usize(self) -> Option<usize> {
        match self {
            QuantGroupSize::Ungrouped => Option::None,
            QuantGroupSize::G32 => Some(32),
            QuantGroupSize::G64 => Some(64),
            QuantGroupSize::G128 => Some(128),
            QuantGroupSize::G256 => Some(256),
        }
    }

    /// The group size that a stored number stands for (0 means ungrouped).
    pub open spec fn spec_from_usize(val: usize) -> Option<QuantGroupSize> {
        if val == 0 {
            Some(QuantGroupSize::Ungrouped)
        } else if val == 32 {
            Some(QuantGroupSize::G32)
        } else if val == 64 {
            Some(QuantGroupSize::G64)
        } else if val == 128 {
            Some(QuantGroupSize::G128)
        } else if val == 256 {
            Some(QuantGroupSize::G256)
        } else {
            Option::None
        }
    }

    pub fn as_usize(&self) -> (r: Option<usize>)
        ensures
            r == self.spec_as_usize(),
    {
        match self {
            QuantGroupSize::Ungrouped => None,
            QuantGroupSize::G32 => Some(32),
            QuantGroupSize::G64 => Some(64),
            QuantGroupSize::G128 => Some(128),
            QuantGroupSize::G256 => Some(256),
        }
    }

    pub fn from_usize(val: usize) -> (r: Option<Self>)
        ensures
            r == Self::spec_from_usize(val),
    {
        match val {
            0 => Some(QuantGroupSize::Ungrouped),
            32 => Some(QuantGroupSize::G32),
            64 => Some(QuantGroupSize::G64),
            128 => Some(QuantGroupSize::G128),
            256 => Some(QuantGroupSize::G256),
            _ => None,
        }
    }
}

/// Every group size survives the trip to a stored number and back
/// (an ungrouped size is stored as 0).
pub proof fn lemma_group_size_roundtrip(g: QuantGroupSize)
    ensures
        QuantGroupSize::spec_from_usize(
            match g.spec_as_usize() {
                Some(n) => n,
                Option::None => 0usize,
            },
        ) == Some(g),
{
}

/// A stored group size that is accepted is stored again as the same number.
pub proof fn lemma_group_size_stored_roundtrip(val: usize)
    requires
        QuantGroupSize::spec_from_usize(val) is Some,
    ensures
        match QuantGroupSize::spec_from_usize(val).unwrap().spec_as_usize() {
            Some(n) => n == val,
            Option::None => val == 0,
        },
{
}

/// Product of the first `n` dimensions.
pub open spec fn prefix_product(dims: Seq<usize>, n: int) -> int
    decreases n,
{
    if n <= 0 {
        1
    } else {
        prefix_product(dims, n - 1) * dims[n - 1]
    }
}

/// Number of elements of a shape: the product of its dimensions, and 0 for rank 0.
pub open spec fn shape_numel(dims: Seq<usize>) -> int {
    if dims.len() == 0 {
        0
    } else {
        prefix_product(dims, dims.len() as int)
    }
}

/// Every running product of the dimensions fits in a `usize`.
pub open spec fn products_fit(dims: Seq<usize>) -> bool {
    forall|i: int| 0 <= i <= dims.len() ==> #[trigger] prefix_product(dims, i) <= usize::MAX
}

/// Dimensional shape of a tensor.
#[derive(Debug, Clone, PartialEq, Eq)]
pub struct Shape(pub Vec<usize>);

impl Shape {
    pub fn new(dims: Vec<usize>) -> (r: Self)
        ensures
            r.0@ == dims@,
    {
        Shape(dims)
    }

    pub fn numel(&self) -> (r: usize)
        requires
            products_fit(self.0@),
        ensures
            r == shape_numel(self.0@),
    {
        if self.0.len() == 0 {
            return 0;
        }
        let mut acc: usize = 1;
        let mut i: usize = 0;
        while i < self.0.len()
            invariant
                0 <= i <= self.0.len(),
                products_fit(self.0@),
                acc == prefix_product(self.0@, i as int),
            decreases self.0.len() - i,
        {
            assert(prefix_product(self.0@, (i + 1) as int) <= usize::MAX);
            acc = acc * self.0[i];
            i = i + 1;
        }
        acc
    }

    pub fn rank(&self) -> (r: usize)
        ensures
            r == self.0@.len(),
    {
        self.0.len()
    }

    pub fn dims(&self) -> (r: &[usize])
        ensures
            r@ == self.0@,
    {
        self.0.as_slice()
    }
}

/// Metadata descriptor of a tensor stored in a `.pox` container.
#[derive(Debug, Clone, PartialEq)]
pub struct TensorMeta {
    pub name: String,
    pub shape: Shape,
    pub dtype: DType,
    pub group_size: QuantGroupSize,
    pub data_offset: u64,
    pub data_len: u64,
    pub scale_offset: u64,
    pub scale_len: u64,
    pub outlier_offset: u64,
    pub outlier_len: u64,
    pub sha256: String,
}

impl TensorMeta {
    /// Bytes held by the tensor: its data, its scales and its outliers.
    pub open spec fn spec_total_bytes(&self) -> int {
        self.data_len + self.scale_len + self.outlier_len
    }

    pub fn total_bytes(&self) -> (r: u64)
        requires
            self.spec_total_bytes() <= u64::MAX,
        ensures
            r == self.spec_total_bytes(),
    {
        self.data_len + self.scale_len + self.outlier_len
    }
}

/// The dimensions in decimal, separated by ", ".
pub open spec fn dims_text(dims: Seq<usize>) -> Seq<char>
    decreases dims.len(),
{
    if dims.len() == 0 {
        Seq::empty()
    } else if dims.len() == 1 {
        decimal(dims[0] as nat)
    } else {
        dims_text(dims.drop_last()) + ", "@ + decimal(dims.last() as nat)
    }
}

impl Shape {
    /// Display text of the shape: the dimensions in brackets, e.g. `[2, 3]`.
    pub fn to_text(&self) -> (r: String)
        ensures
            r@ == "["@ + dims_text(self.0@) + "]"@,
    {
        let mut inner = String::new();
        let mut i: usize = 0;
        while i < self.0.len()
            invariant
                0 <= i <= self.0@.len(),
                inner@ == dims_text(self.0@.subrange(0, i as int)),
            decreases self.0@.len() - i,
        {
            if i > 0 {
                inner.append(", ");
            }
            inner.append(u64_to_decimal(self.0[i] as u64).as_str());
            i = i + 1;
            proof {
                let s = self.0@.subrange(0, i as int);
                assert(s.drop_last() =~= self.0@.subrange(0, i - 1));
                if i == 1 {
                    assert(inner@ =~= decimal(s[0] as nat));
                }
            }
        }
        assert(self.0@.subrange(0, self.0@.len() as int) =~= self.0@);
        let mut r = String::new();
        r.append("[");
        r.append(inner.as_str());
        r.append("]");
        r
    }
}

} // verus!
