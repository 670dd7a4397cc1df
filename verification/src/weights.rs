//! The tensors of a SafeTensors file: the parse by the `safetensors` crate, and the
//! choice of how each tensor's elements are read.

use vstd::prelude::*;
use crate::error::{concat, owned, PoxError};
use crate::tensor::{DType, Shape};

verus! {

/// The tensors that `safetensors::SafeTensors::deserialize` finds in a file, by name:
/// each one's shape, the name of its element type (its `Debug` text) and its data
/// bytes; none where the file does not parse.
pub uninterp spec fn safetensors_entries(bytes: Seq<u8>) -> Option<Map<Seq<char>, (Seq<usize>, Seq<char>, Seq<u8>)>>;

/// A parsed tensor as the parse hands it out: name, shape, element type name, data.
pub type StEntry = (String, Vec<usize>, String, Vec<u8>);

/// The views of parsed tensors.
pub open spec fn st_view(v: Seq<StEntry>) -> Seq<(Seq<char>, Seq<usize>, Seq<char>, Seq<u8>)> {
    v.map_values(|e: StEntry| (e.0@, e.1@, e.2@, e.3@))
}

/// Whether a list of parsed tensors holds exactly the tensors of a map, each once.
pub open spec fn st_matches(
    s: Seq<(Seq<char>, Seq<usize>, Seq<char>, Seq<u8>)>,
    m: Map<Seq<char>, (Seq<usize>, Seq<char>, Seq<u8>)>,
) -> bool {
    &&& forall|i: int|
        0 <= i < s.len() ==> m.contains_key(#[trigger] s[i].0) && m[s[i].0] == (s[i].1, s[i].2, s[i].3)
    &&& forall|k: Seq<char>| #[trigger] m.contains_key(k) ==> exists|i: int| 0 <= i < s.len() && #[trigger] s[i].0 == k
    &&& forall|i: int, j: int|
        0 <= i < s.len() && 0 <= j < s.len() && i != j ==> #[trigger] s[i].0 != #[trigger] s[j].0
}

/// Parses a SafeTensors file (`SafeTensors::deserialize`, then `tensors`), handing out
/// each tensor's name, shape, element type name and data; on failure, the error's text.
/// The order of the tensors follows the crate's hash map and is not stated; the text
/// of an error is not stated either, since the tensor an offset error names can
/// depend on that order.
#[verifier::external_body]
fn safetensors_parse(bytes: &[u8]) -> (r: Result<Vec<StEntry>, String>)
    ensures
        match r {
            Ok(v) => safetensors_entries(bytes@) matches Some(m) && st_matches(st_view(v@), m),
            Err(_) => safetensors_entries(bytes@) is None,
        },
{
    match safetensors::SafeTensors::deserialize(bytes) {
        Ok(st) => Ok(
            st.tensors().into_iter().map(
                |(n, t)| (n, t.shape().to_vec(), format!("{:?}", t.dtype()), t.data().to_vec()),
            ).collect(),
        ),
        Err(e) => Err(e.to_string()),
    }
}

/// How the elements of a stored tensor are encoded.
#[derive(Debug, Clone, Copy, PartialEq, Eq, Structural)]
pub enum StElement {
    F32,
    F16,
    BF16,
    U8,
    I8,
    I32,
    I64,
    Bool,
}

/// The element encoding named by a SafeTensors type name, where the toolkit reads it:
/// the floating-point types as they are, the integer and boolean types to be widened.
pub open spec fn st_element(name: Seq<char>) -> Option<StElement> {
    if name == "F32"@ {
        Some(StElement::F32)
    } else if name == "F16"@ {
        Some(StElement::F16)
    } else if name == "BF16"@ {
        Some(StElement::BF16)
    } else if name == "U8"@ {
        Some(StElement::U8)
    } else if name == "I8"@ {
        Some(StElement::I8)
    } else if name == "I32"@ {
        Some(StElement::I32)
    } else if name == "I64"@ {
        Some(StElement::I64)
    } else if name == "BOOL"@ {
        Some(StElement::Bool)
    } else {
        None
    }
}

/// The data type a tensor of that encoding is loaded as: F32, F16 and BF16 keep their
/// type; integers and booleans become F32.
pub open spec fn element_dtype(e: StElement) -> DType {
    match e {
        StElement::F16 => DType::F16,
        StElement::BF16 => DType::BF16,
        _ => DType::F32,
    }
}

/// A tensor of a SafeTensors file, ready to be widened to floats.
pub struct StTensor {
    pub name: String,
    pub shape: Shape,
    pub element: StElement,
    pub dtype: DType,
    pub data: Vec<u8>,
}

/// Whether a loaded tensor is the parsed one: same name, shape and data, with the
/// encoding its type name gives.
pub open spec fn loaded_from(t: StTensor, e: (Seq<char>, Seq<usize>, Seq<char>, Seq<u8>)) -> bool {
    &&& t.name@ == e.0
    &&& t.shape.0@ == e.1
    &&& st_element(e.2) == Some(t.element)
    &&& t.dtype == element_dtype(t.element)
    &&& t.data@ == e.3
}

/// Whether loaded tensors are exactly the tensors of a map, each once.
pub open spec fn loaded_from_map(out: Seq<StTensor>, map: Map<Seq<char>, (Seq<usize>, Seq<char>, Seq<u8>)>) -> bool {
    &&& forall|i: int|
        0 <= i < out.len() ==> map.contains_key((#[trigger] out[i]).name@) && loaded_from(
            out[i],
            (out[i].name@, map[out[i].name@].0, map[out[i].name@].1, map[out[i].name@].2),
        )
    &&& forall|k: Seq<char>| #[trigger] map.contains_key(k) ==> exists|i: int| 0 <= i < out.len() && #[trigger] out[i].name@ == k
    &&& forall|i: int, j: int|
        0 <= i < out.len() && 0 <= j < out.len() && i != j ==> (#[trigger] out[i]).name@ != (#[trigger] out[j]).name@
}

/// An entry whose element type is not read has a first such entry at or before it.
proof fn lemma_first_unsupported_exists(s: Seq<(Seq<char>, Seq<usize>, Seq<char>, Seq<u8>)>, i: int)
    requires
        0 <= i < s.len(),
        st_element(s[i].2) is None,
    ensures
        exists|j: int| first_unsupported(s, j),
    decreases i,
{
    if forall|j: int| 0 <= j < i ==> st_element(#[trigger] s[j].2) is Some {
        assert(first_unsupported(s, i));
    } else {
        let j = choose|j: int| 0 <= j < i && !(st_element(#[trigger] s[j].2) is Some);
        lemma_first_unsupported_exists(s, j);
    }
}

/// Whether entry `i` is the first whose element type is not read.
pub open spec fn first_unsupported(s: Seq<(Seq<char>, Seq<usize>, Seq<char>, Seq<u8>)>, i: int) -> bool {
    &&& 0 <= i < s.len()
    &&& st_element(s[i].2) is None
    &&& forall|j: int| 0 <= j < i ==> st_element(#[trigger] s[j].2) is Some
}

fn element_of(name: &String) -> (r: Option<StElement>)
    ensures
        r == st_element(name@),
{
    if *name == owned("F32") {
        Some(StElement::F32)
    } else if *name == owned("F16") {
        Some(StElement::F16)
    } else if *name == owned("BF16") {
        Some(StElement::BF16)
    } else if *name == owned("U8") {
        Some(StElement::U8)
    } else if *name == owned("I8") {
        Some(StElement::I8)
    } else if *name == owned("I32") {
        Some(StElement::I32)
    } else if *name == owned("I64") {
        Some(StElement::I64)
    } else if *name == owned("BOOL") {
        Some(StElement::Bool)
    } else {
        None
    }
}

fn dtype_of(e: StElement) -> (r: DType)
    ensures
        r == element_dtype(e),
{
    match e {
        StElement::F16 => DType::F16,
        StElement::BF16 => DType::BF16,
        _ => DType::F32,
    }
}

/// The tensors of a parse result: a failed parse is reported with its text; else the
/// first tensor whose element type is not read is reported by that type's name; else
/// every tensor, in the order given, with its encoding and data type.
pub fn safetensors_tensors(parsed: Result<Vec<StEntry>, String>) -> (r: Result<Vec<StTensor>, PoxError>)
    ensures
        match parsed {
            Err(m) => r matches Err(PoxError::Format(t)) && t@ == "Failed to parse SafeTensors: "@ + m@,
            Ok(v) => {
                &&& (forall|i: int| 0 <= i < v@.len() ==> st_element(#[trigger] v@[i].2@) is Some) ==> (r matches Ok(out)
                    && out@.len() == v@.len() && forall|i: int| 0 <= i < v@.len() ==> loaded_from(#[trigger] out@[i], st_view(v@)[i]))
                &&& forall|i: int| #[trigger] first_unsupported(st_view(v@), i) ==> (r matches Err(PoxError::Format(t))
                    && t@ == "Unsupported SafeTensors dtype: "@ + v@[i].2@)
            },
        },
{
    match parsed {
        Err(m) => Err(PoxError::Format(concat("Failed to parse SafeTensors: ", m.as_str()))),
        Ok(v) => tensors_of(v),
    }
}

/// The tensors of a successful parse (see `safetensors_tensors`).
fn tensors_of(v: Vec<StEntry>) -> (r: Result<Vec<StTensor>, PoxError>)
    ensures
        (forall|i: int| 0 <= i < v@.len() ==> st_element(#[trigger] v@[i].2@) is Some) ==> (r matches Ok(out)
            && out@.len() == v@.len() && forall|i: int| 0 <= i < v@.len() ==> loaded_from(#[trigger] out@[i], st_view(v@)[i])),
        forall|i: int| #[trigger] first_unsupported(st_view(v@), i) ==> (r matches Err(PoxError::Format(t))
            && t@ == "Unsupported SafeTensors dtype: "@ + v@[i].2@),
{
    let ghost s = st_view(v@);
    let mut i: usize = 0;
    while i < v.len()
        invariant
            0 <= i <= v@.len(),
            s == st_view(v@),
            forall|j: int| 0 <= j < i ==> st_element(#[trigger] v@[j].2@) is Some,
        decreases v@.len() - i,
    {
        if element_of(&v[i].2).is_none() {
            proof {
                assert(first_unsupported(s, i as int));
                assert forall|k: int| #[trigger] first_unsupported(s, k) implies k == i by {
                    if k < i {
                        assert(st_element(v@[k].2@) is Some);
                    }
                    if i < k {
                        assert(st_element(s[i as int].2) is Some);
                    }
                }
            }
            return Err(PoxError::Format(concat("Unsupported SafeTensors dtype: ", v[i].2.as_str())));
        }
        i = i + 1;
    }
    let ghost vs = v@;
    let mut out: Vec<StTensor> = Vec::new();
    for e in it: v.into_iter()
        invariant
            it.seq() == vs,
            forall|j: int| 0 <= j < vs.len() ==> st_element(#[trigger] vs[j].2@) is Some,
            out@.len() == it.index(),
            forall|j: int| 0 <= j < out@.len() ==> loaded_from(#[trigger] out@[j], st_view(vs)[j]),
    {
        let (name, shape, ty, data) = e;
        let element = match element_of(&ty) {
            Some(el) => el,
            None => {
                return Err(PoxError::Format(concat("Unsupported SafeTensors dtype: ", ty.as_str())));
            },
        };
        out.push(StTensor { name, shape: Shape::new(shape), element, dtype: dtype_of(element), data });
    }
    proof {
        assert forall|k: int| !first_unsupported(st_view(vs), k) by {}
    }
    Ok(out)
}

/// The tensors of a SafeTensors file's bytes, by the crate's parse: a file that does not
/// parse is refused with a parse error; one holding a tensor of an element type the
/// toolkit does not read is refused naming such a type; otherwise every tensor comes
/// out once, with its name, shape and data, its encoding and the data type it loads as.
pub fn safetensors_layout(bytes: &[u8]) -> (r: Result<Vec<StTensor>, PoxError>)
    ensures
        match safetensors_entries(bytes@) {
            None => r matches Err(PoxError::Format(t)) && exists|m: Seq<char>| t@ == "Failed to parse SafeTensors: "@ + m,
            Some(map) => {
                &&& (exists|k: Seq<char>| #[trigger] map.contains_key(k) && st_element(map[k].1) is None) ==> (r matches Err(PoxError::Format(t))
                    && exists|k: Seq<char>| #[trigger] map.contains_key(k) && st_element(map[k].1) is None
                    && t@ == "Unsupported SafeTensors dtype: "@ + map[k].1)
                &&& (forall|k: Seq<char>| #[trigger] map.contains_key(k) ==> st_element(map[k].1) is Some) ==> (r matches Ok(out)
                    && loaded_from_map(out@, map))
            },
        },
{
    let parsed = safetensors_parse(bytes);
    let ghost p = parsed;
    let r = safetensors_tensors(parsed);
    proof {
        if let Ok(v) = p {
            let s = st_view(v@);
            let map = safetensors_entries(bytes@)->0;
            if exists|k: Seq<char>| #[trigger] map.contains_key(k) && st_element(map[k].1) is None {
                let k = choose|k: Seq<char>| #[trigger] map.contains_key(k) && st_element(map[k].1) is None;
                let i = choose|i: int| 0 <= i < s.len() && #[trigger] s[i].0 == k;
                assert(map[s[i].0] == (s[i].1, s[i].2, s[i].3));
                lemma_first_unsupported_exists(s, i);
                let j = choose|j: int| first_unsupported(s, j);
                assert(map.contains_key(s[j].0) && map[s[j].0].1 == s[j].2);
            }
            if forall|k: Seq<char>| #[trigger] map.contains_key(k) ==> st_element(map[k].1) is Some {
                assert forall|i: int| 0 <= i < v@.len() implies st_element(#[trigger] v@[i].2@) is Some by {
                    assert(map.contains_key(s[i].0));
                }
                let out = r->Ok_0;
                assert forall|i: int| 0 <= i < out@.len() implies #[trigger] out@[i].name@ == s[i].0 by {
                    assert(loaded_from(out@[i], s[i]));
                }
                assert forall|k: Seq<char>| #[trigger] map.contains_key(k) implies exists|i: int|
                    0 <= i < out@.len() && #[trigger] out@[i].name@ == k by {
                    let i = choose|i: int| 0 <= i < s.len() && #[trigger] s[i].0 == k;
                    assert(out@[i].name@ == k);
                }
            }
        }
    }
    r
}

} // verus!
