//! Model architectures, layer component classification and model hyper-parameters.

use vstd::prelude::*;
use crate::text::{ascii_lower, chars_of, contains_chars, contains_seq, lowercase_of, to_lowercase};
use crate::error::owned;

verus! {

/// Supported decoder-only transformer architectures.
#[derive(Debug, Clone, Copy, PartialEq, Eq, Hash, Structural)]
pub enum ModelArchitecture {
    Llama,
    Qwen,
    Mistral,
    Gemma,
    Phi,
    Custom,
}

/// The architecture named by a lowercase name: the first family whose name occurs in it.
pub open spec fn arch_from_lower(l: Seq<char>) -> ModelArchitecture {
    if contains_seq(l, "llama"@) {
        ModelArchitecture::Llama
    } else if contains_seq(l, "qwen"@) {
        ModelArchitecture::Qwen
    } else if contains_seq(l, "mistral"@) || contains_seq(l, "mixtral"@) {
        ModelArchitecture::Mistral
    } else if contains_seq(l, "gemma"@) {
        ModelArchitecture::Gemma
    } else if contains_seq(l, "phi"@) {
        ModelArchitecture::Phi
    } else {
        ModelArchitecture::Custom
    }
}

impl ModelArchitecture {
    /// Recognizes an architecture from a (case-insensitive) model or class name.
    pub fn from_str_name(name: &str) -> (r: Self)
        ensures
            r == arch_from_lower(lowercase_of(name@)),
            vstd::utf8::is_ascii_chars(name@) ==> r == arch_from_lower(name@.map_values(|c: char| ascii_lower(c))),
    {
        let lower = to_lowercase(name);
        let l = chars_of(lower.as_str());
        if contains_chars(&l, "llama") {
            ModelArchitecture::Llama
        } else if contains_chars(&l, "qwen") {
            ModelArchitecture::Qwen
        } else if contains_chars(&l, "mistral") || contains_chars(&l, "mixtral") {
            ModelArchitecture::Mistral
        } else if contains_chars(&l, "gemma") {
            ModelArchitecture::Gemma
        } else if contains_chars(&l, "phi") {
            ModelArchitecture::Phi
        } else {
            ModelArchitecture::Custom
        }
    }

    /// Display name of the architecture.
    pub open spec fn spec_name(self) -> Seq<char> {
        match self {
            ModelArchitecture::Llama => "Llama"@,
            ModelArchitecture::Qwen => "Qwen"@,
            ModelArchitecture::Mistral => "Mistral"@,
            ModelArchitecture::Gemma => "Gemma"@,
            ModelArchitecture::Phi => "Phi"@,
            ModelArchitecture::Custom => "Custom"@,
        }
    }

    /// Display name of the architecture.
    pub fn name(&self) -> (r: String)
        ensures
            r@ == self.spec_name(),
    {
        match self {
            ModelArchitecture::Llama => owned("Llama"),
            ModelArchitecture::Qwen => owned("Qwen"),
            ModelArchitecture::Mistral => owned("Mistral"),
            ModelArchitecture::Gemma => owned("Gemma"),
            ModelArchitecture::Phi => owned("Phi"),
            ModelArchitecture::Custom => owned("Custom"),
        }
    }
}

/// Structural component of a transformer layer.
#[derive(Debug, Clone, Copy, PartialEq, Eq, Hash, Structural)]
pub enum ComponentType {
    Embedding,
    AttentionQ,
    AttentionK,
    AttentionV,
    AttentionOutput,
    MlpGate,
    MlpUp,
    MlpDown,
    Norm,
    LmHead,
    Other,
}

/// The component named by a lowercase tensor name: the first rule whose marker occurs in it.
pub open spec fn component_from_lower(l: Seq<char>) -> ComponentType {
    if contains_seq(l, "embed_tokens"@) || contains_seq(l, "wte"@) || contains_seq(
        l,
        "tok_embeddings"@,
    ) {
        ComponentType::Embedding
    } else if contains_seq(l, "q_proj"@) || contains_seq(l, "wq"@) {
        ComponentType::AttentionQ
    } else if contains_seq(l, "k_proj"@) || contains_seq(l, "wk"@) {
        ComponentType::AttentionK
    } else if contains_seq(l, "v_proj"@) || contains_seq(l, "wv"@) {
        ComponentType::AttentionV
    } else if contains_seq(l, "o_proj"@) || contains_seq(l, "wo"@) || contains_seq(
        l,
        "out_proj"@,
    ) {
        ComponentType::AttentionOutput
    } else if contains_seq(l, "gate_proj"@) || contains_seq(l, "w1"@) {
        ComponentType::MlpGate
    } else if contains_seq(l, "up_proj"@) || contains_seq(l, "w3"@) {
        ComponentType::MlpUp
    } else if contains_seq(l, "down_proj"@) || contains_seq(l, "w2"@) {
        ComponentType::MlpDown
    } else if contains_seq(l, "norm"@) || contains_seq(l, "ln"@) {
        ComponentType::Norm
    } else if contains_seq(l, "lm_head"@) {
        ComponentType::LmHead
    } else {
        ComponentType::Other
    }
}

impl ComponentType {
    /// Classifies a tensor by markers in its (case-insensitive) name.
    pub fn classify_tensor_name(name: &str) -> (r: Self)
        ensures
            r == component_from_lower(lowercase_of(name@)),
            contains_seq(lowercase_of(name@), "norm"@) && !contains_seq(lowercase_of(name@), "embed_tokens"@)
                && !contains_seq(lowercase_of(name@), "wte"@) && !contains_seq(lowercase_of(name@), "tok_embeddings"@)
                && !contains_seq(lowercase_of(name@), "q_proj"@) && !contains_seq(lowercase_of(name@), "wq"@)
                && !contains_seq(lowercase_of(name@), "k_proj"@) && !contains_seq(lowercase_of(name@), "wk"@)
                && !contains_seq(lowercase_of(name@), "v_proj"@) && !contains_seq(lowercase_of(name@), "wv"@)
                && !contains_seq(lowercase_of(name@), "o_proj"@) && !contains_seq(lowercase_of(name@), "wo"@)
                && !contains_seq(lowercase_of(name@), "out_proj"@) && !contains_seq(lowercase_of(name@), "gate_proj"@)
                && !contains_seq(lowercase_of(name@), "w1"@) && !contains_seq(lowercase_of(name@), "up_proj"@)
                && !contains_seq(lowercase_of(name@), "w3"@) && !contains_seq(lowercase_of(name@), "down_proj"@)
                && !contains_seq(lowercase_of(name@), "w2"@) ==> r == ComponentType::Norm,
            vstd::utf8::is_ascii_chars(name@) ==> r == component_from_lower(name@.map_values(|c: char| ascii_lower(c))),
    {
        let lower = to_lowercase(name);
        let l = chars_of(lower.as_str());
        if contains_chars(&l, "embed_tokens") || contains_chars(&l, "wte") || contains_chars(
            &l,
            "tok_embeddings",
        ) {
            ComponentType::Embedding
        } else if contains_chars(&l, "q_proj") || contains_chars(&l, "wq") {
            ComponentType::AttentionQ
        } else if contains_chars(&l, "k_proj") || contains_chars(&l, "wk") {
            ComponentType::AttentionK
        } else if contains_chars(&l, "v_proj") || contains_chars(&l, "wv") {
            ComponentType::AttentionV
        } else if contains_chars(&l, "o_proj") || contains_chars(&l, "wo") || contains_chars(
            &l,
            "out_proj",
        ) {
            ComponentType::AttentionOutput
        } else if contains_chars(&l, "gate_proj") || contains_chars(&l, "w1") {
            ComponentType::MlpGate
        } else if contains_chars(&l, "up_proj") || contains_chars(&l, "w3") {
            ComponentType::MlpUp
        } else if contains_chars(&l, "down_proj") || contains_chars(&l, "w2") {
            ComponentType::MlpDown
        } else if contains_chars(&l, "norm") || contains_chars(&l, "ln") {
            ComponentType::Norm
        } else if contains_chars(&l, "lm_head") {
            ComponentType::LmHead
        } else {
            ComponentType::Other
        }
    }
}

/// Hyper-parameters of a model. The two floating-point parameters are held as the
/// bit patterns of their IEEE 754 double-precision values.
#[derive(Debug, Clone, PartialEq, Eq)]
pub struct ModelConfig {
    pub architecture: ModelArchitecture,
    pub hidden_size: usize,
    pub intermediate_size: usize,
    pub num_hidden_layers: usize,
    pub num_attention_heads: usize,
    pub num_key_value_heads: usize,
    pub vocab_size: usize,
    pub max_position_embeddings: usize,
    pub rms_norm_eps_bits: u64,
    pub rope_theta_bits: u64,
    pub tie_word_embeddings: bool,
    pub eos_token_id: u32,
    pub bos_token_id: u32,
}

/// Bits of the double 1e-5.
pub const DEFAULT_RMS_NORM_EPS_BITS: u64 = 0x3ee4f8b588e368f1u64;

/// Bits of the double 10000.0.
pub const DEFAULT_ROPE_THETA_BITS: u64 = 0x40c3880000000000u64;

impl Default for ModelConfig {
    /// The TinyLlama-sized defaults.
    fn default() -> (r: Self)
        ensures
            r.architecture == ModelArchitecture::Llama,
            r.hidden_size == 2048,
            r.intermediate_size == 5632,
            r.num_hidden_layers == 22,
            r.num_attention_heads == 32,
            r.num_key_value_heads == 4,
            r.vocab_size == 32000,
            r.max_position_embeddings == 4096,
            r.rms_norm_eps_bits == DEFAULT_RMS_NORM_EPS_BITS,
            r.rope_theta_bits == DEFAULT_ROPE_THETA_BITS,
            !r.tie_word_embeddings,
            r.eos_token_id == 2,
            r.bos_token_id == 1,
    {
        ModelConfig {
            architecture: ModelArchitecture::Llama,
            hidden_size: 2048,
            intermediate_size: 5632,
            num_hidden_layers: 22,
            num_attention_heads: 32,
            num_key_value_heads: 4,
            vocab_size: 32000,
            max_position_embeddings: 4096,
            rms_norm_eps_bits: DEFAULT_RMS_NORM_EPS_BITS,
            rope_theta_bits: DEFAULT_ROPE_THETA_BITS,
            tie_word_embeddings: false,
            eos_token_id: 2,
            bos_token_id: 1,
        }
    }
}

impl ModelConfig {
    /// Dimension of one attention head: hidden size over the head count (at least 1 head),
    /// and at least 1.
    pub open spec fn spec_head_dim(&self) -> int {
        let heads = if self.num_attention_heads >= 1 {
            self.num_attention_heads as int
        } else {
            1
        };
        let d = self.hidden_size as int / heads;
        if d >= 1 {
            d
        } else {
            1
        }
    }

    pub fn head_dim(&self) -> (r: usize)
        ensures
            r == self.spec_head_dim(),
    {
        let heads = if self.num_attention_heads >= 1 {
            self.num_attention_heads
        } else {
            1
        };
        let d = self.hidden_size / heads;
        if d >= 1 {
            d
        } else {
            1
        }
    }

    /// Embedding parameters: vocabulary times hidden size.
    pub open spec fn spec_embed(&self) -> int {
        self.vocab_size * self.hidden_size
    }

    /// Width of the attention projections: query, key and value heads, and the output.
    pub open spec fn spec_attn_width(&self) -> int {
        self.num_attention_heads * self.spec_head_dim() + self.num_key_value_heads
            * self.spec_head_dim() + self.num_key_value_heads * self.spec_head_dim()
            + self.hidden_size
    }

    /// Parameters of one layer: the four attention projections and the three MLP ones.
    pub open spec fn spec_layer_params(&self) -> int {
        self.hidden_size * self.spec_attn_width() + 3 * self.hidden_size * self.intermediate_size
    }

    /// Approximate parameter count: embeddings, all layers (norms left out) and, unless
    /// tied to the embeddings, the LM head.
    pub open spec fn spec_total_parameters(&self) -> int {
        self.spec_embed() + self.spec_layer_params() * self.num_hidden_layers + if self.tie_word_embeddings {
            0
        } else {
            self.spec_embed()
        }
    }

    /// Every intermediate of the parameter count fits its machine type.
    pub open spec fn params_fit(&self) -> bool {
        let hd = self.spec_head_dim();
        &&& self.spec_embed() <= usize::MAX
        &&& self.num_attention_heads * hd <= usize::MAX
        &&& self.num_key_value_heads * hd <= usize::MAX
        &&& self.num_attention_heads * hd + self.num_key_value_heads * hd <= usize::MAX
        &&& self.num_attention_heads * hd + self.num_key_value_heads * hd + self.num_key_value_heads * hd <= usize::MAX
        &&& self.spec_attn_width() <= usize::MAX
        &&& self.hidden_size * self.spec_attn_width() <= usize::MAX
        &&& 3 * self.hidden_size <= usize::MAX
        &&& 3 * self.hidden_size * self.intermediate_size <= usize::MAX
        &&& self.spec_layer_params() <= u64::MAX
        &&& self.spec_layer_params() * self.num_hidden_layers <= u64::MAX
        &&& self.spec_embed() + self.spec_layer_params() * self.num_hidden_layers <= u64::MAX
        &&& self.spec_total_parameters() <= u64::MAX
    }

    pub fn total_parameters_approx(&self) -> (r: u64)
        requires
            self.params_fit(),
        ensures
            r == self.spec_total_parameters(),
    {
        let embed = (self.vocab_size * self.hidden_size) as u64;
        let hd = self.head_dim();
        let q_dim = self.num_attention_heads * hd;
        let k_dim = self.num_key_value_heads * hd;
        let v_dim = self.num_key_value_heads * hd;
        let attn_weights = (self.hidden_size * (q_dim + k_dim + v_dim + self.hidden_size)) as u64;
        let ffn_weights = (3 * self.hidden_size * self.intermediate_size) as u64;
        let layer_weights = (attn_weights + ffn_weights) * (self.num_hidden_layers as u64);
        let lm_head = if self.tie_word_embeddings {
            0
        } else {
            (self.vocab_size * self.hidden_size) as u64
        };
        embed + layer_weights + lm_head
    }
}

/// A needle whose first character does not occur where it could start is not in `hay`.
proof fn lemma_not_contains(hay: Seq<char>, needle: Seq<char>)
    requires
        needle.len() > 0,
        forall|i: int| 0 <= i <= hay.len() - needle.len() ==> #[trigger] hay[i] != needle[0],
    ensures
        !contains_seq(hay, needle),
{
    if contains_seq(hay, needle) {
        let i = choose|i: int|
            0 <= i <= hay.len() - needle.len() && #[trigger] hay.subrange(i, i + needle.len()) == needle;
        assert(hay.subrange(i, i + needle.len())[0] == hay[i]);
    }
}

/// A string occurs in itself.
proof fn lemma_contains_self(s: Seq<char>)
    ensures
        contains_seq(s, s),
{
    let z: int = 0;
    assert(s.subrange(z, z + s.len()) =~= s);
}

/// Every architecture's display name is ASCII, and `from_str_name` of it, in any ASCII
/// letter case, gives the architecture back.
pub proof fn lemma_arch_name_parses(a: ModelArchitecture)
    ensures
        vstd::utf8::is_ascii_chars(a.spec_name()),
        arch_from_lower(a.spec_name().map_values(|c: char| ascii_lower(c))) == a,
{
    match a {
        ModelArchitecture::Llama => lemma_llama_name(),
        ModelArchitecture::Qwen => lemma_qwen_name(),
        ModelArchitecture::Mistral => lemma_mistral_name(),
        ModelArchitecture::Gemma => lemma_gemma_name(),
        ModelArchitecture::Phi => lemma_phi_name(),
        ModelArchitecture::Custom => lemma_custom_name(),
    }
}

/// Whether a name is made of ASCII letters, one character at a time from the end.
spec fn ascii_letters(s: Seq<char>) -> bool
    decreases s.len(),
{
    s.len() == 0 || (('a' <= s.last() <= 'z' || 'A' <= s.last() <= 'Z') && ascii_letters(s.drop_last()))
}

/// A name of ASCII letters is ASCII.
proof fn lemma_ascii_name(n: Seq<char>)
    requires
        ascii_letters(n),
    ensures
        vstd::utf8::is_ascii_chars(n),
    decreases n.len(),
{
    if n.len() > 0 {
        lemma_ascii_name(n.drop_last());
        assert forall|i: int| 0 <= i < n.len() implies '\0' <= #[trigger] n[i] <= '\u{7f}' by {
            if i < n.len() - 1 {
                assert(n[i] == n.drop_last()[i]);
            }
        }
    }
}

proof fn lemma_llama_name()
    ensures
        vstd::utf8::is_ascii_chars("Llama"@),
        arch_from_lower("Llama"@.map_values(|c: char| ascii_lower(c))) == ModelArchitecture::Llama,
{
    reveal_strlit("Llama");
    reveal_strlit("llama");
    let l = "Llama"@.map_values(|c: char| ascii_lower(c));
    reveal_with_fuel(ascii_letters, 6);
    lemma_ascii_name("Llama"@);
    assert(l =~= "llama"@);
    lemma_contains_self(l);
}

proof fn lemma_qwen_name()
    ensures
        vstd::utf8::is_ascii_chars("Qwen"@),
        arch_from_lower("Qwen"@.map_values(|c: char| ascii_lower(c))) == ModelArchitecture::Qwen,
{
    reveal_strlit("Qwen");
    reveal_strlit("qwen");
    reveal_strlit("llama");
    let l = "Qwen"@.map_values(|c: char| ascii_lower(c));
    reveal_with_fuel(ascii_letters, 5);
    lemma_ascii_name("Qwen"@);
    assert(l =~= "qwen"@);
    lemma_contains_self(l);
    assert(!contains_seq(l, "llama"@));
}

proof fn lemma_mistral_name()
    ensures
        vstd::utf8::is_ascii_chars("Mistral"@),
        arch_from_lower("Mistral"@.map_values(|c: char| ascii_lower(c))) == ModelArchitecture::Mistral,
{
    reveal_strlit("Mistral");
    reveal_strlit("mistral");
    reveal_strlit("llama");
    reveal_strlit("qwen");
    let l = "Mistral"@.map_values(|c: char| ascii_lower(c));
    reveal_with_fuel(ascii_letters, 8);
    lemma_ascii_name("Mistral"@);
    assert(l =~= "mistral"@);
    lemma_contains_self(l);
    assert forall|i: int| 0 <= i <= 3 implies #[trigger] l[i] != 'l' && l[i] != 'q' by {
        if i == 0 {
        } else if i == 1 {
        } else if i == 2 {
        } else {
        }
    }
    lemma_not_contains(l, "llama"@);
    lemma_not_contains(l, "qwen"@);
}

proof fn lemma_gemma_name()
    ensures
        vstd::utf8::is_ascii_chars("Gemma"@),
        arch_from_lower("Gemma"@.map_values(|c: char| ascii_lower(c))) == ModelArchitecture::Gemma,
{
    reveal_strlit("Gemma");
    reveal_strlit("gemma");
    reveal_strlit("llama");
    reveal_strlit("qwen");
    reveal_strlit("mistral");
    reveal_strlit("mixtral");
    let l = "Gemma"@.map_values(|c: char| ascii_lower(c));
    reveal_with_fuel(ascii_letters, 6);
    lemma_ascii_name("Gemma"@);
    assert(l =~= "gemma"@);
    lemma_contains_self(l);
    assert forall|i: int| 0 <= i <= 1 implies #[trigger] l[i] != 'l' && l[i] != 'q' by {
        if i == 0 {
        } else {
        }
    }
    lemma_not_contains(l, "llama"@);
    lemma_not_contains(l, "qwen"@);
    assert(!contains_seq(l, "mistral"@));
    assert(!contains_seq(l, "mixtral"@));
}

proof fn lemma_phi_name()
    ensures
        vstd::utf8::is_ascii_chars("Phi"@),
        arch_from_lower("Phi"@.map_values(|c: char| ascii_lower(c))) == ModelArchitecture::Phi,
{
    reveal_strlit("Phi");
    reveal_strlit("phi");
    reveal_strlit("llama");
    reveal_strlit("qwen");
    reveal_strlit("mistral");
    reveal_strlit("mixtral");
    reveal_strlit("gemma");
    let l = "Phi"@.map_values(|c: char| ascii_lower(c));
    reveal_with_fuel(ascii_letters, 4);
    lemma_ascii_name("Phi"@);
    assert(l =~= "phi"@);
    lemma_contains_self(l);
    assert(!contains_seq(l, "llama"@));
    assert(!contains_seq(l, "qwen"@));
    assert(!contains_seq(l, "mistral"@));
    assert(!contains_seq(l, "mixtral"@));
    assert(!contains_seq(l, "gemma"@));
}

proof fn lemma_custom_name()
    ensures
        vstd::utf8::is_ascii_chars("Custom"@),
        arch_from_lower("Custom"@.map_values(|c: char| ascii_lower(c))) == ModelArchitecture::Custom,
{
    reveal_strlit("Custom");
    reveal_strlit("custom");
    reveal_strlit("llama");
    reveal_strlit("qwen");
    reveal_strlit("mistral");
    reveal_strlit("mixtral");
    reveal_strlit("gemma");
    reveal_strlit("phi");
    let l = "Custom"@.map_values(|c: char| ascii_lower(c));
    reveal_with_fuel(ascii_letters, 7);
    lemma_ascii_name("Custom"@);
    assert(l =~= "custom"@);
    assert forall|i: int| 0 <= i <= 3 implies #[trigger] l[i] != 'l' && l[i] != 'q' && l[i] != 'g' && l[i] != 'p' by {
        if i == 0 {
        } else if i == 1 {
        } else if i == 2 {
        } else {
        }
    }
    lemma_not_contains(l, "llama"@);
    lemma_not_contains(l, "qwen"@);
    assert(!contains_seq(l, "mistral"@));
    assert(!contains_seq(l, "mixtral"@));
    lemma_not_contains(l, "gemma"@);
    lemma_not_contains(l, "phi"@);
}

/// Classification by markers, on a lowercase tensor name: a name with an embedding
/// marker is an embedding; failing that, each projection marker names its projection in
/// turn (q, k, v, output, gate, up, down); failing all of those, a name containing
/// "norm" or "ln" is a normalization layer; failing that, "lm_head" marks the LM head;
/// a name with none of the markers is `Other`.
pub proof fn lemma_component_markers(l: Seq<char>)
    ensures
        contains_seq(l, "embed_tokens"@) ==> component_from_lower(l) == ComponentType::Embedding,
        ({
            let earlier = contains_seq(l, "embed_tokens"@) || contains_seq(l, "wte"@) || contains_seq(
                l,
                "tok_embeddings"@,
            );
            &&& !earlier && contains_seq(l, "q_proj"@) ==> component_from_lower(l) == ComponentType::AttentionQ
            &&& !earlier && !contains_seq(l, "q_proj"@) && !contains_seq(l, "wq"@) && contains_seq(l, "k_proj"@)
                ==> component_from_lower(l) == ComponentType::AttentionK
        }),
        ({
            let projections = contains_seq(l, "embed_tokens"@) || contains_seq(l, "wte"@) || contains_seq(
                l,
                "tok_embeddings"@,
            ) || contains_seq(l, "q_proj"@) || contains_seq(l, "wq"@) || contains_seq(l, "k_proj"@)
                || contains_seq(l, "wk"@) || contains_seq(l, "v_proj"@) || contains_seq(l, "wv"@)
                || contains_seq(l, "o_proj"@) || contains_seq(l, "wo"@) || contains_seq(l, "out_proj"@)
                || contains_seq(l, "gate_proj"@) || contains_seq(l, "w1"@) || contains_seq(l, "up_proj"@)
                || contains_seq(l, "w3"@) || contains_seq(l, "down_proj"@) || contains_seq(l, "w2"@);
            let norm = contains_seq(l, "norm"@) || contains_seq(l, "ln"@);
            &&& !projections && contains_seq(l, "norm"@) ==> component_from_lower(l) == ComponentType::Norm
            &&& !projections && contains_seq(l, "ln"@) ==> component_from_lower(l) == ComponentType::Norm
            &&& !projections && !norm && contains_seq(l, "lm_head"@) ==> component_from_lower(l)
                == ComponentType::LmHead
            &&& !projections && !norm && !contains_seq(l, "lm_head"@) ==> component_from_lower(l)
                == ComponentType::Other
            &&& component_from_lower(l) == ComponentType::Norm ==> norm && !projections
        }),
{
}

} // verus!
