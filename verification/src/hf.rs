//! The Hugging Face `config.json` schema and the model configuration it describes.

use vstd::prelude::*;
use crate::arch::{arch_from_lower, ModelArchitecture, ModelConfig, DEFAULT_RMS_NORM_EPS_BITS, DEFAULT_ROPE_THETA_BITS};
use crate::text::{ascii_lower, lowercase_of};

verus! {

/// What a token id field of `config.json` holds: a number (with its value where it is a
/// non-negative integer), an array (with the value of its first element where that is a
/// non-negative integer), or anything else.
#[derive(Debug, Clone, Copy, PartialEq, Eq, Structural)]
pub enum TokenIdValue {
    Number(Option<u64>),
    Array(Option<u64>),
    Other,
}

/// The fields of a Hugging Face `config.json` that the toolkit reads. The two
/// floating-point fields are held as the bit patterns of their double values.
#[derive(Debug, Clone)]
pub struct HfConfigJson {
    pub architectures: Vec<String>,
    pub model_type: Option<String>,
    pub hidden_size: Option<usize>,
    pub intermediate_size: Option<usize>,
    pub num_hidden_layers: Option<usize>,
    pub num_attention_heads: Option<usize>,
    pub num_key_value_heads: Option<usize>,
    pub vocab_size: Option<usize>,
    pub max_position_embeddings: Option<usize>,
    pub rms_norm_eps_bits: Option<u64>,
    pub rope_theta_bits: Option<u64>,
    pub tie_word_embeddings: Option<bool>,
    pub eos_token_id: Option<TokenIdValue>,
    pub bos_token_id: Option<TokenIdValue>,
}

/// `o`'s value, or `d` where there is none.
pub open spec fn or_default<T>(o: Option<T>, d: T) -> T {
    match o {
        Some(v) => v,
        None => d,
    }
}

/// The end-of-sequence token id: a number's value, or an array's first value, truncated
/// to 32 bits; 2 otherwise.
pub open spec fn eos_id(v: Option<TokenIdValue>) -> u32 {
    match v {
        Some(TokenIdValue::Number(n)) => or_default(n, 2u64) as u32,
        Some(TokenIdValue::Array(first)) => or_default(first, 2u64) as u32,
        _ => 2,
    }
}

/// The beginning-of-sequence token id: a number's value truncated to 32 bits; 1 otherwise.
pub open spec fn bos_id(v: Option<TokenIdValue>) -> u32 {
    match v {
        Some(TokenIdValue::Number(n)) => or_default(n, 1u64) as u32,
        _ => 1,
    }
}

impl HfConfigJson {
    /// The architecture name: the first listed architecture, else the model type, else
    /// "Llama".
    pub open spec fn arch_name(&self) -> Seq<char> {
        if self.architectures@.len() > 0 {
            self.architectures@[0]@
        } else {
            match self.model_type {
                Some(t) => t@,
                None => "Llama"@,
            }
        }
    }

    /// Whether the default intermediate size, `hidden_size * 8 / 3`, can be computed.
    pub open spec fn sizes_fit(&self) -> bool {
        self.intermediate_size is None ==> or_default(self.hidden_size, 2048usize) * 8 <= usize::MAX
    }

    /// The model configuration that `config.json` describes, with the defaults of a
    /// small Llama model for missing fields.
    pub fn to_model_config(&self) -> (r: ModelConfig)
        requires
            self.sizes_fit(),
        ensures
            r.architecture == arch_from_lower(lowercase_of(self.arch_name())),
            vstd::utf8::is_ascii_chars(self.arch_name()) ==> r.architecture == arch_from_lower(
                self.arch_name().map_values(|c: char| ascii_lower(c)),
            ),
            r.hidden_size == or_default(self.hidden_size, 2048usize),
            r.num_attention_heads == or_default(self.num_attention_heads, 32usize),
            r.num_key_value_heads == or_default(self.num_key_value_heads, r.num_attention_heads),
            r.intermediate_size == match self.intermediate_size {
                Some(v) => v as int,
                None => r.hidden_size * 8 / 3,
            },
            r.num_hidden_layers == or_default(self.num_hidden_layers, 22usize),
            r.vocab_size == or_default(self.vocab_size, 32000usize),
            r.max_position_embeddings == or_default(self.max_position_embeddings, 4096usize),
            r.rms_norm_eps_bits == or_default(self.rms_norm_eps_bits, DEFAULT_RMS_NORM_EPS_BITS),
            r.rope_theta_bits == or_default(self.rope_theta_bits, DEFAULT_ROPE_THETA_BITS),
            r.tie_word_embeddings == or_default(self.tie_word_embeddings, false),
            r.eos_token_id == eos_id(self.eos_token_id),
            r.bos_token_id == bos_id(self.bos_token_id),
            self.bos_token_id matches Some(TokenIdValue::Number(Some(n))) ==> r.bos_token_id == n as u32,
            self.eos_token_id matches Some(TokenIdValue::Number(Some(n))) ==> r.eos_token_id == n as u32,
            self.eos_token_id matches Some(TokenIdValue::Array(Some(n))) ==> r.eos_token_id == n as u32,
    {
        let architecture = if self.architectures.len() > 0 {
            ModelArchitecture::from_str_name(self.architectures[0].as_str())
        } else {
            match &self.model_type {
                Some(t) => ModelArchitecture::from_str_name(t.as_str()),
                None => ModelArchitecture::from_str_name("Llama"),
            }
        };
        let hidden_size = match self.hidden_size {
            Some(v) => v,
            None => 2048,
        };
        let num_attention_heads = match self.num_attention_heads {
            Some(v) => v,
            None => 32,
        };
        let num_key_value_heads = match self.num_key_value_heads {
            Some(v) => v,
            None => num_attention_heads,
        };
        let intermediate_size = match self.intermediate_size {
            Some(v) => v,
            None => (hidden_size * 8) / 3,
        };
        let num_hidden_layers = match self.num_hidden_layers {
            Some(v) => v,
            None => 22,
        };
        let vocab_size = match self.vocab_size {
            Some(v) => v,
            None => 32000,
        };
        let max_position_embeddings = match self.max_position_embeddings {
            Some(v) => v,
            None => 4096,
        };
        let rms_norm_eps_bits = match self.rms_norm_eps_bits {
            Some(v) => v,
            None => DEFAULT_RMS_NORM_EPS_BITS,
        };
        let rope_theta_bits = match self.rope_theta_bits {
            Some(v) => v,
            None => DEFAULT_ROPE_THETA_BITS,
        };
        let tie_word_embeddings = match self.tie_word_embeddings {
            Some(v) => v,
            None => false,
        };
        let eos_token_id: u32 = match self.eos_token_id {
            Some(TokenIdValue::Number(n)) => match n {
                Some(v) => v as u32,
                None => 2,
            },
            Some(TokenIdValue::Array(first)) => match first {
                Some(v) => v as u32,
                None => 2,
            },
            _ => 2,
        };
        let bos_token_id: u32 = match self.bos_token_id {
            Some(TokenIdValue::Number(n)) => match n {
                Some(v) => v as u32,
                None => 1,
            },
            _ => 1,
        };
        ModelConfig {
            architecture,
            hidden_size,
            intermediate_size,
            num_hidden_layers,
            num_attention_heads,
            num_key_value_heads,
            vocab_size,
            max_position_embeddings,
            rms_norm_eps_bits,
            rope_theta_bits,
            tie_word_embeddings,
            eos_token_id,
            bos_token_id,
        }
    }
}

/// A numeric token id in `config.json` is kept, truncated to 32 bits: for the start of
/// text a number, for the end of text a number or an array's first number. Where no
/// number is given the ids are 1 and 2.
pub proof fn lemma_token_ids_kept(n: u64)
    ensures
        bos_id(Some(TokenIdValue::Number(Some(n)))) == n as u32,
        eos_id(Some(TokenIdValue::Number(Some(n)))) == n as u32,
        eos_id(Some(TokenIdValue::Array(Some(n)))) == n as u32,
        bos_id(None) == 1,
        bos_id(Some(TokenIdValue::Number(None))) == 1,
        eos_id(None) == 2,
        eos_id(Some(TokenIdValue::Number(None))) == 2,
        eos_id(Some(TokenIdValue::Array(None))) == 2,
        n < 0x1_0000_0000 ==> bos_id(Some(TokenIdValue::Number(Some(n)))) == n,
        n < 0x1_0000_0000 ==> eos_id(Some(TokenIdValue::Number(Some(n)))) == n,
{
}

} // verus!
