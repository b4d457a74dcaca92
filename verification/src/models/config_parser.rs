//! The fields of a model's `config.json` that the analysis uses, with the
//! defaults that apply when a field is missing.
use vstd::prelude::*;

verus! {

/// Quantization settings as a config states them.
pub struct QuantConfig {
    pub bits: Option<u32>,
    pub group_size: Option<u32>,
}

/// A `config.json` as read: every field optional, since configs vary widely.
pub struct RawConfig {
    pub architectures: Option<Vec<String>>,
    pub model_type: Option<String>,
    pub hidden_size: Option<u32>,
    pub num_hidden_layers: Option<u32>,
    pub num_attention_heads: Option<u32>,
    pub num_key_value_heads: Option<u32>,
    pub head_dim: Option<u32>,
    pub max_position_embeddings: Option<u64>,
    /// Expert count, Qwen style.
    pub num_experts: Option<u32>,
    pub num_experts_per_tok: Option<u32>,
    pub moe_intermediate_size: Option<u32>,
    /// Expert count, GLM style.
    pub n_routed_experts: Option<u32>,
    pub v_head_dim: Option<u32>,
    pub qk_nope_head_dim: Option<u32>,
    pub qk_rope_head_dim: Option<u32>,
    pub quantization_config: Option<QuantConfig>,
    pub quantization: Option<QuantConfig>,
}

/// A model config with defaults filled in.
pub struct ParsedConfig {
    pub architectures: Vec<String>,
    pub model_type: String,
    pub hidden_size: u32,
    pub num_hidden_layers: u32,
    pub num_attention_heads: u32,
    pub num_key_value_heads: u32,
    pub head_dim: u32,
    pub max_position_embeddings: u64,
    pub num_experts: u32,
    pub num_experts_per_tok: u32,
    pub moe_intermediate_size: u32,
    pub v_head_dim: Option<u32>,
    pub qk_nope_head_dim: Option<u32>,
    pub qk_rope_head_dim: Option<u32>,
    pub quant_bits: u32,
    pub quant_group_size: u32,
}

pub open spec fn or_zero<T>(v: Option<T>, d: T) -> T {
    match v {
        Some(x) => x,
        None => d,
    }
}

/// The quantization block that counts: `quantization_config`, else `quantization`.
pub open spec fn quant_of(raw: RawConfig) -> Option<QuantConfig> {
    match raw.quantization_config {
        Some(q) => Some(q),
        None => raw.quantization,
    }
}

/// Bits per weight: from the quantization block, else 16 (unquantized).
pub open spec fn quant_bits_spec(raw: RawConfig) -> u32 {
    match quant_of(raw) {
        Some(q) => or_zero(q.bits, 16),
        None => 16,
    }
}

/// Quantization group size: from the quantization block, else 0.
pub open spec fn quant_group_spec(raw: RawConfig) -> u32 {
    match quant_of(raw) {
        Some(q) => or_zero(q.group_size, 0),
        None => 0,
    }
}

/// Expert count: `num_experts`, else `n_routed_experts`, else 0.
pub open spec fn experts_spec(raw: RawConfig) -> u32 {
    match raw.num_experts {
        Some(n) => n,
        None => or_zero(raw.n_routed_experts, 0),
    }
}

impl ParsedConfig {
    /// Fills in the defaults for the fields a config leaves out.
    pub fn from_raw(raw: RawConfig) -> (r: ParsedConfig)
        ensures
            r.architectures@ == (match raw.architectures {
                Some(a) => a@,
                None => Seq::<String>::empty(),
            }),
            r.model_type@ == (match raw.model_type {
                Some(t) => t@,
                None => "unknown"@,
            }),
            r.hidden_size == or_zero(raw.hidden_size, 0),
            r.num_hidden_layers == or_zero(raw.num_hidden_layers, 0),
            r.num_attention_heads == or_zero(raw.num_attention_heads, 0),
            r.num_key_value_heads == or_zero(raw.num_key_value_heads, 0),
            r.head_dim == or_zero(raw.head_dim, 0),
            r.max_position_embeddings == or_zero(raw.max_position_embeddings, 0),
            r.num_experts == experts_spec(raw),
            r.num_experts_per_tok == or_zero(raw.num_experts_per_tok, 0),
            r.moe_intermediate_size == or_zero(raw.moe_intermediate_size, 0),
            r.v_head_dim == raw.v_head_dim,
            r.qk_nope_head_dim == raw.qk_nope_head_dim,
            r.qk_rope_head_dim == raw.qk_rope_head_dim,
            r.quant_bits == quant_bits_spec(raw),
            r.quant_group_size == quant_group_spec(raw),
    {
        let (quant_bits, quant_group_size) = match (&raw.quantization_config, &raw.quantization) {
            (Some(q), _) => (match q.bits { Some(b) => b, None => 16 }, match q.group_size { Some(g) => g, None => 0 }),
            (None, Some(q)) => (match q.bits { Some(b) => b, None => 16 }, match q.group_size { Some(g) => g, None => 0 }),
            (None, None) => (16, 0),
        };
        let num_experts = match raw.num_experts {
            Some(n) => n,
            None => match raw.n_routed_experts { Some(n) => n, None => 0 },
        };
        ParsedConfig {
            architectures: match raw.architectures { Some(a) => a, None => Vec::new() },
            model_type: match raw.model_type { Some(t) => t, None => String::from_str("unknown") },
            hidden_size: match raw.hidden_size { Some(v) => v, None => 0 },
            num_hidden_layers: match raw.num_hidden_layers { Some(v) => v, None => 0 },
            num_attention_heads: match raw.num_attention_heads { Some(v) => v, None => 0 },
            num_key_value_heads: match raw.num_key_value_heads { Some(v) => v, None => 0 },
            head_dim: match raw.head_dim { Some(v) => v, None => 0 },
            max_position_embeddings: match raw.max_position_embeddings { Some(v) => v, None => 0 },
            num_experts,
            num_experts_per_tok: match raw.num_experts_per_tok { Some(v) => v, None => 0 },
            moe_intermediate_size: match raw.moe_intermediate_size { Some(v) => v, None => 0 },
            v_head_dim: raw.v_head_dim,
            qk_nope_head_dim: raw.qk_nope_head_dim,
            qk_rope_head_dim: raw.qk_rope_head_dim,
            quant_bits,
            quant_group_size,
        }
    }
}

} // verus!
