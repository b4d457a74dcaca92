//! Model metadata and the memory analysis built on it.
pub mod gguf_parser;
pub mod memory_calc;
pub mod ollama;
pub mod config_parser;
pub mod index_parser;
pub mod scanner;


use vstd::prelude::*;
use crate::text;

verus! {

/// What the analysis knows of one local model.
pub struct ModelInfo {
    pub name: String,
    pub path: String,
    pub model_type: String,
    pub architecture: String,

    // Architecture
    pub hidden_size: u32,
    pub num_hidden_layers: u32,
    pub num_attention_heads: u32,
    pub num_key_value_heads: u32,
    pub head_dim: u32,
    pub max_position_embeddings: u64,

    // Mixture of experts (0 for dense models)
    pub num_experts: u32,
    pub num_experts_per_tok: u32,
    pub moe_intermediate_size: u32,

    // Multi-head latent attention
    pub v_head_dim: Option<u32>,
    pub qk_nope_head_dim: Option<u32>,
    pub qk_rope_head_dim: Option<u32>,

    // Quantization
    pub quant_bits: u32,
    pub quant_group_size: u32,

    // Sizes
    pub total_size_bytes: u64,
    pub total_parameters: u64,

    pub is_moe: bool,
}

/// Parameters of all experts over all layers: three matrices
/// (gate, up, down) of `hidden_size × moe_intermediate_size` per expert.
pub open spec fn total_expert_params(m: ModelInfo) -> int {
    m.num_experts * m.moe_intermediate_size * m.hidden_size * 3 * m.num_hidden_layers
}

/// Whether the model counts its experts (otherwise every parameter is active).
pub open spec fn counts_experts(m: ModelInfo) -> bool {
    m.is_moe && m.num_experts != 0 && m.moe_intermediate_size != 0
}

/// Parameters used for one token: the non-expert parameters plus the share
/// of expert parameters that the active experts hold.
pub open spec fn active_params_spec(m: ModelInfo) -> int {
    if !counts_experts(m) {
        m.total_parameters as int
    } else {
        let e = total_expert_params(m);
        let non_expert = if m.total_parameters >= e { m.total_parameters - e } else { 0 };
        non_expert + m.num_experts_per_tok * e / (m.num_experts as int)
    }
}

/// The active-parameter count can be computed in 64 bits.
pub open spec fn active_params_in_range(m: ModelInfo) -> bool {
    counts_experts(m) ==> {
        &&& m.num_experts * m.moe_intermediate_size * m.hidden_size * 3 <= u64::MAX
        &&& total_expert_params(m) <= u64::MAX
        &&& active_params_spec(m) <= u64::MAX
    }
}

/// `a * b` is at most `x * y` when `a <= x` and `b <= y` (all nonnegative).
pub proof fn lemma_mul_bound(a: int, b: int, x: int, y: int)
    requires
        0 <= a <= x,
        0 <= b <= y,
    ensures
        0 <= a * b <= x * y,
{
    assert(0 <= a * b <= x * y) by (nonlinear_arith)
        requires 0 <= a <= x, 0 <= b <= y;
}

/// A nonnegative `a` is at most `a * b` for `b >= 1`; `a * 0 == 0`.
pub proof fn lemma_mul_prefix(a: int, b: int)
    requires
        0 <= a,
        0 <= b,
    ensures
        b >= 1 ==> a <= a * b,
        b == 0 ==> a * b == 0,
{
    assert(b >= 1 ==> a <= a * b) by (nonlinear_arith)
        requires 0 <= a, 0 <= b;
}

impl ModelInfo {
    /// Whether `active_params` can be computed for this model in 64 bits.
    pub fn active_params_fit(&self) -> (r: bool)
        ensures
            r == active_params_in_range(*self),
    {
        if !(self.is_moe && self.num_experts != 0 && self.moe_intermediate_size != 0) {
            return true;
        }
        let ghost m = *self;
        proof { lemma_mul_bound(m.num_experts as int, m.moe_intermediate_size as int, 0xffff_ffff, 0xffff_ffff); }
        let a = (self.num_experts as u128) * (self.moe_intermediate_size as u128);
        proof { lemma_mul_bound(a as int, m.hidden_size as int, 0xffff_ffff_int * 0xffff_ffff_int, 0xffff_ffff); }
        let b = a * (self.hidden_size as u128);
        let per_layer = b * 3;
        if per_layer > u64::MAX as u128 {
            return false;
        }
        proof { lemma_mul_bound(per_layer as int, m.num_hidden_layers as int, u64::MAX as int, 0xffff_ffff); }
        let total = per_layer * (self.num_hidden_layers as u128);
        assert(total == total_expert_params(m));
        if total > u64::MAX as u128 {
            return false;
        }
        proof { lemma_mul_bound(m.num_experts_per_tok as int, total as int, 0xffff_ffff, u64::MAX as int); }
        let shared = (self.num_experts_per_tok as u128) * total;
        let non_expert: u128 = if self.total_parameters as u128 >= total { self.total_parameters as u128 - total } else { 0 };
        let active = non_expert + shared / (self.num_experts as u128);
        active <= u64::MAX as u128
    }

    /// Parameters read per generated token. For a mixture of experts only the
    /// active experts' share of the expert parameters counts.
    pub fn active_params(&self) -> (r: u64)
        requires
            active_params_in_range(*self),
        ensures
            r == active_params_spec(*self),
    {
        if !self.is_moe || self.num_experts == 0 || self.moe_intermediate_size == 0 {
            return self.total_parameters;
        }
        proof {
            lemma_mul_bound(self.num_experts as int, self.moe_intermediate_size as int, 0xffff_ffff, 0xffff_ffff);
            lemma_mul_prefix(self.num_experts * self.moe_intermediate_size, self.hidden_size as int * 3);
            assert(self.num_experts * self.moe_intermediate_size * self.hidden_size * 3
                == (self.num_experts * self.moe_intermediate_size) * (self.hidden_size * 3)) by (nonlinear_arith);
        }
        let per_layer = self.num_experts as u64 * self.moe_intermediate_size as u64
            * self.hidden_size as u64 * 3;
        let total_expert = per_layer * self.num_hidden_layers as u64;
        let non_expert = self.total_parameters.saturating_sub(total_expert);
        proof {
            lemma_mul_bound(self.num_experts_per_tok as int, total_expert as int, 0xffff_ffff, u64::MAX as int);
        }
        let shared = (self.num_experts_per_tok as u128) * (total_expert as u128);
        let active_expert = (shared / (self.num_experts as u128)) as u64;
        non_expert + active_expert
    }

    /// The quantization as a label, e.g. "4-bit".
    pub fn quant_label(&self) -> (r: String)
        ensures
            r@ == text::decimal(self.quant_bits as nat) + "-bit"@,
    {
        let mut s = text::decimal_string(self.quant_bits as u64);
        s.append("-bit");
        s
    }

    /// "MoE" for a mixture of experts, "Dense" otherwise.
    pub fn type_label(&self) -> (r: &'static str)
        ensures
            r@ == (if self.is_moe { "MoE"@ } else { "Dense"@ }),
    {
        if self.is_moe { "MoE" } else { "Dense" }
    }
}

} // verus!
