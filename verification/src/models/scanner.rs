//! Building a model description from a model directory's metadata.
use vstd::prelude::*;
use super::ModelInfo;
use super::config_parser::ParsedConfig;
use super::index_parser::IndexMetadata;

verus! {

/// Head width: stated, else hidden size over attention heads, else 128.
pub open spec fn head_dim_spec(c: ParsedConfig) -> u32 {
    if c.head_dim > 0 {
        c.head_dim
    } else if c.num_attention_heads > 0 {
        (c.hidden_size / c.num_attention_heads) as u32
    } else {
        128
    }
}

/// Describes the model in directory `name` (at `path`) from its config and
/// index totals.
pub fn parse_model(name: &str, path: &str, config: &ParsedConfig, index: &IndexMetadata) -> (r: ModelInfo)
    ensures
        r.name@ == name@,
        r.path@ == path@,
        r.model_type@ == config.model_type@,
        r.architecture@ == (if config.architectures.len() > 0 { config.architectures@[0]@ } else { Seq::<char>::empty() }),
        r.hidden_size == config.hidden_size,
        r.num_hidden_layers == config.num_hidden_layers,
        r.num_attention_heads == config.num_attention_heads,
        r.num_key_value_heads == config.num_key_value_heads,
        r.head_dim == head_dim_spec(*config),
        r.max_position_embeddings == config.max_position_embeddings,
        r.num_experts == config.num_experts,
        r.num_experts_per_tok == config.num_experts_per_tok,
        r.moe_intermediate_size == config.moe_intermediate_size,
        r.v_head_dim == config.v_head_dim,
        r.qk_nope_head_dim == config.qk_nope_head_dim,
        r.qk_rope_head_dim == config.qk_rope_head_dim,
        r.quant_bits == config.quant_bits,
        r.quant_group_size == config.quant_group_size,
        r.total_size_bytes == index.total_size,
        r.total_parameters == index.total_parameters,
        r.is_moe == (config.num_experts > 0),
{
    let head_dim = if config.head_dim > 0 {
        config.head_dim
    } else if config.num_attention_heads > 0 {
        config.hidden_size / config.num_attention_heads
    } else {
        128
    };
    let architecture = if config.architectures.len() > 0 {
        config.architectures[0].clone()
    } else {
        String::new()
    };
    ModelInfo {
        name: String::from_str(name),
        path: String::from_str(path),
        model_type: config.model_type.clone(),
        architecture,
        hidden_size: config.hidden_size,
        num_hidden_layers: config.num_hidden_layers,
        num_attention_heads: config.num_attention_heads,
        num_key_value_heads: config.num_key_value_heads,
        head_dim,
        max_position_embeddings: config.max_position_embeddings,
        num_experts: config.num_experts,
        num_experts_per_tok: config.num_experts_per_tok,
        moe_intermediate_size: config.moe_intermediate_size,
        v_head_dim: config.v_head_dim,
        qk_nope_head_dim: config.qk_nope_head_dim,
        qk_rope_head_dim: config.qk_rope_head_dim,
        quant_bits: config.quant_bits,
        quant_group_size: config.quant_group_size,
        total_size_bytes: index.total_size,
        total_parameters: index.total_parameters,
        is_moe: config.num_experts > 0,
    }
}

/// The head width of a described model: a width the config states is
/// taken as it is, whatever the hidden size and head count; otherwise it is
/// the hidden size shared out over the attention heads (rounded down); with
/// neither, 128.
pub proof fn law_head_width(c: ParsedConfig)
    ensures
        c.head_dim > 0 ==> head_dim_spec(c) == c.head_dim,
        c.head_dim == 0 && c.num_attention_heads > 0 ==>
            head_dim_spec(c) * c.num_attention_heads <= c.hidden_size
            < (head_dim_spec(c) + 1) * c.num_attention_heads,
        c.head_dim == 0 && c.num_attention_heads == 0 ==> head_dim_spec(c) == 128,
{
    if c.head_dim == 0 && c.num_attention_heads > 0 {
        let h = c.hidden_size as int;
        let n = c.num_attention_heads as int;
        assert(0 <= h / n <= h) by (nonlinear_arith)
            requires h >= 0, n > 0;
        assert((h / n) * n <= h < (h / n + 1) * n) by (nonlinear_arith)
            requires h >= 0, n > 0;
    }
}

} // verus!
