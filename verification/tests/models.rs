use melange::models::config_parser::{ParsedConfig, QuantConfig, RawConfig};
use melange::models::gguf_parser::{parse_gguf_metadata, GgufError};
use melange::models::index_parser::{parse_value_as_u64, IndexMetadata, IndexValue};
use melange::models::memory_calc::{
    analysis_fits, analyze, analyze_models, classify_status, estimate_at_context, estimate_fits, kv_per_token, max_safe_context,
    SpiceStatus, GIB,
};
use melange::models::ollama::{
    dedup_by_digest, display_name, estimate_parameters, file_type_to_bits, gguf_to_model_info, join_path_str,
    parse_manifest_digest, resolve_blob_path, ManifestLayer,
};
use melange::models::scanner::parse_model;
use melange::models::ModelInfo;

fn dense() -> ModelInfo {
    ModelInfo {
        name: "Llama-3-8B".to_string(),
        path: "/models/Llama-3-8B".to_string(),
        model_type: "llama".to_string(),
        architecture: "LlamaForCausalLM".to_string(),
        hidden_size: 4096,
        num_hidden_layers: 32,
        num_attention_heads: 32,
        num_key_value_heads: 8,
        head_dim: 128,
        max_position_embeddings: 131072,
        num_experts: 0,
        num_experts_per_tok: 0,
        moe_intermediate_size: 0,
        v_head_dim: None,
        qk_nope_head_dim: None,
        qk_rope_head_dim: None,
        quant_bits: 4,
        quant_group_size: 64,
        total_size_bytes: 4_500_000_000,
        total_parameters: 8_030_000_000,
        is_moe: false,
    }
}

// ---------------------------------------------------------------------------
// Memory estimates
// ---------------------------------------------------------------------------

#[test]
fn kv_per_token_standard_attention() {
    assert_eq!(kv_per_token(&dense()), 131072);
}

#[test]
fn kv_per_token_latent_attention() {
    let mut m = dense();
    m.num_hidden_layers = 61;
    m.num_key_value_heads = 128;
    m.v_head_dim = Some(128);
    m.qk_nope_head_dim = Some(128);
    m.qk_rope_head_dim = Some(64);
    assert_eq!(kv_per_token(&m), 61 * 128 * 320 * 2);
    m.qk_rope_head_dim = None;
    assert_eq!(kv_per_token(&m), 2 * 61 * 128 * 128 * 2);
}

#[test]
fn estimate_at_4k() {
    let e = estimate_at_context(&dense(), 4096);
    assert_eq!(e.weight_bytes, 4_500_000_000);
    assert_eq!(e.kv_cache_bytes, 536_870_912);
    assert_eq!(e.overhead_bytes, 450_000_000);
    assert_eq!(e.os_reserved_bytes, 3_758_096_384);
    assert_eq!(e.total_bytes, 9_244_967_296);
    assert_eq!(e.context_length, 4096);
}

#[test]
fn estimate_grows_with_context() {
    let m = dense();
    let a = estimate_at_context(&m, 8192);
    let b = estimate_at_context(&m, 16384);
    assert!(a.total_bytes < b.total_bytes);
    assert_eq!(b.kv_cache_bytes - a.kv_cache_bytes, 131072 * 8192);
}

#[test]
fn max_safe_context_is_largest_fit() {
    let m = dense();
    let ram = 32 * GIB;
    let n = max_safe_context(&m, ram);
    assert_eq!(n, 187514);
    let budget = ram - 3_758_096_384 - 4_500_000_000 - 450_000_000 - GIB;
    assert!(n * 131072 <= budget);
    assert!((n + 1) * 131072 > budget);
    assert_eq!(max_safe_context(&m, 8 * GIB), 0);
    let mut zero = dense();
    zero.num_key_value_heads = 0;
    assert_eq!(max_safe_context(&zero, ram), 0);
}

#[test]
fn status_thresholds() {
    assert_eq!(classify_status(-1, 100_000), SpiceStatus::DesertDrought);
    assert_eq!(classify_status(10 * GIB as i64, 8191), SpiceStatus::DesertDrought);
    assert_eq!(classify_status(10 * GIB as i64, 8192), SpiceStatus::SpiceScarcity);
    assert_eq!(classify_status(10 * GIB as i64, 16384), SpiceStatus::AbundantSpice);
    assert_eq!(classify_status(4 * GIB as i64, 16384), SpiceStatus::SpiceThinning);
    assert_eq!(classify_status(GIB as i64 + 1, 20000), SpiceStatus::SpiceThinning);
    assert_eq!(classify_status(GIB as i64, 20000), SpiceStatus::SpiceScarcity);
    assert_eq!(SpiceStatus::AbundantSpice.label(), "Abundant Spice");
    assert_eq!(SpiceStatus::DesertDrought.icon(), "✗ OOM");
    assert_eq!(SpiceStatus::SpiceThinning.icon(), "△ Tight");
    assert_eq!(SpiceStatus::AbundantSpice.icon(), "✓ Fits");
    assert_eq!(SpiceStatus::SpiceScarcity.icon(), "△ Limited");
}

#[test]
fn analyze_dense_model() {
    let m = dense();
    let ram = 32 * GIB;
    assert!(analysis_fits(&m, ram));
    let a = analyze(&m, ram);
    let ctxs: Vec<u64> = a.estimates.iter().map(|e| e.context_length).collect();
    assert_eq!(ctxs, vec![4096, 8192, 16384, 32768, 65536, 131072]);
    assert_eq!(a.max_safe_context, 187514);
    assert_eq!(a.headroom_bytes, 25_114_771_072);
    assert_eq!(a.status, SpiceStatus::AbundantSpice);
    assert_eq!(a.kv_per_token_bytes, 131072);
}

#[test]
fn analyze_stops_at_model_context() {
    let mut m = dense();
    m.max_position_embeddings = 10000;
    let a = analyze(&m, 16 * GIB);
    let ctxs: Vec<u64> = a.estimates.iter().map(|e| e.context_length).collect();
    assert_eq!(ctxs, vec![4096, 8192]);
    let small = analyze(&dense(), 8 * GIB);
    assert!(small.headroom_bytes < 0);
    assert_eq!(small.status, SpiceStatus::DesertDrought);
}

#[test]
fn every_model_is_analyzed_in_order() {
    let mut short = dense();
    short.max_position_embeddings = 10000;
    let all = analyze_models(&vec![dense(), short], 32 * GIB).unwrap();
    assert_eq!(all.len(), 2);
    assert_eq!(all[0].max_safe_context, 187514);
    assert_eq!(all[0].estimates.len(), 6);
    assert_eq!(all[1].estimates.len(), 2);
    assert!(analyze_models(&vec![], 32 * GIB).unwrap().is_empty());
    let mut huge = dense();
    huge.total_size_bytes = u64::MAX;
    assert!(analyze_models(&vec![dense(), huge], 32 * GIB).is_none());
}

#[test]
fn estimates_that_overflow_are_refused() {
    let mut m = dense();
    m.total_size_bytes = u64::MAX;
    assert!(!estimate_fits(&m, 4096));
    assert!(!analysis_fits(&m, 32 * GIB));
    assert!(estimate_fits(&dense(), 131072));
}

// ---------------------------------------------------------------------------
// Model description
// ---------------------------------------------------------------------------

#[test]
fn active_params_of_dense_and_moe() {
    assert_eq!(dense().active_params(), 8_030_000_000);
    let mut moe = dense();
    moe.is_moe = true;
    moe.num_experts = 8;
    moe.num_experts_per_tok = 2;
    moe.moe_intermediate_size = 14336;
    moe.total_parameters = 46_700_000_000;
    assert!(moe.active_params_fit());
    assert_eq!(moe.active_params(), 12_877_132_544);
    moe.total_parameters = 1;
    assert_eq!(moe.active_params(), 2 * 45_097_156_608 / 8);
}

#[test]
fn active_params_of_a_huge_moe() {
    let mut moe = dense();
    moe.is_moe = true;
    moe.num_experts = 4096;
    moe.num_experts_per_tok = 4096;
    moe.moe_intermediate_size = 1;
    moe.hidden_size = 1 << 20;
    moe.num_hidden_layers = 400_000;
    moe.total_parameters = 0;
    let e = 4096u64 * (1 << 20) * 3 * 400_000;
    assert!(moe.active_params_fit());
    assert_eq!(moe.active_params(), e);
}

#[test]
fn labels() {
    assert_eq!(dense().quant_label(), "4-bit");
    assert_eq!(dense().type_label(), "Dense");
    let mut moe = dense();
    moe.is_moe = true;
    assert_eq!(moe.type_label(), "MoE");
}

// ---------------------------------------------------------------------------
// GGUF headers
// ---------------------------------------------------------------------------

enum Val<'a> {
    U32(u32),
    U64(u64),
    I32(i32),
    F32(f32),
    Str(&'a str),
    U8Arr(usize),
    StrArr(&'a [&'a str]),
    Typed(u32),
}

fn put_str(out: &mut Vec<u8>, s: &str) {
    out.extend_from_slice(&(s.len() as u64).to_le_bytes());
    out.extend_from_slice(s.as_bytes());
}

fn gguf(version: u32, tensors: u64, kvs: &[(&str, Val)]) -> Vec<u8> {
    let mut out = b"GGUF".to_vec();
    out.extend_from_slice(&version.to_le_bytes());
    out.extend_from_slice(&tensors.to_le_bytes());
    out.extend_from_slice(&(kvs.len() as u64).to_le_bytes());
    for (k, v) in kvs {
        put_str(&mut out, k);
        match v {
            Val::U32(x) => {
                out.extend_from_slice(&4u32.to_le_bytes());
                out.extend_from_slice(&x.to_le_bytes());
            }
            Val::U64(x) => {
                out.extend_from_slice(&10u32.to_le_bytes());
                out.extend_from_slice(&x.to_le_bytes());
            }
            Val::I32(x) => {
                out.extend_from_slice(&5u32.to_le_bytes());
                out.extend_from_slice(&x.to_le_bytes());
            }
            Val::F32(x) => {
                out.extend_from_slice(&6u32.to_le_bytes());
                out.extend_from_slice(&x.to_le_bytes());
            }
            Val::Str(s) => {
                out.extend_from_slice(&8u32.to_le_bytes());
                put_str(&mut out, s);
            }
            Val::U8Arr(n) => {
                out.extend_from_slice(&9u32.to_le_bytes());
                out.extend_from_slice(&0u32.to_le_bytes());
                out.extend_from_slice(&(*n as u64).to_le_bytes());
                out.extend(std::iter::repeat(7u8).take(*n));
            }
            Val::StrArr(items) => {
                out.extend_from_slice(&9u32.to_le_bytes());
                out.extend_from_slice(&8u32.to_le_bytes());
                out.extend_from_slice(&(items.len() as u64).to_le_bytes());
                for s in items.iter() {
                    put_str(&mut out, s);
                }
            }
            Val::Typed(t) => {
                out.extend_from_slice(&t.to_le_bytes());
            }
        }
    }
    out
}

fn llama_header() -> Vec<u8> {
    gguf(
        3,
        291,
        &[
            ("general.architecture", Val::Str("llama")),
            ("general.name", Val::Str("Meta Llama 3 8B")),
            ("tokenizer.ggml.tokens", Val::StrArr(&["<s>", "</s>", "hello"])),
            ("tokenizer.ggml.token_type", Val::U8Arr(5)),
            ("llama.block_count", Val::U32(32)),
            ("llama.context_length", Val::U32(8192)),
            ("llama.embedding_length", Val::U32(4096)),
            ("llama.feed_forward_length", Val::U32(14336)),
            ("llama.attention.head_count", Val::U32(32)),
            ("llama.attention.head_count_kv", Val::U32(8)),
            ("llama.rope.freq_base", Val::F32(500000.0)),
            ("general.file_type", Val::U32(15)),
            ("llama.block_count", Val::I32(33)),
        ],
    )
}

#[test]
fn gguf_header_is_read() {
    let data = llama_header();
    let meta = parse_gguf_metadata(&data, data.len() as u64).unwrap();
    assert_eq!(meta.tensor_count, 291);
    assert_eq!(meta.get_str("general.architecture"), Some("llama"));
    assert_eq!(meta.get_u32("llama.block_count"), Some(33));
    assert_eq!(meta.get_u64("llama.context_length"), Some(8192));
    assert_eq!(meta.get_f32("llama.rope.freq_base"), Some(500000.0f32.to_bits()));
    assert_eq!(meta.get_u32("general.architecture"), None);
    assert_eq!(meta.get_str("tokenizer.ggml.tokens"), None);
    assert_eq!(meta.get_u32("missing"), None);
}

#[test]
fn gguf_prefix_asks_for_more_then_agrees() {
    let data = llama_header();
    let short = &data[..40];
    assert_eq!(parse_gguf_metadata(short, data.len() as u64).err(), Some(GgufError::NeedMoreBytes));
    let whole = parse_gguf_metadata(&data, data.len() as u64).unwrap();
    let mut longer = data.clone();
    longer.extend_from_slice(&[0u8; 64]);
    let more = parse_gguf_metadata(&longer, longer.len() as u64).unwrap();
    assert_eq!(more.get_u32("llama.block_count"), whole.get_u32("llama.block_count"));
    assert_eq!(more.entries.len(), whole.entries.len());
}

#[test]
fn gguf_errors() {
    let mut bad = llama_header();
    bad[0] = b'X';
    let magic = u32::from_le_bytes([b'X', b'G', b'U', b'F']);
    assert_eq!(parse_gguf_metadata(&bad, bad.len() as u64).err(), Some(GgufError::BadMagic(magic)));
    let v1 = gguf(1, 0, &[]);
    assert_eq!(parse_gguf_metadata(&v1, v1.len() as u64).err(), Some(GgufError::UnsupportedVersion(1)));
    let cut = llama_header();
    assert_eq!(parse_gguf_metadata(&cut[..40], 40).err(), Some(GgufError::UnexpectedEof));
    let mut many = gguf(3, 0, &[]);
    many[16..24].copy_from_slice(&10001u64.to_le_bytes());
    assert_eq!(parse_gguf_metadata(&many, many.len() as u64).err(), Some(GgufError::TooManyEntries(10001)));
    let mut long = gguf(2, 0, &[]);
    long[16..24].copy_from_slice(&1u64.to_le_bytes());
    long.extend_from_slice(&1_000_001u64.to_le_bytes());
    assert_eq!(parse_gguf_metadata(&long, long.len() as u64).err(), Some(GgufError::StringTooLong(1_000_001)));
    let mut arr = gguf(3, 0, &[("a", Val::Typed(9))]);
    arr.extend_from_slice(&13u32.to_le_bytes());
    arr.extend_from_slice(&1u64.to_le_bytes());
    assert_eq!(parse_gguf_metadata(&arr, arr.len() as u64).err(), Some(GgufError::CannotSkipArray(13)));
    let mut seek = gguf(3, 0, &[("a", Val::Typed(9))]);
    seek.extend_from_slice(&12u32.to_le_bytes());
    seek.extend_from_slice(&u64::MAX.to_le_bytes());
    assert_eq!(parse_gguf_metadata(&seek, seek.len() as u64).err(), Some(GgufError::SeekOutOfRange));
}

#[test]
fn gguf_unknown_value_type_ends_the_metadata() {
    let data = gguf(3, 4, &[("general.architecture", Val::Str("qwen2")), ("weird", Val::Typed(42)), ("x", Val::U32(1))]);
    let meta = parse_gguf_metadata(&data, data.len() as u64).unwrap();
    assert_eq!(meta.get_str("general.architecture"), Some("qwen2"));
    assert_eq!(meta.get_u32("x"), None);
}

#[test]
fn gguf_to_model_info_maps_fields() {
    let data = llama_header();
    let meta = parse_gguf_metadata(&data, data.len() as u64).unwrap();
    let m = gguf_to_model_info("llama3:8b", "/blobs/sha256-abc", &meta, 4_920_000_000).unwrap();
    assert_eq!(m.name, "llama3:8b");
    assert_eq!(m.path, "/blobs/sha256-abc");
    assert_eq!(m.model_type, "Meta Llama 3 8B");
    assert_eq!(m.architecture, "llama");
    assert_eq!(m.hidden_size, 4096);
    assert_eq!(m.num_hidden_layers, 33);
    assert_eq!(m.num_attention_heads, 32);
    assert_eq!(m.num_key_value_heads, 8);
    assert_eq!(m.head_dim, 128);
    assert_eq!(m.max_position_embeddings, 8192);
    assert_eq!(m.num_experts, 0);
    assert_eq!(m.moe_intermediate_size, 0);
    assert_eq!(m.quant_bits, 4);
    assert_eq!(m.quant_group_size, 128);
    assert_eq!(m.total_size_bytes, 4_920_000_000);
    assert_eq!(m.total_parameters, estimate_parameters(4096, 33, 32, 14336, 0, 291).unwrap());
    assert!(!m.is_moe);
}

#[test]
fn gguf_defaults_when_fields_are_missing() {
    let data = gguf(3, 0, &[("general.parameter_count", Val::U64(7_000_000_000))]);
    let meta = parse_gguf_metadata(&data, data.len() as u64).unwrap();
    let m = gguf_to_model_info("x:latest", "/b", &meta, 0).unwrap();
    assert_eq!(m.architecture, "unknown");
    assert_eq!(m.model_type, "unknown");
    assert_eq!(m.head_dim, 128);
    assert_eq!(m.max_position_embeddings, 4096);
    assert_eq!(m.quant_bits, 4);
    assert_eq!(m.total_parameters, 7_000_000_000);
}

#[test]
fn parameter_estimates() {
    assert_eq!(estimate_parameters(4096, 32, 32, 14336, 0, 0), Some(8_047_034_368));
    assert_eq!(estimate_parameters(0, 32, 32, 14336, 0, 0), Some(0));
    let ff = 11008u64;
    let h = 4096u64;
    let expected = (4 * h * h + 3 * h * ff + 2 * h) * 32 + 32000 * h * 2;
    assert_eq!(estimate_parameters(4096, 32, 32, 0, 0, 0), Some(expected));
    let moe = (4 * h * h + 3 * h * 14336 * 8 + 2 * h) * 32 + 32000 * h * 2 + 32 * h * 8;
    assert_eq!(estimate_parameters(4096, 32, 32, 14336, 8, 0), Some(moe));
    assert_eq!(estimate_parameters(u32::MAX, u32::MAX, 1, u32::MAX, u32::MAX, 0), None);
}

#[test]
fn file_types_to_bits() {
    assert_eq!(file_type_to_bits(0), 32);
    assert_eq!(file_type_to_bits(1), 16);
    assert_eq!(file_type_to_bits(7), 8);
    assert_eq!(file_type_to_bits(15), 4);
    assert_eq!(file_type_to_bits(18), 6);
    assert_eq!(file_type_to_bits(22), 1);
    assert_eq!(file_type_to_bits(99), 4);
}

// ---------------------------------------------------------------------------
// Ollama manifests
// ---------------------------------------------------------------------------

fn layer(media: Option<&str>, digest: Option<&str>) -> ManifestLayer {
    ManifestLayer { media_type: media.map(|s| s.to_string()), digest: digest.map(|s| s.to_string()) }
}

#[test]
fn manifest_model_digest() {
    let layers = vec![
        layer(Some("application/vnd.ollama.image.template"), Some("sha256:t")),
        layer(Some("application/vnd.ollama.image.model"), Some("sha256:abc")),
    ];
    assert_eq!(parse_manifest_digest(Some(&layers)), Some("sha256:abc".to_string()));
    assert_eq!(parse_manifest_digest(None), None);
    let broken = vec![layer(None, Some("sha256:x")), layer(Some("application/vnd.ollama.image.model"), Some("sha256:y"))];
    assert_eq!(parse_manifest_digest(Some(&broken)), None);
    let no_digest = vec![layer(Some("application/vnd.ollama.image.model"), None)];
    assert_eq!(parse_manifest_digest(Some(&no_digest)), None);
}

#[test]
fn blob_paths_and_names() {
    assert_eq!(resolve_blob_path("/Users/me/.ollama/models", "sha256:abc"), "/Users/me/.ollama/models/blobs/sha256-abc");
    assert_eq!(resolve_blob_path("/m/", "sha256:a:b"), "/m/blobs/sha256-a-b");
    assert_eq!(join_path_str("/a", "/abs"), "/abs");
    assert_eq!(join_path_str("", "x"), "x");
    assert_eq!(display_name("llama3", "8b"), "llama3:8b");
}

#[test]
fn digests_are_deduplicated_keeping_the_first() {
    let entries = vec![
        ("llama3:latest".to_string(), "sha256:a".to_string()),
        ("llama3:8b".to_string(), "sha256:a".to_string()),
        ("qwen:7b".to_string(), "sha256:b".to_string()),
    ];
    let d = dedup_by_digest(&entries);
    assert_eq!(d, vec![("llama3:latest".to_string(), "sha256:a".to_string()), ("qwen:7b".to_string(), "sha256:b".to_string())]);
}

// ---------------------------------------------------------------------------
// Safetensors metadata
// ---------------------------------------------------------------------------

fn raw() -> RawConfig {
    RawConfig {
        architectures: Some(vec!["Qwen3MoeForCausalLM".to_string()]),
        model_type: Some("qwen3_moe".to_string()),
        hidden_size: Some(2048),
        num_hidden_layers: Some(48),
        num_attention_heads: Some(32),
        num_key_value_heads: Some(4),
        head_dim: None,
        max_position_embeddings: Some(40960),
        num_experts: None,
        num_experts_per_tok: Some(8),
        moe_intermediate_size: Some(768),
        n_routed_experts: Some(128),
        v_head_dim: None,
        qk_nope_head_dim: None,
        qk_rope_head_dim: None,
        quantization_config: None,
        quantization: Some(QuantConfig { bits: Some(4), group_size: Some(64) }),
    }
}

#[test]
fn config_from_raw_fields() {
    let c = ParsedConfig::from_raw(raw());
    assert_eq!(c.architectures, vec!["Qwen3MoeForCausalLM".to_string()]);
    assert_eq!(c.model_type, "qwen3_moe");
    assert_eq!(c.num_experts, 128);
    assert_eq!(c.head_dim, 0);
    assert_eq!(c.quant_bits, 4);
    assert_eq!(c.quant_group_size, 64);
    let mut r = raw();
    r.model_type = None;
    r.num_experts = Some(64);
    r.quantization = None;
    r.quantization_config = Some(QuantConfig { bits: None, group_size: None });
    let d = ParsedConfig::from_raw(r);
    assert_eq!(d.model_type, "unknown");
    assert_eq!(d.num_experts, 64);
    assert_eq!(d.quant_bits, 16);
    assert_eq!(d.quant_group_size, 0);
    let mut bare = raw();
    bare.quantization = None;
    assert_eq!(ParsedConfig::from_raw(bare).quant_bits, 16);
}

#[test]
fn index_values() {
    assert_eq!(parse_value_as_u64(Some(IndexValue::Number(Some(42)))), 42);
    assert_eq!(parse_value_as_u64(Some(IndexValue::Number(None))), 0);
    assert_eq!(parse_value_as_u64(Some(IndexValue::Text("123".to_string()))), 123);
    assert_eq!(parse_value_as_u64(Some(IndexValue::Text("12.5".to_string()))), 0);
    assert_eq!(parse_value_as_u64(Some(IndexValue::Other)), 0);
    assert_eq!(parse_value_as_u64(None), 0);
    let m = IndexMetadata::from_values(Some(IndexValue::Number(Some(16_000_000_000))), None);
    assert_eq!((m.total_size, m.total_parameters), (16_000_000_000, 0));
    let e = IndexMetadata::empty();
    assert_eq!((e.total_size, e.total_parameters), (0, 0));
}

#[test]
fn model_from_directory_metadata() {
    let c = ParsedConfig::from_raw(raw());
    let idx = IndexMetadata::from_values(Some(IndexValue::Number(Some(17_000_000_000))), Some(IndexValue::Text("30500000000".to_string())));
    let m = parse_model("Qwen3-30B-A3B", "/models/Qwen3-30B-A3B", &c, &idx);
    assert_eq!(m.name, "Qwen3-30B-A3B");
    assert_eq!(m.architecture, "Qwen3MoeForCausalLM");
    assert_eq!(m.head_dim, 64);
    assert_eq!(m.num_experts, 128);
    assert!(m.is_moe);
    assert_eq!(m.total_size_bytes, 17_000_000_000);
    assert_eq!(m.total_parameters, 30_500_000_000);
    let mut r = raw();
    r.num_attention_heads = None;
    r.architectures = None;
    let m2 = parse_model("x", "/x", &ParsedConfig::from_raw(r), &IndexMetadata::empty());
    assert_eq!(m2.head_dim, 128);
    assert_eq!(m2.architecture, "");
}
