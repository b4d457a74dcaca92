use melange::compat::warnings::{find_warnings, warning_matches, warnings_per_model, CompatDb, CompatWarning, WarningSeverity};
use melange::hardware::engines::{EngineInfo, InferenceEngines};
use melange::models::ModelInfo;

fn model(name: &str, model_type: &str, arch: &str, is_moe: bool) -> ModelInfo {
    ModelInfo {
        name: name.to_string(),
        path: String::new(),
        model_type: model_type.to_string(),
        architecture: arch.to_string(),
        hidden_size: 0,
        num_hidden_layers: 0,
        num_attention_heads: 0,
        num_key_value_heads: 0,
        head_dim: 0,
        max_position_embeddings: 0,
        num_experts: 0,
        num_experts_per_tok: 0,
        moe_intermediate_size: 0,
        v_head_dim: None,
        qk_nope_head_dim: None,
        qk_rope_head_dim: None,
        quant_bits: 4,
        quant_group_size: 0,
        total_size_bytes: 0,
        total_parameters: 0,
        is_moe,
    }
}

fn warning(id: &str, engine: &str, severity: WarningSeverity) -> CompatWarning {
    CompatWarning {
        id: id.to_string(),
        model_type: None,
        architecture: None,
        model_family: None,
        is_moe: None,
        engine: engine.to_string(),
        severity,
        summary: format!("summary of {}", id),
        detail: None,
        workaround: None,
        fixed_in: None,
        references: None,
    }
}

fn engines(found: &[&str]) -> InferenceEngines {
    let all = ["llama.cpp", "MLX", "Ollama", "vLLM", "ExLlamaV2"];
    InferenceEngines {
        engines: all
            .iter()
            .map(|n| EngineInfo { name: n.to_string(), version: None, found: found.contains(n) })
            .collect(),
    }
}

#[test]
fn warning_needs_installed_engine_and_criteria() {
    let m = model("Qwen3-30B-A3B", "qwen3_moe", "Qwen3MoeForCausalLM", true);
    let mut w = warning("q1", "mlx", WarningSeverity::Caution);
    assert!(!warning_matches(&w, &m, &engines(&["MLX"])));
    w.model_type = Some("QWEN3".to_string());
    assert!(warning_matches(&w, &m, &engines(&["MLX"])));
    assert!(!warning_matches(&w, &m, &engines(&["Ollama"])));
    w.is_moe = Some(false);
    assert!(!warning_matches(&w, &m, &engines(&["MLX"])));
    w.is_moe = Some(true);
    w.model_family = Some("qwen3-30b".to_string());
    assert!(warning_matches(&w, &m, &engines(&["MLX"])));
    w.model_family = Some("30b".to_string());
    assert!(!warning_matches(&w, &m, &engines(&["MLX"])));
}

#[test]
fn wildcard_warnings_are_left_out() {
    let m = model("Llama", "llama", "LlamaForCausalLM", false);
    let mut w = warning("w", "Ollama", WarningSeverity::Info);
    w.architecture = Some("any".to_string());
    assert!(!warning_matches(&w, &m, &engines(&["Ollama"])));
    w.architecture = None;
    w.model_type = Some("*".to_string());
    assert!(!warning_matches(&w, &m, &engines(&["Ollama"])));
    w.model_type = Some("lla".to_string());
    assert!(warning_matches(&w, &m, &engines(&["Ollama"])));
}

#[test]
fn found_warnings_are_ordered_by_severity() {
    let m = model("Llama", "llama", "LlamaForCausalLM", false);
    let mut entries = Vec::new();
    for (id, sev) in [
        ("i1", WarningSeverity::Info),
        ("b1", WarningSeverity::Breaking),
        ("c1", WarningSeverity::Caution),
        ("b2", WarningSeverity::Breaking),
        ("x", WarningSeverity::Breaking),
    ] {
        let mut w = warning(id, "llama.cpp", sev);
        w.architecture = Some(if id == "x" { "mistral" } else { "llama" }.to_string());
        entries.push(w);
    }
    let db = CompatDb { entries };
    let found = find_warnings(&db, &m, &engines(&["llama.cpp"]));
    let ids: Vec<&str> = found.iter().map(|w| w.id.as_str()).collect();
    assert_eq!(ids, vec!["b1", "b2", "c1", "i1"]);
    assert!(find_warnings(&db, &m, &engines(&[])).is_empty());
}

#[test]
fn warnings_are_found_for_each_model() {
    let llama = model("Llama", "llama", "LlamaForCausalLM", false);
    let qwen = model("Qwen", "qwen2", "Qwen2ForCausalLM", false);
    let mut w = warning("l1", "llama.cpp", WarningSeverity::Caution);
    w.architecture = Some("llama".to_string());
    let db = CompatDb { entries: vec![w] };
    let table = warnings_per_model(&db, &vec![llama, qwen], &engines(&["llama.cpp"]));
    assert_eq!(table.len(), 2);
    assert_eq!(table[0].len(), 1);
    assert_eq!(table[0][0].id, "l1");
    assert!(table[1].is_empty());
}

#[test]
fn user_entries_replace_by_id_or_append() {
    let mut db = CompatDb {
        entries: vec![warning("a", "MLX", WarningSeverity::Info), warning("b", "MLX", WarningSeverity::Info)],
    };
    let mut replacement = warning("b", "Ollama", WarningSeverity::Breaking);
    replacement.summary = "new".to_string();
    db.merge_user_entries(vec![replacement, warning("c", "vLLM", WarningSeverity::Caution)]);
    let ids: Vec<&str> = db.entries.iter().map(|w| w.id.as_str()).collect();
    assert_eq!(ids, vec!["a", "b", "c"]);
    assert_eq!(db.entries[1].summary, "new");
    assert_eq!(db.entries[1].engine, "Ollama");
    assert_eq!(db.entries[0].summary, "summary of a");
}

#[test]
fn later_user_entry_with_same_id_wins() {
    let mut db = CompatDb { entries: Vec::new() };
    let mut first = warning("z", "MLX", WarningSeverity::Info);
    first.summary = "first".to_string();
    let mut second = warning("z", "MLX", WarningSeverity::Info);
    second.summary = "second".to_string();
    db.merge_user_entries(vec![first, second]);
    assert_eq!(db.entries.len(), 1);
    assert_eq!(db.entries[0].summary, "second");
}

#[test]
fn severity_icons() {
    assert_eq!(WarningSeverity::Info.icon(), "ℹ");
    assert_eq!(WarningSeverity::Caution.icon(), "⚠");
    assert_eq!(WarningSeverity::Breaking.icon(), "✗");
}
