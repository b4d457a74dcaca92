use melange::compat::warnings::{CompatWarning, WarningSeverity};
use melange::display::{
    bar_width, context_label, cores_line, engine_count, expert_info, horizon_label, more_warnings_note,
    severity_label, vpn_hint, warnings_footer, word_wrap,
};
use melange::hardware::cpu::CpuInfo;
use melange::models::ModelInfo;

#[test]
fn horizon_and_context_labels() {
    assert_eq!(horizon_label(187514), "183K tokens");
    assert_eq!(horizon_label(1024), "1024 tokens");
    assert_eq!(horizon_label(1025), "1K tokens");
    assert_eq!(horizon_label(0), "0 tokens");
    assert_eq!(context_label(4096), "4K");
    assert_eq!(context_label(1024), "1K");
    assert_eq!(context_label(1000), "1000");
}

#[test]
fn bar_widths() {
    assert_eq!(bar_width(30), 20);
    assert_eq!(bar_width(75), 35);
    assert_eq!(bar_width(200), 60);
}

#[test]
fn expert_line() {
    let mut m = ModelInfo {
        name: String::new(),
        path: String::new(),
        model_type: String::new(),
        architecture: String::new(),
        hidden_size: 0,
        num_hidden_layers: 0,
        num_attention_heads: 0,
        num_key_value_heads: 0,
        head_dim: 0,
        max_position_embeddings: 0,
        num_experts: 128,
        num_experts_per_tok: 8,
        moe_intermediate_size: 0,
        v_head_dim: None,
        qk_nope_head_dim: None,
        qk_rope_head_dim: None,
        quant_bits: 4,
        quant_group_size: 0,
        total_size_bytes: 0,
        total_parameters: 0,
        is_moe: true,
    };
    assert_eq!(expert_info(&m), " (8 of 128 experts active)");
    m.is_moe = false;
    assert_eq!(expert_info(&m), "");
}

#[test]
fn cores_and_hints() {
    let c = CpuInfo {
        brand: "Apple M3 Max".to_string(),
        total_cores: 16,
        performance_cores: 12,
        efficiency_cores: 4,
        chip_variant: "M3 Max".to_string(),
    };
    assert_eq!(cores_line(&c), "12P + 4E (16 total)");
    assert_eq!(vpn_hint(true, false), Some("  [v] reveal".to_string()));
    assert_eq!(vpn_hint(true, true), Some("  [v] hide".to_string()));
    assert_eq!(vpn_hint(false, true), None);
    assert_eq!(severity_label(WarningSeverity::Breaking), "BREAKING");
    assert_eq!(severity_label(WarningSeverity::Info), "INFO");
}

fn warning(engine: &str) -> CompatWarning {
    CompatWarning {
        id: String::new(),
        model_type: None,
        architecture: None,
        model_family: None,
        is_moe: None,
        engine: engine.to_string(),
        severity: WarningSeverity::Caution,
        summary: String::new(),
        detail: None,
        workaround: None,
        fixed_in: None,
        references: None,
    }
}

#[test]
fn warning_counts_and_footer() {
    let ws = vec![warning("MLX"), warning("Ollama"), warning("MLX")];
    assert_eq!(engine_count(&ws), 2);
    assert_eq!(engine_count(&Vec::new()), 0);
    assert_eq!(warnings_footer(3, 2), "  3 warnings for 2 engines. Uninstalled engines hidden.");
    assert_eq!(warnings_footer(1, 1), "  1 warning for 1 engine. Uninstalled engines hidden.");
    assert_eq!(more_warnings_note(3), None);
    assert_eq!(more_warnings_note(5), Some("    ... and 2 more (press 'w')".to_string()));
}

#[test]
fn wrapping_words() {
    assert_eq!(word_wrap("the quick brown fox", 10), vec!["the quick", "brown fox"]);
    assert_eq!(word_wrap("  spaced   out  ", 20), vec!["spaced out"]);
    assert_eq!(word_wrap("incomprehensibilities x", 5), vec!["incomprehensibilities", "x"]);
    assert_eq!(word_wrap("", 5), vec![""]);
    assert_eq!(word_wrap("keep  as is", 0), vec!["keep  as is"]);
    assert_eq!(word_wrap("ab cd", 5), vec!["ab cd"]);
    assert_eq!(word_wrap("ab cd", 4), vec!["ab", "cd"]);
    assert_eq!(word_wrap("éé éé", 5), vec!["éé éé"]);
    assert_eq!(word_wrap("éé éé", 4), vec!["éé", "éé"]);
    assert_eq!(word_wrap("€ 😀", 3), vec!["€ 😀"]);
}

#[test]
fn wrapped_lines_fit_unless_one_long_word() {
    let text = "Engines built before the fix mishandle the shared expert and report garbage tokens";
    for w in [1usize, 8, 13, 30] {
        for line in word_wrap(text, w) {
            assert!(line.chars().count() <= w || !line.contains(' '));
        }
    }
}

#[test]
fn wrapping_keeps_the_words() {
    let text = "  Engines built before\tthe fix mishandle the shared expert  ";
    let expected: Vec<&str> = text.split_whitespace().collect();
    for w in [0usize, 1, 8, 13, 30, 200] {
        let lines = word_wrap(text, w);
        let got: Vec<String> = lines.iter().flat_map(|l| l.split_whitespace().map(|s| s.to_string())).collect();
        assert_eq!(got, expected);
    }
}
