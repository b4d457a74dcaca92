use melange::config::{expand_tilde, load_config_or_default, AddOutcome, MelangeConfig};

fn cfg(dirs: &[&str]) -> MelangeConfig {
    MelangeConfig { model_dirs: dirs.iter().map(|d| d.to_string()).collect(), vpn: Some("tailscale".to_string()) }
}

#[test]
fn default_config_is_empty() {
    let c = load_config_or_default::<String>(Ok(None)).unwrap();
    assert!(c.model_dirs.is_empty());
    assert!(c.vpn.is_none());
    let kept = load_config_or_default::<String>(Ok(Some(cfg(&["/a"])))).unwrap();
    assert_eq!(kept.model_dirs, vec!["/a".to_string()]);
    assert_eq!(kept.vpn.as_deref(), Some("tailscale"));
    let failed = load_config_or_default(Err("invalid TOML".to_string()));
    assert_eq!(failed.err().as_deref(), Some("invalid TOML"));
}

#[test]
fn tilde_expansion() {
    assert_eq!(expand_tilde("~/AI_MODELS/models", Some("/Users/me")), "/Users/me/AI_MODELS/models");
    assert_eq!(expand_tilde("~/x", None), "./x");
    assert_eq!(expand_tilde("/abs/path", Some("/Users/me")), "/abs/path");
    assert_eq!(expand_tilde("~user/x", Some("/Users/me")), "~user/x");
}

#[test]
fn add_then_remove_restores() {
    let mut c = cfg(&["/a", "/b"]);
    let existing = vec!["/a".to_string(), "/b".to_string()];
    assert_eq!(c.add_directory("/c", &existing), AddOutcome::Added(3));
    assert_eq!(c.model_dirs, vec!["/a".to_string(), "/b".to_string(), "/c".to_string()]);
    let now = vec!["/a".to_string(), "/b".to_string(), "/c".to_string()];
    assert_eq!(c.remove_directory("/c", &now), 1);
    assert_eq!(c.model_dirs, vec!["/a".to_string(), "/b".to_string()]);
    assert_eq!(c.vpn, Some("tailscale".to_string()));
}

#[test]
fn add_known_directory_changes_nothing() {
    let mut c = cfg(&["~/models"]);
    let existing = vec!["/Users/me/models".to_string()];
    assert_eq!(c.add_directory("/Users/me/models", &existing), AddOutcome::AlreadyRegistered);
    assert_eq!(c.model_dirs, vec!["~/models".to_string()]);
}

#[test]
fn remove_drops_every_match_by_canonical_path() {
    let mut c = cfg(&["~/m", "/x", "/Users/me/m"]);
    let canon = vec!["/Users/me/m".to_string(), "/x".to_string(), "/Users/me/m".to_string()];
    assert_eq!(c.remove_directory("/Users/me/m", &canon), 2);
    assert_eq!(c.model_dirs, vec!["/x".to_string()]);
    assert_eq!(c.remove_directory("/nowhere", &vec!["/x".to_string()]), 0);
}

use melange::config::{dir_source, DirSource};

#[test]
fn directory_resolution_order() {
    assert_eq!(dir_source(true, 3, true), DirSource::ScanOption);
    assert_eq!(dir_source(false, 2, true), DirSource::Config);
    assert_eq!(dir_source(false, 0, true), DirSource::DefaultDir);
    assert_eq!(dir_source(false, 0, false), DirSource::Prompt);
}

#[test]
fn adding_twice_registers_once() {
    let mut c = cfg(&[]);
    let mut existing: Vec<String> = Vec::new();
    assert_eq!(c.add_directory("/m", &existing), AddOutcome::Added(1));
    existing.push("/m".to_string());
    assert_eq!(c.add_directory("/m", &existing), AddOutcome::AlreadyRegistered);
    assert_eq!(c.model_dirs, vec!["/m".to_string()]);
}
