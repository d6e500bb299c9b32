use std::collections::HashMap;

use janitor::rules::{Config, ExampleConfig};
use janitor::store::{
    backup_file_name, config_file_name, default_config_text, get_config_path, load_plan,
    parse_config, ConfigStore, LoadAction, LoadOutcome, ReadEvent,
};

#[test]
fn parse_reads_patterns_in_order() {
    let text = "patterns = [[\"*.pdf\", \"/a\"], [\"file*.pdf\", \"/b\"]]\n";
    let config = parse_config(text).expect("valid document");
    assert_eq!(
        config.patterns,
        vec![
            ("*.pdf".to_string(), "/a".to_string()),
            ("file*.pdf".to_string(), "/b".to_string()),
        ]
    );
}

#[test]
fn parse_rejects_unparsable_text() {
    assert!(parse_config("this is not a configuration").is_none());
    assert!(parse_config("patterns = 3").is_none());
}

#[test]
fn parse_rejects_document_without_patterns() {
    assert!(parse_config("example = [[\"a\", \"b\"]]\n").is_none());
}

#[test]
fn default_text_round_trips_to_example_structure() {
    let text = default_config_text();
    // through the same decoder the engine uses
    let config = parse_config(&text).expect("template must parse");
    assert!(config.patterns.is_empty());
    // and field by field, through the document decoder directly
    let doc: HashMap<String, Vec<(String, String)>> = toml::from_str(&text).expect("template");
    let fallback = ExampleConfig::default();
    assert_eq!(doc["example"], fallback.example);
    assert_eq!(doc["patterns"], fallback.patterns);
    assert_eq!(
        fallback.example,
        vec![("file*.pdf".to_string(), "C:\\Path\\To\\Folder\\".to_string())]
    );
}

#[test]
fn load_of_valid_text_yields_its_rules() {
    let plan = load_plan(ReadEvent::Content("patterns = [[\"*.iso\", \"/images\"]]".to_string()));
    assert!(plan.actions.is_empty());
    match plan.outcome {
        LoadOutcome::Loaded(config) => {
            assert_eq!(config.patterns, vec![("*.iso".to_string(), "/images".to_string())]);
        }
        LoadOutcome::KeepPrevious => panic!("valid text must load"),
    }
}

#[test]
fn load_of_missing_file_writes_template() {
    let plan = load_plan(ReadEvent::Missing);
    assert_eq!(
        plan.actions,
        vec![LoadAction::NotifyNoConfig, LoadAction::WriteTemplate]
    );
    match plan.outcome {
        LoadOutcome::Loaded(config) => assert!(config.patterns.is_empty()),
        LoadOutcome::KeepPrevious => panic!("a missing file re-defaults"),
    }
}

#[test]
fn load_of_malformed_text_backs_up_and_redefaults() {
    let plan = load_plan(ReadEvent::Content("patterns = [".to_string()));
    assert_eq!(
        plan.actions,
        vec![
            LoadAction::NotifyInvalidConfig,
            LoadAction::BackupAside,
            LoadAction::WriteTemplate,
        ]
    );
    match plan.outcome {
        LoadOutcome::Loaded(config) => assert!(config.patterns.is_empty()),
        LoadOutcome::KeepPrevious => panic!("malformed text re-defaults"),
    }
}

#[test]
fn load_of_unreadable_file_keeps_previous_rules() {
    let plan = load_plan(ReadEvent::ReadFailed);
    assert_eq!(plan.actions, vec![LoadAction::NotifyReadFailed]);
    assert!(matches!(plan.outcome, LoadOutcome::KeepPrevious));
}

#[test]
fn snapshot_sees_a_whole_rule_set() {
    let old_rules = Config {
        patterns: vec![("*.a".to_string(), "/a".to_string()), ("*.b".to_string(), "/b".to_string())],
    };
    let new_rules = Config {
        patterns: vec![("*.c".to_string(), "/c".to_string())],
    };
    let mut store = ConfigStore::new(old_rules);
    let before = store.snapshot();
    assert_eq!(
        before.patterns,
        vec![("*.a".to_string(), "/a".to_string()), ("*.b".to_string(), "/b".to_string())]
    );
    store.replace(new_rules);
    let after = store.snapshot();
    assert_eq!(after.patterns, vec![("*.c".to_string(), "/c".to_string())]);
    // the snapshot taken before the swap still shows the old set in full
    assert_eq!(
        before.patterns,
        vec![("*.a".to_string(), "/a".to_string()), ("*.b".to_string(), "/b".to_string())]
    );
}

#[test]
fn apply_keeps_previous_rules_on_failed_read() {
    let mut store = ConfigStore::new(Config {
        patterns: vec![("*.a".to_string(), "/a".to_string())],
    });
    let plan = load_plan(ReadEvent::ReadFailed);
    store.apply(plan.outcome);
    assert_eq!(
        store.snapshot().patterns,
        vec![("*.a".to_string(), "/a".to_string())]
    );
}

#[test]
fn config_lives_inside_watched_directory() {
    assert_eq!(config_file_name(), "janitor.toml");
    assert_eq!(backup_file_name(), "janitor-old.toml");
    assert_eq!(get_config_path("/home/user/Downloads"), "/home/user/Downloads/janitor.toml");
    assert_eq!(get_config_path("/downloads/"), "/downloads/janitor.toml");
}
