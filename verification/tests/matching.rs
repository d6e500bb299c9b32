use janitor::mover::{step, MoveOutcome, MoveState};
use janitor::orchestrator::{
    count_moved, decide_batch, plan_batch_moves, plan_rescan, BatchDecision, ChangeEvent,
};
use janitor::pattern::CompiledRules;
use janitor::rules::Config;

fn config_of(pairs: &[(&str, &str)]) -> Config {
    Config {
        patterns: pairs.iter().map(|(p, d)| (p.to_string(), d.to_string())).collect(),
    }
}

#[test]
fn first_match_wins_order_precedence() {
    let config = config_of(&[("*.pdf", "/a"), ("file*.pdf", "/b")]);
    let compiled = CompiledRules::compile(&config);
    let dest = compiled.best_match("file1.pdf");
    assert_eq!(dest, Some("/a".to_string()));
}

#[test]
fn no_rule_matches_returns_none() {
    let config = config_of(&[("*.zip", "/archives")]);
    let compiled = CompiledRules::compile(&config);
    assert_eq!(compiled.best_match("notes.txt"), None);
}

#[test]
fn matching_is_case_insensitive() {
    let config = config_of(&[("*.zip", "/archives")]);
    let compiled = CompiledRules::compile(&config);
    assert_eq!(compiled.best_match("data.ZIP"), Some("/archives".to_string()));
    assert_eq!(compiled.best_match("DATA.zip"), Some("/archives".to_string()));
}

#[test]
fn leading_dot_matched_by_star() {
    let config = config_of(&[("*rc", "/dotfiles")]);
    let compiled = CompiledRules::compile(&config);
    assert_eq!(compiled.best_match(".bashrc"), Some("/dotfiles".to_string()));
}

#[test]
fn invalid_pattern_is_dropped_not_fatal() {
    let config = config_of(&[("[", "/broken"), ("*.txt", "/texts")]);
    let compiled = CompiledRules::compile(&config);
    assert_eq!(compiled.best_match("a.txt"), Some("/texts".to_string()));
    assert_eq!(compiled.best_match("a.pdf"), None);
}

#[test]
fn rescan_moves_matching_file_case_insensitively() {
    let config = config_of(&[("*.zip", "/archives")]);
    let compiled = CompiledRules::compile(&config);
    let listing = vec!["data.ZIP".to_string()];
    let plan = plan_rescan(&compiled, &listing);
    assert_eq!(plan.dirs, vec!["/archives".to_string()]);
    assert_eq!(
        plan.moves,
        vec![("data.ZIP".to_string(), "/archives/data.ZIP".to_string())]
    );
}

#[test]
fn rescan_creates_destination_even_with_no_match() {
    let config = config_of(&[("*.zip", "/archives")]);
    let compiled = CompiledRules::compile(&config);
    let listing: Vec<String> = Vec::new();
    let plan = plan_rescan(&compiled, &listing);
    assert_eq!(plan.dirs, vec!["/archives".to_string()]);
    assert!(plan.moves.is_empty());
}

#[test]
fn rescan_routes_each_file_by_first_matching_rule() {
    let config = config_of(&[("*.pdf", "/docs"), ("report*", "/reports")]);
    let compiled = CompiledRules::compile(&config);
    let listing = vec![
        "report1.pdf".to_string(),
        "report2.txt".to_string(),
        "song.mp3".to_string(),
    ];
    let plan = plan_rescan(&compiled, &listing);
    assert_eq!(plan.dirs, vec!["/docs".to_string(), "/reports".to_string()]);
    assert_eq!(
        plan.moves,
        vec![
            ("report1.pdf".to_string(), "/docs/report1.pdf".to_string()),
            ("report2.txt".to_string(), "/reports/report2.txt".to_string()),
        ]
    );
}

fn event(path: &str, is_any: bool, is_existing_file: bool) -> ChangeEvent {
    ChangeEvent { path: path.to_string(), is_any, is_existing_file }
}

#[test]
fn batch_with_config_path_reloads() {
    let config = config_of(&[("*.zip", "/archives")]);
    let batch = vec![event("/watched/other.txt", true, true), event("/watched/janitor.toml", true, true)];
    let decision = decide_batch(&config, &batch, "/watched/janitor.toml");
    assert!(matches!(decision, BatchDecision::ReloadAndRescan));
}

#[test]
fn ordinary_batch_plans_moves() {
    let config = config_of(&[("*.zip", "/archives")]);
    let batch = vec![
        event("/watched/data.zip", true, true),
        event("/watched/notes.txt", true, true),
        event("/watched/gone.zip", true, false),
        event("/watched/partial.zip", false, true),
    ];
    let decision = decide_batch(&config, &batch, "/watched/janitor.toml");
    match decision {
        BatchDecision::Moves(moves) => {
            assert_eq!(
                moves,
                vec![("/watched/data.zip".to_string(), "/archives/data.zip".to_string())]
            );
        }
        BatchDecision::ReloadAndRescan => panic!("batch without the config path must not reload"),
    }
}

#[test]
fn unmatched_file_earns_no_move() {
    let config = config_of(&[("*.zip", "/archives")]);
    let compiled = CompiledRules::compile(&config);
    let batch = vec![event("notes.txt", true, true)];
    let moves = plan_batch_moves(&compiled, &batch);
    assert!(moves.is_empty());
}

#[test]
fn duplicate_event_is_planned_but_second_attempt_skips() {
    let config = config_of(&[("*.zip", "/archives")]);
    let compiled = CompiledRules::compile(&config);
    // the same file reported twice in one batch
    let batch = vec![event("data.zip", true, true), event("data.zip", true, true)];
    let moves = plan_batch_moves(&compiled, &batch);
    assert_eq!(moves.len(), 2);
    assert_eq!(moves[0], moves[1]);
    // the first attempt finds the source and renames it away; the second
    // finds the source gone and skips, raising no error
    let first = step(step(MoveState::Probe, true), true);
    assert_eq!(first, MoveState::Done(MoveOutcome::Moved));
    let second = step(MoveState::Probe, false);
    assert_eq!(second, MoveState::Done(MoveOutcome::Skipped));
    let outcomes = vec![MoveOutcome::Moved, MoveOutcome::Skipped];
    assert_eq!(count_moved(&outcomes), 1);
}

#[test]
fn pattern_matches_full_path() {
    let config = config_of(&[("*.zip", "/archives")]);
    let compiled = CompiledRules::compile(&config);
    // separators need not be literal: `*` crosses them
    assert_eq!(
        compiled.best_match("/watched/deep/data.zip"),
        Some("/archives".to_string())
    );
}
