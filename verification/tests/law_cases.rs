use irium_cli::actions::{reduce, Action};
use irium_cli::config::AppConfig;
use irium_cli::fs_scan::FsEntry;
use irium_cli::io::{IoLog, IoRequest};
use irium_cli::model::{AiSettingsField, FocusPane, InputMode, Stage};
use irium_cli::state::AppState;
use irium_cli::strs::trim_str;
use irium_cli::vocab::sorted_insert;

fn file(path: &str, name: &str) -> FsEntry {
    let ext = name.rsplit_once('.').map(|(_, e)| e.to_string());
    FsEntry { path: path.to_string(), name: name.to_string(), is_dir: false, modified: None, size: 1, extension: ext }
}

fn new_app() -> AppState {
    let mut log = IoLog::new();
    log.add_listing(".".to_string(), false, Ok(vec![file("./a.txt", "a.txt"), file("./b.pdf", "b.pdf")]));
    AppState::new(".".to_string(), &AppConfig::default(), Ok(Vec::new()), false, false, log)
        .expect("every listing is recorded")
}

#[test]
fn ai_settings_fields_cycle_back_in_six_steps() {
    let mut app = new_app();
    let start = app.ai.ai_settings.active_field;
    let mut seen = Vec::new();
    for _ in 0..6 {
        app.ai_settings_next_field();
        seen.push(app.ai.ai_settings.active_field);
    }
    assert_eq!(app.ai.ai_settings.active_field, start);
    for f in [
        AiSettingsField::ApiKey,
        AiSettingsField::ModelSearch,
        AiSettingsField::ModelList,
        AiSettingsField::ManualModel,
        AiSettingsField::Discover,
        AiSettingsField::Save,
    ] {
        assert!(seen.contains(&f));
    }
}

#[test]
fn ai_settings_next_then_prev_is_identity() {
    let mut app = new_app();
    app.focus_ai_settings_field(AiSettingsField::ManualModel);
    app.ai_settings_next_field();
    assert_eq!(app.ai.ai_settings.active_field, AiSettingsField::Discover);
    app.ai_settings_prev_field();
    assert_eq!(app.ai.ai_settings.active_field, AiSettingsField::ManualModel);
}

#[test]
fn api_key_field_edits_the_key() {
    let mut app = new_app();
    app.focus_ai_settings_field(AiSettingsField::ApiKey);
    assert_eq!(app.ui.mode, InputMode::EditingAiApiKey);
    app.focus_ai_settings_field(AiSettingsField::Save);
    assert_eq!(app.ui.mode, InputMode::Normal);
}

#[test]
fn focus_ring_returns_after_a_full_turn() {
    let mut app = new_app();
    let start = app.ui.focus;
    let mut steps = 0;
    loop {
        reduce(&mut app, Action::NextFocus).expect("listings recorded");
        steps += 1;
        if app.ui.focus == start || steps > 20 {
            break;
        }
    }
    assert!(steps <= 20);
    reduce(&mut app, Action::NextFocus).expect("listings recorded");
    reduce(&mut app, Action::PrevFocus).expect("listings recorded");
    assert_eq!(app.ui.focus, start);
}

#[test]
fn naming_focus_moves_between_panes() {
    let mut app = new_app();
    app.set_stage(Stage::Naming).expect("listings recorded");
    let first = app.ui.focus;
    reduce(&mut app, Action::NextFocus).expect("listings recorded");
    assert_ne!(app.ui.focus, first);
    reduce(&mut app, Action::PrevFocus).expect("listings recorded");
    assert_eq!(app.ui.focus, first);
    assert!(matches!(first, FocusPane::NamingTable | FocusPane::NamingRight | FocusPane::NamingCommand));
}

#[test]
fn trimming_twice_is_trimming_once() {
    for s in ["  a b  ", "x", "", " \t\n ", "é  "] {
        let once = trim_str(s);
        assert_eq!(trim_str(&once), once);
        assert_eq!(once, s.trim());
    }
}

#[test]
fn sorted_insert_keeps_order_and_set() {
    let mut v: Vec<String> = Vec::new();
    for t in ["pdf", "doc", "txt", "doc", "a"] {
        sorted_insert(&mut v, t.to_string());
    }
    assert_eq!(v, vec!["a".to_string(), "doc".to_string(), "pdf".to_string(), "txt".to_string()]);
}

fn dir(path: &str, name: &str) -> FsEntry {
    FsEntry { path: path.to_string(), name: name.to_string(), is_dir: true, modified: None, size: 0, extension: None }
}

fn asks_for(q: &IoRequest, path: &str, hidden: bool) -> bool {
    matches!(q, IoRequest::ListDir { path: p, show_hidden } if p == path && *show_hidden == hidden)
}

#[test]
fn start_names_the_working_directory_listing_it_lacks() {
    let r = AppState::new(".".to_string(), &AppConfig::default(), Ok(Vec::new()), false, false, IoLog::new());
    match r {
        Err((q, _)) => assert!(asks_for(&q, ".", false)),
        Ok(_) => panic!("the record holds no listing"),
    }
}

#[test]
fn start_names_the_subfolder_listing_the_scan_needs() {
    let mut log = IoLog::new();
    log.add_listing(".".to_string(), false, Ok(vec![dir("./sub", "sub"), file("./a.txt", "a.txt")]));
    let r = AppState::new(".".to_string(), &AppConfig::default(), Ok(Vec::new()), false, false, log);
    match r {
        Err((q, _)) => assert!(asks_for(&q, "./sub", false)),
        Ok(_) => panic!("the listing of ./sub is missing"),
    }
}

#[test]
fn start_with_every_listing_recorded_succeeds_with_closed_overlays() {
    let app = new_app();
    assert_eq!(app.ui.focus, FocusPane::ScopeFiles);
    assert!(!app.ui.show_help && !app.log.show_log_overlay && !app.history.show_prompt_history_overlay);
    assert!(app.filters.presets.iter().all(|p| p.is_none()));
    assert!(app.naming.rename_rows.is_empty());
    assert_eq!(app.files.tree.nodes[app.files.tree.root].path, ".");
}

#[test]
fn showing_hidden_files_asks_for_the_hidden_listing() {
    let start = new_app();
    let mut app = start.clone();
    match app.toggle_show_hidden() {
        Err(q) => assert!(asks_for(&q, ".", true)),
        Ok(()) => panic!("no hidden listing is recorded"),
    }
    let mut app = start;
    app.record_listing(".".to_string(), true, Ok(vec![file("./a.txt", "a.txt"), file("./.env", ".env")]));
    assert!(app.toggle_show_hidden().is_ok());
    assert!(app.files.show_hidden);
}

#[test]
fn override_completion_takes_the_least_matching_entry() {
    let mut app = new_app();
    sorted_insert(&mut app.naming.override_vocab, "report_b".to_string());
    sorted_insert(&mut app.naming.override_vocab, "report_a".to_string());
    sorted_insert(&mut app.naming.override_vocab, "summary".to_string());
    app.naming.override_input = "rep".to_string();
    app.autocomplete_override();
    assert_eq!(app.naming.override_input, "report_a");
}

#[test]
fn next_stage_from_a_fresh_start_cycles_through_the_stages() {
    let mut app = new_app();
    for want in [Stage::Naming, Stage::Apply, Stage::Scope] {
        assert!(reduce(&mut app, Action::NextStage).is_ok());
        assert_eq!(app.ui.stage, want);
    }
}

#[test]
fn start_loads_the_working_directory_closed_and_unselected() {
    let mut log = IoLog::new();
    log.add_listing(".".to_string(), false, Ok(vec![dir("./pdfs", "pdfs"), file("./top.txt", "top.txt")]));
    log.add_listing("./pdfs".to_string(), false, Ok(vec![file("./pdfs/a.pdf", "a.pdf")]));
    let app = AppState::new(".".to_string(), &AppConfig::default(), Ok(Vec::new()), false, false, log)
        .expect("every listing is recorded");
    let t = &app.files.tree;
    assert!(t.nodes[t.root].expanded && t.nodes[t.root].children_loaded);
    assert_eq!(t.nodes.len(), 3);
    assert_eq!(t.nodes[1].path, "./pdfs");
    assert!(t.nodes[1].is_dir && !t.nodes[1].expanded && !t.nodes[1].children_loaded);
    assert_eq!(t.nodes[2].path, "./top.txt");
    assert!(!t.nodes[2].selected);
    assert!(app.naming.command_input.is_empty());
}

#[test]
fn start_command_then_type_then_commit_records_the_prompt() {
    let mut app = new_app();
    assert!(reduce(&mut app, Action::NextStage).is_ok());
    assert!(reduce(&mut app, Action::StartCommandInput).is_ok());
    for c in "short".chars() {
        assert!(reduce(&mut app, Action::InputChar(c)).is_ok());
    }
    assert_eq!(app.naming.command_input, "short");
    assert!(reduce(&mut app, Action::CommitInput).is_ok());
    assert_eq!(app.ui.mode, InputMode::Normal);
    assert!(app.naming.command_input.is_empty());
    assert_eq!(app.history.prompt_history.last().map(|s| s.as_str()), Some("short"));
}
