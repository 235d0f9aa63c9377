use irium_cli::actions::{reduce, Action};
use irium_cli::config::AppConfig;
use irium_cli::fs_scan::FsEntry;
use irium_cli::input::{map_event, InputEvent, Key, KeyInput, Modifiers};
use irium_cli::io::IoLog;
use irium_cli::model::{FocusPane, InputMode, ScopeTab, Stage};
use irium_cli::state::AppState;

fn file(path: &str, name: &str) -> FsEntry {
    let ext = name.rsplit_once('.').map(|(_, e)| e.to_string());
    FsEntry { path: path.to_string(), name: name.to_string(), is_dir: false, modified: None, size: 1, extension: ext }
}

fn new_app() -> AppState {
    let mut log = IoLog::new();
    log.add_listing(".".to_string(), false, Ok(vec![file("./a.txt", "a.txt"), file("./b.pdf", "b.pdf")]));
    AppState::new(".".to_string(), &AppConfig::default(), Ok(Vec::new()), false, false, log)
        .expect("every listing is recorded")
}

fn no_mods() -> Modifiers {
    Modifiers { shift: false, control: false, alt: false, super_key: false }
}

fn key(c: char, modifiers: Modifiers) -> InputEvent {
    InputEvent::Key(KeyInput { code: Key::Char(c), modifiers, press: true })
}

fn scope_files_app() -> AppState {
    let mut app = new_app();
    app.set_stage(Stage::Scope).expect("listings recorded");
    app.set_scope_tab(ScopeTab::Files);
    app.set_focus(FocusPane::ScopeFiles);
    app
}

#[test]
fn stage_navigation_cycles() {
    let mut app = new_app();

    reduce(&mut app, Action::NextStage).expect("listings recorded");
    assert_eq!(app.ui.stage, Stage::Naming);
    reduce(&mut app, Action::NextStage).expect("listings recorded");
    assert_eq!(app.ui.stage, Stage::Apply);
    reduce(&mut app, Action::NextStage).expect("listings recorded");
    assert_eq!(app.ui.stage, Stage::Scope);
}

#[test]
fn command_mode_commits_changes() {
    let mut app = new_app();
    app.set_stage(Stage::Naming).expect("listings recorded");

    reduce(&mut app, Action::StartCommandInput).expect("listings recorded");
    for c in ['s', 'h', 'o', 'r', 't'] {
        reduce(&mut app, Action::InputChar(c)).expect("listings recorded");
    }
    reduce(&mut app, Action::CommitInput).expect("listings recorded");

    assert_eq!(app.ui.mode, InputMode::Normal);
}

#[test]
fn ctrl_a_does_not_map_to_select_all_in_scope_files() {
    let app = scope_files_app();
    let ctrl = Modifiers { control: true, ..no_mods() };
    let actions = map_event(&app, key('a', ctrl));
    assert!(!matches!(actions.as_slice(), [Action::SelectAllVisibleFiles]));
}

#[test]
fn a_maps_to_select_all_in_scope_files() {
    let app = scope_files_app();
    let actions = map_event(&app, key('a', no_mods()));
    assert!(matches!(actions.as_slice(), [Action::SelectAllVisibleFiles]));
}

#[test]
fn p_maps_to_toggle_files_settings_in_scope_files() {
    let app = scope_files_app();
    let actions = map_event(&app, key('p', no_mods()));
    assert!(matches!(actions.as_slice(), [Action::ToggleFilesSettingsPopup]));
}

#[test]
fn v_maps_to_toggle_files_preview_in_scope_files() {
    let app = scope_files_app();
    let actions = map_event(&app, key('v', no_mods()));
    assert!(matches!(actions.as_slice(), [Action::ToggleFilesPreview]));
}

#[test]
fn v_maps_to_toggle_files_preview_in_naming_stage() {
    let mut app = new_app();
    app.set_stage(Stage::Naming).expect("listings recorded");
    app.set_focus(FocusPane::NamingTable);
    let actions = map_event(&app, key('v', no_mods()));
    assert!(matches!(actions.as_slice(), [Action::ToggleFilesPreview]));
}

#[test]
fn f_maps_to_toggle_selected_categories_visibility_in_scope_files() {
    let app = scope_files_app();
    let actions = map_event(&app, key('f', no_mods()));
    assert!(matches!(actions.as_slice(), [Action::ToggleShowSelectedCategoriesOnly]));
}

#[test]
fn ctrl_c_quits_from_any_stage() {
    let app = scope_files_app();
    let ctrl = Modifiers { control: true, ..no_mods() };
    let actions = map_event(&app, key('c', ctrl));
    assert!(matches!(actions.as_slice(), [Action::Quit]));
}

#[test]
fn key_release_maps_to_nothing() {
    let app = scope_files_app();
    let event = InputEvent::Key(KeyInput { code: Key::Char('a'), modifiers: no_mods(), press: false });
    assert!(map_event(&app, event).is_empty());
}

#[test]
fn prev_stage_cycles_backwards() {
    let mut app = new_app();
    reduce(&mut app, Action::PrevStage).expect("listings recorded");
    assert_eq!(app.ui.stage, Stage::Apply);
    reduce(&mut app, Action::PrevStage).expect("listings recorded");
    assert_eq!(app.ui.stage, Stage::Naming);
}

#[test]
fn cancel_input_returns_to_normal_mode() {
    let mut app = new_app();
    app.set_stage(Stage::Naming).expect("listings recorded");
    reduce(&mut app, Action::StartCommandInput).expect("listings recorded");
    assert_eq!(app.ui.mode, InputMode::Command);
    reduce(&mut app, Action::InputChar('x')).expect("listings recorded");
    reduce(&mut app, Action::CancelInput).expect("listings recorded");
    assert_eq!(app.ui.mode, InputMode::Normal);
}
