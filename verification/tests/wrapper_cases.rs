use irium_cli::actions::{reduce, Action};
use irium_cli::config::AppConfig;
use irium_cli::fs_scan::{sort_by_path, FsEntry};
use irium_cli::io::IoLog;
use irium_cli::model::Stage;
use irium_cli::naming::format_name;
use irium_cli::state::AppState;

fn file(path: &str, name: &str) -> FsEntry {
    let ext = name.rsplit_once('.').map(|(_, e)| e.to_string());
    FsEntry { path: path.to_string(), name: name.to_string(), is_dir: false, modified: None, size: 1, extension: ext }
}

fn naming_app() -> AppState {
    let mut log = IoLog::new();
    log.add_listing(".".to_string(), false, Ok(vec![file("./Quarterly Report.pdf", "Quarterly Report.pdf")]));
    let mut app = AppState::new(".".to_string(), &AppConfig::default(), Ok(Vec::new()), false, false, log)
        .expect("every listing is recorded");
    app.files.selected_by_tree.push("./Quarterly Report.pdf".to_string());
    app.set_stage(Stage::Naming).expect("listings recorded");
    app
}

#[test]
fn rename_row_takes_name_stem_and_extension_from_the_path() {
    let app = naming_app();
    assert_eq!(app.naming.rename_rows.len(), 1);
    let row = &app.naming.rename_rows[0];
    assert_eq!(row.current_name, "Quarterly Report.pdf");
    assert_eq!(row.proposed_name, format_name("Quarterly Report", Some("pdf"), &app.naming.style));
}

#[test]
fn backspace_drops_the_last_typed_character() {
    let mut app = naming_app();
    reduce(&mut app, Action::StartCommandInput).expect("listings recorded");
    reduce(&mut app, Action::InputChar('a')).expect("listings recorded");
    reduce(&mut app, Action::InputChar('é')).expect("listings recorded");
    assert_eq!(app.naming.command_input, "aé");
    reduce(&mut app, Action::Backspace).expect("listings recorded");
    assert_eq!(app.naming.command_input, "a");
}

#[test]
fn group_assignment_reports_group_and_count() {
    let mut app = naming_app();
    reduce(&mut app, Action::StartGroupAssign).expect("listings recorded");
    reduce(&mut app, Action::AssignGroup(3)).expect("listings recorded");
    assert_eq!(app.naming.rename_rows[0].group_id, 3);
    assert_eq!(app.log.toasts.last().expect("toast").message, "Assigned group 3 to 1 row(s)");
}

#[test]
fn entries_sort_by_path() {
    let sorted = sort_by_path(vec![file("./b.txt", "b.txt"), file("./a/z.txt", "z.txt"), file("./a.txt", "a.txt")]);
    let paths: Vec<&str> = sorted.iter().map(|e| e.path.as_str()).collect();
    // Paths compare by component, so the directory `a` comes before the file `a.txt`.
    assert_eq!(paths, vec!["./a/z.txt", "./a.txt", "./b.txt"]);
}
