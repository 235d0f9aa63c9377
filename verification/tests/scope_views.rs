use irium_cli::config::AppConfig;
use irium_cli::fs_scan::FsEntry;
use irium_cli::io::IoLog;
use irium_cli::layout::category_columns;
use irium_cli::state::AppState;

fn file(path: &str, name: &str) -> FsEntry {
    let ext = name.rsplit_once('.').map(|(_, e)| e.to_string());
    FsEntry { path: path.to_string(), name: name.to_string(), is_dir: false, modified: None, size: 1, extension: ext }
}

fn app_with(entries: Vec<FsEntry>) -> AppState {
    let mut log = IoLog::new();
    log.add_listing(".".to_string(), false, Ok(entries));
    AppState::new(".".to_string(), &AppConfig::default(), Ok(Vec::new()), false, false, log)
        .expect("every listing is recorded")
}

#[test]
fn a_category_is_active_when_all_its_extensions_are_selected() {
    let mut app = app_with(vec![file("./a.txt", "a.txt")]);
    let idx = 0;
    let exts = app.filters.category_filters[idx].extensions.clone();
    assert!(!exts.is_empty());
    assert!(!app.category_active(idx));
    for e in &exts[..exts.len() - 1] {
        app.filters.selected_extensions.push(e.clone());
    }
    assert!(!app.category_active(idx));
    app.filters.selected_extensions.push(exts[exts.len() - 1].clone());
    assert!(app.category_active(idx));
    assert!(!app.category_active(app.filters.category_filters.len()));
}

#[test]
fn category_columns_hold_the_name_column_between_eight_and_the_width() {
    assert_eq!(category_columns(100), (36, 62));
    assert_eq!(category_columns(10), (8, 0));
    assert_eq!(category_columns(8), (8, 0));
}

#[test]
fn empty_files_list_explains_why() {
    let mut app = app_with(Vec::new());
    assert_eq!(app.scope_files_empty_message(), "No files found in current directory");
    app.files.show_selected_categories_only = true;
    assert_eq!(app.scope_files_empty_message(), "No categories selected");
    app.filters.selected_extensions.push("pdf".to_string());
    assert_eq!(app.scope_files_empty_message(), "No files match currently selected categories");
    app.files.show_selected_categories_only = false;
    app.files.scan_error = Some("denied".to_string());
    assert_eq!(app.scope_files_empty_message(), "Could not read directory tree: denied");
}

#[test]
fn files_cursor_is_kept_in_view() {
    let entries: Vec<FsEntry> = (0..10).map(|i| file(&format!("./f{i}.txt"), &format!("f{i}.txt"))).collect();
    let mut app = app_with(entries);
    app.files.tree.cursor = 7;
    app.files.tree.scroll = 0;
    app.keep_files_cursor_in_view(10, 3);
    assert_eq!(app.files.tree.scroll, 5);
    app.keep_files_cursor_in_view(0, 3);
    assert_eq!((app.files.tree.cursor, app.files.tree.scroll), (0, 0));
}

#[test]
fn a_recorded_listing_is_appended_and_nothing_else_changes() {
    let mut app = app_with(vec![file("./a.txt", "a.txt")]);
    let before = app.io_log.listings.len();
    let rows_before = app.scope_files_rows_len();
    app.record_listing("./sub".to_string(), false, Err("denied".to_string()));
    assert_eq!(app.io_log.listings.len(), before + 1);
    assert_eq!(app.io_log.listings[before].0, "./sub");
    assert_eq!(app.scope_files_rows_len(), rows_before);
}
