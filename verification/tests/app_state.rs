use irium_cli::config::AppConfig;
use irium_cli::fs_scan::FsEntry;
use irium_cli::interact::Rect;
use irium_cli::io::IoLog;
use irium_cli::model::{FileNode, FileTree, TimeConstraint, ToastLevel};
use irium_cli::state::AppState;

fn file(path: &str, name: &str) -> FsEntry {
    let ext = name.rsplit_once('.').map(|(_, e)| e.to_string());
    FsEntry { path: path.to_string(), name: name.to_string(), is_dir: false, modified: None, size: 1, extension: ext }
}

fn dir(path: &str, name: &str) -> FsEntry {
    FsEntry { path: path.to_string(), name: name.to_string(), is_dir: true, modified: None, size: 0, extension: None }
}

fn app_with(listings: Vec<(&str, Vec<FsEntry>)>) -> AppState {
    let mut log = IoLog::new();
    for (path, entries) in listings {
        log.add_listing(path.to_string(), false, Ok(entries));
    }
    AppState::new(".".to_string(), &AppConfig::default(), Ok(Vec::new()), false, false, log)
        .expect("every listing is recorded")
}

fn flat_app(file_count: usize) -> AppState {
    let entries: Vec<FsEntry> = (0..file_count)
        .map(|i| file(&format!("./file-{i}.txt"), &format!("file-{i}.txt")))
        .collect();
    app_with(vec![(".", entries)])
}

fn sample_app() -> AppState {
    app_with(vec![(
        ".",
        vec![file("./a.txt", "a.txt"), file("./b.pdf", "b.pdf")],
    )])
}

fn has_text(v: &[String], t: &str) -> bool {
    v.iter().any(|s| s == t)
}

#[test]
fn preset_save_load_roundtrip() {
    let mut app = sample_app();
    app.filters.selected_extensions.push("pdf".to_string());
    app.filters.time_constraint = TimeConstraint::Week;
    app.save_preset(1);

    app.filters.selected_extensions.clear();
    app.filters.time_constraint = TimeConstraint::Any;
    app.load_preset(1).expect("listings recorded");

    assert!(has_text(&app.filters.selected_extensions, "pdf"));
    assert_eq!(app.filters.time_constraint, TimeConstraint::Week);
}

#[test]
fn rename_rows_require_scope_selection_even_with_matching_filters() {
    let mut app = app_with(vec![(".", vec![file("./doc.pdf", "doc.pdf")])]);
    app.filters.selected_extensions.push("pdf".to_string());
    app.sync_rename_rows().expect("listings recorded");
    assert!(app.naming.rename_rows.is_empty());

    app.files.selected_by_tree.push("./doc.pdf".to_string());
    app.sync_rename_rows().expect("listings recorded");
    assert_eq!(app.naming.rename_rows.len(), 1);
    assert_eq!(app.naming.rename_rows[0].path, "./doc.pdf");
}

#[test]
fn submit_without_selection_warns() {
    let mut app = sample_app();
    app.naming.rename_rows.clear();
    app.submit_simulated(true);

    assert!(!app.log.toasts.is_empty());
    let last = app.log.toasts.last().expect("toast");
    assert_eq!(last.level, ToastLevel::Warning);
    assert_eq!(last.message, "No selected rows to apply");
}

fn visible_file_nodes(app: &AppState) -> Vec<usize> {
    app.scope_files_rows()
        .into_iter()
        .map(|row| row.node_id)
        .filter(|node_id| !app.files.tree.nodes[*node_id].is_dir)
        .collect()
}

#[test]
fn select_all_visible_files_marks_visible_file_nodes_selected() {
    let mut app = sample_app();
    let nodes = visible_file_nodes(&app);
    assert_eq!(nodes.len(), 2);

    app.select_all_visible_files().expect("listings recorded");

    for node_id in &nodes {
        assert!(app.files.tree.nodes[*node_id].selected);
        assert!(has_text(&app.files.selected_by_tree, &app.files.tree.nodes[*node_id].path));
    }
}

#[test]
fn select_all_visible_files_toggles_to_deselect_when_all_selected() {
    let mut app = sample_app();
    let nodes = visible_file_nodes(&app);

    app.select_all_visible_files().expect("listings recorded");
    app.select_all_visible_files().expect("listings recorded");

    for node_id in &nodes {
        assert!(!app.files.tree.nodes[*node_id].selected);
        assert!(!has_text(&app.files.selected_by_tree, &app.files.tree.nodes[*node_id].path));
    }
}

#[test]
fn select_all_visible_files_only_affects_currently_visible_rows() {
    let mut app = app_with(vec![
        (".", vec![dir("./nested", "nested"), file("./top.txt", "top.txt")]),
        ("./nested", vec![dir("./nested/deeper", "deeper")]),
        ("./nested/deeper", vec![file("./nested/deeper/inside.txt", "inside.txt")]),
    ]);
    app.select_all_visible_files().expect("listings recorded");

    assert!(has_text(&app.files.selected_by_tree, "./top.txt"));
    assert!(!has_text(&app.files.selected_by_tree, "./nested/deeper/inside.txt"));
}

#[test]
fn select_all_visible_files_respects_selected_categories_only_filter() {
    let mut app = app_with(vec![(".", vec![file("./doc.pdf", "doc.pdf"), file("./song.mp3", "song.mp3")])]);
    app.filters.selected_extensions.push("pdf".to_string());
    app.files.show_selected_categories_only = true;
    app.normalize_scope_files_cursor();
    app.select_all_visible_files().expect("listings recorded");

    assert!(has_text(&app.files.selected_by_tree, "./doc.pdf"));
    assert!(!has_text(&app.files.selected_by_tree, "./song.mp3"));
}

#[test]
fn scope_files_rows_empty_when_filtered_and_no_categories_selected() {
    let mut app = sample_app();
    app.files.show_selected_categories_only = true;
    app.filters.selected_extensions.clear();

    assert!(app.scope_files_rows().is_empty());
}

#[test]
fn scope_files_rows_hides_folders_without_matching_descendants_when_filtered() {
    let mut app = app_with(vec![
        (".", vec![dir("./audio", "audio"), dir("./pdfs", "pdfs")]),
        ("./audio", vec![file("./audio/a.mp3", "a.mp3")]),
        ("./pdfs", vec![file("./pdfs/a.pdf", "a.pdf")]),
    ]);
    app.files.show_selected_categories_only = true;
    app.filters.selected_extensions.push("pdf".to_string());
    app.sync_rename_rows().expect("listings recorded");
    app.normalize_scope_files_cursor();

    let visible_names: Vec<String> = app
        .scope_files_rows()
        .into_iter()
        .map(|row| app.files.tree.nodes[row.node_id].name.clone())
        .collect();
    assert!(visible_names.contains(&"pdfs".to_string()));
    assert!(!visible_names.contains(&"audio".to_string()));
}

fn docs_tree(b_selected: bool) -> FileTree {
    let node = |parent: Option<usize>, path: &str, name: &str, is_dir: bool, children: Vec<usize>, selected: bool| FileNode {
        parent,
        path: path.to_string(),
        name: name.to_string(),
        is_dir,
        children,
        children_loaded: is_dir,
        expanded: is_dir,
        selected,
        unreadable: false,
    };
    FileTree {
        nodes: vec![
            node(None, ".", ".", true, vec![1], false),
            node(Some(0), "./docs", "docs", true, vec![2, 3], false),
            node(Some(1), "./docs/a.txt", "a.txt", false, vec![], true),
            node(Some(1), "./docs/b.txt", "b.txt", false, vec![], b_selected),
        ],
        root: 0,
        cursor: 0,
        scroll: 0,
    }
}

#[test]
fn directory_renders_selected_when_all_children_selected() {
    let mut app = sample_app();
    app.files.tree = docs_tree(true);
    assert!(app.node_selected_for_display(1));
}

#[test]
fn directory_renders_unselected_when_any_child_unselected() {
    let mut app = sample_app();
    app.files.tree = docs_tree(false);
    assert!(!app.node_selected_for_display(1));
}

#[test]
fn scope_files_scrollbar_geometry_tracks_top_middle_bottom() {
    let mut app = flat_app(100);
    let track = Rect::new(0, 5, 1, 20);

    app.files.tree.scroll = 0;
    app.set_scope_files_scrollbar_geometry(track, 100, 10);
    let top_y = app.files.scope_files_scrollbar.expect("geometry").thumb_area.y;

    app.files.tree.scroll = 45;
    app.set_scope_files_scrollbar_geometry(track, 100, 10);
    let mid_y = app.files.scope_files_scrollbar.expect("geometry").thumb_area.y;

    app.files.tree.scroll = 90;
    app.set_scope_files_scrollbar_geometry(track, 100, 10);
    let bottom = app.files.scope_files_scrollbar.expect("geometry");
    let bottom_y = bottom.thumb_area.y;

    assert_eq!(top_y, track.y);
    assert!(mid_y > top_y);
    assert!(bottom_y > mid_y);
    assert_eq!(bottom.thumb_area.y + bottom.thumb_area.height, track.y + track.height);
}

#[test]
fn scope_files_scrollbar_track_mapping_is_clamped() {
    let mut app = flat_app(100);
    let track = Rect::new(0, 10, 1, 20);
    app.set_scope_files_scrollbar_geometry(track, 100, 10);
    let geometry = app.files.scope_files_scrollbar.expect("geometry");

    let above = geometry.scroll_for_track_row_centered(track.y.saturating_sub(5));
    let below = geometry.scroll_for_track_row_centered(track.y + track.height + 5);

    assert_eq!(above, 0);
    assert_eq!(below, geometry.max_scroll);
}

#[test]
fn new_state_starts_in_scope_files_with_welcome_toast() {
    let app = sample_app();
    assert_eq!(app.log.toasts.len(), 1);
    assert_eq!(app.log.toasts[0].message, "Welcome to irm. Scope files, shape names, and simulate apply.");
    assert_eq!(app.ai.ai_settings.manual_model_input, "google/gemini-2.0-flash-001");
    assert_eq!(app.files.tree.nodes.len(), 3);
}

#[test]
fn new_state_asks_for_a_missing_listing() {
    let log = IoLog::new();
    let r = AppState::new(".".to_string(), &AppConfig::default(), Ok(Vec::new()), false, false, log);
    match r {
        Err((irium_cli::io::IoRequest::ListDir { path, show_hidden }, _)) => {
            assert_eq!(path, ".");
            assert!(!show_hidden);
        },
        _ => panic!("a listing of the working directory is needed"),
    }
}
