use irium_cli::discovery::{discovery_key, model_list_item, public_models_url, user_models_answer, user_models_url};
use irium_cli::interact::Rect;
use irium_cli::layout::{
    center, file_row_regions, files_list_layout, inner_rect, naming_row_regions, scroll_into_view, segment_rects,
};
use irium_cli::model::{ClickTarget, RenameRow, SuggestionSet};
use irium_cli::rows::{options_cut_clean, row_option_index, should_show_pending_proposed_name};

fn rect(x: u16, y: u16, width: u16, height: u16) -> Rect {
    Rect { x, y, width, height }
}

fn row(path: &str, override_name: Option<&str>) -> RenameRow {
    RenameRow {
        path: path.to_string(),
        current_name: path.trim_start_matches("./").to_string(),
        proposed_name: String::new(),
        override_name: override_name.map(|s| s.to_string()),
        group_id: 0,
        selected: true,
        conflict: false,
    }
}

fn names(a: &str, b: &str, c: &str) -> [String; 3] {
    [a.to_string(), b.to_string(), c.to_string()]
}

fn set_with(path: &str, global: usize, overrides: Vec<(String, usize)>) -> Option<SuggestionSet> {
    Some(SuggestionSet {
        request_id: 1,
        global_option_index: global,
        per_path_options: vec![(path.to_string(), names("a", "b", "c"))],
        per_path_override_index: overrides,
        source_model: "m".to_string(),
    })
}

#[test]
fn inner_rect_shrinks_by_the_border() {
    assert_eq!(inner_rect(rect(2, 3, 10, 5)), rect(3, 4, 8, 3));
    assert_eq!(inner_rect(rect(0, 0, 1, 1)), rect(1, 1, 0, 0));
}

#[test]
fn center_places_a_percentage_popup() {
    assert_eq!(center(rect(0, 0, 100, 40), 60, 30), rect(20, 14, 60, 12));
    assert_eq!(center(rect(0, 0, 1, 1), 10, 10), rect(0, 0, 1, 1));
}

#[test]
fn segments_split_evenly_with_the_rest_last() {
    let parts = segment_rects(rect(10, 2, 10, 1), 3);
    assert_eq!(parts, vec![rect(10, 2, 3, 1), rect(13, 2, 3, 1), rect(16, 2, 4, 1)]);
    assert!(segment_rects(rect(0, 0, 10, 1), 0).is_empty());
}

#[test]
fn scrolling_keeps_the_cursor_on_the_page() {
    assert_eq!(scroll_into_view(2, 5, 4), 2);
    assert_eq!(scroll_into_view(9, 0, 4), 6);
    assert_eq!(scroll_into_view(3, 1, 4), 1);
    assert_eq!(scroll_into_view(3, 1, 0), 1);
}

#[test]
fn files_list_leaves_the_last_line_and_adds_a_scrollbar_when_needed() {
    assert_eq!(files_list_layout(rect(0, 0, 20, 6), 3), Some((rect(0, 0, 20, 6), 5, false)));
    assert_eq!(files_list_layout(rect(0, 0, 20, 6), 9), Some((rect(0, 0, 19, 6), 5, true)));
    assert_eq!(files_list_layout(rect(0, 0, 20, 1), 9), None);
}

#[test]
fn file_row_regions_split_indent_checkbox_and_name() {
    let r = file_row_regions(rect(5, 0, 30, 10), 4, 2, 7);
    assert_eq!(
        r,
        vec![
            (rect(5, 4, 2, 1), ClickTarget::ScopeFileRow(7)),
            (rect(7, 4, 4, 1), ClickTarget::ScopeFileCheckbox(7)),
            (rect(11, 4, 24, 1), ClickTarget::ScopeFileRow(7)),
        ]
    );
    let r = file_row_regions(rect(0, 0, 3, 1), 0, 0, 1);
    assert_eq!(r, vec![(rect(0, 0, 3, 1), ClickTarget::ScopeFileCheckbox(1))]);
}

#[test]
fn naming_row_regions_add_option_buttons_on_wide_rows() {
    let r = naming_row_regions(rect(0, 0, 20, 5), 2, 4);
    assert_eq!(r.len(), 4);
    assert_eq!(r[0], (rect(0, 2, 20, 1), ClickTarget::NamingRow(4)));
    assert_eq!(r[1], (rect(6, 2, 4, 1), ClickTarget::NamingRowSuggestionOption { row_index: 4, option_index: 0 }));
    assert_eq!(r[3], (rect(14, 2, 4, 1), ClickTarget::NamingRowSuggestionOption { row_index: 4, option_index: 2 }));
    assert_eq!(naming_row_regions(rect(0, 0, 13, 5), 0, 0).len(), 1);
}

#[test]
fn pending_placeholder_only_without_override_or_options() {
    assert!(should_show_pending_proposed_name(&None, &row("./a.txt", None)));
    assert!(!should_show_pending_proposed_name(&None, &row("./a.txt", Some("x"))));
    assert!(should_show_pending_proposed_name(&None, &row("./a.txt", Some("   "))));
    let set = set_with("./a.txt", 0, Vec::new());
    assert!(!should_show_pending_proposed_name(&set, &row("./a.txt", None)));
    assert!(should_show_pending_proposed_name(&set, &row("./b.txt", None)));
}

#[test]
fn row_option_prefers_the_row_choice_and_caps_at_three() {
    assert_eq!(row_option_index(&None, "./a.txt"), 0);
    assert_eq!(row_option_index(&set_with("./a.txt", 1, Vec::new()), "./a.txt"), 1);
    assert_eq!(row_option_index(&set_with("./a.txt", 1, vec![("./a.txt".to_string(), 2)]), "./a.txt"), 2);
    assert_eq!(row_option_index(&set_with("./a.txt", 7, Vec::new()), "./a.txt"), 2);
    assert_eq!(row_option_index(&set_with("./a.txt", 1, Vec::new()), "./b.txt"), 0);
}

#[test]
fn option_cut_check_finds_a_split_character() {
    let ok = vec![("./r.pdf".to_string(), names("Report.PDF", "x", "y"))];
    assert!(options_cut_clean(&ok));
    // The extension lower-cases to two characters ("i" and a combining dot, three bytes),
    // so the lower-cased name ends in ".\u{69}\u{307}" while the name itself ends in a
    // shorter ".\u{130}": dropping the suffix's four bytes would cut inside "\u{e9}".
    let bad = vec![("./r.\u{130}".to_string(), names("\u{e9}.\u{130}", "x", "y"))];
    assert!(!options_cut_clean(&bad));
}

#[test]
fn discovery_uses_a_non_blank_key_and_the_account_list_when_it_answers() {
    assert_eq!(discovery_key(Some("  ")), None);
    assert_eq!(discovery_key(Some("k")), Some("k".to_string()));
    assert_eq!(discovery_key(None), None);
    assert_eq!(user_models_url(), "https://openrouter.ai/api/v1/models/user");
    assert_eq!(public_models_url(), "https://openrouter.ai/api/v1/models");
    let item = model_list_item("id-1".to_string(), None, Some(8), None, Some("0.1".to_string()));
    assert_eq!(item.name, "id-1");
    assert!(user_models_answer(&Ok(vec![item])));
    assert!(!user_models_answer(&Ok(Vec::new())));
    assert!(!user_models_answer(&Err("down".to_string())));
}
