use irium_cli::ai_text::{
    collect_suggestions, enforce_total_excerpt_limit, extract_json_block, fallback_suggestions, limit_paths,
    normalize_suggestions, sanitize_filename, truncate_chars, AnalyzedFileContext, MAX_FILES_PER_RUN,
};
use irium_cli::prompts::{clean_prompt_history, prompt_history_from_json};

fn strings(v: &[&str]) -> Vec<String> {
    v.iter().map(|s| s.to_string()).collect()
}

fn context(path: &str, name: &str, ext: Option<&str>, excerpt: &str) -> AnalyzedFileContext {
    AnalyzedFileContext {
        path: path.to_string(),
        current_name: name.to_string(),
        extension: ext.map(|e| e.to_string()),
        size: 10,
        modified_unix: None,
        mime_type: None,
        detected_languages: Vec::new(),
        excerpt: excerpt.to_string(),
        warnings: Vec::new(),
    }
}

#[test]
fn sanitize_strips_matching_extension_and_trims() {
    assert_eq!(sanitize_filename("  Report.PDF ", Some("pdf")), "Report");
    assert_eq!(sanitize_filename("Report.txt", Some("pdf")), "Report.txt");
}

#[test]
fn sanitize_replaces_illegal_characters_with_spaces() {
    assert_eq!(sanitize_filename("a/b:c", None), "a b c");
    assert_eq!(sanitize_filename("x\ty", None), "x y");
}

#[test]
fn sanitize_falls_back_to_file_when_nothing_is_left() {
    assert_eq!(sanitize_filename("...", None), "file");
    assert_eq!(sanitize_filename("   ", None), "file");
    assert_eq!(sanitize_filename(" .hidden. ", None), "hidden");
}

#[test]
fn fallback_suggestions_use_the_stem() {
    let r = fallback_suggestions("notes.txt", Some("txt"));
    assert_eq!(r, ["notes".to_string(), "notes copy".to_string(), "notes final".to_string()]);
    let r = fallback_suggestions(".txt", Some("txt"));
    assert_eq!(r, ["file".to_string(), "file copy".to_string(), "file final".to_string()]);
}

#[test]
fn normalize_keeps_three_distinct_cleaned_names() {
    let raw = strings(&["Alpha.pdf", "alpha", "Alpha", "", "beta"]);
    let r = normalize_suggestions(&raw, "x.pdf", Some("pdf"));
    assert_eq!(r, ["Alpha".to_string(), "alpha".to_string(), "file".to_string()]);
}

#[test]
fn normalize_fills_from_the_fallbacks() {
    let r = normalize_suggestions(&Vec::new(), "doc.pdf", Some("pdf"));
    assert_eq!(r, ["doc".to_string(), "doc copy".to_string(), "doc final".to_string()]);
    let r = normalize_suggestions(&strings(&["doc copy"]), "doc.pdf", Some("pdf"));
    assert_eq!(r, ["doc copy".to_string(), "doc".to_string(), "doc final".to_string()]);
}

#[test]
fn extract_json_block_takes_first_open_to_last_close() {
    assert_eq!(extract_json_block("noise {\"a\":{}} tail").as_deref(), Some("{\"a\":{}}"));
    assert_eq!(extract_json_block("} {"), None);
    assert_eq!(extract_json_block("no braces"), None);
}

#[test]
fn truncate_chars_counts_characters_not_bytes() {
    assert_eq!(truncate_chars("héllo", 2), "hé");
    assert_eq!(truncate_chars("abc", 5), "abc");
    assert_eq!(truncate_chars("abc", 0), "");
}

#[test]
fn excerpt_limit_truncates_then_omits() {
    let mut files = vec![
        context("./a", "a", None, "abcd"),
        context("./b", "b", None, "efgh"),
        context("./c", "c", None, ""),
        context("./d", "d", None, "ij"),
    ];
    enforce_total_excerpt_limit(&mut files, 6);
    assert_eq!(files[0].excerpt, "abcd");
    assert!(files[0].warnings.is_empty());
    assert_eq!(files[1].excerpt, "ef");
    assert_eq!(files[1].warnings, strings(&["Excerpt truncated due to context size cap"]));
    assert_eq!(files[2].excerpt, "");
    assert!(files[2].warnings.is_empty());
    assert_eq!(files[3].excerpt, "");
    assert_eq!(files[3].warnings, strings(&["Excerpt omitted due to context size cap"]));
}

#[test]
fn collect_suggestions_uses_last_answer_row_and_falls_back() {
    let contexts = vec![
        context("./one.txt", "one.txt", Some("txt"), ""),
        context("./two.txt", "two.txt", Some("txt"), ""),
    ];
    let rows = vec![
        ("./one.txt".to_string(), strings(&["first"])),
        ("./one.txt".to_string(), strings(&["A", "B", "C"])),
    ];
    let r = collect_suggestions(&contexts, &rows);
    assert_eq!(r.len(), 2);
    assert_eq!(r[0].0, "./one.txt");
    assert_eq!(r[0].1, ["A".to_string(), "B".to_string(), "C".to_string()]);
    assert_eq!(r[1].0, "./two.txt");
    assert_eq!(r[1].1, ["two".to_string(), "two copy".to_string(), "two final".to_string()]);
}

#[test]
fn limit_paths_caps_the_request() {
    let paths: Vec<String> = (0..MAX_FILES_PER_RUN + 3).map(|i| format!("./f{i}")).collect();
    let (kept, skipped) = limit_paths(&paths);
    assert_eq!(kept.len(), MAX_FILES_PER_RUN);
    assert_eq!(skipped, 3);
    assert_eq!(kept[0], "./f0");
    let (kept, skipped) = limit_paths(&strings(&["./x"]));
    assert_eq!(kept, strings(&["./x"]));
    assert_eq!(skipped, 0);
}

#[test]
fn prompt_history_is_trimmed_and_blank_entries_dropped() {
    let r = clean_prompt_history(&strings(&["  hello ", "", "   ", "world"]));
    assert_eq!(r, strings(&["hello", "world"]));
}

#[test]
fn prompt_history_parses_a_json_array() {
    let r = prompt_history_from_json("[\" one \", \"\", \"two\"]", "/tmp/h.json").expect("valid json");
    assert_eq!(r, strings(&["one", "two"]));
}

#[test]
fn prompt_history_reports_a_parse_error_with_the_path() {
    let e = prompt_history_from_json("{not json", "/tmp/h.json").expect_err("invalid json");
    assert!(e.starts_with("Could not parse prompt history /tmp/h.json: "));
    assert!(e.len() > "Could not parse prompt history /tmp/h.json: ".len());
}
