use irium_cli::model::{Capitalization, NameLength, Separator, StyleOptions};
use irium_cli::naming::{format_name, parse_style_command};

#[test]
fn format_name_applies_separator_and_caps() {
    let style = StyleOptions {
        length: NameLength::Medium,
        capitalization: Capitalization::Upper,
        separator: Separator::Underscore,
        keep_extension: true,
        strip_colons: true,
    };
    let formatted = format_name("quarterly report:final", Some("pdf"), &style);
    assert_eq!(formatted, "QUARTERLY_REPORT_FINAL.pdf");
}

#[test]
fn format_name_shortens_for_short_mode() {
    let style = StyleOptions {
        length: NameLength::Short,
        capitalization: Capitalization::Lower,
        separator: Separator::Dash,
        keep_extension: false,
        strip_colons: true,
    };
    let formatted = format_name("Very Long File Name With Many Words", None, &style);
    assert!(formatted.len() <= 12);
}

#[test]
fn format_name_handles_multibyte_chars_without_panicking() {
    let style = StyleOptions {
        length: NameLength::Short,
        capitalization: Capitalization::Title,
        separator: Separator::Space,
        keep_extension: true,
        strip_colons: true,
    };
    let formatted = format_name("가나다라마바사-테스트🙂파일", Some("txt"), &style);
    assert!(formatted.ends_with(".txt"));
    assert!(formatted.chars().count() <= 16);
}

#[test]
fn parse_style_command_recognizes_tokens() {
    let mut style = StyleOptions::default();
    let count = parse_style_command("short upper underscore no-colon", &mut style);
    assert_eq!(count, 4);
    assert_eq!(style.length, NameLength::Short);
    assert_eq!(style.capitalization, Capitalization::Upper);
    assert_eq!(style.separator, Separator::Underscore);
    assert!(style.strip_colons);
}

#[test]
fn parse_style_command_ignores_unknown_tokens() {
    let mut style = StyleOptions::default();
    let count = parse_style_command("unknown-token", &mut style);
    assert_eq!(count, 0);
}

#[test]
fn format_name_keeps_medium_title_dash() {
    let style = StyleOptions::default();
    let formatted = format_name("quarterly report", Some("pdf"), &style);
    assert_eq!(formatted, "Quarterly-Report.pdf");
}
