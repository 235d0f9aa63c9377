use irium_cli::preview::{classify_path, preview_plan, PreviewKind, PreviewPlan};

#[test]
fn classify_path_recognizes_image_pdf_and_unsupported() {
    assert_eq!(classify_path("photo.png"), PreviewKind::Image);
    assert_eq!(classify_path("doc.PDF"), PreviewKind::Pdf);
    assert_eq!(classify_path("archive.zip"), PreviewKind::Unsupported);
}

#[test]
fn classify_path_without_extension_is_unsupported() {
    assert_eq!(classify_path("./docs/README"), PreviewKind::Unsupported);
    assert_eq!(classify_path("./pics/a.JPEG"), PreviewKind::Image);
}

#[test]
fn preview_plan_follows_the_kind() {
    assert_eq!(preview_plan("a.png", true), PreviewPlan::LoadImage);
    assert_eq!(preview_plan("a.pdf", true), PreviewPlan::LoadPdf);
    assert_eq!(
        preview_plan("a.zip", true),
        PreviewPlan::NotSupported("Preview not supported for this file type".to_string())
    );
    assert_eq!(
        preview_plan("dir", false),
        PreviewPlan::NotSupported("Preview is only available for files".to_string())
    );
}
