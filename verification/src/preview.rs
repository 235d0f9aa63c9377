//! Which files the preview pane can show.
use vstd::prelude::*;
use crate::paths::{ascii_lower, extension_of, spec_extension, to_ascii_lowercase};
use crate::naming::chars_equal;
use crate::text::chars_of;

verus! {

/// The kind of preview a file gets.
#[derive(Debug, Clone, Copy, PartialEq, Eq, Structural)]
pub enum PreviewKind {
    Image,
    Pdf,
    Unsupported,
}

/// What is known of a rendered preview's source.
#[derive(Debug, Clone, Copy, PartialEq, Eq, Structural)]
pub struct PreviewSourceMeta {
    pub kind: PreviewKind,
    pub width: u32,
    pub height: u32,
    pub pdf_page: Option<usize>,
}

/// Whether an extension (already lower-cased) is one of the image formats the preview reads.
pub open spec fn is_image_extension(e: Seq<char>) -> bool {
    e == "jpg"@ || e == "jpeg"@ || e == "png"@ || e == "gif"@ || e == "bmp"@ || e == "webp"@
        || e == "tif"@ || e == "tiff"@ || e == "heic"@ || e == "heif"@ || e == "svg"@
}

/// The preview kind of a path: by its extension in ASCII lower case, images and PDFs are
/// previewed and everything else is unsupported.
pub open spec fn preview_kind(p: Seq<char>) -> PreviewKind {
    match spec_extension(p) {
        Some(e) => if is_image_extension(ascii_lower(e)) {
            PreviewKind::Image
        } else if ascii_lower(e) == "pdf"@ {
            PreviewKind::Pdf
        } else {
            PreviewKind::Unsupported
        },
        None => PreviewKind::Unsupported,
    }
}

/// Whether lower-cased extension characters name an image format.
pub fn image_extension(e: &Vec<char>) -> (r: bool)
    ensures
        r == is_image_extension(e@),
{
    chars_equal(e, "jpg") || chars_equal(e, "jpeg") || chars_equal(e, "png") || chars_equal(e, "gif")
        || chars_equal(e, "bmp") || chars_equal(e, "webp") || chars_equal(e, "tif") || chars_equal(
        e,
        "tiff",
    ) || chars_equal(e, "heic") || chars_equal(e, "heif") || chars_equal(e, "svg")
}

/// Classifies a path for preview, as `preview_kind` describes.
pub fn classify_path(path: &str) -> (r: PreviewKind)
    ensures
        r == preview_kind(path@),
{
    match extension_of(path) {
        Some(ext) => {
            let lower = to_ascii_lowercase(&chars_of(ext.as_str()));
            if image_extension(&lower) {
                PreviewKind::Image
            } else if chars_equal(&lower, "pdf") {
                PreviewKind::Pdf
            } else {
                PreviewKind::Unsupported
            }
        },
        None => PreviewKind::Unsupported,
    }
}


/// The outcome of building a preview: described and ready to draw, or not supported.
#[derive(Debug, Clone)]
pub enum PreviewBuildResult {
    Ready { meta: PreviewSourceMeta },
    Unsupported { reason: String },
}

/// What building a preview of a file does: a path that is not a file, and a file of an
/// unsupported kind, get a reason; images and PDFs are loaded.
#[derive(Debug, PartialEq, Eq)]
pub enum PreviewPlan {
    NotSupported(String),
    LoadImage,
    LoadPdf,
}

/// The plan for a path, by whether it is a file and by `preview_kind`.
pub fn preview_plan(path: &str, is_file: bool) -> (r: PreviewPlan)
    ensures
        !is_file ==> (r matches PreviewPlan::NotSupported(m) && m@ == "Preview is only available for files"@),
        is_file && preview_kind(path@) == PreviewKind::Image ==> r == PreviewPlan::LoadImage,
        is_file && preview_kind(path@) == PreviewKind::Pdf ==> r == PreviewPlan::LoadPdf,
        is_file && preview_kind(path@) == PreviewKind::Unsupported ==> (r matches PreviewPlan::NotSupported(m) && m@
            == "Preview not supported for this file type"@),
{
    if !is_file {
        return PreviewPlan::NotSupported(crate::text::str_to_string("Preview is only available for files"));
    }
    match classify_path(path) {
        PreviewKind::Image => PreviewPlan::LoadImage,
        PreviewKind::Pdf => PreviewPlan::LoadPdf,
        PreviewKind::Unsupported => PreviewPlan::NotSupported(crate::text::str_to_string("Preview not supported for this file type")),
    }
}

/// The description of a loaded image.
pub fn image_meta(width: u32, height: u32) -> (m: PreviewSourceMeta)
    ensures
        m == (PreviewSourceMeta { kind: PreviewKind::Image, width, height, pdf_page: None }),
{
    PreviewSourceMeta { kind: PreviewKind::Image, width, height, pdf_page: None }
}

/// The description of a rendered PDF: its first page.
pub fn pdf_meta(width: u32, height: u32) -> (m: PreviewSourceMeta)
    ensures
        m == (PreviewSourceMeta { kind: PreviewKind::Pdf, width, height, pdf_page: Some(1usize) }),
{
    PreviewSourceMeta { kind: PreviewKind::Pdf, width, height, pdf_page: Some(1) }
}

} // verus!
