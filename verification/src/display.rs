//! Text shaping for the terminal screens: padding and cutting to a width, masking secrets,
//! icons and labels.
use vstd::prelude::*;
use crate::model::{Capitalization, FileNode, NameLength, Separator};
use crate::naming::chars_equal;
use crate::paths::{ascii_lower, extension_of, spec_extension, to_ascii_lowercase};
use crate::text::{chars_of, string_from};

verus! {

/// Text fitted to `width` characters: padded with spaces when shorter, otherwise cut to
/// `width - 1` characters followed by an ellipsis (just the ellipsis for width one).
pub open spec fn fitted(text: Seq<char>, width: int) -> Seq<char> {
    if width == 0 {
        seq![]
    } else if text.len() <= width {
        text + Seq::new((width - text.len()) as nat, |i: int| ' ')
    } else if width == 1 {
        seq!['\u{2026}']
    } else {
        text.take(width - 1).push('\u{2026}')
    }
}

/// Fits text to a column width, as `fitted` describes.
pub fn fit_to_width(text: &str, width: usize) -> (r: String)
    ensures
        r@ == fitted(text@, width as int),
{
    let chars = chars_of(text);
    let mut out: Vec<char> = Vec::new();
    if width == 0 {
        assert(out@ =~= fitted(text@, 0));
        return string_from(&out);
    }
    if chars.len() <= width {
        let mut i: usize = 0;
        while i < chars.len()
            invariant
                i <= chars.len(),
                out@ == chars@.take(i as int),
            decreases chars.len() - i,
        {
            out.push(chars[i]);
            assert(chars@.take(i + 1) == chars@.take(i as int).push(chars@[i as int]));
            i += 1;
        }
        let mut k: usize = chars.len();
        while k < width
            invariant
                chars.len() <= k <= width,
                out@ == chars@ + Seq::new((k - chars.len()) as nat, |i: int| ' '),
            decreases width - k,
        {
            out.push(' ');
            assert(chars@ + Seq::new((k + 1 - chars.len()) as nat, |i: int| ' ') =~= (chars@
                + Seq::new((k - chars.len()) as nat, |i: int| ' ')).push(' '));
            k += 1;
        }
        assert(chars@.take(chars.len() as int) == chars@);
        return string_from(&out);
    }
    if width == 1 {
        out.push('\u{2026}');
        assert(out@ =~= seq!['\u{2026}']);
        return string_from(&out);
    }
    let mut i: usize = 0;
    while i < width - 1
        invariant
            i <= width - 1,
            width < chars.len(),
            out@ == chars@.take(i as int),
        decreases width - 1 - i,
    {
        out.push(chars[i]);
        assert(chars@.take(i + 1) == chars@.take(i as int).push(chars@[i as int]));
        i += 1;
    }
    out.push('\u{2026}');
    string_from(&out)
}

/// The characters of a line from character position `start` on; empty when the line is
/// shorter.
pub fn slice_char_start(line: &str, start: usize) -> (r: String)
    ensures
        r@ == (if start < line@.len() { line@.skip(start as int) } else { Seq::<char>::empty() }),
{
    let chars = chars_of(line);
    let mut out: Vec<char> = Vec::new();
    let mut i: usize = start;
    while i < chars.len()
        invariant
            start <= i <= chars.len() || (i == start && start >= chars.len()),
            i <= chars.len() ==> out@ == chars@.subrange(start as int, i as int),
            i > chars.len() ==> out@.len() == 0,
        decreases chars.len() - i,
    {
        out.push(chars[i]);
        assert(chars@.subrange(start as int, i + 1) == chars@.subrange(start as int, i as int).push(
            chars@[i as int],
        ));
        i += 1;
    }
    proof {
        if start < chars@.len() {
            assert(chars@.subrange(start as int, chars@.len() as int) =~= chars@.skip(start as int));
        } else {
            assert(out@ =~= Seq::<char>::empty());
        }
    }
    string_from(&out)
}

/// A secret shown as one bullet per character, at most 32, or `<empty>`.
pub fn mask_secret(value: &str) -> (r: String)
    ensures
        r@ == (if value@.len() == 0 {
            "<empty>"@
        } else {
            Seq::new(
                if value@.len() < 32 { value@.len() } else { 32 },
                |i: int| '\u{2022}',
            )
        }),
{
    let chars = chars_of(value);
    if chars.len() == 0 {
        return crate::text::str_to_string("<empty>");
    }
    let n: usize = if chars.len() < 32 { chars.len() } else { 32 };
    let mut out: Vec<char> = Vec::new();
    let mut i: usize = 0;
    while i < n
        invariant
            i <= n,
            out@ == Seq::new(i as nat, |k: int| '\u{2022}'),
        decreases n - i,
    {
        out.push('\u{2022}');
        assert(Seq::new((i + 1) as nat, |k: int| '\u{2022}') =~= Seq::new(i as nat, |k: int| '\u{2022}').push('\u{2022}'));
        i += 1;
    }
    string_from(&out)
}

/// The label of a length setting.
pub fn format_length(length: NameLength) -> (r: &'static str)
    ensures
        r@ == match length {
            NameLength::Long => "long"@,
            NameLength::Medium => "medium"@,
            NameLength::Short => "short"@,
        },
{
    match length {
        NameLength::Long => "long",
        NameLength::Medium => "medium",
        NameLength::Short => "short",
    }
}

/// The label of a casing setting.
pub fn format_caps(caps: Capitalization) -> (r: &'static str)
    ensures
        r@ == match caps {
            Capitalization::Lower => "lower"@,
            Capitalization::Title => "title"@,
            Capitalization::Upper => "upper"@,
        },
{
    match caps {
        Capitalization::Lower => "lower",
        Capitalization::Title => "title",
        Capitalization::Upper => "upper",
    }
}

/// The label of a separator setting.
pub fn format_separator(separator: Separator) -> (r: &'static str)
    ensures
        r@ == match separator {
            Separator::Space => "space"@,
            Separator::Dash => "dash"@,
            Separator::Underscore => "underscore"@,
        },
{
    match separator {
        Separator::Space => "space",
        Separator::Dash => "dash",
        Separator::Underscore => "underscore",
    }
}

/// The star glyph a pending row shows: it alternates every twelve ticks and between
/// neighbouring rows.
pub fn pending_twinkle_star(ticks: u64, row_index: usize) -> (c: char)
    requires
        ticks / 12 + row_index <= u64::MAX,
    ensures
        c == (if (ticks / 12 + row_index) % 2 == 0 { '\u{2726}' } else { '\u{2727}' }),
{
    let phase = ((ticks / 12) + row_index as u64) % 2;
    if phase == 0 {
        '\u{2726}'
    } else {
        '\u{2727}'
    }
}

/// The kind of icon a file gets from its extension.
pub open spec fn icon_for_extension(e: Seq<char>) -> Seq<char> {
    if e == "jpg"@ || e == "jpeg"@ || e == "png"@ || e == "gif"@ || e == "bmp"@ || e == "webp"@
        || e == "tif"@ || e == "tiff"@ || e == "heic"@ || e == "heif"@ || e == "svg"@ {
        "\u{f03e}"@
    } else if e == "pdf"@ {
        "\u{f1c1}"@
    } else if e == "mp3"@ || e == "wav"@ || e == "flac"@ || e == "aac"@ || e == "m4a"@ || e
        == "ogg"@ || e == "opus"@ {
        "\u{f001}"@
    } else if e == "mp4"@ || e == "mov"@ || e == "mkv"@ || e == "avi"@ || e == "webm"@ || e
        == "m4v"@ || e == "mpg"@ || e == "mpeg"@ {
        "\u{f03d}"@
    } else {
        "\u{f15b}"@
    }
}

/// The icon of a tree node: an open or closed folder for directories, otherwise by the
/// extension in ASCII lower case (none counts as empty).
pub open spec fn node_icon_spec(node: FileNode) -> Seq<char> {
    if node.is_dir {
        if node.expanded {
            "\u{f07c}"@
        } else {
            "\u{f07b}"@
        }
    } else {
        icon_for_extension(
            match spec_extension(node.path@) {
                Some(e) => ascii_lower(e),
                None => Seq::<char>::empty(),
            },
        )
    }
}

fn any_of(e: &Vec<char>, options: &[&str]) -> (r: bool)
    ensures
        r == exists|i: int| 0 <= i < options@.len() && e@ == #[trigger] options@[i]@,
{
    let mut i: usize = 0;
    while i < options.len()
        invariant
            i <= options.len(),
            forall|j: int| 0 <= j < i ==> e@ != #[trigger] options@[j]@,
        decreases options.len() - i,
    {
        if chars_equal(e, options[i]) {
            return true;
        }
        i += 1;
    }
    false
}

/// The icon glyph for a tree node, as `node_icon_spec` describes.
pub fn node_icon(node: &FileNode) -> (r: &'static str)
    ensures
        r@ == node_icon_spec(*node),
{
    if node.is_dir {
        return if node.expanded {
            "\u{f07c}"
        } else {
            "\u{f07b}"
        };
    }
    let ext = match extension_of(node.path.as_str()) {
        Some(e) => to_ascii_lowercase(&chars_of(e.as_str())),
        None => Vec::new(),
    };
    let images: [&str; 11] = ["jpg", "jpeg", "png", "gif", "bmp", "webp", "tif", "tiff", "heic", "heif", "svg"];
    let audio: [&str; 7] = ["mp3", "wav", "flac", "aac", "m4a", "ogg", "opus"];
    let video: [&str; 8] = ["mp4", "mov", "mkv", "avi", "webm", "m4v", "mpg", "mpeg"];
    proof {
        assert(ext@ =~= match spec_extension(node.path@) {
            Some(e) => ascii_lower(e),
            None => Seq::<char>::empty(),
        });
    }
    if any_of(&ext, &images) {
        proof {
            let i = choose|i: int| 0 <= i < images@.len() && ext@ == #[trigger] images@[i]@;
            assert(images@ == seq!["jpg", "jpeg", "png", "gif", "bmp", "webp", "tif", "tiff", "heic", "heif", "svg"]);
        }
        "\u{f03e}"
    } else if chars_equal(&ext, "pdf") {
        proof {
            assert(images@ == seq!["jpg", "jpeg", "png", "gif", "bmp", "webp", "tif", "tiff", "heic", "heif", "svg"]);
            assert(forall|i: int| 0 <= i < 11 ==> ext@ != #[trigger] images@[i]@);
        }
        "\u{f1c1}"
    } else if any_of(&ext, &audio) {
        proof {
            assert(images@ == seq!["jpg", "jpeg", "png", "gif", "bmp", "webp", "tif", "tiff", "heic", "heif", "svg"]);
            assert(forall|i: int| 0 <= i < 11 ==> ext@ != #[trigger] images@[i]@);
            assert(audio@ == seq!["mp3", "wav", "flac", "aac", "m4a", "ogg", "opus"]);
            let i = choose|i: int| 0 <= i < audio@.len() && ext@ == #[trigger] audio@[i]@;
        }
        "\u{f001}"
    } else if any_of(&ext, &video) {
        proof {
            assert(images@ == seq!["jpg", "jpeg", "png", "gif", "bmp", "webp", "tif", "tiff", "heic", "heif", "svg"]);
            assert(forall|i: int| 0 <= i < 11 ==> ext@ != #[trigger] images@[i]@);
            assert(audio@ == seq!["mp3", "wav", "flac", "aac", "m4a", "ogg", "opus"]);
            assert(forall|i: int| 0 <= i < 7 ==> ext@ != #[trigger] audio@[i]@);
            assert(video@ == seq!["mp4", "mov", "mkv", "avi", "webm", "m4v", "mpg", "mpeg"]);
            let i = choose|i: int| 0 <= i < video@.len() && ext@ == #[trigger] video@[i]@;
        }
        "\u{f03d}"
    } else {
        proof {
            assert(images@ == seq!["jpg", "jpeg", "png", "gif", "bmp", "webp", "tif", "tiff", "heic", "heif", "svg"]);
            assert(forall|i: int| 0 <= i < 11 ==> ext@ != #[trigger] images@[i]@);
            assert(audio@ == seq!["mp3", "wav", "flac", "aac", "m4a", "ogg", "opus"]);
            assert(forall|i: int| 0 <= i < 7 ==> ext@ != #[trigger] audio@[i]@);
            assert(video@ == seq!["mp4", "mov", "mkv", "avi", "webm", "m4v", "mpg", "mpeg"]);
            assert(forall|i: int| 0 <= i < 8 ==> ext@ != #[trigger] video@[i]@);
        }
        "\u{f15b}"
    }
}

} // verus!
