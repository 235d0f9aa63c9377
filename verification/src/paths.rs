//! File paths, held as strings, and the parts of them the planner reads.
use vstd::prelude::*;
use std::path::Path;

verus! {

/// The final component of a path as `Path::file_name` gives it.
pub uninterp spec fn spec_file_name(p: Seq<char>) -> Option<Seq<char>>;

/// The file name without its extension as `Path::file_stem` gives it.
pub uninterp spec fn spec_file_stem(p: Seq<char>) -> Option<Seq<char>>;

/// The extension of a path as `Path::extension` gives it.
pub uninterp spec fn spec_extension(p: Seq<char>) -> Option<Seq<char>>;

/// The path without its final component as `Path::parent` gives it.
pub uninterp spec fn spec_parent(p: Seq<char>) -> Option<Seq<char>>;

/// Whether `base` is a component-wise prefix of `p`, as `Path::starts_with` decides.
pub uninterp spec fn spec_starts_with(p: Seq<char>, base: Seq<char>) -> bool;

/// Whether two paths are equal component by component, as `Path`'s `==` decides.
pub uninterp spec fn spec_path_eq(a: Seq<char>, b: Seq<char>) -> bool;

/// Whether `a` comes before `b` in `Path`'s component-wise order.
pub uninterp spec fn spec_path_lt(a: Seq<char>, b: Seq<char>) -> bool;

/// Wraps `Path`'s `<`. `Path` orders totally, so a path never comes before one that comes
/// before it; that and the name are claimed.
#[verifier::external_body]
pub(crate) fn path_lt(a: &str, b: &str) -> (r: bool)
    ensures
        r == spec_path_lt(a@, b@),
        r ==> !spec_path_lt(b@, a@),
{
    Path::new(a) < Path::new(b)
}

/// Wraps `Path::file_name` (converted lossily to a `String`); only the name is claimed.
#[verifier::external_body]
pub(crate) fn file_name_of(p: &str) -> (r: Option<String>)
    ensures
        r matches Some(s) ==> spec_file_name(p@) == Some(s@),
        r is None ==> spec_file_name(p@) is None,
{
    match Path::new(p).file_name() {
        Some(n) => Some(n.to_string_lossy().to_string()),
        None => None,
    }
}

/// Wraps `Path::file_stem` (converted lossily to a `String`); only the name is claimed.
#[verifier::external_body]
pub(crate) fn file_stem_of(p: &str) -> (r: Option<String>)
    ensures
        r matches Some(s) ==> spec_file_stem(p@) == Some(s@),
        r is None ==> spec_file_stem(p@) is None,
{
    match Path::new(p).file_stem() {
        Some(n) => Some(n.to_string_lossy().to_string()),
        None => None,
    }
}

/// Wraps `Path::extension` (converted lossily to a `String`); only the name is claimed.
#[verifier::external_body]
pub(crate) fn extension_of(p: &str) -> (r: Option<String>)
    ensures
        r matches Some(s) ==> spec_extension(p@) == Some(s@),
        r is None ==> spec_extension(p@) is None,
{
    match Path::new(p).extension() {
        Some(n) => Some(n.to_string_lossy().to_string()),
        None => None,
    }
}

/// Wraps `Path::parent` (converted lossily to a `String`). The documentation describes the
/// parent as the path without its final component, so it is shorter than the path; that
/// and the name are claimed.
#[verifier::external_body]
pub(crate) fn parent_of(p: &str) -> (r: Option<String>)
    ensures
        r matches Some(s) ==> spec_parent(p@) == Some(s@) && s@.len() < p@.len(),
        r is None ==> spec_parent(p@) is None,
{
    match Path::new(p).parent() {
        Some(n) => Some(n.to_string_lossy().to_string()),
        None => None,
    }
}

/// Wraps `Path::starts_with`; only the name is claimed.
#[verifier::external_body]
pub(crate) fn path_starts_with(p: &str, base: &str) -> (r: bool)
    ensures
        r == spec_starts_with(p@, base@),
{
    Path::new(p).starts_with(Path::new(base))
}

/// Wraps `Path`'s `==`; only the name is claimed.
#[verifier::external_body]
pub(crate) fn path_eq(a: &str, b: &str) -> (r: bool)
    ensures
        r == spec_path_eq(a@, b@),
{
    Path::new(a) == Path::new(b)
}

/// A character with ASCII upper-case letters made lower-case, as `to_ascii_lowercase` does.
pub open spec fn ascii_lower_char(c: char) -> char {
    if 'A' <= c && c <= 'Z' {
        ((c as u32) + 32) as char
    } else {
        c
    }
}

/// Text with ASCII upper-case letters made lower-case.
pub open spec fn ascii_lower(s: Seq<char>) -> Seq<char> {
    s.map_values(|c: char| ascii_lower_char(c))
}

/// Lower-cases the ASCII letters of a character sequence, leaving others as they are.
pub fn to_ascii_lowercase(s: &Vec<char>) -> (r: Vec<char>)
    ensures
        r@ == ascii_lower(s@),
{
    let mut r: Vec<char> = Vec::new();
    let mut i: usize = 0;
    while i < s.len()
        invariant
            i <= s.len(),
            r@ == ascii_lower(s@.take(i as int)),
        decreases s.len() - i,
    {
        let c = s[i];
        let l = if 'A' <= c && c <= 'Z' {
            assert(('A' as u32) <= (c as u32) <= ('Z' as u32));
            let v: u32 = (c as u32) + 32;
            assert(0x61 <= v <= 0x7A);
            char_from_ascii(v)
        } else {
            c
        };
        assert(ascii_lower(s@.take(i + 1)) =~= ascii_lower(s@.take(i as int)).push(ascii_lower_char(c)));
        r.push(l);
        i += 1;
    }
    assert(s@.take(s.len() as int) == s@);
    r
}

/// The character with an ASCII lower-case letter's code.
fn char_from_ascii(v: u32) -> (c: char)
    requires
        0x61 <= v <= 0x7A,
    ensures
        c == v as char,
{
    let table = [
        'a', 'b', 'c', 'd', 'e', 'f', 'g', 'h', 'i', 'j', 'k', 'l', 'm', 'n', 'o', 'p', 'q', 'r',
        's', 't', 'u', 'v', 'w', 'x', 'y', 'z',
    ];
    let c = table[(v - 0x61) as usize];
    assert(c == v as char) by {
        assert(table@ == seq![
            'a', 'b', 'c', 'd', 'e', 'f', 'g', 'h', 'i', 'j', 'k', 'l', 'm', 'n', 'o', 'p', 'q',
            'r', 's', 't', 'u', 'v', 'w', 'x', 'y', 'z',
        ]);
    }
    c
}

} // verus!
