//! The rename rows of the naming stage: which files get a row, the name proposed for each,
//! and which proposals collide.
use vstd::prelude::*;
use crate::model::{RenameRow, StyleOptions, SuggestionSet};
use crate::naming::{format_name, formatted_name};
use crate::paths::{extension_of, file_name_of, file_stem_of, spec_extension, spec_file_name, spec_file_stem};
use crate::strs::{ends_with, ends_with_str, rsplit_dot, rsplit_dot_str, strip_ext, strip_ext_str, strip_ok, trim, trim_str};
use crate::text::{push_str, spec_lowercase, str_to_lowercase, str_to_string};
use crate::fs_scan::opt_view;

verus! {

/// The stem and extension a proposal is built from: the file stem (or `file`), and the
/// lower-cased extension, or else the lower-cased text after the last dot of a file name
/// that differs from its stem.
pub open spec fn name_parts(path: Seq<char>) -> (Seq<char>, Option<Seq<char>>) {
    let file_name = match spec_file_name(path) {
        Some(n) => n,
        None => "file"@,
    };
    let stem = match spec_file_stem(path) {
        Some(n) => n,
        None => "file"@,
    };
    let ext = match spec_extension(path) {
        Some(e) => Some(spec_lowercase(e)),
        None => None,
    };
    let fallback = if file_name == stem {
        None
    } else {
        match rsplit_dot(file_name) {
            Some((_, e)) => Some(spec_lowercase(e)),
            None => None,
        }
    };
    (stem, if ext is Some {
        ext
    } else {
        fallback
    })
}

/// Computes `name_parts`.
pub fn file_name_parts(path: &str) -> (r: (String, Option<String>))
    ensures
        (r.0@, opt_view(r.1)) == name_parts(path@),
{
    proof {
        reveal_strlit("file");
    }
    let file_name = match file_name_of(path) {
        Some(n) => n,
        None => str_to_string("file"),
    };
    let stem = match file_stem_of(path) {
        Some(n) => n,
        None => str_to_string("file"),
    };
    let ext = match extension_of(path) {
        Some(e) => Some(str_to_lowercase(e.as_str())),
        None => None,
    };
    if ext.is_some() {
        return (stem, ext);
    }
    let same = crate::io::same_text(&file_name, &stem);
    if same {
        return (stem, None);
    }
    match rsplit_dot_str(file_name.as_str()) {
        Some((_, e)) => (stem, Some(str_to_lowercase(e.as_str()))),
        None => (stem, None),
    }
}

/// The current name of the file a row stands for: its file name, or `unknown`.
pub open spec fn current_name_of(path: Seq<char>) -> Seq<char> {
    match spec_file_name(path) {
        Some(n) => n,
        None => "unknown"@,
    }
}

/// Computes `current_name_of`.
pub fn current_name(path: &str) -> (r: String)
    ensures
        r@ == current_name_of(path@),
{
    proof {
        reveal_strlit("unknown");
    }
    match file_name_of(path) {
        Some(n) => n,
        None => str_to_string("unknown"),
    }
}

/// The position of the first entry of `opts` for `path`.
pub open spec fn options_at(opts: Seq<(String, [String; 3])>, path: Seq<char>) -> Option<int>
    decreases opts.len(),
{
    if opts.len() == 0 {
        None
    } else if opts[0].0@ == path {
        Some(0)
    } else {
        match options_at(opts.drop_first(), path) {
            Some(i) => Some(i + 1),
            None => None,
        }
    }
}

/// The option index chosen for `path`, if one was: the first entry for it.
pub open spec fn index_at(ovr: Seq<(String, usize)>, path: Seq<char>) -> Option<usize>
    decreases ovr.len(),
{
    if ovr.len() == 0 {
        None
    } else if ovr[0].0@ == path {
        Some(ovr[0].1)
    } else {
        index_at(ovr.drop_first(), path)
    }
}

proof fn lemma_options_at(opts: Seq<(String, [String; 3])>, path: Seq<char>)
    ensures
        options_at(opts, path) matches Some(i) ==> 0 <= i < opts.len() && opts[i].0@ == path,
    decreases opts.len(),
{
    if opts.len() > 0 && opts[0].0@ != path {
        lemma_options_at(opts.drop_first(), path);
    }
}

/// The position of the first entry of `opts` for `path`.
pub fn find_options(opts: &Vec<(String, [String; 3])>, path: &str) -> (r: Option<usize>)
    ensures
        r matches Some(i) ==> options_at(opts@, path@) == Some(i as int) && i < opts@.len(),
        r is None ==> options_at(opts@, path@) is None,
{
    let target = str_to_string(path);
    let mut i: usize = 0;
    assert(opts@.skip(0) == opts@);
    while i < opts.len()
        invariant
            i <= opts@.len(),
            target@ == path@,
            options_at(opts@, path@) == match options_at(opts@.skip(i as int), path@) {
                Some(k) => Some(k + i),
                None => None,
            },
        decreases opts@.len() - i,
    {
        let ghost rest = opts@.skip(i as int);
        assert(rest[0] == opts@[i as int]);
        assert(rest.drop_first() =~= opts@.skip(i + 1));
        if crate::io::same_text(&opts[i].0, &target) {
            return Some(i);
        }
        i += 1;
    }
    None
}

/// The option index chosen for `path`, if one was.
pub fn find_index(ovr: &Vec<(String, usize)>, path: &str) -> (r: Option<usize>)
    ensures
        r == index_at(ovr@, path@),
{
    let target = str_to_string(path);
    let mut i: usize = 0;
    assert(ovr@.skip(0) == ovr@);
    while i < ovr.len()
        invariant
            i <= ovr@.len(),
            target@ == path@,
            index_at(ovr@, path@) == index_at(ovr@.skip(i as int), path@),
        decreases ovr@.len() - i,
    {
        let ghost rest = ovr@.skip(i as int);
        assert(rest[0] == ovr@[i as int]);
        assert(rest.drop_first() =~= ovr@.skip(i + 1));
        if crate::io::same_text(&ovr[i].0, &target) {
            return Some(ovr[i].1);
        }
        i += 1;
    }
    None
}

/// The option a file uses: its own choice or the default, at most the third.
pub open spec fn option_index(set: SuggestionSet, path: Seq<char>) -> int {
    let i = match index_at(set.per_path_override_index@, path) {
        Some(i) => i as int,
        None => set.global_option_index as int,
    };
    if i > 2 {
        2
    } else {
        i
    }
}

/// The AI name a file would take: the option it uses, trimmed and without a trailing
/// `.ext`; `None` without suggestions for it or when the option is blank.
pub open spec fn ai_candidate(set: Option<SuggestionSet>, path: Seq<char>, ext: Option<Seq<char>>) -> Option<Seq<char>> {
    match set {
        None => None,
        Some(s) => match options_at(s.per_path_options@, path) {
            None => None,
            Some(k) => {
                let cand = trim(s.per_path_options@[k].1@[option_index(s, path)]@);
                if cand.len() == 0 {
                    None
                } else {
                    match ext {
                        Some(e) => Some(strip_ext(cand, e)),
                        None => Some(cand),
                    }
                }
            },
        },
    }
}

/// Every suggested name can lose its file's extension without cutting a character.
pub open spec fn options_cut_ok(opts: Seq<(String, [String; 3])>) -> bool {
    forall|k: int, j: int|
        0 <= k < opts.len() && 0 <= j < 3 ==> (name_parts(opts[k].0@).1 matches Some(e) ==> strip_ok(
            trim((#[trigger] opts[k].1@[j])@),
            e,
        ))
}

/// Whether every suggested name can lose its file's extension without cutting a character,
/// as `options_cut_ok` says.
pub fn options_cut_clean(opts: &Vec<(String, [String; 3])>) -> (r: bool)
    ensures
        r == options_cut_ok(opts@),
{
    let mut k: usize = 0;
    while k < opts.len()
        invariant
            k <= opts@.len(),
            forall|i: int, j: int|
                0 <= i < k && 0 <= j < 3 ==> (name_parts(opts@[i].0@).1 matches Some(e) ==> strip_ok(
                    trim((#[trigger] opts@[i].1@[j])@),
                    e,
                )),
        decreases opts@.len() - k,
    {
        let parts = file_name_parts(opts[k].0.as_str());
        match &parts.1 {
            Some(e) => {
                let mut j: usize = 0;
                while j < 3
                    invariant
                        k < opts@.len(),
                        j <= 3,
                        name_parts(opts@[k as int].0@).1 == Some(e@),
                        forall|m: int| 0 <= m < j ==> strip_ok(trim((#[trigger] opts@[k as int].1@[m])@), e@),
                    decreases 3 - j,
                {
                    let t = trim_str(opts[k].1[j].as_str());
                    if !crate::ai_text::strips_cleanly(t.as_str(), e.as_str()) {
                        return false;
                    }
                    j += 1;
                }
            },
            None => {},
        }
        k += 1;
    }
    true
}

/// The name proposed for a file: a non-blank override as typed (with `.ext` added when the
/// style keeps extensions and it lacks one), else the AI name formatted, else the stem
/// formatted.
pub open spec fn proposal(
    style: StyleOptions,
    set: Option<SuggestionSet>,
    path: Seq<char>,
    stem: Seq<char>,
    ext: Option<Seq<char>>,
    override_name: Option<Seq<char>>,
) -> Seq<char> {
    let typed = match override_name {
        Some(o) => trim(o),
        None => seq![],
    };
    if override_name is Some && typed.len() > 0 {
        match ext {
            Some(e) => if style.keep_extension && !ends_with(spec_lowercase(typed), seq!['.'] + e) {
                typed + seq!['.'] + e
            } else {
                typed
            },
            None => typed,
        }
    } else {
        match ai_candidate(set, path, ext) {
            Some(b) => formatted_name(b, ext, style),
            None => formatted_name(stem, ext, style),
        }
    }
}

/// A typed override wins: when the style keeps extensions, a non-blank override is proposed
/// as typed (trimmed) if it already ends, in any case, in `.` and the file's extension, and
/// with `.ext` added only if it does not; when the style drops extensions it is proposed as
/// typed.
pub proof fn lemma_override_proposal(
    style: StyleOptions,
    set: Option<SuggestionSet>,
    path: Seq<char>,
    stem: Seq<char>,
    ext: Seq<char>,
    typed: Seq<char>,
)
    requires
        trim(typed).len() > 0,
    ensures
        style.keep_extension && ends_with(spec_lowercase(trim(typed)), seq!['.'] + ext) ==> proposal(
            style,
            set,
            path,
            stem,
            Some(ext),
            Some(typed),
        ) == trim(typed),
        style.keep_extension && !ends_with(spec_lowercase(trim(typed)), seq!['.'] + ext) ==> proposal(
            style,
            set,
            path,
            stem,
            Some(ext),
            Some(typed),
        ) == trim(typed) + seq!['.'] + ext,
        !style.keep_extension ==> proposal(style, set, path, stem, Some(ext), Some(typed)) == trim(typed),
        proposal(style, set, path, stem, None, Some(typed)) == trim(typed),
{
}

/// A blank override counts as none; without one the chosen AI name is formatted, or the
/// stem when there is no AI name.
pub proof fn lemma_blank_override(
    style: StyleOptions,
    set: Option<SuggestionSet>,
    path: Seq<char>,
    stem: Seq<char>,
    ext: Option<Seq<char>>,
    typed: Seq<char>,
)
    ensures
        trim(typed).len() == 0 ==> proposal(style, set, path, stem, ext, Some(typed)) == proposal(style, set, path, stem, ext, None),
        proposal(style, set, path, stem, ext, None) == match ai_candidate(set, path, ext) {
            Some(b) => formatted_name(b, ext, style),
            None => formatted_name(stem, ext, style),
        },
{
}

/// Computes `ai_candidate`.
pub fn candidate_for_path(set: &Option<SuggestionSet>, path: &str, ext: Option<&str>) -> (r: Option<String>)
    requires
        set matches Some(s) ==> options_cut_ok(s.per_path_options@),
        set matches Some(s) ==> (ext matches Some(e) ==> (name_parts(path@).1 == Some(e@))),
    ensures
        match r {
            Some(c) => ai_candidate(*set, path@, opt_view_str(ext)) == Some(c@),
            None => ai_candidate(*set, path@, opt_view_str(ext)) is None,
        },
{
    let s = match set {
        Some(s) => s,
        None => return None,
    };
    let k = match find_options(&s.per_path_options, path) {
        Some(k) => k,
        None => return None,
    };
    let idx0 = match find_index(&s.per_path_override_index, path) {
        Some(i) => i,
        None => s.global_option_index,
    };
    let idx = if idx0 > 2 {
        2
    } else {
        idx0
    };
    let options = &s.per_path_options[k].1;
    let cand = trim_str(options[idx].as_str());
    if cand.as_str().is_empty() {
        return None;
    }
    proof {
        lemma_options_at(s.per_path_options@, path@);
    }
    match ext {
        Some(e) => {
            proof {
                assert(strip_ok(trim(s.per_path_options@[k as int].1@[idx as int]@), e@));
            }
            Some(strip_ext_str(cand.as_str(), e))
        },
        None => Some(cand),
    }
}

/// The view of an optional string slice.
pub open spec fn opt_view_str(o: Option<&str>) -> Option<Seq<char>> {
    match o {
        Some(s) => Some(s@),
        None => None,
    }
}

/// Computes `proposal`.
pub fn propose_name(
    style: &StyleOptions,
    set: &Option<SuggestionSet>,
    path: &str,
    stem: &str,
    ext: Option<&str>,
    override_name: Option<&str>,
) -> (r: String)
    requires
        set matches Some(s) ==> options_cut_ok(s.per_path_options@),
        opt_view_str(ext) == name_parts(path@).1,
    ensures
        r@ == proposal(*style, *set, path@, stem@, opt_view_str(ext), opt_view_str(override_name)),
{
    if let Some(o) = override_name {
        let typed = trim_str(o);
        if !typed.as_str().is_empty() {
            if let Some(e) = ext {
                if style.keep_extension {
                    let mut suffix = str_to_string(".");
                    push_str(&mut suffix, e);
                    proof {
                        reveal_strlit(".");
                    }
                    assert(suffix@ == seq!['.'] + e@);
                    let lower = str_to_lowercase(typed.as_str());
                    if !ends_with_str(lower.as_str(), suffix.as_str()) {
                        let mut out = typed;
                        push_str(&mut out, suffix.as_str());
                        return out;
                    }
                }
            }
            return typed;
        }
    }
    match candidate_for_path(set, path, ext) {
        Some(base) => format_name(base.as_str(), ext, style),
        None => format_name(stem, ext, style),
    }
}

/// Whether row `k` is selected and shares its proposed name with another selected row.
pub open spec fn row_conflicts(rows: Seq<RenameRow>, k: int) -> bool {
    rows[k].selected && exists|j: int|
        0 <= j < rows.len() && j != k && (#[trigger] rows[j]).selected && rows[j].proposed_name@ == rows[k].proposed_name@
}

/// Whether a row shows the "waiting for suggestions" placeholder in place of its proposed
/// name: it has no non-blank override, and there are no suggestions yet or none for its file.
pub open spec fn shows_pending(set: Option<SuggestionSet>, row: RenameRow) -> bool {
    let has_override = row.override_name matches Some(o) && trim(o@).len() > 0;
    !has_override && match set {
        None => true,
        Some(s) => options_at(s.per_path_options@, row.path@) is None,
    }
}

/// Computes `shows_pending`.
pub fn should_show_pending_proposed_name(set: &Option<SuggestionSet>, row: &RenameRow) -> (r: bool)
    ensures
        r == shows_pending(*set, *row),
{
    let has_override = match &row.override_name {
        Some(o) => !trim_str(o.as_str()).as_str().is_empty(),
        None => false,
    };
    if has_override {
        return false;
    }
    match set {
        None => true,
        Some(s) => find_options(&s.per_path_options, row.path.as_str()).is_none(),
    }
}

/// The option a row's file uses, as the rename table marks it: `option_index` when there
/// are suggestions for the file, otherwise the first.
pub open spec fn row_option(set: Option<SuggestionSet>, path: Seq<char>) -> int {
    match set {
        Some(s) => if options_at(s.per_path_options@, path) is Some { option_index(s, path) } else { 0 },
        None => 0,
    }
}

/// Computes `row_option`.
pub fn row_option_index(set: &Option<SuggestionSet>, path: &str) -> (r: usize)
    ensures
        r == row_option(*set, path@),
{
    match set {
        Some(s) => {
            if find_options(&s.per_path_options, path).is_none() {
                return 0;
            }
            let i = match find_index(&s.per_path_override_index, path) {
                Some(i) => i,
                None => s.global_option_index,
            };
            if i > 2 { 2 } else { i }
        },
        None => 0,
    }
}

} // verus!
