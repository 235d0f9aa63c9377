//! Turning a file name into a proposed name under a style, and reading style
//! commands typed by the user.
use std::time::SystemTime;
use vstd::prelude::*;
use crate::model::{
    Capitalization, CategoryFilter, MarketplacePreset, NameLength, Separator, SizeConstraint,
    StyleOptions, SuggestionOption, TimeConstraint,
};
use crate::clock::{duration_since, system_now};
use crate::text::{
    char_is_alphanumeric, char_is_whitespace, char_to_uppercase, spec_is_whitespace, chars_of, spec_char_uppercase, spec_is_alphanumeric,
    spec_lowercase, spec_uppercase, str_to_lowercase, str_to_string, str_to_uppercase, string_from,
};

verus! {

/// The maximal runs of alphanumeric characters of `s`, left to right.
pub open spec fn word_runs(s: Seq<char>) -> Seq<Seq<char>>
    decreases s.len(),
{
    if s.len() == 0 {
        seq![]
    } else {
        let rest = word_runs(s.drop_last());
        let c = s.last();
        if !spec_is_alphanumeric(c) {
            rest
        } else if s.len() >= 2 && spec_is_alphanumeric(s[s.len() - 2]) {
            rest.update(rest.len() - 1, rest.last().push(c))
        } else {
            rest.push(seq![c])
        }
    }
}

/// The words of a name: its alphanumeric runs, or the single word `file` when it has none.
pub open spec fn name_words(s: Seq<char>) -> Seq<Seq<char>> {
    if word_runs(s).len() == 0 {
        seq!["file"@]
    } else {
        word_runs(s)
    }
}

proof fn lemma_word_runs_ends_alnum(s: Seq<char>)
    requires
        s.len() > 0,
        spec_is_alphanumeric(s.last()),
    ensures
        word_runs(s).len() > 0,
        word_runs(s).last().len() > 0,
    decreases s.len(),
{
    if s.len() >= 2 && spec_is_alphanumeric(s[s.len() - 2]) {
        lemma_word_runs_ends_alnum(s.drop_last());
    }
}

proof fn lemma_word_runs_nonempty_words(s: Seq<char>)
    ensures
        forall|i: int| 0 <= i < word_runs(s).len() ==> #[trigger] word_runs(s)[i].len() > 0,
    decreases s.len(),
{
    if s.len() > 0 {
        lemma_word_runs_nonempty_words(s.drop_last());
        let rest = word_runs(s.drop_last());
        let c = s.last();
        if spec_is_alphanumeric(c) {
            if s.len() >= 2 && spec_is_alphanumeric(s[s.len() - 2]) {
                lemma_word_runs_ends_alnum(s.drop_last());
                let r = rest.update(rest.len() - 1, rest.last().push(c));
                assert forall|i: int| 0 <= i < r.len() implies #[trigger] r[i].len() > 0 by {
                    if i != rest.len() - 1 {
                        assert(r[i] == rest[i]);
                    }
                }
            } else {
                let r = rest.push(seq![c]);
                assert forall|i: int| 0 <= i < r.len() implies #[trigger] r[i].len() > 0 by {
                    if i < rest.len() {
                        assert(r[i] == rest[i]);
                    }
                }
            }
        }
    }
}

/// The character sequences held by a vector of character vectors.
pub open spec fn views(v: Seq<Vec<char>>) -> Seq<Seq<char>> {
    v.map_values(|w: Vec<char>| w@)
}

proof fn lemma_views_push(v: Seq<Vec<char>>, w: Vec<char>)
    ensures
        views(v.push(w)) == views(v).push(w@),
{
    assert(views(v.push(w)) =~= views(v).push(w@));
}

/// Splits a name into its words, as `name_words` describes.
fn split_name_words(name: &str) -> (words: Vec<Vec<char>>)
    ensures
        views(words@) == name_words(name@),
{
    let chars = chars_of(name);
    let mut words: Vec<Vec<char>> = Vec::new();
    let mut current: Vec<char> = Vec::new();
    let mut i: usize = 0;
    while i < chars.len()
        invariant
            i <= chars.len(),
            chars@ == name@,
            current@.len() > 0 <==> (i > 0 && spec_is_alphanumeric(chars@[i - 1])),
            current@.len() > 0 ==> views(words@).push(current@) == word_runs(
                chars@.take(i as int),
            ),
            current@.len() == 0 ==> views(words@) == word_runs(chars@.take(i as int)),
        decreases chars.len() - i,
    {
        let c = chars[i];
        let ghost prefix = chars@.take(i as int);
        let ghost next = chars@.take(i + 1);
        assert(next.drop_last() == prefix);
        assert(next.last() == c);
        if char_is_alphanumeric(c) {
            proof {
                if current@.len() > 0 {
                    assert(next.len() >= 2 && next[next.len() - 2] == chars@[i - 1]);
                }
            }
            proof {
                if current@.len() == 0 {
                    assert(current@.push(c) =~= seq![c]);
                    assert(!(next.len() >= 2 && spec_is_alphanumeric(next[next.len() - 2])));
                    assert(views(words@).push(current@.push(c)) == word_runs(next));
                }
                if current@.len() > 0 {
                    lemma_word_runs_ends_alnum(prefix);
                    let r = word_runs(prefix);
                    assert(views(words@).push(current@) == r);
                    assert(views(words@).push(current@.push(c)) =~= r.update(
                        r.len() - 1,
                        r.last().push(c),
                    ));
                }
            }
            current.push(c);
        } else if current.len() > 0 {
            proof {
                lemma_views_push(words@, current);
            }
            words.push(current);
            current = Vec::new();
        }
        i += 1;
    }
    assert(chars@.take(chars.len() as int) == chars@);
    if current.len() > 0 {
        proof {
            lemma_views_push(words@, current);
        }
        words.push(current);
    }
    if words.len() == 0 {
        let mut file: Vec<char> = Vec::new();
        file.push('f');
        file.push('i');
        file.push('l');
        file.push('e');
        proof {
            reveal_strlit("file");
        }
        let mut out: Vec<Vec<char>> = Vec::new();
        out.push(file);
        proof {
            lemma_views_push(Seq::empty(), file);
            assert(Seq::<Vec<char>>::empty().push(file) == out@);
            assert(views(Seq::<Vec<char>>::empty()) =~= Seq::empty());
            assert(file@ =~= "file"@);
        }
        return out;
    }
    words
}


/// The number of words a length setting keeps.
pub open spec fn max_words(l: NameLength) -> int {
    match l {
        NameLength::Long => 8,
        NameLength::Medium => 4,
        NameLength::Short => 2,
    }
}

/// The number of word characters a length setting keeps.
pub open spec fn max_chars(l: NameLength) -> int {
    match l {
        NameLength::Long => 48,
        NameLength::Medium => 24,
        NameLength::Short => 12,
    }
}

/// Words cut to a character budget, in order: each word keeps as many characters
/// as the budget still allows, and words left with none are dropped.
pub open spec fn budget_words(words: Seq<Seq<char>>, budget: int) -> Seq<Seq<char>>
    decreases words.len(),
{
    if words.len() == 0 {
        seq![]
    } else {
        let w = words[0];
        let piece = if budget <= 0 {
            Seq::<char>::empty()
        } else if w.len() > budget {
            w.take(budget)
        } else {
            w
        };
        let rest = budget_words(words.drop_first(), budget - piece.len());
        if piece.len() == 0 {
            rest
        } else {
            seq![piece] + rest
        }
    }
}

/// The words that a length setting keeps: at most `max_words` of them, cut to `max_chars`
/// characters in all.
pub open spec fn fit_length(words: Seq<Seq<char>>, l: NameLength) -> Seq<Seq<char>> {
    let kept = if words.len() > max_words(l) {
        words.take(max_words(l))
    } else {
        words
    };
    budget_words(kept, max_chars(l))
}

/// Keeps the first `max_chars` characters.
fn take_chars(word: &Vec<char>, max_chars: usize) -> (r: Vec<char>)
    ensures
        r@ == (if word@.len() > max_chars { word@.take(max_chars as int) } else { word@ }),
{
    let mut r: Vec<char> = Vec::new();
    let mut i: usize = 0;
    while i < word.len() && i < max_chars
        invariant
            i <= word.len(),
            i <= max_chars,
            r@ == word@.take(i as int),
        decreases word.len() - i,
    {
        r.push(word[i]);
        assert(word@.take(i + 1) == word@.take(i as int).push(word@[i as int]));
        i += 1;
    }
    assert(word@.len() <= max_chars ==> word@.take(word@.len() as int) == word@);
    r
}

/// Cuts words to the word and character limits of a length setting.
fn apply_length(words: Vec<Vec<char>>, length: NameLength) -> (r: Vec<Vec<char>>)
    ensures
        views(r@) == fit_length(views(words@), length),
{
    let max_words: usize = match length {
        NameLength::Long => 8,
        NameLength::Medium => 4,
        NameLength::Short => 2,
    };
    let char_limit: usize = match length {
        NameLength::Long => 48,
        NameLength::Medium => 24,
        NameLength::Short => 12,
    };
    let mut words = words;
    let ghost all = views(words@);
    words.truncate(max_words);
    let ghost kept = views(words@);
    assert(kept =~= (if all.len() > max_words { all.take(max_words as int) } else { all }));
    let mut out: Vec<Vec<char>> = Vec::new();
    let mut total: usize = 0;
    let mut i: usize = 0;
    assert(kept.skip(0) == kept);
    assert(views(out@) =~= Seq::<Seq<char>>::empty());
    assert(views(out@) + budget_words(kept, char_limit as int) =~= budget_words(kept, char_limit as int));
    while i < words.len()
        invariant
            i <= words.len(),
            total <= char_limit,
            char_limit == max_chars(length),
            kept == views(words@),
            views(out@) + budget_words(kept.skip(i as int), char_limit - total) == budget_words(
                kept,
                char_limit as int,
            ),
        decreases words.len() - i,
    {
        let ghost rest_before = kept.skip(i as int);
        assert(rest_before.drop_first() == kept.skip(i + 1));
        assert(rest_before[0] == words@[i as int]@);
        if total < char_limit {
            let room = char_limit - total;
            let piece = take_chars(&words[i], room);
            if piece.len() > 0 {
                total = total + piece.len();
                proof {
                    lemma_views_push(out@, piece);
                    assert(seq![piece@] + budget_words(kept.skip(i + 1), char_limit - total)
                        == budget_words(rest_before, char_limit - (total - piece@.len())));
                    assert(views(out@).push(piece@) + budget_words(kept.skip(i + 1), char_limit - total)
                        =~= views(out@) + (seq![piece@] + budget_words(kept.skip(i + 1), char_limit - total)));
                }
                out.push(piece);
            }
        }
        i += 1;
    }
    assert(kept.skip(words.len() as int) =~= Seq::<Seq<char>>::empty());
    assert(views(out@) + Seq::<Seq<char>>::empty() =~= views(out@));
    out
}

/// One word under a casing: lower, upper, or lower with its first character upper-cased.
pub open spec fn cap_word(w: Seq<char>, c: Capitalization) -> Seq<char> {
    match c {
        Capitalization::Lower => spec_lowercase(w),
        Capitalization::Upper => spec_uppercase(w),
        Capitalization::Title => {
            let lower = spec_lowercase(w);
            if lower.len() == 0 {
                lower
            } else {
                spec_char_uppercase(lower[0]) + lower.drop_first()
            }
        },
    }
}

/// Lower case gives each word in lower case, and title case is that lower-case word with its
/// first character upper-cased.
pub proof fn lemma_word_casing(w: Seq<char>)
    ensures
        cap_word(w, Capitalization::Lower) == spec_lowercase(w),
        cap_word(w, Capitalization::Upper) == spec_uppercase(w),
        cap_word(w, Capitalization::Lower).len() == 0 ==> cap_word(w, Capitalization::Title) == cap_word(
            w,
            Capitalization::Lower,
        ),
        cap_word(w, Capitalization::Lower).len() > 0 ==> cap_word(w, Capitalization::Title) == spec_char_uppercase(
            cap_word(w, Capitalization::Lower)[0],
        ) + cap_word(w, Capitalization::Lower).drop_first(),
{
}

/// Cases one word.
fn capitalize_word(word: &Vec<char>, capitalization: Capitalization) -> (r: Vec<char>)
    ensures
        r@ == cap_word(word@, capitalization),
{
    let s = string_from(word);
    match capitalization {
        Capitalization::Lower => chars_of(str_to_lowercase(s.as_str()).as_str()),
        Capitalization::Upper => chars_of(str_to_uppercase(s.as_str()).as_str()),
        Capitalization::Title => {
            let lower = chars_of(str_to_lowercase(s.as_str()).as_str());
            if lower.len() == 0 {
                lower
            } else {
                let mut out = chars_of(char_to_uppercase(lower[0]).as_str());
                let mut i: usize = 1;
                let ghost head = out@;
                while i < lower.len()
                    invariant
                        1 <= i <= lower.len(),
                        out@ == head + lower@.subrange(1, i as int),
                    decreases lower.len() - i,
                {
                    assert(lower@.subrange(1, i + 1) == lower@.subrange(1, i as int).push(lower@[i as int]));
                    out.push(lower[i]);
                    i += 1;
                }
                assert(lower@.subrange(1, lower@.len() as int) =~= lower@.drop_first());
                out
            }
        },
    }
}

/// Cases every word.
fn apply_capitalization(words: &Vec<Vec<char>>, capitalization: Capitalization) -> (r: Vec<Vec<char>>)
    ensures
        views(r@) == views(words@).map_values(|w: Seq<char>| cap_word(w, capitalization)),
{
    let mut out: Vec<Vec<char>> = Vec::new();
    let mut i: usize = 0;
    while i < words.len()
        invariant
            i <= words.len(),
            views(out@) == views(words@).take(i as int).map_values(|w: Seq<char>| cap_word(w, capitalization)),
        decreases words.len() - i,
    {
        let w = capitalize_word(&words[i], capitalization);
        proof {
            lemma_views_push(out@, w);
            assert(views(words@).take(i + 1).map_values(|w: Seq<char>| cap_word(w, capitalization))
                =~= views(words@).take(i as int).map_values(|w: Seq<char>| cap_word(w, capitalization)).push(w@));
        }
        out.push(w);
        i += 1;
    }
    assert(views(words@).take(words.len() as int) =~= views(words@));
    out
}

/// The character that a separator setting puts between words.
pub open spec fn separator_char(s: Separator) -> char {
    match s {
        Separator::Space => ' ',
        Separator::Dash => '-',
        Separator::Underscore => '_',
    }
}

/// Words joined with one separator character between neighbours.
pub open spec fn join_with(words: Seq<Seq<char>>, sep: char) -> Seq<char>
    decreases words.len(),
{
    if words.len() == 0 {
        seq![]
    } else if words.len() == 1 {
        words[0]
    } else {
        join_with(words.drop_last(), sep).push(sep) + words.last()
    }
}

/// Joins words with the separator of a setting.
fn join_words(words: &Vec<Vec<char>>, separator: Separator) -> (r: Vec<char>)
    ensures
        r@ == join_with(views(words@), separator_char(separator)),
{
    let sep = match separator {
        Separator::Space => ' ',
        Separator::Dash => '-',
        Separator::Underscore => '_',
    };
    let mut out: Vec<char> = Vec::new();
    let mut i: usize = 0;
    while i < words.len()
        invariant
            i <= words.len(),
            sep == separator_char(separator),
            out@ == join_with(views(words@).take(i as int), sep),
        decreases words.len() - i,
    {
        let ghost before = out@;
        if i > 0 {
            out.push(sep);
        }
        let w = &words[i];
        let mut j: usize = 0;
        let ghost mid = out@;
        while j < w.len()
            invariant
                j <= w.len(),
                out@ == mid + w@.take(j as int),
            decreases w.len() - j,
        {
            out.push(w[j]);
            assert(w@.take(j + 1) == w@.take(j as int).push(w@[j as int]));
            j += 1;
        }
        proof {
            assert(w@.take(w@.len() as int) == w@);
            let t = views(words@).take(i + 1);
            assert(t.drop_last() =~= views(words@).take(i as int));
            assert(t.last() == w@);
            if i == 0 {
                assert(before =~= Seq::<char>::empty());
                assert(out@ =~= w@);
            }
        }
        i += 1;
    }
    assert(views(words@).take(words.len() as int) =~= views(words@));
    out
}

/// Each `:` turned into a space.
pub open spec fn colons_to_spaces(s: Seq<char>) -> Seq<char> {
    s.map_values(|c: char| if c == ':' { ' ' } else { c })
}

/// The stem of a proposed name: the words of `base` (colons read as spaces when the
/// style strips them) cut to length, cased and joined, or `file` when nothing is left.
pub open spec fn formatted_stem(base: Seq<char>, style: StyleOptions) -> Seq<char> {
    let working = if style.strip_colons {
        colons_to_spaces(base)
    } else {
        base
    };
    let words = fit_length(name_words(working), style.length);
    let joined = join_with(
        words.map_values(|w: Seq<char>| cap_word(w, style.capitalization)),
        separator_char(style.separator),
    );
    if joined.len() == 0 {
        "file"@
    } else {
        joined
    }
}

/// Under lower case the stem is the words, each in lower case, joined with the separator
/// (or `file` when nothing is left); the other settings only choose the words and the
/// separator.
pub proof fn lemma_lower_stem(base: Seq<char>, style: StyleOptions)
    requires
        style.capitalization == Capitalization::Lower,
    ensures
        ({
            let working = if style.strip_colons { colons_to_spaces(base) } else { base };
            let words = fit_length(name_words(working), style.length);
            let joined = join_with(words.map_values(|w: Seq<char>| spec_lowercase(w)), separator_char(style.separator));
            formatted_stem(base, style) == if joined.len() == 0 { "file"@ } else { joined }
        }),
{
    let working = if style.strip_colons { colons_to_spaces(base) } else { base };
    let words = fit_length(name_words(working), style.length);
    assert(words.map_values(|w: Seq<char>| cap_word(w, style.capitalization)) =~= words.map_values(
        |w: Seq<char>| spec_lowercase(w),
    ));
}

/// The shape of a formatted name: never an empty stem; the stem, then `.` and the
/// extension when the style keeps it and there is one; the words joined by `-`, `_` or a
/// space as the separator setting says.
pub proof fn lemma_name_shape(base: Seq<char>, ext: Seq<char>, style: StyleOptions)
    ensures
        formatted_stem(base, style).len() > 0,
        style.keep_extension ==> formatted_name(base, Some(ext), style) == formatted_stem(base, style) + seq!['.'] + ext,
        !style.keep_extension ==> formatted_name(base, Some(ext), style) == formatted_stem(base, style),
        formatted_name(base, None, style) == formatted_stem(base, style),
        separator_char(Separator::Dash) == '-',
        separator_char(Separator::Underscore) == '_',
        separator_char(Separator::Space) == ' ',
{
    reveal_strlit("file");
    assert(formatted_stem(base, style).push('.') + ext =~= formatted_stem(base, style) + seq!['.'] + ext);
}

/// A proposed name: the formatted stem, then `.` and the extension when the style keeps it
/// and there is one.
pub open spec fn formatted_name(base: Seq<char>, extension: Option<Seq<char>>, style: StyleOptions) -> Seq<char> {
    let stem = formatted_stem(base, style);
    match extension {
        Some(ext) => if style.keep_extension {
            stem.push('.') + ext
        } else {
            stem
        },
        None => stem,
    }
}

/// The view of an optional string slice.
pub open spec fn opt_view(o: Option<&str>) -> Option<Seq<char>> {
    match o {
        Some(s) => Some(s@),
        None => None,
    }
}

/// Formats a file's base name under a style, as `formatted_name` describes.
pub fn format_name(base_name: &str, extension: Option<&str>, style: &StyleOptions) -> (r: String)
    ensures
        r@ == formatted_name(base_name@, opt_view(extension), *style),
{
    let base = chars_of(base_name);
    let mut working: Vec<char> = Vec::new();
    let mut i: usize = 0;
    while i < base.len()
        invariant
            i <= base.len(),
            working@ == (if style.strip_colons { colons_to_spaces(base@.take(i as int)) } else { base@.take(i as int) }),
        decreases base.len() - i,
    {
        let c = base[i];
        if style.strip_colons && c == ':' {
            working.push(' ');
        } else {
            working.push(c);
        }
        assert(base@.take(i + 1) == base@.take(i as int).push(c));
        assert(colons_to_spaces(base@.take(i + 1)) =~= colons_to_spaces(base@.take(i as int)).push(
            if c == ':' { ' ' } else { c },
        ));
        i += 1;
    }
    assert(base@.take(base.len() as int) == base@);
    let working_str = string_from(&working);
    let words = split_name_words(working_str.as_str());
    let words = apply_length(words, style.length);
    let words = apply_capitalization(&words, style.capitalization);
    let mut out = join_words(&words, style.separator);
    if out.len() == 0 {
        out.push('f');
        out.push('i');
        out.push('l');
        out.push('e');
        proof {
            reveal_strlit("file");
            assert(out@ =~= "file"@);
        }
    }
    if style.keep_extension {
        if let Some(ext) = extension {
            out.push('.');
            let e = chars_of(ext);
            let mut k: usize = 0;
            let ghost mid = out@;
            while k < e.len()
                invariant
                    k <= e.len(),
                    out@ == mid + e@.take(k as int),
                decreases e.len() - k,
            {
                out.push(e[k]);
                assert(e@.take(k + 1) == e@.take(k as int).push(e@[k as int]));
                k += 1;
            }
            assert(e@.take(e.len() as int) == e@);
        }
    }
    string_from(&out)
}


/// The maximal runs of non-whitespace characters of `s`: what `str::split_whitespace` yields.
pub open spec fn whitespace_tokens(s: Seq<char>) -> Seq<Seq<char>>
    decreases s.len(),
{
    if s.len() == 0 {
        seq![]
    } else {
        let rest = whitespace_tokens(s.drop_last());
        let c = s.last();
        if spec_is_whitespace(c) {
            rest
        } else if s.len() >= 2 && !spec_is_whitespace(s[s.len() - 2]) {
            rest.update(rest.len() - 1, rest.last().push(c))
        } else {
            rest.push(seq![c])
        }
    }
}

proof fn lemma_tokens_end(s: Seq<char>)
    requires
        s.len() > 0,
        !spec_is_whitespace(s.last()),
    ensures
        whitespace_tokens(s).len() > 0,
    decreases s.len(),
{
    if s.len() >= 2 && !spec_is_whitespace(s[s.len() - 2]) {
        lemma_tokens_end(s.drop_last());
    }
}

/// Splits text at whitespace, as `whitespace_tokens` describes.
pub fn split_whitespace_chars(text: &str) -> (tokens: Vec<Vec<char>>)
    ensures
        views(tokens@) == whitespace_tokens(text@),
{
    let chars = chars_of(text);
    let mut words: Vec<Vec<char>> = Vec::new();
    let mut current: Vec<char> = Vec::new();
    let mut i: usize = 0;
    while i < chars.len()
        invariant
            i <= chars.len(),
            chars@ == text@,
            current@.len() > 0 <==> (i > 0 && !spec_is_whitespace(chars@[i - 1])),
            current@.len() > 0 ==> views(words@).push(current@) == whitespace_tokens(
                chars@.take(i as int),
            ),
            current@.len() == 0 ==> views(words@) == whitespace_tokens(chars@.take(i as int)),
        decreases chars.len() - i,
    {
        let c = chars[i];
        let ghost prefix = chars@.take(i as int);
        let ghost next = chars@.take(i + 1);
        assert(next.drop_last() == prefix);
        assert(next.last() == c);
        if !char_is_whitespace(c) {
            proof {
                if current@.len() > 0 {
                    assert(next.len() >= 2 && next[next.len() - 2] == chars@[i - 1]);
                }
                if current@.len() == 0 {
                    assert(current@.push(c) =~= seq![c]);
                    assert(!(next.len() >= 2 && !spec_is_whitespace(next[next.len() - 2])));
                    assert(views(words@).push(current@.push(c)) == whitespace_tokens(next));
                }
                if current@.len() > 0 {
                    lemma_tokens_end(prefix);
                    let r = whitespace_tokens(prefix);
                    assert(views(words@).push(current@) == r);
                    assert(views(words@).push(current@.push(c)) =~= r.update(
                        r.len() - 1,
                        r.last().push(c),
                    ));
                }
            }
            current.push(c);
        } else if current.len() > 0 {
            proof {
                lemma_views_push(words@, current);
            }
            words.push(current);
            current = Vec::new();
        }
        i += 1;
    }
    assert(chars@.take(chars.len() as int) == chars@);
    if current.len() > 0 {
        proof {
            lemma_views_push(words@, current);
        }
        words.push(current);
    }
    words
}

/// Whether a character vector spells the given text.
pub fn chars_equal(a: &Vec<char>, b: &str) -> (r: bool)
    ensures
        r == (a@ == b@),
{
    let bc = chars_of(b);
    if a.len() != bc.len() {
        return false;
    }
    let mut i: usize = 0;
    while i < a.len()
        invariant
            i <= a.len(),
            a.len() == bc.len(),
            bc@ == b@,
            forall|j: int| 0 <= j < i ==> a@[j] == bc@[j],
        decreases a.len() - i,
    {
        if a[i] != bc[i] {
            return false;
        }
        i += 1;
    }
    assert(a@ =~= bc@);
    true
}

/// The style after one command token, or `None` when the token (compared in lower case)
/// names no setting.
pub open spec fn style_token(style: StyleOptions, token: Seq<char>) -> Option<StyleOptions> {
    let t = spec_lowercase(token);
    if t == "short"@ {
        Some(StyleOptions { length: NameLength::Short, ..style })
    } else if t == "medium"@ {
        Some(StyleOptions { length: NameLength::Medium, ..style })
    } else if t == "long"@ {
        Some(StyleOptions { length: NameLength::Long, ..style })
    } else if t == "lower"@ || t == "lowercase"@ {
        Some(StyleOptions { capitalization: Capitalization::Lower, ..style })
    } else if t == "upper"@ || t == "uppercase"@ {
        Some(StyleOptions { capitalization: Capitalization::Upper, ..style })
    } else if t == "title"@ {
        Some(StyleOptions { capitalization: Capitalization::Title, ..style })
    } else if t == "space"@ || t == "spaces"@ {
        Some(StyleOptions { separator: Separator::Space, ..style })
    } else if t == "dash"@ || t == "dashes"@ || t == "kebab"@ {
        Some(StyleOptions { separator: Separator::Dash, ..style })
    } else if t == "underscore"@ || t == "snake"@ {
        Some(StyleOptions { separator: Separator::Underscore, ..style })
    } else if t == "keep-ext"@ || t == "keepext"@ {
        Some(StyleOptions { keep_extension: true, ..style })
    } else if t == "drop-ext"@ || t == "no-ext"@ {
        Some(StyleOptions { keep_extension: false, ..style })
    } else if t == "no-colon"@ || t == "no-colons"@ {
        Some(StyleOptions { strip_colons: true, ..style })
    } else if t == "allow-colon"@ || t == "colons"@ {
        Some(StyleOptions { strip_colons: false, ..style })
    } else {
        None
    }
}

/// A command of one word applies that word: a word naming a setting counts once, any
/// other word changes nothing and counts nothing.
pub proof fn lemma_one_word_command(style: StyleOptions, token: Seq<char>)
    ensures
        style_tokens(style, seq![token]) == match style_token(style, token) {
            Some(s) => (s, 1nat),
            None => (style, 0nat),
        },
{
    assert(seq![token].drop_last() =~= Seq::<Seq<char>>::empty());
    assert(seq![token].last() == token);
    assert(style_tokens(style, Seq::<Seq<char>>::empty()) == (style, 0nat));
    reveal_with_fuel(style_tokens, 2);
}

/// Each command word sets the one setting it names and leaves the others (compared in
/// lower case): `short`, `medium`, `long` the length; `lower`/`lowercase`, `upper`/
/// `uppercase`, `title` the casing; `space`/`spaces`, `dash`/`dashes`/`kebab`,
/// `underscore`/`snake` the separator; `keep-ext`/`keepext` and `drop-ext`/`no-ext` the
/// extension; `no-colon`/`no-colons` and `allow-colon`/`colons` the colons.
pub proof fn lemma_style_token_meanings(style: StyleOptions, token: Seq<char>)
    ensures
        ({
            let t = spec_lowercase(token);
            &&& t == "short"@ ==> style_token(style, token) == Some(StyleOptions { length: NameLength::Short, ..style })
            &&& t == "medium"@ ==> style_token(style, token) == Some(StyleOptions { length: NameLength::Medium, ..style })
            &&& t == "long"@ ==> style_token(style, token) == Some(StyleOptions { length: NameLength::Long, ..style })
            &&& t == "lower"@ || t == "lowercase"@ ==> style_token(style, token) == Some(StyleOptions { capitalization: Capitalization::Lower, ..style })
            &&& t == "upper"@ || t == "uppercase"@ ==> style_token(style, token) == Some(StyleOptions { capitalization: Capitalization::Upper, ..style })
            &&& t == "title"@ ==> style_token(style, token) == Some(StyleOptions { capitalization: Capitalization::Title, ..style })
            &&& t == "space"@ || t == "spaces"@ ==> style_token(style, token) == Some(StyleOptions { separator: Separator::Space, ..style })
            &&& t == "dash"@ || t == "dashes"@ || t == "kebab"@ ==> style_token(style, token) == Some(StyleOptions { separator: Separator::Dash, ..style })
            &&& t == "underscore"@ || t == "snake"@ ==> style_token(style, token) == Some(StyleOptions { separator: Separator::Underscore, ..style })
            &&& t == "keep-ext"@ || t == "keepext"@ ==> style_token(style, token) == Some(StyleOptions { keep_extension: true, ..style })
            &&& t == "drop-ext"@ || t == "no-ext"@ ==> style_token(style, token) == Some(StyleOptions { keep_extension: false, ..style })
            &&& t == "no-colon"@ || t == "no-colons"@ ==> style_token(style, token) == Some(StyleOptions { strip_colons: true, ..style })
            &&& t == "allow-colon"@ || t == "colons"@ ==> style_token(style, token) == Some(StyleOptions { strip_colons: false, ..style })
        }),
{
    let t = spec_lowercase(token);
    reveal_strlit("short");
    reveal_strlit("medium");
    reveal_strlit("long");
    reveal_strlit("lower");
    reveal_strlit("lowercase");
    reveal_strlit("upper");
    reveal_strlit("uppercase");
    reveal_strlit("title");
    reveal_strlit("space");
    reveal_strlit("spaces");
    reveal_strlit("dash");
    reveal_strlit("dashes");
    reveal_strlit("kebab");
    reveal_strlit("underscore");
    reveal_strlit("snake");
    reveal_strlit("keep-ext");
    reveal_strlit("keepext");
    reveal_strlit("drop-ext");
    reveal_strlit("no-ext");
    reveal_strlit("no-colon");
    reveal_strlit("no-colons");
    reveal_strlit("allow-colon");
    reveal_strlit("colons");
    if t == "medium"@ {
        assert(t != "short"@) by {
            if t == "short"@ {
                assert(t.len() == "short"@.len());
            }
        }
    }
    if t == "long"@ {
        assert(t != "short"@) by {
            if t == "short"@ {
                assert(t.len() == "short"@.len());
            }
        }
        assert(t != "medium"@) by {
            if t == "medium"@ {
                assert(t.len() == "medium"@.len());
            }
        }
    }
    if t == "lower"@ || t == "lowercase"@ {
        assert(t != "short"@) by {
            if t == "short"@ {
                assert(t.len() == "short"@.len());
                assert(t[0] == "short"@[0]);
            }
        }
        assert(t != "medium"@) by {
            if t == "medium"@ {
                assert(t.len() == "medium"@.len());
            }
        }
        assert(t != "long"@) by {
            if t == "long"@ {
                assert(t.len() == "long"@.len());
            }
        }
    }
    if t == "upper"@ || t == "uppercase"@ {
        assert(t != "short"@) by {
            if t == "short"@ {
                assert(t.len() == "short"@.len());
                assert(t[0] == "short"@[0]);
            }
        }
        assert(t != "medium"@) by {
            if t == "medium"@ {
                assert(t.len() == "medium"@.len());
            }
        }
        assert(t != "long"@) by {
            if t == "long"@ {
                assert(t.len() == "long"@.len());
            }
        }
        assert(t != "lower"@) by {
            if t == "lower"@ {
                assert(t.len() == "lower"@.len());
                assert(t[0] == "lower"@[0]);
            }
        }
        assert(t != "lowercase"@) by {
            if t == "lowercase"@ {
                assert(t.len() == "lowercase"@.len());
                assert(t[0] == "lowercase"@[0]);
            }
        }
    }
    if t == "title"@ {
        assert(t != "short"@) by {
            if t == "short"@ {
                assert(t.len() == "short"@.len());
                assert(t[0] == "short"@[0]);
            }
        }
        assert(t != "medium"@) by {
            if t == "medium"@ {
                assert(t.len() == "medium"@.len());
            }
        }
        assert(t != "long"@) by {
            if t == "long"@ {
                assert(t.len() == "long"@.len());
            }
        }
        assert(t != "lower"@) by {
            if t == "lower"@ {
                assert(t.len() == "lower"@.len());
                assert(t[0] == "lower"@[0]);
            }
        }
        assert(t != "lowercase"@) by {
            if t == "lowercase"@ {
                assert(t.len() == "lowercase"@.len());
            }
        }
        assert(t != "upper"@) by {
            if t == "upper"@ {
                assert(t.len() == "upper"@.len());
                assert(t[0] == "upper"@[0]);
            }
        }
        assert(t != "uppercase"@) by {
            if t == "uppercase"@ {
                assert(t.len() == "uppercase"@.len());
            }
        }
    }
    if t == "space"@ || t == "spaces"@ {
        assert(t != "short"@) by {
            if t == "short"@ {
                assert(t.len() == "short"@.len());
                assert(t[1] == "short"@[1]);
            }
        }
        assert(t != "medium"@) by {
            if t == "medium"@ {
                assert(t.len() == "medium"@.len());
                assert(t[0] == "medium"@[0]);
            }
        }
        assert(t != "long"@) by {
            if t == "long"@ {
                assert(t.len() == "long"@.len());
            }
        }
        assert(t != "lower"@) by {
            if t == "lower"@ {
                assert(t.len() == "lower"@.len());
                assert(t[0] == "lower"@[0]);
            }
        }
        assert(t != "lowercase"@) by {
            if t == "lowercase"@ {
                assert(t.len() == "lowercase"@.len());
            }
        }
        assert(t != "upper"@) by {
            if t == "upper"@ {
                assert(t.len() == "upper"@.len());
                assert(t[0] == "upper"@[0]);
            }
        }
        assert(t != "uppercase"@) by {
            if t == "uppercase"@ {
                assert(t.len() == "uppercase"@.len());
            }
        }
        assert(t != "title"@) by {
            if t == "title"@ {
                assert(t.len() == "title"@.len());
                assert(t[0] == "title"@[0]);
            }
        }
    }
    if t == "dash"@ || t == "dashes"@ || t == "kebab"@ {
        assert(t != "short"@) by {
            if t == "short"@ {
                assert(t.len() == "short"@.len());
                assert(t[0] == "short"@[0]);
            }
        }
        assert(t != "medium"@) by {
            if t == "medium"@ {
                assert(t.len() == "medium"@.len());
                assert(t[0] == "medium"@[0]);
            }
        }
        assert(t != "long"@) by {
            if t == "long"@ {
                assert(t.len() == "long"@.len());
                assert(t[0] == "long"@[0]);
            }
        }
        assert(t != "lower"@) by {
            if t == "lower"@ {
                assert(t.len() == "lower"@.len());
                assert(t[0] == "lower"@[0]);
            }
        }
        assert(t != "lowercase"@) by {
            if t == "lowercase"@ {
                assert(t.len() == "lowercase"@.len());
            }
        }
        assert(t != "upper"@) by {
            if t == "upper"@ {
                assert(t.len() == "upper"@.len());
                assert(t[0] == "upper"@[0]);
            }
        }
        assert(t != "uppercase"@) by {
            if t == "uppercase"@ {
                assert(t.len() == "uppercase"@.len());
            }
        }
        assert(t != "title"@) by {
            if t == "title"@ {
                assert(t.len() == "title"@.len());
                assert(t[0] == "title"@[0]);
            }
        }
        assert(t != "space"@) by {
            if t == "space"@ {
                assert(t.len() == "space"@.len());
                assert(t[0] == "space"@[0]);
            }
        }
        assert(t != "spaces"@) by {
            if t == "spaces"@ {
                assert(t.len() == "spaces"@.len());
                assert(t[0] == "spaces"@[0]);
            }
        }
    }
    if t == "underscore"@ || t == "snake"@ {
        assert(t != "short"@) by {
            if t == "short"@ {
                assert(t.len() == "short"@.len());
                assert(t[1] == "short"@[1]);
            }
        }
        assert(t != "medium"@) by {
            if t == "medium"@ {
                assert(t.len() == "medium"@.len());
            }
        }
        assert(t != "long"@) by {
            if t == "long"@ {
                assert(t.len() == "long"@.len());
            }
        }
        assert(t != "lower"@) by {
            if t == "lower"@ {
                assert(t.len() == "lower"@.len());
                assert(t[0] == "lower"@[0]);
            }
        }
        assert(t != "lowercase"@) by {
            if t == "lowercase"@ {
                assert(t.len() == "lowercase"@.len());
            }
        }
        assert(t != "upper"@) by {
            if t == "upper"@ {
                assert(t.len() == "upper"@.len());
                assert(t[0] == "upper"@[0]);
            }
        }
        assert(t != "uppercase"@) by {
            if t == "uppercase"@ {
                assert(t.len() == "uppercase"@.len());
            }
        }
        assert(t != "title"@) by {
            if t == "title"@ {
                assert(t.len() == "title"@.len());
                assert(t[0] == "title"@[0]);
            }
        }
        assert(t != "space"@) by {
            if t == "space"@ {
                assert(t.len() == "space"@.len());
                assert(t[1] == "space"@[1]);
            }
        }
        assert(t != "spaces"@) by {
            if t == "spaces"@ {
                assert(t.len() == "spaces"@.len());
            }
        }
        assert(t != "dash"@) by {
            if t == "dash"@ {
                assert(t.len() == "dash"@.len());
            }
        }
        assert(t != "dashes"@) by {
            if t == "dashes"@ {
                assert(t.len() == "dashes"@.len());
            }
        }
        assert(t != "kebab"@) by {
            if t == "kebab"@ {
                assert(t.len() == "kebab"@.len());
                assert(t[0] == "kebab"@[0]);
            }
        }
    }
    if t == "keep-ext"@ || t == "keepext"@ {
        assert(t != "short"@) by {
            if t == "short"@ {
                assert(t.len() == "short"@.len());
            }
        }
        assert(t != "medium"@) by {
            if t == "medium"@ {
                assert(t.len() == "medium"@.len());
            }
        }
        assert(t != "long"@) by {
            if t == "long"@ {
                assert(t.len() == "long"@.len());
            }
        }
        assert(t != "lower"@) by {
            if t == "lower"@ {
                assert(t.len() == "lower"@.len());
            }
        }
        assert(t != "lowercase"@) by {
            if t == "lowercase"@ {
                assert(t.len() == "lowercase"@.len());
            }
        }
        assert(t != "upper"@) by {
            if t == "upper"@ {
                assert(t.len() == "upper"@.len());
            }
        }
        assert(t != "uppercase"@) by {
            if t == "uppercase"@ {
                assert(t.len() == "uppercase"@.len());
            }
        }
        assert(t != "title"@) by {
            if t == "title"@ {
                assert(t.len() == "title"@.len());
            }
        }
        assert(t != "space"@) by {
            if t == "space"@ {
                assert(t.len() == "space"@.len());
            }
        }
        assert(t != "spaces"@) by {
            if t == "spaces"@ {
                assert(t.len() == "spaces"@.len());
            }
        }
        assert(t != "dash"@) by {
            if t == "dash"@ {
                assert(t.len() == "dash"@.len());
            }
        }
        assert(t != "dashes"@) by {
            if t == "dashes"@ {
                assert(t.len() == "dashes"@.len());
            }
        }
        assert(t != "kebab"@) by {
            if t == "kebab"@ {
                assert(t.len() == "kebab"@.len());
            }
        }
        assert(t != "underscore"@) by {
            if t == "underscore"@ {
                assert(t.len() == "underscore"@.len());
            }
        }
        assert(t != "snake"@) by {
            if t == "snake"@ {
                assert(t.len() == "snake"@.len());
            }
        }
    }
    if t == "drop-ext"@ || t == "no-ext"@ {
        assert(t != "short"@) by {
            if t == "short"@ {
                assert(t.len() == "short"@.len());
            }
        }
        assert(t != "medium"@) by {
            if t == "medium"@ {
                assert(t.len() == "medium"@.len());
                assert(t[0] == "medium"@[0]);
            }
        }
        assert(t != "long"@) by {
            if t == "long"@ {
                assert(t.len() == "long"@.len());
            }
        }
        assert(t != "lower"@) by {
            if t == "lower"@ {
                assert(t.len() == "lower"@.len());
            }
        }
        assert(t != "lowercase"@) by {
            if t == "lowercase"@ {
                assert(t.len() == "lowercase"@.len());
            }
        }
        assert(t != "upper"@) by {
            if t == "upper"@ {
                assert(t.len() == "upper"@.len());
            }
        }
        assert(t != "uppercase"@) by {
            if t == "uppercase"@ {
                assert(t.len() == "uppercase"@.len());
            }
        }
        assert(t != "title"@) by {
            if t == "title"@ {
                assert(t.len() == "title"@.len());
            }
        }
        assert(t != "space"@) by {
            if t == "space"@ {
                assert(t.len() == "space"@.len());
            }
        }
        assert(t != "spaces"@) by {
            if t == "spaces"@ {
                assert(t.len() == "spaces"@.len());
                assert(t[0] == "spaces"@[0]);
            }
        }
        assert(t != "dash"@) by {
            if t == "dash"@ {
                assert(t.len() == "dash"@.len());
            }
        }
        assert(t != "dashes"@) by {
            if t == "dashes"@ {
                assert(t.len() == "dashes"@.len());
                assert(t[0] == "dashes"@[0]);
            }
        }
        assert(t != "kebab"@) by {
            if t == "kebab"@ {
                assert(t.len() == "kebab"@.len());
            }
        }
        assert(t != "underscore"@) by {
            if t == "underscore"@ {
                assert(t.len() == "underscore"@.len());
            }
        }
        assert(t != "snake"@) by {
            if t == "snake"@ {
                assert(t.len() == "snake"@.len());
            }
        }
        assert(t != "keep-ext"@) by {
            if t == "keep-ext"@ {
                assert(t.len() == "keep-ext"@.len());
                assert(t[0] == "keep-ext"@[0]);
            }
        }
        assert(t != "keepext"@) by {
            if t == "keepext"@ {
                assert(t.len() == "keepext"@.len());
            }
        }
    }
    if t == "no-colon"@ || t == "no-colons"@ {
        assert(t != "short"@) by {
            if t == "short"@ {
                assert(t.len() == "short"@.len());
            }
        }
        assert(t != "medium"@) by {
            if t == "medium"@ {
                assert(t.len() == "medium"@.len());
            }
        }
        assert(t != "long"@) by {
            if t == "long"@ {
                assert(t.len() == "long"@.len());
            }
        }
        assert(t != "lower"@) by {
            if t == "lower"@ {
                assert(t.len() == "lower"@.len());
            }
        }
        assert(t != "lowercase"@) by {
            if t == "lowercase"@ {
                assert(t.len() == "lowercase"@.len());
                assert(t[0] == "lowercase"@[0]);
            }
        }
        assert(t != "upper"@) by {
            if t == "upper"@ {
                assert(t.len() == "upper"@.len());
            }
        }
        assert(t != "uppercase"@) by {
            if t == "uppercase"@ {
                assert(t.len() == "uppercase"@.len());
                assert(t[0] == "uppercase"@[0]);
            }
        }
        assert(t != "title"@) by {
            if t == "title"@ {
                assert(t.len() == "title"@.len());
            }
        }
        assert(t != "space"@) by {
            if t == "space"@ {
                assert(t.len() == "space"@.len());
            }
        }
        assert(t != "spaces"@) by {
            if t == "spaces"@ {
                assert(t.len() == "spaces"@.len());
            }
        }
        assert(t != "dash"@) by {
            if t == "dash"@ {
                assert(t.len() == "dash"@.len());
            }
        }
        assert(t != "dashes"@) by {
            if t == "dashes"@ {
                assert(t.len() == "dashes"@.len());
            }
        }
        assert(t != "kebab"@) by {
            if t == "kebab"@ {
                assert(t.len() == "kebab"@.len());
            }
        }
        assert(t != "underscore"@) by {
            if t == "underscore"@ {
                assert(t.len() == "underscore"@.len());
            }
        }
        assert(t != "snake"@) by {
            if t == "snake"@ {
                assert(t.len() == "snake"@.len());
            }
        }
        assert(t != "keep-ext"@) by {
            if t == "keep-ext"@ {
                assert(t.len() == "keep-ext"@.len());
                assert(t[0] == "keep-ext"@[0]);
            }
        }
        assert(t != "keepext"@) by {
            if t == "keepext"@ {
                assert(t.len() == "keepext"@.len());
            }
        }
        assert(t != "drop-ext"@) by {
            if t == "drop-ext"@ {
                assert(t.len() == "drop-ext"@.len());
                assert(t[0] == "drop-ext"@[0]);
            }
        }
        assert(t != "no-ext"@) by {
            if t == "no-ext"@ {
                assert(t.len() == "no-ext"@.len());
            }
        }
    }
    if t == "allow-colon"@ || t == "colons"@ {
        assert(t != "short"@) by {
            if t == "short"@ {
                assert(t.len() == "short"@.len());
            }
        }
        assert(t != "medium"@) by {
            if t == "medium"@ {
                assert(t.len() == "medium"@.len());
                assert(t[0] == "medium"@[0]);
            }
        }
        assert(t != "long"@) by {
            if t == "long"@ {
                assert(t.len() == "long"@.len());
            }
        }
        assert(t != "lower"@) by {
            if t == "lower"@ {
                assert(t.len() == "lower"@.len());
            }
        }
        assert(t != "lowercase"@) by {
            if t == "lowercase"@ {
                assert(t.len() == "lowercase"@.len());
            }
        }
        assert(t != "upper"@) by {
            if t == "upper"@ {
                assert(t.len() == "upper"@.len());
            }
        }
        assert(t != "uppercase"@) by {
            if t == "uppercase"@ {
                assert(t.len() == "uppercase"@.len());
            }
        }
        assert(t != "title"@) by {
            if t == "title"@ {
                assert(t.len() == "title"@.len());
            }
        }
        assert(t != "space"@) by {
            if t == "space"@ {
                assert(t.len() == "space"@.len());
            }
        }
        assert(t != "spaces"@) by {
            if t == "spaces"@ {
                assert(t.len() == "spaces"@.len());
                assert(t[0] == "spaces"@[0]);
            }
        }
        assert(t != "dash"@) by {
            if t == "dash"@ {
                assert(t.len() == "dash"@.len());
            }
        }
        assert(t != "dashes"@) by {
            if t == "dashes"@ {
                assert(t.len() == "dashes"@.len());
                assert(t[0] == "dashes"@[0]);
            }
        }
        assert(t != "kebab"@) by {
            if t == "kebab"@ {
                assert(t.len() == "kebab"@.len());
            }
        }
        assert(t != "underscore"@) by {
            if t == "underscore"@ {
                assert(t.len() == "underscore"@.len());
            }
        }
        assert(t != "snake"@) by {
            if t == "snake"@ {
                assert(t.len() == "snake"@.len());
            }
        }
        assert(t != "keep-ext"@) by {
            if t == "keep-ext"@ {
                assert(t.len() == "keep-ext"@.len());
            }
        }
        assert(t != "keepext"@) by {
            if t == "keepext"@ {
                assert(t.len() == "keepext"@.len());
            }
        }
        assert(t != "drop-ext"@) by {
            if t == "drop-ext"@ {
                assert(t.len() == "drop-ext"@.len());
            }
        }
        assert(t != "no-ext"@) by {
            if t == "no-ext"@ {
                assert(t.len() == "no-ext"@.len());
                assert(t[0] == "no-ext"@[0]);
            }
        }
        assert(t != "no-colon"@) by {
            if t == "no-colon"@ {
                assert(t.len() == "no-colon"@.len());
            }
        }
        assert(t != "no-colons"@) by {
            if t == "no-colons"@ {
                assert(t.len() == "no-colons"@.len());
            }
        }
    }
}

/// The style after a sequence of command tokens applied left to right, with the number of
/// tokens that named a setting.
pub open spec fn style_tokens(style: StyleOptions, tokens: Seq<Seq<char>>) -> (StyleOptions, nat)
    decreases tokens.len(),
{
    if tokens.len() == 0 {
        (style, 0)
    } else {
        let (s1, n1) = style_tokens(style, tokens.drop_last());
        match style_token(s1, tokens.last()) {
            Some(s2) => (s2, n1 + 1),
            None => (s1, n1),
        }
    }
}

/// The setting one lower-cased token names.
fn apply_token(t: &Vec<char>, style: &mut StyleOptions) -> (applied: bool)
    ensures
        applied == (style_token(*old(style), t@) is Some),
        applied ==> style_token(*old(style), t@) == Some(*final(style)),
        !applied ==> *final(style) == *old(style),
{
    let t_str = string_from(t);
    let lower = chars_of(str_to_lowercase(t_str.as_str()).as_str());
    if chars_equal(&lower, "short") {
        style.length = NameLength::Short;
    } else if chars_equal(&lower, "medium") {
        style.length = NameLength::Medium;
    } else if chars_equal(&lower, "long") {
        style.length = NameLength::Long;
    } else if chars_equal(&lower, "lower") || chars_equal(&lower, "lowercase") {
        style.capitalization = Capitalization::Lower;
    } else if chars_equal(&lower, "upper") || chars_equal(&lower, "uppercase") {
        style.capitalization = Capitalization::Upper;
    } else if chars_equal(&lower, "title") {
        style.capitalization = Capitalization::Title;
    } else if chars_equal(&lower, "space") || chars_equal(&lower, "spaces") {
        style.separator = Separator::Space;
    } else if chars_equal(&lower, "dash") || chars_equal(&lower, "dashes") || chars_equal(
        &lower,
        "kebab",
    ) {
        style.separator = Separator::Dash;
    } else if chars_equal(&lower, "underscore") || chars_equal(&lower, "snake") {
        style.separator = Separator::Underscore;
    } else if chars_equal(&lower, "keep-ext") || chars_equal(&lower, "keepext") {
        style.keep_extension = true;
    } else if chars_equal(&lower, "drop-ext") || chars_equal(&lower, "no-ext") {
        style.keep_extension = false;
    } else if chars_equal(&lower, "no-colon") || chars_equal(&lower, "no-colons") {
        style.strip_colons = true;
    } else if chars_equal(&lower, "allow-colon") || chars_equal(&lower, "colons") {
        style.strip_colons = false;
    } else {
        return false;
    }
    true
}

/// Applies each whitespace-separated token of a style command to `style`, left to right,
/// and returns how many tokens named a setting; other tokens are ignored.
pub fn parse_style_command(input: &str, style: &mut StyleOptions) -> (applied: usize)
    ensures
        (*final(style), applied as nat) == style_tokens(*old(style), whitespace_tokens(input@)),
{
    let tokens = split_whitespace_chars(input);
    let mut applied: usize = 0;
    let mut i: usize = 0;
    while i < tokens.len()
        invariant
            i <= tokens.len(),
            applied <= i,
            (*style, applied as nat) == style_tokens(*old(style), views(tokens@).take(i as int)),
        decreases tokens.len() - i,
    {
        assert(views(tokens@).take(i + 1).drop_last() =~= views(tokens@).take(i as int));
        assert(views(tokens@).take(i + 1).last() == tokens@[i as int]@);
        if apply_token(&tokens[i], style) {
            applied += 1;
        }
        i += 1;
    }
    assert(views(tokens@).take(tokens.len() as int) =~= views(tokens@));
    applied
}


fn strings(items: &[&str]) -> (r: Vec<String>)
    ensures
        r@.map_values(|s: String| s@) == items@.map_values(|s: &str| s@),
{
    let mut r: Vec<String> = Vec::new();
    let mut i: usize = 0;
    while i < items.len()
        invariant
            i <= items.len(),
            r@.map_values(|s: String| s@) == items@.take(i as int).map_values(|s: &str| s@),
        decreases items.len() - i,
    {
        let s = str_to_string(items[i]);
        assert(r@.push(s).map_values(|s: String| s@) =~= r@.map_values(|s: String| s@).push(s@));
        assert(items@.take(i + 1).map_values(|s: &str| s@) =~= items@.take(i as int).map_values(
            |s: &str| s@,
        ).push(items@[i as int]@));
        r.push(s);
        i += 1;
    }
    assert(items@.take(items.len() as int) =~= items@);
    r
}

fn category(name: &str, extensions: &[&str]) -> (r: CategoryFilter)
    ensures
        r@ == (name@, extensions@.map_values(|s: &str| s@)),
{
    CategoryFilter { name: str_to_string(name), extensions: strings(extensions) }
}

/// The built-in extension categories, in display order.
pub open spec fn default_categories() -> Seq<(Seq<char>, Seq<Seq<char>>)> {
    seq![
        ("PDF Documents"@, seq!["pdf"@]),
        ("Images"@, seq!["png"@, "jpg"@, "jpeg"@, "gif"@, "webp"@]),
        ("Archives"@, seq!["zip"@, "tar"@, "gz"@, "rar"@]),
        ("Audio"@, seq!["mp3"@, "wav"@, "m4a"@, "flac"@]),
        ("Presentations"@, seq!["ppt"@, "pptx"@, "key"@]),
        ("Docs"@, seq!["doc"@, "docx"@, "txt"@, "md"@]),
    ]
}

/// The built-in extension categories.
pub fn default_category_filters() -> (r: Vec<CategoryFilter>)
    ensures
        r@.map_values(|c: CategoryFilter| c@) == default_categories(),
{
    let mut r: Vec<CategoryFilter> = Vec::new();
    let c0 = category("PDF Documents", &["pdf"]);
    assert(c0@.1 =~= seq!["pdf"@]);
    r.push(c0);
    let c1 = category("Images", &["png", "jpg", "jpeg", "gif", "webp"]);
    assert(c1@.1 =~= seq!["png"@, "jpg"@, "jpeg"@, "gif"@, "webp"@]);
    r.push(c1);
    let c2 = category("Archives", &["zip", "tar", "gz", "rar"]);
    assert(c2@.1 =~= seq!["zip"@, "tar"@, "gz"@, "rar"@]);
    r.push(c2);
    let c3 = category("Audio", &["mp3", "wav", "m4a", "flac"]);
    assert(c3@.1 =~= seq!["mp3"@, "wav"@, "m4a"@, "flac"@]);
    r.push(c3);
    let c4 = category("Presentations", &["ppt", "pptx", "key"]);
    assert(c4@.1 =~= seq!["ppt"@, "pptx"@, "key"@]);
    r.push(c4);
    let c5 = category("Docs", &["doc", "docx", "txt", "md"]);
    assert(c5@.1 =~= seq!["doc"@, "docx"@, "txt"@, "md"@]);
    r.push(c5);
    assert(r@.map_values(|c: CategoryFilter| c@) =~= default_categories());
    r
}

fn marketplace(name: &str, description: &str, extensions: &[&str], time: TimeConstraint) -> (r: MarketplacePreset)
    ensures
        r@ == (name@, description@, extensions@.map_values(|s: &str| s@), time),
{
    MarketplacePreset {
        name: str_to_string(name),
        description: str_to_string(description),
        extensions: strings(extensions),
        time_constraint: time,
    }
}

/// The built-in marketplace presets, in display order.
pub open spec fn default_marketplace() -> Seq<(Seq<char>, Seq<char>, Seq<Seq<char>>, TimeConstraint)> {
    seq![
        ("Academic Papers"@, "PDFs and docs from the last month"@, seq!["pdf"@, "docx"@, "md"@], TimeConstraint::Month),
        ("Wallpapers"@, "Image assets for desktop/mobile"@, seq!["png"@, "jpg"@, "jpeg"@, "webp"@], TimeConstraint::Any),
        ("Slide Decks"@, "Presentation files from the last week"@, seq!["ppt"@, "pptx"@, "key"@], TimeConstraint::Week),
    ]
}

/// The built-in marketplace presets.
pub fn default_marketplace_presets() -> (r: Vec<MarketplacePreset>)
    ensures
        r@.map_values(|p: MarketplacePreset| p@) == default_marketplace(),
{
    let mut r: Vec<MarketplacePreset> = Vec::new();
    let m0 = marketplace("Academic Papers", "PDFs and docs from the last month", &["pdf", "docx", "md"], TimeConstraint::Month);
    assert(m0@.2 =~= seq!["pdf"@, "docx"@, "md"@]);
    r.push(m0);
    let m1 = marketplace("Wallpapers", "Image assets for desktop/mobile", &["png", "jpg", "jpeg", "webp"], TimeConstraint::Any);
    assert(m1@.2 =~= seq!["png"@, "jpg"@, "jpeg"@, "webp"@]);
    r.push(m1);
    let m2 = marketplace("Slide Decks", "Presentation files from the last week", &["ppt", "pptx", "key"], TimeConstraint::Week);
    assert(m2@.2 =~= seq!["ppt"@, "pptx"@, "key"@]);
    r.push(m2);
    assert(r@.map_values(|p: MarketplacePreset| p@) =~= default_marketplace());
    r
}

/// The three built-in suggestion styles.
pub open spec fn default_suggestion_styles() -> Seq<(Seq<char>, StyleOptions)> {
    seq![
        ("Concise / Kebab"@, StyleOptions {
            length: NameLength::Short,
            capitalization: Capitalization::Lower,
            separator: Separator::Dash,
            keep_extension: true,
            strip_colons: true,
        }),
        ("Professional / Title"@, StyleOptions {
            length: NameLength::Medium,
            capitalization: Capitalization::Title,
            separator: Separator::Space,
            keep_extension: true,
            strip_colons: true,
        }),
        ("Legacy / UPPER_SNAKE"@, StyleOptions {
            length: NameLength::Medium,
            capitalization: Capitalization::Upper,
            separator: Separator::Underscore,
            keep_extension: true,
            strip_colons: true,
        }),
    ]
}

/// The built-in suggestion styles with their labels.
pub fn make_suggestion_options() -> (r: Vec<SuggestionOption>)
    ensures
        r@.map_values(|o: SuggestionOption| o@) == default_suggestion_styles(),
{
    let mut r: Vec<SuggestionOption> = Vec::new();
    r.push(SuggestionOption {
        label: str_to_string("Concise / Kebab"),
        style: StyleOptions {
            length: NameLength::Short,
            capitalization: Capitalization::Lower,
            separator: Separator::Dash,
            keep_extension: true,
            strip_colons: true,
        },
    });
    r.push(SuggestionOption {
        label: str_to_string("Professional / Title"),
        style: StyleOptions {
            length: NameLength::Medium,
            capitalization: Capitalization::Title,
            separator: Separator::Space,
            keep_extension: true,
            strip_colons: true,
        },
    });
    r.push(SuggestionOption {
        label: str_to_string("Legacy / UPPER_SNAKE"),
        style: StyleOptions {
            length: NameLength::Medium,
            capitalization: Capitalization::Upper,
            separator: Separator::Underscore,
            keep_extension: true,
            strip_colons: true,
        },
    });
    assert(r@.map_values(|o: SuggestionOption| o@) =~= default_suggestion_styles());
    r
}

/// The labels of the three suggestion options that the naming stage lists.
pub fn default_suggestion_labels() -> (r: Vec<String>)
    ensures
        r@.map_values(|s: String| s@) == seq!["Concise / Kebab"@, "Professional / Title"@, "Legacy / UPPER_SNAKE"@],
{
    strings(&["Concise / Kebab", "Professional / Title", "Legacy / UPPER_SNAKE"])
}

/// Five mebibytes.
pub const FIVE_MIB: u64 = 5242880;

/// One hundred mebibytes.
pub const HUNDRED_MIB: u64 = 104857600;

/// Whether a file size meets a size constraint: small is under 5 MiB, medium is 5 MiB to
/// 100 MiB inclusive, large is over 100 MiB.
pub open spec fn size_ok(size: u64, constraint: SizeConstraint) -> bool {
    match constraint {
        SizeConstraint::Any => true,
        SizeConstraint::Small => size < FIVE_MIB,
        SizeConstraint::Medium => FIVE_MIB <= size <= HUNDRED_MIB,
        SizeConstraint::Large => size > HUNDRED_MIB,
    }
}

/// The size constraints: small is below 5 MiB, medium from 5 MiB to 100 MiB, large above
/// 100 MiB, so every size meets exactly one of them; any admits every size.
pub proof fn lemma_size_classes(size: u64)
    ensures
        size_ok(size, SizeConstraint::Small) <==> size < 5 * 1024 * 1024,
        size_ok(size, SizeConstraint::Medium) <==> 5 * 1024 * 1024 <= size <= 100 * 1024 * 1024,
        size_ok(size, SizeConstraint::Large) <==> size > 100 * 1024 * 1024,
        size_ok(size, SizeConstraint::Any),
        size_ok(size, SizeConstraint::Small) as int + size_ok(size, SizeConstraint::Medium) as int + size_ok(
            size,
            SizeConstraint::Large,
        ) as int == 1,
{
}

/// Whether a file size meets a size constraint, as `size_ok` describes.
pub fn within_size_constraint(size: u64, constraint: SizeConstraint) -> (r: bool)
    ensures
        r == size_ok(size, constraint),
{
    match constraint {
        SizeConstraint::Any => true,
        SizeConstraint::Small => size < FIVE_MIB,
        SizeConstraint::Medium => FIVE_MIB <= size && size <= HUNDRED_MIB,
        SizeConstraint::Large => size > HUNDRED_MIB,
    }
}


/// Seconds in a day.
pub const DAY_SECS: u64 = 86400;

/// How far back a time constraint reaches, in seconds; `None` for constraints that admit
/// every file.
pub open spec fn time_window(c: TimeConstraint) -> Option<u64> {
    match c {
        TimeConstraint::Any | TimeConstraint::Custom => None,
        TimeConstraint::Day => Some(DAY_SECS),
        TimeConstraint::Week => Some((DAY_SECS * 7) as u64),
        TimeConstraint::Month => Some((DAY_SECS * 30) as u64),
    }
}

/// Whether a file of a given age meets a time constraint. The age is `None` when the
/// modification time is unknown, `Some(None)` when it lies in the future, and otherwise
/// the elapsed seconds and nanoseconds. A constraint with a window admits a file of
/// unknown age never, a file from the future always, and otherwise one whose age is at
/// most the window.
pub fn age_within_time_constraint(age: Option<Option<(u64, u32)>>, constraint: TimeConstraint) -> (r: bool)
    ensures
        r == match time_window(constraint) {
            None => true,
            Some(w) => match age {
                None => false,
                Some(None) => true,
                Some(Some((secs, nanos))) => secs < w || (secs == w && nanos == 0),
            },
        },
{
    let window: u64 = match constraint {
        TimeConstraint::Any | TimeConstraint::Custom => {
            return true;
        },
        TimeConstraint::Day => DAY_SECS,
        TimeConstraint::Week => DAY_SECS * 7,
        TimeConstraint::Month => DAY_SECS * 30,
    };
    match age {
        None => false,
        Some(None) => true,
        Some(Some((secs, nanos))) => secs < window || (secs == window && nanos == 0),
    }
}

/// Whether a file modified at `modified` meets a time constraint now. Constraints without
/// a window admit every file, and a file of unknown modification time meets no other
/// constraint; in between the answer is `age_within_time_constraint` of the file's age at
/// the moment of the call.
pub fn within_time_constraint(modified: Option<SystemTime>, constraint: TimeConstraint) -> (r: bool)
    ensures
        time_window(constraint) is None ==> r,
        time_window(constraint) is Some && modified is None ==> !r,
{
    let age = match modified {
        None => None,
        Some(m) => {
            let now = system_now();
            Some(duration_since(now, m))
        },
    };
    age_within_time_constraint(age, constraint)
}

} // verus!
