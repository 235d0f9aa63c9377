//! The text work around the AI suggestions: what each file sends (its excerpt within the
//! caps), the prompt, and turning the model's answer into three clean names per file.
use vstd::prelude::*;
use vstd::string::StringSliceAdditionalSpecFns;
use crate::model::string_views;
use crate::strs::{
    last_index_of, rsplit_dot, rsplit_dot_str, strip_ext, strip_ext_str, strip_ok, trim, trim_start_char,
    trim_start_char_str, trim_str, trim_start, trim_end,
};
use crate::text::{char_is_control, chars_of, spec_is_control, spec_is_whitespace, str_to_string, string_from};

verus! {

/// The most characters of a file's content sent with it.
pub const MAX_EXCERPT_CHARS_PER_FILE: usize = 2000;

/// The most characters of content sent for all files together.
pub const MAX_TOTAL_CONTEXT_CHARS: usize = 120000;

/// What is known of one file sent for suggestions.
#[derive(Debug, Clone)]
pub struct AnalyzedFileContext {
    pub path: String,
    pub current_name: String,
    pub extension: Option<String>,
    pub size: u64,
    pub modified_unix: Option<i64>,
    pub mime_type: Option<String>,
    pub detected_languages: Vec<String>,
    pub excerpt: String,
    pub warnings: Vec<String>,
}

/// The files analyzed for one request, how many were left out by the cap, and the warnings.
#[derive(Debug, Clone)]
pub struct AnalyzeOutput {
    pub files: Vec<AnalyzedFileContext>,
    pub skipped_count: usize,
    pub warnings: Vec<String>,
}

/// The text without its trailing `c`s.
pub open spec fn trim_end_char(s: Seq<char>, c: char) -> Seq<char>
    decreases s.len(),
{
    if s.len() > 0 && s.last() == c {
        trim_end_char(s.drop_last(), c)
    } else {
        s
    }
}

/// The text without `c`s at either end, as `str::trim_matches` with one character gives it.
pub open spec fn trim_char(s: Seq<char>, c: char) -> Seq<char> {
    trim_end_char(trim_start_char(s, c), c)
}

/// Computes `trim_char`.
fn trim_char_str(s: &str, c: char) -> (r: String)
    ensures
        r@ == trim_char(s@, c),
{
    let front = trim_start_char_str(s, c);
    let v = chars_of(front.as_str());
    let mut n: usize = v.len();
    assert(v@.take(n as int) == v@);
    while n > 0 && v[n - 1] == c
        invariant
            n <= v@.len(),
            trim_end_char(v@, c) == trim_end_char(v@.take(n as int), c),
        decreases n,
    {
        assert(v@.take(n as int).drop_last() == v@.take(n - 1));
        n -= 1;
    }
    let mut out: Vec<char> = Vec::new();
    let mut k: usize = 0;
    while k < n
        invariant
            k <= n <= v@.len(),
            out@ == v@.take(k as int),
        decreases n - k,
    {
        out.push(v[k]);
        assert(v@.take(k + 1) == v@.take(k as int).push(v@[k as int]));
        k += 1;
    }
    string_from(&out)
}

/// A character that cannot stand in a file name here.
pub open spec fn illegal_char(c: char) -> bool {
    c == '/' || c == '\\' || c == ':' || c == '*' || c == '?' || c == '"' || c == '<' || c == '>' || c == '|'
}

/// The text with every illegal or control character turned into a space.
pub open spec fn spaced_out(s: Seq<char>) -> Seq<char> {
    s.map_values(|c: char| if illegal_char(c) || spec_is_control(c) { ' ' } else { c })
}

/// A suggested name made safe: trimmed, a trailing `.ext` of the file's extension dropped,
/// illegal and control characters turned into spaces, then trimmed of spaces and dots; an
/// empty result becomes `file`.
pub open spec fn sanitized(candidate: Seq<char>, ext: Option<Seq<char>>) -> Seq<char> {
    let v = trim(candidate);
    let v2 = match ext {
        Some(e) => strip_ext(v, e),
        None => v,
    };
    let out = trim(trim_char(trim(spaced_out(v2)), '.'));
    if out.len() == 0 {
        "file"@
    } else {
        out
    }
}

/// A character that may stand in a suggested name: none of `/ \ : * ? " < > |`, and no
/// control character.
pub open spec fn name_safe_char(c: char) -> bool {
    &&& c != '/' && c != '\\' && c != ':' && c != '*' && c != '?'
    &&& c != '"' && c != '<' && c != '>' && c != '|'
    &&& !spec_is_control(c)
}

/// Every character of `s` may stand in a name.
pub open spec fn name_safe(s: Seq<char>) -> bool {
    forall|i: int| 0 <= i < s.len() ==> name_safe_char(#[trigger] s[i])
}

proof fn lemma_safe_trim_start(s: Seq<char>)
    requires
        name_safe(s),
    ensures
        name_safe(trim_start(s)),
    decreases s.len(),
{
    if s.len() > 0 && spec_is_whitespace(s[0]) {
        assert forall|i: int| 0 <= i < s.drop_first().len() implies name_safe_char(#[trigger] s.drop_first()[i]) by {
            assert(s.drop_first()[i] == s[i + 1]);
        }
        lemma_safe_trim_start(s.drop_first());
    }
}

proof fn lemma_safe_trim_end(s: Seq<char>)
    requires
        name_safe(s),
    ensures
        name_safe(trim_end(s)),
    decreases s.len(),
{
    if s.len() > 0 && spec_is_whitespace(s.last()) {
        assert forall|i: int| 0 <= i < s.drop_last().len() implies name_safe_char(#[trigger] s.drop_last()[i]) by {
            assert(s.drop_last()[i] == s[i]);
        }
        lemma_safe_trim_end(s.drop_last());
    }
}

proof fn lemma_safe_trim_start_char(s: Seq<char>, c: char)
    requires
        name_safe(s),
    ensures
        name_safe(trim_start_char(s, c)),
    decreases s.len(),
{
    if s.len() > 0 && s[0] == c {
        assert forall|i: int| 0 <= i < s.drop_first().len() implies name_safe_char(#[trigger] s.drop_first()[i]) by {
            assert(s.drop_first()[i] == s[i + 1]);
        }
        lemma_safe_trim_start_char(s.drop_first(), c);
    }
}

proof fn lemma_safe_trim_end_char(s: Seq<char>, c: char)
    requires
        name_safe(s),
    ensures
        name_safe(trim_end_char(s, c)),
    decreases s.len(),
{
    if s.len() > 0 && s.last() == c {
        assert forall|i: int| 0 <= i < s.drop_last().len() implies name_safe_char(#[trigger] s.drop_last()[i]) by {
            assert(s.drop_last()[i] == s[i]);
        }
        lemma_safe_trim_end_char(s.drop_last(), c);
    }
}

/// A suggested name made safe holds none of `/ \ : * ? " < > |` and no control character,
/// whatever the model answered.
pub proof fn lemma_sanitized_is_safe(candidate: Seq<char>, ext: Option<Seq<char>>)
    ensures
        name_safe(sanitized(candidate, ext)),
        sanitized(candidate, ext).len() > 0,
{
    let v = trim(candidate);
    let v2 = match ext {
        Some(e) => strip_ext(v, e),
        None => v,
    };
    let sp = spaced_out(v2);
    assert forall|i: int| 0 <= i < sp.len() implies name_safe_char(#[trigger] sp[i]) by {
        assert(sp[i] == (if illegal_char(v2[i]) || spec_is_control(v2[i]) { ' ' } else { v2[i] }));
    }
    lemma_safe_trim_start(sp);
    lemma_safe_trim_end(trim_start(sp));
    let t1 = trim(sp);
    lemma_safe_trim_start_char(t1, '.');
    lemma_safe_trim_end_char(trim_start_char(t1, '.'), '.');
    let t2 = trim_char(t1, '.');
    lemma_safe_trim_start(t2);
    lemma_safe_trim_end(trim_start(t2));
    reveal_strlit("file");
}

/// Dropping the file's extension from the trimmed candidate cuts between characters.
pub open spec fn sanitize_ok(candidate: Seq<char>, ext: Option<Seq<char>>) -> bool {
    ext matches Some(e) ==> strip_ok(trim(candidate), e)
}

/// The text of an optional string.
fn opt_as_str(o: &Option<String>) -> (r: Option<&str>)
    ensures
        match r {
            Some(s) => o matches Some(t) && s@ == t@,
            None => o is None,
        },
{
    match o {
        Some(s) => Some(s.as_str()),
        None => None,
    }
}

/// The text of an optional string.
pub open spec fn opt_text(o: Option<String>) -> Option<Seq<char>> {
    match o {
        Some(s) => Some(s@),
        None => None,
    }
}

/// Makes a suggested name safe, as `sanitized` describes.
pub fn sanitize_filename(candidate: &str, ext: Option<&str>) -> (r: String)
    requires
        sanitize_ok(candidate@, match ext { Some(e) => Some(e@), None => None }),
    ensures
        r@ == sanitized(candidate@, match ext { Some(e) => Some(e@), None => None }),
{
    proof {
        reveal_strlit("file");
    }
    let v = trim_str(candidate);
    let v2 = match ext {
        Some(e) => strip_ext_str(v.as_str(), e),
        None => v,
    };
    let chars = chars_of(v2.as_str());
    let mut mapped: Vec<char> = Vec::new();
    let mut i: usize = 0;
    while i < chars.len()
        invariant
            i <= chars@.len(),
            mapped@ == spaced_out(chars@.take(i as int)),
        decreases chars@.len() - i,
    {
        let c = chars[i];
        let illegal = c == '/' || c == '\\' || c == ':' || c == '*' || c == '?' || c == '"' || c == '<' || c == '>'
            || c == '|';
        let bad = illegal || char_is_control(c);
        mapped.push(if bad { ' ' } else { c });
        assert(spaced_out(chars@.take(i + 1)) =~= spaced_out(chars@.take(i as int)).push(if bad { ' ' } else { c }));
        i += 1;
    }
    assert(chars@.take(i as int) == chars@);
    let m = string_from(&mapped);
    let t1 = trim_str(m.as_str());
    let t2 = trim_char_str(t1.as_str(), '.');
    let out = trim_str(t2.as_str());
    if out.as_str().is_empty() {
        str_to_string("file")
    } else {
        out
    }
}

/// The stem a file's fallback names are built from: its current name without the last
/// extension, trimmed, or `file` when that is empty.
pub open spec fn fallback_base(current_name: Seq<char>) -> Seq<char> {
    let stem = trim(
        match rsplit_dot(current_name) {
            Some((s, _)) => s,
            None => current_name,
        },
    );
    if stem.len() == 0 {
        "file"@
    } else {
        stem
    }
}

/// The three fallback names: the base, `base copy` and `base final`, each made safe.
pub open spec fn fallback_names(current_name: Seq<char>, ext: Option<Seq<char>>) -> Seq<Seq<char>> {
    let base = fallback_base(current_name);
    seq![sanitized(base, ext), sanitized(base + " copy"@, ext), sanitized(base + " final"@, ext)]
}

/// The fallback names can be made safe without cutting a character.
pub open spec fn fallback_ok(current_name: Seq<char>, ext: Option<Seq<char>>) -> bool {
    let base = fallback_base(current_name);
    sanitize_ok(base, ext) && sanitize_ok(base + " copy"@, ext) && sanitize_ok(base + " final"@, ext)
}

/// The three fallback names of a file, as `fallback_names` describes.
pub fn fallback_suggestions(current_name: &str, ext: Option<&str>) -> (r: [String; 3])
    requires
        fallback_ok(current_name@, match ext { Some(e) => Some(e@), None => None }),
    ensures
        seq![r[0]@, r[1]@, r[2]@] == fallback_names(current_name@, match ext { Some(e) => Some(e@), None => None }),
{
    proof {
        reveal_strlit("file");
        reveal_strlit(" copy");
        reveal_strlit(" final");
    }
    let stem = match rsplit_dot_str(current_name) {
        Some((s, _)) => s,
        None => str_to_string(current_name),
    };
    let stem = trim_str(stem.as_str());
    let base = if stem.as_str().is_empty() { str_to_string("file") } else { stem };
    let copy = crate::logs::concat(base.as_str(), " copy");
    let fin = crate::logs::concat(base.as_str(), " final");
    let a = sanitize_filename(base.as_str(), ext);
    let b = sanitize_filename(copy.as_str(), ext);
    let c = sanitize_filename(fin.as_str(), ext);
    [a, b, c]
}


/// `acc` extended with the candidates not yet in it, in order, until it holds three.
pub open spec fn take_distinct(acc: Seq<Seq<char>>, cands: Seq<Seq<char>>) -> Seq<Seq<char>>
    decreases cands.len(),
{
    if acc.len() >= 3 || cands.len() == 0 {
        acc
    } else if acc.contains(cands[0]) {
        take_distinct(acc, cands.drop_first())
    } else {
        take_distinct(acc.push(cands[0]), cands.drop_first())
    }
}

/// The three names offered for a file: the model's names made safe, without repeats, then
/// the fallback names not yet among them; missing places hold `file`, `file-2`, `file-3`.
pub open spec fn normalized_names(raw: Seq<Seq<char>>, current_name: Seq<char>, ext: Option<Seq<char>>) -> Seq<Seq<char>> {
    let cleaned = raw.map_values(|c: Seq<char>| sanitized(c, ext));
    let n = take_distinct(take_distinct(Seq::empty(), cleaned), fallback_names(current_name, ext));
    seq![
        if n.len() > 0 { n[0] } else { "file"@ },
        if n.len() > 1 { n[1] } else { "file-2"@ },
        if n.len() > 2 { n[2] } else { "file-3"@ },
    ]
}

/// Every name the model gave, and the fallback names, can be made safe without cutting a
/// character.
pub open spec fn names_ok(raw: Seq<Seq<char>>, current_name: Seq<char>, ext: Option<Seq<char>>) -> bool {
    &&& forall|k: int| 0 <= k < raw.len() ==> sanitize_ok(#[trigger] raw[k], ext)
    &&& fallback_ok(current_name, ext)
}

/// Whether `v` holds `t`.
fn has_string(v: &Vec<String>, t: &String) -> (r: bool)
    ensures
        r == string_views(v@).contains(t@),
{
    let mut i: usize = 0;
    while i < v.len()
        invariant
            i <= v@.len(),
            forall|j: int| 0 <= j < i ==> v@[j]@ != t@,
        decreases v@.len() - i,
    {
        if crate::io::same_text(&v[i], t) {
            assert(string_views(v@)[i as int] == t@);
            return true;
        }
        i += 1;
    }
    proof {
        if string_views(v@).contains(t@) {
            let j = choose|j: int| 0 <= j < string_views(v@).len() && string_views(v@)[j] == t@;
            assert(v@[j]@ == t@);
        }
    }
    false
}

/// Adds the candidates not yet in `acc`, in order, until it holds three.
fn add_distinct(acc: &mut Vec<String>, cands: Vec<String>)
    requires
        old(acc)@.len() <= 3,
    ensures
        string_views(final(acc)@) == take_distinct(string_views(old(acc)@), string_views(cands@)),
        final(acc)@.len() <= 3,
{
    let ghost cv = string_views(cands@);
    let mut i: usize = 0;
    assert(cv.skip(0) == cv);
    while i < cands.len() && acc.len() < 3
        invariant
            i <= cands@.len(),
            cv == string_views(cands@),
            acc@.len() <= 3,
            take_distinct(string_views(old(acc)@), cv) == take_distinct(string_views(acc@), cv.skip(i as int)),
        decreases cands@.len() - i,
    {
        let ghost rest = cv.skip(i as int);
        assert(rest[0] == cands@[i as int]@);
        assert(rest.drop_first() =~= cv.skip(i + 1));
        if !has_string(acc, &cands[i]) {
            let ghost before = string_views(acc@);
            acc.push(cands[i].clone());
            assert(string_views(acc@) =~= before.push(cands@[i as int]@));
        }
        i += 1;
    }
    proof {
        if i == cands@.len() {
            assert(cv.skip(i as int).len() == 0);
        }
    }
}

/// The three names offered for a file, as `normalized_names` describes.
pub fn normalize_suggestions(raw: &Vec<String>, current_name: &str, ext: Option<&str>) -> (r: [String; 3])
    requires
        names_ok(string_views(raw@), current_name@, match ext { Some(e) => Some(e@), None => None }),
    ensures
        seq![r[0]@, r[1]@, r[2]@] == normalized_names(
            string_views(raw@),
            current_name@,
            match ext { Some(e) => Some(e@), None => None },
        ),
{
    proof {
        reveal_strlit("file");
        reveal_strlit("file-2");
        reveal_strlit("file-3");
    }
    let ghost e = match ext { Some(e) => Some(e@), None => None };
    let mut cleaned: Vec<String> = Vec::new();
    let mut i: usize = 0;
    while i < raw.len()
        invariant
            i <= raw@.len(),
            e == (match ext { Some(x) => Some(x@), None => None::<Seq<char>> }),
            names_ok(string_views(raw@), current_name@, e),
            cleaned@.len() == i,
            forall|j: int| 0 <= j < i ==> #[trigger] cleaned@[j]@ == sanitized(raw@[j]@, e),
        decreases raw@.len() - i,
    {
        assert(string_views(raw@)[i as int] == raw@[i as int]@);
        cleaned.push(sanitize_filename(raw[i].as_str(), ext));
        i += 1;
    }
    assert(string_views(cleaned@) =~= string_views(raw@).map_values(|c: Seq<char>| sanitized(c, e)));
    let mut acc: Vec<String> = Vec::new();
    assert(string_views(acc@) =~= Seq::<Seq<char>>::empty());
    add_distinct(&mut acc, cleaned);
    let fb = fallback_suggestions(current_name, ext);
    let fv = vec![fb[0].clone(), fb[1].clone(), fb[2].clone()];
    assert(string_views(fv@) =~= fallback_names(current_name@, e));
    add_distinct(&mut acc, fv);
    let a = if acc.len() > 0 { acc[0].clone() } else { str_to_string("file") };
    let b = if acc.len() > 1 { acc[1].clone() } else { str_to_string("file-2") };
    let c = if acc.len() > 2 { acc[2].clone() } else { str_to_string("file-3") };
    [a, b, c]
}

/// The text from the first `{` to the last `}` of the model's answer, if both exist in that
/// order.
pub open spec fn json_block(raw: Seq<char>) -> Option<Seq<char>> {
    match (crate::strs::first_index_of(raw, '{'), last_index_of(raw, '}')) {
        (Some(a), Some(b)) => if b >= a { Some(raw.subrange(a, b + 1)) } else { None },
        _ => None,
    }
}

/// Finds `json_block`.
pub fn extract_json_block(raw: &str) -> (r: Option<String>)
    ensures
        opt_text(r) == json_block(raw@),
{
    let v = chars_of(raw);
    let mut a: usize = 0;
    assert(v@.skip(0) == v@);
    while a < v.len() && v[a] != '{'
        invariant
            a <= v@.len(),
            v@ == raw@,
            crate::strs::first_index_of(v@, '{') == match crate::strs::first_index_of(v@.skip(a as int), '{') {
                Some(k) => Some(k + a),
                None => None,
            },
        decreases v@.len() - a,
    {
        assert(v@.skip(a as int).drop_first() =~= v@.skip(a + 1));
        a += 1;
    }
    if a == v.len() {
        assert(v@.skip(a as int).len() == 0);
        return None;
    }
    let mut b: usize = v.len();
    assert(v@.take(b as int) == v@);
    while b > 0 && v[b - 1] != '}'
        invariant
            b <= v@.len(),
            v@ == raw@,
            last_index_of(v@, '}') == last_index_of(v@.take(b as int), '}'),
        decreases b,
    {
        assert(v@.take(b as int).drop_last() =~= v@.take(b - 1));
        b -= 1;
    }
    if b == 0 {
        assert(v@.take(0) =~= Seq::<char>::empty());
        return None;
    }
    proof {
        assert(v@.take(b as int).last() == '}');
        assert(v@.skip(a as int)[0] == '{');
    }
    if b - 1 < a {
        return None;
    }
    let mut out: Vec<char> = Vec::new();
    let mut k: usize = a;
    while k < b
        invariant
            a <= k <= b <= v@.len(),
            out@ == v@.subrange(a as int, k as int),
        decreases b - k,
    {
        out.push(v[k]);
        assert(v@.subrange(a as int, k + 1) == v@.subrange(a as int, k as int).push(v@[k as int]));
        k += 1;
    }
    Some(string_from(&out))
}

/// Whether dropping `.ext` from `candidate` cuts between characters, as `strip_ok` says.
pub fn strips_cleanly(candidate: &str, ext: &str) -> (r: bool)
    ensures
        r == strip_ok(candidate@, ext@),
{
    let mut suffix = str_to_string(".");
    crate::text::push_str(&mut suffix, ext);
    proof {
        reveal_strlit(".");
    }
    assert(suffix@ == seq!['.'] + ext@);
    let lower = crate::text::str_to_lowercase(candidate);
    if !crate::strs::ends_with_str(lower.as_str(), suffix.as_str()) {
        return true;
    }
    let bytes = candidate.as_bytes();
    let sfx: &str = suffix.as_str();
    let sbytes = sfx.as_bytes();
    proof {
        vstd::slice::axiom_spec_len(bytes);
        vstd::slice::axiom_spec_len(sbytes);
    }
    let total = bytes.len();
    let cut = sbytes.len();
    proof {
        assert(candidate.spec_bytes() == vstd::utf8::encode_utf8(candidate@));
        assert(sfx.spec_bytes() == vstd::utf8::encode_utf8(sfx@));
        assert(sfx@ == suffix@);
        assert(cut == crate::strs::byte_len(seq!['.'] + ext@));
        assert(total == crate::strs::byte_len(candidate@));
    }
    if cut > total {
        proof {
            vstd::utf8::encode_utf8_valid_utf8(candidate@);
            vstd::utf8::is_char_boundary_start_end_of_seq(vstd::utf8::encode_utf8(candidate@));
        }
        return true;
    }
    candidate.is_char_boundary(total - cut)
}

/// Whether a name can be made safe without cutting a character, as `sanitize_ok` says.
pub fn sanitizes_cleanly(candidate: &str, ext: Option<&str>) -> (r: bool)
    ensures
        r == sanitize_ok(candidate@, match ext { Some(e) => Some(e@), None => None }),
{
    match ext {
        Some(e) => {
            let t = trim_str(candidate);
            strips_cleanly(t.as_str(), e)
        },
        None => true,
    }
}

/// Whether the model's names and the fallback names of a file can all be made safe, as
/// `names_ok` says.
pub fn names_clean(raw: &Vec<String>, current_name: &str, ext: Option<&str>) -> (r: bool)
    ensures
        r == names_ok(string_views(raw@), current_name@, match ext { Some(e) => Some(e@), None => None }),
{
    proof {
        reveal_strlit("file");
        reveal_strlit(" copy");
        reveal_strlit(" final");
    }
    let ghost e = match ext { Some(x) => Some(x@), None => None::<Seq<char>> };
    let mut i: usize = 0;
    while i < raw.len()
        invariant
            i <= raw@.len(),
            e == (match ext { Some(x) => Some(x@), None => None::<Seq<char>> }),
            forall|k: int| 0 <= k < i ==> sanitize_ok(#[trigger] string_views(raw@)[k], e),
        decreases raw@.len() - i,
    {
        if !sanitizes_cleanly(raw[i].as_str(), ext) {
            assert(string_views(raw@)[i as int] == raw@[i as int]@);
            return false;
        }
        assert(string_views(raw@)[i as int] == raw@[i as int]@);
        i += 1;
    }
    let stem = match rsplit_dot_str(current_name) {
        Some((s, _)) => s,
        None => str_to_string(current_name),
    };
    let stem = trim_str(stem.as_str());
    let base = if stem.as_str().is_empty() { str_to_string("file") } else { stem };
    let copy = crate::logs::concat(base.as_str(), " copy");
    let fin = crate::logs::concat(base.as_str(), " final");
    sanitizes_cleanly(base.as_str(), ext) && sanitizes_cleanly(copy.as_str(), ext) && sanitizes_cleanly(fin.as_str(), ext)
}

/// The first `max` characters of the text, or all of it.
pub open spec fn truncated(s: Seq<char>, max: int) -> Seq<char> {
    if s.len() <= max {
        s
    } else {
        s.take(max)
    }
}

/// Computes `truncated`.
pub fn truncate_chars(input: &str, max_chars: usize) -> (r: String)
    ensures
        r@ == truncated(input@, max_chars as int),
{
    let v = chars_of(input);
    if v.len() <= max_chars {
        return str_to_string(input);
    }
    let mut out: Vec<char> = Vec::new();
    let mut k: usize = 0;
    while k < max_chars
        invariant
            k <= max_chars < v@.len(),
            out@ == v@.take(k as int),
        decreases max_chars - k,
    {
        out.push(v[k]);
        assert(v@.take(k + 1) == v@.take(k as int).push(v@[k as int]));
        k += 1;
    }
    string_from(&out)
}

/// One file under the cap on the content sent for all files, with `used` characters
/// already taken: an empty excerpt passes; with nothing left the excerpt is dropped (with a
/// warning); one longer than what is left is cut to it (with a warning) and uses the rest;
/// otherwise it passes and adds its length. The new excerpt, the warning if any, and the
/// characters used after it.
pub open spec fn cap_step(excerpt: Seq<char>, used: int, max: int) -> (Seq<char>, Option<Seq<char>>, int) {
    if excerpt.len() == 0 {
        (excerpt, None, used)
    } else if used >= max {
        (Seq::empty(), Some("Excerpt omitted due to context size cap"@), used)
    } else if excerpt.len() > max - used {
        (excerpt.take(max - used), Some("Excerpt truncated due to context size cap"@), max)
    } else {
        (excerpt, None, used + excerpt.len())
    }
}

/// The characters used after the first `n` excerpts.
pub open spec fn used_after(excerpts: Seq<Seq<char>>, n: int, max: int) -> int
    decreases n,
{
    if n <= 0 {
        0
    } else {
        cap_step(excerpts[n - 1], used_after(excerpts, n - 1, max), max).2
    }
}

/// The characters used never pass the cap.
proof fn lemma_used_bounded(excerpts: Seq<Seq<char>>, n: int, max: int)
    requires
        max >= 0,
    ensures
        0 <= used_after(excerpts, n, max) <= max,
    decreases n,
{
    if n > 0 {
        lemma_used_bounded(excerpts, n - 1, max);
    }
}

/// The excerpts of the files, in order.
pub open spec fn excerpts_of(files: Seq<AnalyzedFileContext>) -> Seq<Seq<char>> {
    files.map_values(|f: AnalyzedFileContext| f.excerpt@)
}

/// Holds the files' excerpts together under `max` characters, in order, as `cap_step`
/// describes; nothing else of a file changes.
pub fn enforce_total_excerpt_limit(files: &mut Vec<AnalyzedFileContext>, max_total: usize)
    ensures
        final(files)@.len() == old(files)@.len(),
        forall|i: int|
            0 <= i < old(files)@.len() ==> {
                let step = cap_step(
                    old(files)@[i].excerpt@,
                    used_after(excerpts_of(old(files)@), i, max_total as int),
                    max_total as int,
                );
                let f = #[trigger] final(files)@[i];
                let o = old(files)@[i];
                &&& f.excerpt@ == step.0
                &&& string_views(f.warnings@) == match step.1 {
                    Some(w) => string_views(o.warnings@).push(w),
                    None => string_views(o.warnings@),
                }
                &&& f.path == o.path && f.current_name == o.current_name && f.extension == o.extension && f.size == o.size
                    && f.modified_unix == o.modified_unix && f.mime_type == o.mime_type && f.detected_languages
                    == o.detected_languages
            },
{
    proof {
        reveal_strlit("Excerpt omitted due to context size cap");
        reveal_strlit("Excerpt truncated due to context size cap");
    }
    let ghost ex = excerpts_of(files@);
    let ghost before = files@;
    let mut used: usize = 0;
    let mut i: usize = 0;
    while i < files.len()
        invariant
            i <= files@.len() == before.len(),
            ex == excerpts_of(before),
            used == used_after(ex, i as int, max_total as int),
            used <= max_total,
            forall|j: int| i <= j < files@.len() ==> #[trigger] files@[j] == before[j],
            forall|j: int|
                0 <= j < i ==> {
                    let step = cap_step(before[j].excerpt@, used_after(ex, j, max_total as int), max_total as int);
                    let f = #[trigger] files@[j];
                    let o = before[j];
                    &&& f.excerpt@ == step.0
                    &&& string_views(f.warnings@) == match step.1 {
                        Some(w) => string_views(o.warnings@).push(w),
                        None => string_views(o.warnings@),
                    }
                    &&& f.path == o.path && f.current_name == o.current_name && f.extension == o.extension && f.size
                        == o.size && f.modified_unix == o.modified_unix && f.mime_type == o.mime_type
                        && f.detected_languages == o.detected_languages
                },
        decreases files@.len() - i,
    {
        assert(ex[i as int] == before[i as int].excerpt@);
        let chars = crate::text::char_count(files[i].excerpt.as_str());
        let ghost w0 = string_views(files@[i as int].warnings@);
        if chars == 0 {
        } else if used >= max_total {
            files[i].excerpt = String::new();
            files[i].warnings.push(str_to_string("Excerpt omitted due to context size cap"));
            assert(string_views(files@[i as int].warnings@) =~= w0.push("Excerpt omitted due to context size cap"@));
        } else if chars > max_total - used {
            let cut = truncate_chars(files[i].excerpt.as_str(), max_total - used);
            files[i].excerpt = cut;
            files[i].warnings.push(str_to_string("Excerpt truncated due to context size cap"));
            assert(string_views(files@[i as int].warnings@) =~= w0.push("Excerpt truncated due to context size cap"@));
            used = max_total;
        } else {
            used = used + chars;
        }
        i += 1;
    }
}

/// The position of the last answer row for `path`.
pub open spec fn last_row_for(rows: Seq<(String, Vec<String>)>, path: Seq<char>) -> Option<int>
    decreases rows.len(),
{
    if rows.len() == 0 {
        None
    } else if rows.last().0@ == path {
        Some(rows.len() - 1)
    } else {
        last_row_for(rows.drop_last(), path)
    }
}

proof fn lemma_last_row_for(rows: Seq<(String, Vec<String>)>, path: Seq<char>)
    ensures
        last_row_for(rows, path) matches Some(i) ==> 0 <= i < rows.len() && rows[i].0@ == path,
    decreases rows.len(),
{
    if rows.len() > 0 && rows.last().0@ != path {
        lemma_last_row_for(rows.drop_last(), path);
    }
}

/// The three names of a file: from the last answer row for its path, normalized, or its
/// fallback names when the answer has none.
pub open spec fn file_options(ctx: AnalyzedFileContext, rows: Seq<(String, Vec<String>)>) -> Seq<Seq<char>> {
    match last_row_for(rows, ctx.path@) {
        Some(i) => normalized_names(string_views(rows[i].1@), ctx.current_name@, opt_text(ctx.extension)),
        None => fallback_names(ctx.current_name@, opt_text(ctx.extension)),
    }
}

/// Every answer row for a file, and every file's fallback names, can be made safe without
/// cutting a character.
pub open spec fn answer_ok(contexts: Seq<AnalyzedFileContext>, rows: Seq<(String, Vec<String>)>) -> bool {
    forall|k: int|
        0 <= k < contexts.len() ==> {
            let c = #[trigger] contexts[k];
            &&& fallback_ok(c.current_name@, opt_text(c.extension))
            &&& forall|j: int|
                0 <= j < rows.len() && rows[j].0@ == c.path@ ==> names_ok(
                    string_views(#[trigger] rows[j].1@),
                    c.current_name@,
                    opt_text(c.extension),
                )
        }
}

fn opt_str(o: &Option<String>) -> (r: Option<&str>)
    ensures
        match r {
            Some(s) => o matches Some(t) && s@ == t@,
            None => o is None,
        },
{
    match o {
        Some(s) => Some(s.as_str()),
        None => None,
    }
}

/// The three names for each file, in the order of the files, from the model's answer rows
/// (path and names), as `file_options` describes.
pub fn collect_suggestions(contexts: &Vec<AnalyzedFileContext>, rows: &Vec<(String, Vec<String>)>) -> (r: Vec<(String, [String; 3])>)
    requires
        answer_ok(contexts@, rows@),
    ensures
        r@.len() == contexts@.len(),
        forall|k: int|
            0 <= k < r@.len() ==> (#[trigger] r@[k]).0@ == contexts@[k].path@ && seq![r@[k].1[0]@, r@[k].1[1]@, r@[k].1[2]@]
                == file_options(contexts@[k], rows@),
{
    let mut out: Vec<(String, [String; 3])> = Vec::new();
    let mut k: usize = 0;
    while k < contexts.len()
        invariant
            k <= contexts@.len(),
            answer_ok(contexts@, rows@),
            out@.len() == k,
            forall|i: int|
                0 <= i < k ==> (#[trigger] out@[i]).0@ == contexts@[i].path@ && seq![out@[i].1[0]@, out@[i].1[1]@, out@[i].1[2]@]
                    == file_options(contexts@[i], rows@),
        decreases contexts@.len() - k,
    {
        let c = &contexts[k];
        let mut j: usize = rows.len();
        assert(rows@.take(j as int) == rows@);
        while j > 0 && !crate::io::same_text(&rows[j - 1].0, &c.path)
            invariant
                j <= rows@.len(),
                last_row_for(rows@, c.path@) == last_row_for(rows@.take(j as int), c.path@),
            decreases j,
        {
            assert(rows@.take(j as int).drop_last() =~= rows@.take(j - 1));
            j -= 1;
        }
        let ext = opt_str(&c.extension);
        let ghost e = opt_text(c.extension);
        assert(e == (match ext { Some(x) => Some(x@), None => None::<Seq<char>> }));
        let names = if j == 0 {
            assert(rows@.take(0) =~= Seq::<(String, Vec<String>)>::empty());
            fallback_suggestions(c.current_name.as_str(), ext)
        } else {
            assert(rows@.take(j as int).last() == rows@[j - 1]);
            assert(last_row_for(rows@, c.path@) == Some(j - 1));
            assert(contexts@[k as int] == *c);
            normalize_suggestions(&rows[j - 1].1, c.current_name.as_str(), ext)
        };
        out.push((c.path.clone(), names));
        k += 1;
    }
    out
}

/// Whether every answer row and fallback can be made safe, as `answer_ok` says.
pub fn answer_clean(contexts: &Vec<AnalyzedFileContext>, rows: &Vec<(String, Vec<String>)>) -> (r: bool)
    ensures
        r == answer_ok(contexts@, rows@),
{
    let mut k: usize = 0;
    while k < contexts.len()
        invariant
            k <= contexts@.len(),
            forall|i: int|
                0 <= i < k ==> {
                    let c = #[trigger] contexts@[i];
                    &&& fallback_ok(c.current_name@, opt_text(c.extension))
                    &&& forall|j: int|
                        0 <= j < rows@.len() && rows@[j].0@ == c.path@ ==> names_ok(
                            string_views(#[trigger] rows@[j].1@),
                            c.current_name@,
                            opt_text(c.extension),
                        )
                },
        decreases contexts@.len() - k,
    {
        let c = &contexts[k];
        let ext = opt_str(&c.extension);
        let empty: Vec<String> = Vec::new();
        assert(opt_text(c.extension) == (match ext { Some(x) => Some(x@), None => None::<Seq<char>> }));
        if !names_clean(&empty, c.current_name.as_str(), ext) {
            return false;
        }
        let mut j: usize = 0;
        while j < rows.len()
            invariant
                j <= rows@.len(),
                k < contexts@.len(),
                *c == contexts@[k as int],
                opt_text(c.extension) == (match ext { Some(x) => Some(x@), None => None::<Seq<char>> }),
                forall|m: int|
                    0 <= m < j && rows@[m].0@ == c.path@ ==> names_ok(
                        string_views(#[trigger] rows@[m].1@),
                        c.current_name@,
                        opt_text(c.extension),
                    ),
            decreases rows@.len() - j,
        {
            if crate::io::same_text(&rows[j].0, &c.path) && !names_clean(&rows[j].1, c.current_name.as_str(), ext) {
                proof {
                    assert(contexts@[k as int] == *c);
                    assert(!names_ok(string_views(rows@[j as int].1@), c.current_name@, opt_text(c.extension)));
                }
                return false;
            }
            j += 1;
        }
        k += 1;
    }
    true
}

/// The start of the prompt: the answer's shape and the requirements.
pub open spec fn prompt_head() -> Seq<char> {
    "Return JSON with shape:\n{\"files\":[{\"path\":\"<exact path>\",\"suggestions\":[\"name1\",\"name2\",\"name3\"]}]}\nRequirements:\n- Include every input file path exactly once.\n- Keep filenames concise, human-readable, and deterministic from context.\n- No directory separators or absolute paths inside suggestions.\n- Prefer preserving semantic meaning from content and metadata.\n"@
}

/// The user's instruction as the prompt takes it: trimmed, and only when not empty.
pub open spec fn prompt_guidance(user_prompt: Option<Seq<char>>) -> Seq<char> {
    match user_prompt {
        Some(p) => trim(p),
        None => Seq::empty(),
    }
}

/// The prompt sent with the files' description: the shape and requirements, the user's
/// instruction as one more requirement when there is one, then the input.
pub open spec fn suggestion_prompt_text(payload_json: Seq<char>, user_prompt: Option<Seq<char>>) -> Seq<char> {
    let g = prompt_guidance(user_prompt);
    if g.len() == 0 {
        prompt_head() + "Input:\n"@ + payload_json
    } else {
        prompt_head() + "- Apply this user request while preserving safety and filename validity: "@ + g + "\n"@
            + "Input:\n"@ + payload_json
    }
}

/// Builds the prompt, as `suggestion_prompt_text` describes.
pub fn suggestion_prompt(payload_json: &str, user_prompt: Option<&str>) -> (r: String)
    ensures
        r@ == suggestion_prompt_text(payload_json@, match user_prompt { Some(p) => Some(p@), None => None }),
{
    let g = match user_prompt {
        Some(p) => trim_str(p),
        None => String::new(),
    };
    let head = "Return JSON with shape:\n{\"files\":[{\"path\":\"<exact path>\",\"suggestions\":[\"name1\",\"name2\",\"name3\"]}]}\nRequirements:\n- Include every input file path exactly once.\n- Keep filenames concise, human-readable, and deterministic from context.\n- No directory separators or absolute paths inside suggestions.\n- Prefer preserving semantic meaning from content and metadata.\n";
    let mut out = str_to_string(head);
    if !g.as_str().is_empty() {
        crate::text::push_str(&mut out, "- Apply this user request while preserving safety and filename validity: ");
        crate::text::push_str(&mut out, g.as_str());
        crate::text::push_str(&mut out, "\n");
    }
    crate::text::push_str(&mut out, "Input:\n");
    crate::text::push_str(&mut out, payload_json);
    out
}

/// The most files one suggestion request analyzes.
pub const MAX_FILES_PER_RUN: usize = 80;

/// The files a request analyzes: the first eighty, and how many are left out.
pub fn limit_paths(paths: &Vec<String>) -> (r: (Vec<String>, usize))
    ensures
        r.0@ == (if paths@.len() <= MAX_FILES_PER_RUN { paths@ } else { paths@.take(MAX_FILES_PER_RUN as int) }),
        r.1 == paths@.len() - r.0@.len(),
{
    let n = if paths.len() <= MAX_FILES_PER_RUN { paths.len() } else { MAX_FILES_PER_RUN };
    let mut out: Vec<String> = Vec::new();
    let mut i: usize = 0;
    while i < n
        invariant
            i <= n <= paths@.len(),
            out@ == paths@.take(i as int),
        decreases n - i,
    {
        out.push(paths[i].clone());
        assert(paths@.take(i + 1) == paths@.take(i as int).push(paths@[i as int]));
        i += 1;
    }
    assert(paths@.take(n as int) == (if paths@.len() <= MAX_FILES_PER_RUN { paths@ } else { paths@.take(MAX_FILES_PER_RUN as int) }));
    (out, paths.len() - n)
}

/// The warnings of an analysis: its own, then each file's in order.
pub open spec fn all_warnings(own: Seq<Seq<char>>, files: Seq<AnalyzedFileContext>) -> Seq<Seq<char>>
    decreases files.len(),
{
    if files.len() == 0 {
        own
    } else {
        all_warnings(own, files.drop_last()) + string_views(files.last().warnings@)
    }
}

/// Gathers `all_warnings`.
pub fn collect_warnings(own: &Vec<String>, files: &Vec<AnalyzedFileContext>) -> (r: Vec<String>)
    ensures
        string_views(r@) == all_warnings(string_views(own@), files@),
{
    let mut out = crate::scope_ops::copy_strings(own);
    let mut i: usize = 0;
    while i < files.len()
        invariant
            i <= files@.len(),
            string_views(out@) == all_warnings(string_views(own@), files@.take(i as int)),
        decreases files@.len() - i,
    {
        assert(files@.take(i + 1).drop_last() == files@.take(i as int));
        assert(files@.take(i + 1).last() == files@[i as int]);
        let ws = &files[i].warnings;
        let mut j: usize = 0;
        let ghost base = string_views(out@);
        while j < ws.len()
            invariant
                j <= ws@.len(),
                string_views(out@) == base + string_views(ws@).take(j as int),
            decreases ws@.len() - j,
        {
            let ghost pre = string_views(out@);
            out.push(ws[j].clone());
            assert(string_views(out@) =~= pre.push(ws@[j as int]@));
            assert(string_views(ws@).take(j + 1) =~= string_views(ws@).take(j as int).push(ws@[j as int]@));
            j += 1;
        }
        assert(string_views(ws@).take(j as int) =~= string_views(ws@));
        i += 1;
    }
    assert(files@.take(i as int) == files@);
    out
}

} // verus!
