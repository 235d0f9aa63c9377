//! Trimming, suffix tests, splitting at the last dot, and cutting text at a byte offset,
//! with what each gives stated over characters and UTF-8 bytes.
use vstd::prelude::*;
use vstd::utf8::{decode_utf8, encode_utf8};
use vstd::string::StringSliceAdditionalSpecFns;
use crate::text::{char_is_whitespace, chars_of, spec_is_whitespace, spec_lowercase, str_to_lowercase, string_from};

verus! {

/// The text without its leading white space.
pub open spec fn trim_start(s: Seq<char>) -> Seq<char>
    decreases s.len(),
{
    if s.len() > 0 && spec_is_whitespace(s[0]) {
        trim_start(s.drop_first())
    } else {
        s
    }
}

/// The text without its trailing white space.
pub open spec fn trim_end(s: Seq<char>) -> Seq<char>
    decreases s.len(),
{
    if s.len() > 0 && spec_is_whitespace(s.last()) {
        trim_end(s.drop_last())
    } else {
        s
    }
}

/// The text without white space at either end, as `str::trim` gives it.
pub open spec fn trim(s: Seq<char>) -> Seq<char> {
    trim_end(trim_start(s))
}

proof fn lemma_trim_start_front(s: Seq<char>)
    ensures
        trim_start(s).len() > 0 ==> !spec_is_whitespace(trim_start(s)[0]),
    decreases s.len(),
{
    if s.len() > 0 && spec_is_whitespace(s[0]) {
        lemma_trim_start_front(s.drop_first());
    }
}

proof fn lemma_trim_end_prefix(s: Seq<char>)
    ensures
        trim_end(s).len() <= s.len(),
        trim_end(s) == s.take(trim_end(s).len() as int),
        trim_end(s).len() > 0 ==> !spec_is_whitespace(trim_end(s).last()),
    decreases s.len(),
{
    if s.len() > 0 && spec_is_whitespace(s.last()) {
        lemma_trim_end_prefix(s.drop_last());
        assert(s.drop_last().take(trim_end(s).len() as int) == s.take(trim_end(s).len() as int));
    } else {
        assert(s.take(s.len() as int) == s);
    }
}

/// Trimming twice is trimming once.
pub proof fn lemma_trim_idempotent(s: Seq<char>)
    ensures
        trim(trim(s)) == trim(s),
{
    let t = trim_start(s);
    let u = trim_end(t);
    lemma_trim_start_front(s);
    lemma_trim_end_prefix(t);
    if u.len() > 0 {
        assert(u[0] == t[0]);
    }
    assert(trim_start(u) == u);
    lemma_trim_end_prefix(u);
    if u.len() > 0 {
        assert(!spec_is_whitespace(u.last()));
    }
    assert(trim_end(u) == u);
}

proof fn lemma_trim_start_skip(s: Seq<char>, i: int)
    requires
        0 <= i <= s.len(),
        forall|j: int| 0 <= j < i ==> spec_is_whitespace(#[trigger] s[j]),
    ensures
        trim_start(s) == trim_start(s.skip(i)),
    decreases i,
{
    if i > 0 {
        assert(s.skip(1) == s.drop_first());
        lemma_trim_start_skip(s.drop_first(), i - 1);
        assert(s.drop_first().skip(i - 1) == s.skip(i));
    } else {
        assert(s.skip(0) == s);
    }
}

proof fn lemma_trim_end_take(s: Seq<char>, i: int)
    requires
        0 <= i <= s.len(),
        forall|j: int| i <= j < s.len() ==> spec_is_whitespace(#[trigger] s[j]),
    ensures
        trim_end(s) == trim_end(s.take(i)),
    decreases s.len() - i,
{
    if i < s.len() {
        lemma_trim_end_take(s.drop_last(), i);
        assert(s.drop_last().take(i) == s.take(i));
    } else {
        assert(s.take(i) == s);
    }
}

/// The text with white space cut from both ends.
pub fn trim_str(s: &str) -> (r: String)
    ensures
        r@ == trim(s@),
{
    let v = chars_of(s);
    let mut a: usize = 0;
    while a < v.len() && char_is_whitespace(v[a])
        invariant
            a <= v@.len(),
            v@ == s@,
            forall|j: int| 0 <= j < a ==> spec_is_whitespace(#[trigger] v@[j]),
        decreases v@.len() - a,
    {
        a += 1;
    }
    proof {
        lemma_trim_start_skip(v@, a as int);
        if a < v@.len() {
            assert(trim_start(v@.skip(a as int)) == v@.skip(a as int));
        } else {
            assert(v@.skip(a as int).len() == 0);
        }
    }
    let mut b: usize = v.len();
    while b > a && char_is_whitespace(v[b - 1])
        invariant
            a <= b <= v@.len(),
            v@ == s@,
            forall|j: int| b <= j < v@.len() ==> spec_is_whitespace(#[trigger] v@[j]),
        decreases b,
    {
        b -= 1;
    }
    let mut out: Vec<char> = Vec::new();
    let mut k: usize = a;
    while k < b
        invariant
            a <= k <= b <= v@.len(),
            out@ == v@.subrange(a as int, k as int),
        decreases b - k,
    {
        out.push(v[k]);
        k += 1;
    }
    proof {
        let t = v@.skip(a as int);
        assert forall|j: int| b - a <= j < t.len() implies spec_is_whitespace(#[trigger] t[j]) by {
            assert(t[j] == v@[a + j]);
        }
        lemma_trim_end_take(t, b - a);
        assert(t.take(b - a) == v@.subrange(a as int, b as int));
        if b > a {
            assert(t.take(b - a).last() == v@[b - 1]);
            assert(trim_end(t.take(b - a)) == t.take(b - a));
        } else {
            assert(t.take(0).len() == 0);
        }
    }
    string_from(&out)
}

/// Whether `s` ends with `suffix`.
pub open spec fn ends_with(s: Seq<char>, suffix: Seq<char>) -> bool {
    s.len() >= suffix.len() && s.subrange(s.len() - suffix.len(), s.len() as int) == suffix
}

/// Whether `s` ends with `suffix`.
pub fn ends_with_str(s: &str, suffix: &str) -> (r: bool)
    ensures
        r == ends_with(s@, suffix@),
{
    let a = chars_of(s);
    let b = chars_of(suffix);
    if a.len() < b.len() {
        return false;
    }
    let off = a.len() - b.len();
    let mut i: usize = 0;
    while i < b.len()
        invariant
            i <= b@.len(),
            off + b@.len() == a@.len(),
            a.len() == a@.len(),
            a@ == s@,
            b@ == suffix@,
            forall|j: int| 0 <= j < i ==> a@[off + j] == b@[j],
        decreases b@.len() - i,
    {
        if a[off + i] != b[i] {
            assert(s@.subrange(s@.len() - suffix@.len(), s@.len() as int)[i as int] != suffix@[i as int]);
            return false;
        }
        i += 1;
    }
    assert(s@.subrange(s@.len() - suffix@.len(), s@.len() as int) =~= suffix@);
    true
}

/// The position of the last `c` in `s`, or `None`.
pub open spec fn last_index_of(s: Seq<char>, c: char) -> Option<int>
    decreases s.len(),
{
    if s.len() == 0 {
        None
    } else if s.last() == c {
        Some(s.len() - 1)
    } else {
        last_index_of(s.drop_last(), c)
    }
}

/// The text split around its last `.`, as `str::rsplit_once('.')` gives it.
pub open spec fn rsplit_dot(s: Seq<char>) -> Option<(Seq<char>, Seq<char>)> {
    match last_index_of(s, '.') {
        Some(i) => Some((s.take(i), s.skip(i + 1))),
        None => None,
    }
}

proof fn lemma_last_index_bounds(s: Seq<char>, c: char)
    ensures
        last_index_of(s, c) matches Some(i) ==> 0 <= i < s.len() && s[i] == c && forall|j: int| i < j < s.len() ==> s[j] != c,
        last_index_of(s, c) is None ==> forall|j: int| 0 <= j < s.len() ==> s[j] != c,
    decreases s.len(),
{
    if s.len() > 0 && s.last() != c {
        let d = s.drop_last();
        lemma_last_index_bounds(d, c);
        assert forall|j: int| 0 <= j < d.len() implies d[j] == s[j] by {}
    }
}

/// Splits text around its last `.`, as `rsplit_dot` describes.
pub fn rsplit_dot_str(s: &str) -> (r: Option<(String, String)>)
    ensures
        match r {
            Some((a, b)) => rsplit_dot(s@) == Some((a@, b@)),
            None => rsplit_dot(s@) is None,
        },
{
    let v = chars_of(s);
    let mut i: usize = v.len();
    assert(v@.take(v@.len() as int) == v@);
    while i > 0 && v[i - 1] != '.'
        invariant
            i <= v@.len(),
            v@ == s@,
            last_index_of(s@, '.') == last_index_of(v@.take(i as int), '.'),
        decreases i,
    {
        assert(v@.take(i as int).drop_last() == v@.take(i - 1));
        i -= 1;
    }
    if i == 0 {
        assert(v@.take(0).len() == 0);
        return None;
    }
    assert(v@.take(i as int).last() == '.');
    let mut left: Vec<char> = Vec::new();
    let mut k: usize = 0;
    while k < i - 1
        invariant
            k <= i - 1,
            i <= v@.len(),
            left@ == v@.take(k as int),
        decreases i - 1 - k,
    {
        left.push(v[k]);
        k += 1;
    }
    let mut right: Vec<char> = Vec::new();
    let mut k2: usize = i;
    while k2 < v.len()
        invariant
            i <= k2 <= v@.len(),
            right@ == v@.subrange(i as int, k2 as int),
        decreases v@.len() - k2,
    {
        right.push(v[k2]);
        k2 += 1;
    }
    assert(v@.subrange(i as int, v@.len() as int) == v@.skip(i as int));
    Some((string_from(&left), string_from(&right)))
}

/// The UTF-8 length of text in bytes.
pub open spec fn byte_len(s: Seq<char>) -> int {
    encode_utf8(s).len() as int
}

/// Where `s[..s.len().saturating_sub(suffix.len())]` cuts `s`: `suffix`'s byte length before
/// its end, or its start when the suffix is longer.
pub open spec fn cut_end(s: Seq<char>, suffix: Seq<char>) -> int {
    if byte_len(suffix) <= byte_len(s) {
        byte_len(s) - byte_len(suffix)
    } else {
        0
    }
}

/// Cutting `s` as that slicing does: the characters of its leading `cut_end` bytes.
/// Slicing panics when the cut falls inside a character; `cut_ok` says when it does not.
pub open spec fn cut_before_suffix(s: Seq<char>, suffix: Seq<char>) -> Seq<char> {
    decode_utf8(encode_utf8(s).subrange(0, cut_end(s, suffix)))
}

/// The cut of `cut_before_suffix` falls between characters (and the text's byte length
/// fits in `usize`, as that of any text in memory does).
pub open spec fn cut_ok(s: Seq<char>, suffix: Seq<char>) -> bool {
    &&& byte_len(s) <= usize::MAX
    &&& vstd::utf8::is_char_boundary(encode_utf8(s), cut_end(s, suffix))
}

/// Whether a candidate name, lower-cased, ends with `.` and the extension; the name then
/// loses that many bytes from its end.
pub open spec fn ends_with_ext(candidate: Seq<char>, ext: Seq<char>) -> bool {
    ends_with(spec_lowercase(candidate), seq!['.'] + ext)
}

/// The candidate without a trailing `.ext` (matched without regard to case): its leading
/// bytes up to where that suffix's bytes begin.
pub open spec fn strip_ext(candidate: Seq<char>, ext: Seq<char>) -> Seq<char> {
    if ends_with_ext(candidate, ext) {
        cut_before_suffix(candidate, seq!['.'] + ext)
    } else {
        candidate
    }
}

/// Removing `.ext` from the end of a candidate cuts it between characters.
pub open spec fn strip_ok(candidate: Seq<char>, ext: Seq<char>) -> bool {
    ends_with_ext(candidate, ext) ==> cut_ok(candidate, seq!['.'] + ext)
}

/// Drops a trailing `.ext` from a candidate, as `strip_ext` describes.
pub fn strip_ext_str(candidate: &str, ext: &str) -> (r: String)
    requires
        strip_ok(candidate@, ext@),
    ensures
        r@ == strip_ext(candidate@, ext@),
{
    let mut suffix = crate::text::str_to_string(".");
    crate::text::push_str(&mut suffix, ext);
    proof {
        reveal_strlit(".");
    }
    assert(suffix@ == seq!['.'] + ext@);
    let lower = str_to_lowercase(candidate);
    if !ends_with_str(lower.as_str(), suffix.as_str()) {
        return crate::text::str_to_string(candidate);
    }
    let sfx: &str = suffix.as_str();
    let bytes = candidate.as_bytes();
    let sbytes = sfx.as_bytes();
    proof {
        vstd::slice::axiom_spec_len(bytes);
        vstd::slice::axiom_spec_len(sbytes);
    }
    let total = bytes.len();
    let cut = sbytes.len();
    proof {
        assert(candidate.spec_bytes() == encode_utf8(candidate@));
        assert(sfx.spec_bytes() == encode_utf8(sfx@));
        assert(sfx@ == suffix@);
        assert(ends_with_ext(candidate@, ext@));
        assert(cut_ok(candidate@, seq!['.'] + ext@));
        assert(cut == byte_len(seq!['.'] + ext@));
        assert(total == byte_len(candidate@));
    }
    let end = if cut <= total { total - cut } else { 0 };
    let (head, _) = candidate.split_at(end);
    proof {
        vstd::utf8::encode_utf8_decode_utf8(head@);
    }
    crate::text::str_to_string(head)
}

/// The position of the first `c` in `s`, or `None`.
pub open spec fn first_index_of(s: Seq<char>, c: char) -> Option<int>
    decreases s.len(),
{
    if s.len() == 0 {
        None
    } else if s[0] == c {
        Some(0)
    } else {
        match first_index_of(s.drop_first(), c) {
            Some(i) => Some(i + 1),
            None => None,
        }
    }
}

/// The text split around its first `c`, as `str::split_once` gives it.
pub open spec fn split_once(s: Seq<char>, c: char) -> Option<(Seq<char>, Seq<char>)> {
    match first_index_of(s, c) {
        Some(i) => Some((s.take(i), s.skip(i + 1))),
        None => None,
    }
}

/// The pieces of `s` between the `c`s, empty pieces included, as `str::split` gives them.
pub open spec fn split_on(s: Seq<char>, c: char) -> Seq<Seq<char>>
    decreases s.len(),
{
    if s.len() == 0 {
        seq![seq![]]
    } else {
        let p = split_on(s.drop_last(), c);
        if s.last() == c {
            p.push(seq![])
        } else {
            p.update(p.len() - 1, p.last().push(s.last()))
        }
    }
}

proof fn lemma_split_on_nonempty(s: Seq<char>, c: char)
    ensures
        split_on(s, c).len() >= 1,
    decreases s.len(),
{
    if s.len() > 0 {
        lemma_split_on_nonempty(s.drop_last(), c);
    }
}

/// The text without its leading `c`s, as `str::trim_start_matches` gives it.
pub open spec fn trim_start_char(s: Seq<char>, c: char) -> Seq<char>
    decreases s.len(),
{
    if s.len() > 0 && s[0] == c {
        trim_start_char(s.drop_first(), c)
    } else {
        s
    }
}

/// Splits text around its first `c`, as `split_once` describes.
pub fn split_once_str(s: &str, c: char) -> (r: Option<(String, String)>)
    ensures
        match r {
            Some((a, b)) => split_once(s@, c) == Some((a@, b@)),
            None => split_once(s@, c) is None,
        },
{
    let v = chars_of(s);
    let mut i: usize = 0;
    assert(v@.skip(0) == v@);
    while i < v.len() && v[i] != c
        invariant
            i <= v@.len(),
            v@ == s@,
            first_index_of(s@, c) == match first_index_of(v@.skip(i as int), c) {
                Some(k) => Some(k + i),
                None => None,
            },
        decreases v@.len() - i,
    {
        assert(v@.skip(i as int).drop_first() == v@.skip(i + 1));
        i += 1;
    }
    if i == v.len() {
        assert(v@.skip(i as int).len() == 0);
        return None;
    }
    let mut left: Vec<char> = Vec::new();
    let mut k: usize = 0;
    while k < i
        invariant
            k <= i < v@.len(),
            left@ == v@.take(k as int),
        decreases i - k,
    {
        left.push(v[k]);
        k += 1;
    }
    let mut right: Vec<char> = Vec::new();
    let mut k2: usize = i + 1;
    while k2 < v.len()
        invariant
            i + 1 <= k2 <= v@.len(),
            right@ == v@.subrange(i + 1, k2 as int),
        decreases v@.len() - k2,
    {
        right.push(v[k2]);
        k2 += 1;
    }
    assert(v@.subrange(i + 1, v@.len() as int) == v@.skip(i + 1));
    Some((string_from(&left), string_from(&right)))
}

/// The pieces of text between the `c`s, as `split_on` describes.
pub fn split_on_str(s: &str, c: char) -> (r: Vec<String>)
    ensures
        crate::model::string_views(r@) == split_on(s@, c),
{
    let v = chars_of(s);
    let mut pieces: Vec<Vec<char>> = Vec::new();
    pieces.push(Vec::new());
    let mut i: usize = 0;
    assert(v@.take(0).len() == 0);
    while i < v.len()
        invariant
            i <= v@.len(),
            v@ == s@,
            pieces@.len() >= 1,
            crate::naming::views(pieces@) == split_on(v@.take(i as int), c),
        decreases v@.len() - i,
    {
        let ch = v[i];
        assert(v@.take(i + 1).drop_last() == v@.take(i as int));
        assert(v@.take(i + 1).last() == ch);
        if ch == c {
            pieces.push(Vec::new());
            assert(crate::naming::views(pieces@) =~= split_on(v@.take(i + 1), c));
        } else {
            let mut p = pieces.pop().unwrap();
            p.push(ch);
            pieces.push(p);
            assert(crate::naming::views(pieces@) =~= split_on(v@.take(i + 1), c));
        }
        i += 1;
    }
    assert(v@.take(i as int) == v@);
    let mut out: Vec<String> = Vec::new();
    let mut k: usize = 0;
    while k < pieces.len()
        invariant
            k <= pieces@.len(),
            out@.len() == k,
            forall|j: int| 0 <= j < k ==> #[trigger] out@[j]@ == pieces@[j]@,
        decreases pieces@.len() - k,
    {
        out.push(string_from(&pieces[k]));
        k += 1;
    }
    assert(crate::model::string_views(out@) =~= crate::naming::views(pieces@));
    out
}

/// The text without its leading `c`s, as `trim_start_char` describes.
pub fn trim_start_char_str(s: &str, c: char) -> (r: String)
    ensures
        r@ == trim_start_char(s@, c),
{
    let v = chars_of(s);
    let mut i: usize = 0;
    assert(v@.skip(0) == v@);
    while i < v.len() && v[i] == c
        invariant
            i <= v@.len(),
            v@ == s@,
            trim_start_char(s@, c) == trim_start_char(v@.skip(i as int), c),
        decreases v@.len() - i,
    {
        assert(v@.skip(i as int).drop_first() == v@.skip(i + 1));
        i += 1;
    }
    let mut out: Vec<char> = Vec::new();
    let mut k: usize = i;
    while k < v.len()
        invariant
            i <= k <= v@.len(),
            out@ == v@.subrange(i as int, k as int),
        decreases v@.len() - k,
    {
        out.push(v[k]);
        k += 1;
    }
    assert(v@.subrange(i as int, v@.len() as int) == v@.skip(i as int));
    string_from(&out)
}

} // verus!
