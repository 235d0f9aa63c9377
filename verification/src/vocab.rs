//! The vocabulary of typed overrides: a sorted set of texts, and completion from it.
use vstd::prelude::*;
use crate::fs_scan::{chars_lt, seq_lt};
use crate::io::same_text;
use crate::scope::has_text;
use crate::text::{chars_of, spec_lowercase, str_to_lowercase};

verus! {

/// Two character sequences are equal or one comes first in the order of `seq_lt`.
pub proof fn lemma_seq_lt_total(a: Seq<char>, b: Seq<char>)
    ensures
        a == b || seq_lt(a, b) || seq_lt(b, a),
    decreases a.len(),
{
    if a.len() == 0 && b.len() == 0 {
        assert(a =~= b);
    } else if a.len() > 0 && b.len() > 0 && a[0] == b[0] {
        lemma_seq_lt_total(a.drop_first(), b.drop_first());
        if a.drop_first() == b.drop_first() {
            assert(a =~= seq![a[0]] + a.drop_first());
            assert(b =~= seq![b[0]] + b.drop_first());
        }
    } else if a.len() > 0 && b.len() > 0 {
        if (a[0] as u32) == (b[0] as u32) {
            vstd::utf8::char_u32_cast(a[0], a[0] as u32);
            vstd::utf8::char_u32_cast(b[0], b[0] as u32);
        }
    }
}

/// The order of `seq_lt` is transitive.
pub proof fn lemma_seq_lt_trans(a: Seq<char>, b: Seq<char>, c: Seq<char>)
    requires
        seq_lt(a, b),
        seq_lt(b, c),
    ensures
        seq_lt(a, c),
    decreases a.len(),
{
    if a.len() > 0 && a[0] == b[0] && b[0] == c[0] {
        lemma_seq_lt_trans(a.drop_first(), b.drop_first(), c.drop_first());
    }
}

/// The texts are in strictly increasing order, so none occurs twice.
pub open spec fn sorted_texts(v: Seq<String>) -> bool {
    forall|i: int, j: int| 0 <= i < j < v.len() ==> seq_lt(#[trigger] v[i]@, #[trigger] v[j]@)
}

/// Adds `t` to the sorted set `v`, keeping it sorted.
pub fn sorted_insert(v: &mut Vec<String>, t: String)
    ensures
        forall|x: Seq<char>| has_text(final(v)@, x) <==> has_text(old(v)@, x) || x == t@,
        sorted_texts(old(v)@) ==> sorted_texts(final(v)@),
{
    let ghost before = v@;
    let tc = chars_of(t.as_str());
    let mut p: usize = 0;
    while p < v.len() && chars_lt(&chars_of(v[p].as_str()), &tc)
        invariant
            p <= v@.len(),
            tc@ == t@,
            v@ == before,
            forall|j: int| 0 <= j < p ==> seq_lt(#[trigger] v@[j]@, t@),
        decreases v@.len() - p,
    {
        p += 1;
    }
    if p < v.len() && same_text(&v[p], &t) {
        return;
    }
    proof {
        if p < before.len() {
            lemma_seq_lt_total(before[p as int]@, t@);
        }
    }
    v.insert(p, t);
    proof {
        let ghost after = v@;
        assert(after == before.insert(p as int, t));
        assert forall|x: Seq<char>| has_text(after, x) <==> has_text(before, x) || x == t@ by {
            if has_text(before, x) {
                let i = choose|i: int| 0 <= i < before.len() && #[trigger] before[i]@ == x;
                if i < p {
                    assert(after[i]@ == x);
                } else {
                    assert(after[i + 1]@ == x);
                }
            }
            if x == t@ {
                assert(after[p as int]@ == x);
            }
            if has_text(after, x) {
                let i = choose|i: int| 0 <= i < after.len() && #[trigger] after[i]@ == x;
                if i < p {
                    assert(before[i]@ == x);
                } else if i > p {
                    assert(before[i - 1]@ == x);
                }
            }
        }
        if sorted_texts(before) {
            assert forall|i: int, j: int| 0 <= i < j < after.len() implies seq_lt(#[trigger] after[i]@, #[trigger] after[j]@) by {
                if j < p {
                    assert(after[i] == before[i] && after[j] == before[j]);
                } else if j == p {
                    assert(after[i] == before[i]);
                } else if i == p {
                    assert(after[j] == before[j - 1]);
                    if j - 1 > p {
                        assert(seq_lt(before[p as int]@, before[j - 1]@));
                        lemma_seq_lt_trans(t@, before[p as int]@, before[j - 1]@);
                    }
                } else if i < p {
                    assert(after[i] == before[i] && after[j] == before[j - 1]);
                    if i < j - 1 {
                        assert(seq_lt(before[i]@, before[j - 1]@));
                    } else {
                        assert(seq_lt(before[i]@, t@));
                        lemma_seq_lt_trans(before[i]@, t@, before[p as int]@);
                    }
                } else {
                    assert(after[i] == before[i - 1] && after[j] == before[j - 1]);
                }
            }
        }
    }
}

/// `p` begins `s`.
pub open spec fn starts_with(s: Seq<char>, p: Seq<char>) -> bool {
    p.len() <= s.len() && s.take(p.len() as int) == p
}

/// Whether `p` begins `s`.
pub fn chars_start_with(s: &Vec<char>, p: &Vec<char>) -> (r: bool)
    ensures
        r == starts_with(s@, p@),
{
    if p.len() > s.len() {
        return false;
    }
    let mut i: usize = 0;
    while i < p.len()
        invariant
            i <= p@.len() <= s@.len(),
            forall|j: int| 0 <= j < i ==> s@[j] == p@[j],
        decreases p@.len() - i,
    {
        if s[i] != p[i] {
            assert(s@.take(p@.len() as int)[i as int] != p@[i as int]);
            return false;
        }
        i += 1;
    }
    assert(s@.take(p@.len() as int) =~= p@);
    true
}

/// Whether the lowercase of `item` begins with `prefix` and is longer than it.
pub open spec fn completes(item: Seq<char>, prefix: Seq<char>) -> bool {
    starts_with(spec_lowercase(item), prefix) && spec_lowercase(item) != prefix
}

/// The first text of `v` that `completes` the lowercase `prefix`.
pub open spec fn completion(v: Seq<String>, prefix: Seq<char>) -> Option<Seq<char>>
    decreases v.len(),
{
    if v.len() == 0 {
        None
    } else if completes(v[0]@, prefix) {
        Some(v[0]@)
    } else {
        completion(v.drop_first(), prefix)
    }
}

/// In a sorted vocabulary the completion of a prefix is the least entry that completes it:
/// no entry that completes the prefix comes before it in text order.
pub proof fn lemma_completion_least(v: Seq<String>, prefix: Seq<char>, k: int)
    requires
        sorted_texts(v),
        0 <= k < v.len(),
        completes(v[k]@, prefix),
    ensures
        completion(v, prefix) matches Some(c) && (c == v[k]@ || seq_lt(c, v[k]@)),
    decreases v.len(),
{
    if !completes(v[0]@, prefix) {
        let w = v.drop_first();
        assert forall|i: int, j: int| 0 <= i < j < w.len() implies seq_lt(#[trigger] w[i]@, #[trigger] w[j]@) by {
            assert(w[i] == v[i + 1] && w[j] == v[j + 1]);
        }
        assert(w[k - 1] == v[k]);
        lemma_completion_least(w, prefix, k - 1);
    }
}

/// Finds `completion`.
pub fn find_completion(v: &Vec<String>, prefix: &Vec<char>) -> (r: Option<String>)
    ensures
        match r {
            Some(s) => completion(v@, prefix@) == Some(s@),
            None => completion(v@, prefix@) is None,
        },
{
    let mut i: usize = 0;
    assert(v@.skip(0) == v@);
    while i < v.len()
        invariant
            i <= v@.len(),
            completion(v@, prefix@) == completion(v@.skip(i as int), prefix@),
        decreases v@.len() - i,
    {
        let ghost rest = v@.skip(i as int);
        assert(rest[0] == v@[i as int]);
        assert(rest.drop_first() =~= v@.skip(i + 1));
        let lower = chars_of(str_to_lowercase(v[i].as_str()).as_str());
        if chars_start_with(&lower, prefix) && !vec_chars_equal(&lower, prefix) {
            return Some(v[i].clone());
        }
        i += 1;
    }
    None
}

/// Whether two character vectors hold the same characters.
pub fn vec_chars_equal(a: &Vec<char>, b: &Vec<char>) -> (r: bool)
    ensures
        r == (a@ == b@),
{
    if a.len() != b.len() {
        return false;
    }
    let mut i: usize = 0;
    while i < a.len()
        invariant
            i <= a@.len() == b@.len(),
            forall|j: int| 0 <= j < i ==> a@[j] == b@[j],
        decreases a@.len() - i,
    {
        if a[i] != b[i] {
            return false;
        }
        i += 1;
    }
    assert(a@ =~= b@);
    true
}

} // verus!
