//! Sets of texts held in vectors: no text occurs twice, and membership is by text.
use vstd::prelude::*;
use crate::scope::{has_text, text_index};
use crate::text::str_to_string;

verus! {

/// No text occurs twice.
pub open spec fn distinct_texts(v: Seq<String>) -> bool {
    forall|i: int, j: int| 0 <= i < v.len() && 0 <= j < v.len() && i != j ==> (#[trigger] v[i])@ != (#[trigger] v[j])@
}

/// Adds a text unless it is there already.
pub fn set_insert(v: &mut Vec<String>, t: &str)
    ensures
        forall|x: Seq<char>| has_text(final(v)@, x) <==> has_text(old(v)@, x) || x == t@,
        distinct_texts(old(v)@) ==> distinct_texts(final(v)@),
        has_text(old(v)@, t@) ==> final(v)@ == old(v)@,
{
    if text_index(v, t).is_none() {
        let ghost before = v@;
        v.push(str_to_string(t));
        proof {
            assert forall|x: Seq<char>| has_text(v@, x) <==> has_text(before, x) || x == t@ by {
                if has_text(before, x) {
                    let i = choose|i: int| 0 <= i < before.len() && #[trigger] before[i]@ == x;
                    assert(v@[i]@ == x);
                }
                if x == t@ {
                    assert(v@[before.len() as int]@ == x);
                }
                if has_text(v@, x) {
                    let i = choose|i: int| 0 <= i < v@.len() && #[trigger] v@[i]@ == x;
                    if i < before.len() {
                        assert(before[i]@ == x);
                    }
                }
            }
        }
    }
}

/// Takes a text out; with no text twice, it is then absent.
pub fn set_remove(v: &mut Vec<String>, t: &str)
    requires
        distinct_texts(old(v)@),
    ensures
        forall|x: Seq<char>| has_text(final(v)@, x) <==> has_text(old(v)@, x) && x != t@,
        distinct_texts(final(v)@),
        !has_text(old(v)@, t@) ==> final(v)@ == old(v)@,
{
    match text_index(v, t) {
        None => {},
        Some(i) => {
            let ghost before = v@;
            v.remove(i);
            proof {
                assert forall|x: Seq<char>| has_text(v@, x) <==> has_text(before, x) && x != t@ by {
                    if has_text(v@, x) {
                        let j = choose|j: int| 0 <= j < v@.len() && #[trigger] v@[j]@ == x;
                        if j < i {
                            assert(before[j]@ == x);
                        } else {
                            assert(before[j + 1]@ == x);
                        }
                    }
                    if has_text(before, x) && x != t@ {
                        let j = choose|j: int| 0 <= j < before.len() && #[trigger] before[j]@ == x;
                        if j < i {
                            assert(v@[j]@ == x);
                        } else {
                            assert(j != i);
                            assert(v@[j - 1]@ == x);
                        }
                    }
                }
                assert forall|a: int, b: int| 0 <= a < v@.len() && 0 <= b < v@.len() && a != b implies (#[trigger] v@[a])@ != (#[trigger] v@[b])@ by {
                    let a2 = if a < i { a } else { a + 1 };
                    let b2 = if b < i { b } else { b + 1 };
                    assert(v@[a] == before[a2]);
                    assert(v@[b] == before[b2]);
                }
            }
        },
    }
}

} // verus!
