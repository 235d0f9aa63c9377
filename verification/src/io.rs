//! The outside work the planner asks for, and the record of its answers.
//!
//! The planner's state changes are computed here; listing directories, writing files and
//! the clipboard happen outside. An operation that needs an answer that the record does not
//! hold stops with the request; the caller performs it, adds the answer and runs the
//! operation again from the state it had before.
use vstd::prelude::*;
use crate::config::AppConfig;
use crate::fs_scan::FsEntry;
use crate::text::chars_of;
use crate::naming::chars_equal;

verus! {

/// A piece of outside work.
#[derive(Debug, Clone)]
pub enum IoRequest {
    /// List a directory (hidden entries included only when asked for).
    ListDir { path: String, show_hidden: bool },
    /// Write the prompt history.
    SavePromptHistory(Vec<String>),
    /// Write the settings file.
    SaveConfig(AppConfig),
    /// Put text on the clipboard.
    CopyText(String),
}

/// The answers to outside work gathered so far.
#[derive(Debug, Clone, Default)]
pub struct IoLog {
    /// Directory listings: the path, whether hidden entries were included, and the ordered
    /// entries or the error text.
    pub listings: Vec<(String, bool, Result<Vec<FsEntry>, String>)>,
}

/// Whether a listing record answers a request for `path`.
pub open spec fn listing_matches(e: (String, bool, Result<Vec<FsEntry>, String>), path: Seq<char>, hidden: bool) -> bool {
    e.0@ == path && e.1 == hidden
}

/// The position of the first listing record for `path`.
pub open spec fn first_listing(s: Seq<(String, bool, Result<Vec<FsEntry>, String>)>, path: Seq<char>, hidden: bool) -> Option<int>
    decreases s.len(),
{
    if s.len() == 0 {
        None
    } else if listing_matches(s[0], path, hidden) {
        Some(0)
    } else {
        match first_listing(s.drop_first(), path, hidden) {
            Some(i) => Some(i + 1),
            None => None,
        }
    }
}

proof fn lemma_first_listing_bounds(s: Seq<(String, bool, Result<Vec<FsEntry>, String>)>, path: Seq<char>, hidden: bool)
    ensures
        first_listing(s, path, hidden) matches Some(i) ==> 0 <= i < s.len() && listing_matches(s[i], path, hidden),
    decreases s.len(),
{
    if s.len() > 0 && !listing_matches(s[0], path, hidden) {
        lemma_first_listing_bounds(s.drop_first(), path, hidden);
    }
}

/// A later record never changes which record answers first.
pub proof fn lemma_first_listing_push(
    s: Seq<(String, bool, Result<Vec<FsEntry>, String>)>,
    e: (String, bool, Result<Vec<FsEntry>, String>),
    path: Seq<char>,
    hidden: bool,
)
    ensures
        first_listing(s, path, hidden) is Some ==> first_listing(s.push(e), path, hidden) == first_listing(s, path, hidden),
    decreases s.len(),
{
    if s.len() > 0 {
        assert(s.push(e)[0] == s[0]);
        assert(s.push(e).drop_first() =~= s.drop_first().push(e));
        lemma_first_listing_push(s.drop_first(), e, path, hidden);
    }
}

/// The answer the record holds for listing `path`: `None` when it holds none, `Some(None)`
/// when the listing failed, otherwise the entries.
pub open spec fn log_listing(log: IoLog, path: Seq<char>, hidden: bool) -> Option<Option<Seq<FsEntry>>> {
    match first_listing(log.listings@, path, hidden) {
        None => None,
        Some(i) => match log.listings@[i].2 {
            Ok(v) => Some(Some(v@)),
            Err(_) => Some(None),
        },
    }
}

/// The error text the record holds for a failed listing of `path`.
pub open spec fn log_listing_error(log: IoLog, path: Seq<char>, hidden: bool) -> Seq<char> {
    match first_listing(log.listings@, path, hidden) {
        Some(i) => match log.listings@[i].2 {
            Err(e) => e@,
            Ok(_) => seq![],
        },
        None => seq![],
    }
}

/// Whether two strings hold the same text.
pub fn same_text(a: &String, b: &String) -> (r: bool)
    ensures
        r == (a@ == b@),
{
    chars_equal(&chars_of(a.as_str()), b.as_str())
}

impl IoLog {
    /// An empty record.
    pub fn new() -> (r: IoLog)
        ensures
            r.listings@.len() == 0,
    {
        IoLog { listings: Vec::new() }
    }

    /// Records the answer to listing `path` (hidden entries included when `show_hidden`):
    /// the entries in listing order, or the error text.
    pub fn add_listing(&mut self, path: String, show_hidden: bool, result: Result<Vec<FsEntry>, String>)
        ensures
            final(self).listings@ == old(self).listings@.push((path, show_hidden, result)),
    {
        self.listings.push((path, show_hidden, result));
    }

    /// The position of the first listing of `path`.
    pub fn find_listing(&self, path: &String, show_hidden: bool) -> (r: Option<usize>)
        ensures
            r matches Some(i) ==> first_listing(self.listings@, path@, show_hidden) == Some(i as int)
                && i < self.listings@.len(),
            r is None ==> first_listing(self.listings@, path@, show_hidden) is None,
    {
        let mut i: usize = 0;
        assert(self.listings@.skip(0) == self.listings@);
        while i < self.listings.len()
            invariant
                i <= self.listings@.len(),
                first_listing(self.listings@, path@, show_hidden) == (match first_listing(
                    self.listings@.skip(i as int),
                    path@,
                    show_hidden,
                ) {
                    Some(k) => Some(k + i),
                    None => None,
                }),
            decreases self.listings@.len() - i,
        {
            let ghost rest = self.listings@.skip(i as int);
            assert(rest[0] == self.listings@[i as int]);
            assert(rest.drop_first() =~= self.listings@.skip(i + 1));
            if self.listings[i].1 == show_hidden && same_text(&self.listings[i].0, path) {
                return Some(i);
            }
            i += 1;
        }
        None
    }
}

} // verus!
