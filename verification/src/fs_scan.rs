//! Directory entries and the order in which the planner lists and collects them.
use vstd::prelude::*;
use std::time::SystemTime;
use crate::io::{first_listing, log_listing, IoLog, IoRequest};
use crate::model::string_views;
use crate::paths::{extension_of, path_lt, spec_extension, spec_path_lt};
use crate::text::{char_count, chars_of, spec_lowercase, str_to_lowercase};

verus! {

/// One directory entry as a scan reports it. The extension is lower-cased.
#[derive(Debug, Clone)]
pub struct FsEntry {
    pub path: String,
    pub name: String,
    pub is_dir: bool,
    pub modified: Option<SystemTime>,
    pub size: u64,
    pub extension: Option<String>,
}

/// Whether a file name marks a hidden entry: it starts with a dot.
pub open spec fn hidden_name(name: Seq<char>) -> bool {
    name.len() > 0 && name[0] == '.'
}

/// Whether a name is hidden, as `hidden_name` describes.
pub fn is_hidden(name: &str) -> (r: bool)
    ensures
        r == hidden_name(name@),
{
    let chars = chars_of(name);
    chars.len() > 0 && chars[0] == '.'
}

/// The lower-cased extension of a path, as scans record it.
pub open spec fn entry_extension(path: Seq<char>) -> Option<Seq<char>> {
    match spec_extension(path) {
        Some(e) => Some(spec_lowercase(e)),
        None => None,
    }
}

/// An entry for a path, with its extension taken from the path and lower-cased.
pub fn make_entry(path: String, name: String, is_dir: bool, modified: Option<SystemTime>, size: u64) -> (e: FsEntry)
    ensures
        e.path == path,
        e.name == name,
        e.is_dir == is_dir,
        e.modified == modified,
        e.size == size,
        opt_view(e.extension) == entry_extension(path@),
{
    let extension = match extension_of(path.as_str()) {
        Some(x) => Some(str_to_lowercase(x.as_str())),
        None => None,
    };
    FsEntry { path, name, is_dir, modified, size, extension }
}

/// The text of an optional string.
pub open spec fn opt_view(o: Option<String>) -> Option<Seq<char>> {
    match o {
        Some(s) => Some(s@),
        None => None,
    }
}

/// Strict lexicographic order of character sequences by code point, which is the order
/// of `String`'s `<`.
pub open spec fn seq_lt(a: Seq<char>, b: Seq<char>) -> bool
    decreases a.len(),
{
    if b.len() == 0 {
        false
    } else if a.len() == 0 {
        true
    } else if a[0] != b[0] {
        (a[0] as u32) < (b[0] as u32)
    } else {
        seq_lt(a.drop_first(), b.drop_first())
    }
}

/// `seq_lt` never holds both ways.
pub proof fn lemma_seq_lt_asymmetric(a: Seq<char>, b: Seq<char>)
    ensures
        !(seq_lt(a, b) && seq_lt(b, a)),
    decreases a.len(),
{
    if a.len() > 0 && b.len() > 0 && a[0] == b[0] {
        lemma_seq_lt_asymmetric(a.drop_first(), b.drop_first());
    }
}

/// Whether `a` comes before `b` in the order of `String`'s `<`.
pub fn chars_lt(a: &Vec<char>, b: &Vec<char>) -> (r: bool)
    ensures
        r == seq_lt(a@, b@),
{
    let mut i: usize = 0;
    assert(a@.skip(0) == a@ && b@.skip(0) == b@);
    while i < a.len() && i < b.len() && a[i] == b[i]
        invariant
            i <= a.len(),
            i <= b.len(),
            seq_lt(a@, b@) == seq_lt(a@.skip(i as int), b@.skip(i as int)),
        decreases a.len() - i,
    {
        assert(a@.skip(i as int).drop_first() =~= a@.skip(i + 1));
        assert(b@.skip(i as int).drop_first() =~= b@.skip(i + 1));
        i += 1;
    }
    if i >= b.len() {
        return false;
    }
    if i >= a.len() {
        return true;
    }
    (a[i] as u32) < (b[i] as u32)
}

/// Whether entry `a` is listed before entry `b`: directories first, then by lower-cased
/// name.
pub open spec fn entry_before(a: FsEntry, b: FsEntry) -> bool {
    (a.is_dir && !b.is_dir) || (a.is_dir == b.is_dir && seq_lt(spec_lowercase(a.name@), spec_lowercase(b.name@)))
}

fn entry_precedes(a: &FsEntry, b: &FsEntry) -> (r: bool)
    ensures
        r == entry_before(*a, *b),
{
    if a.is_dir && !b.is_dir {
        return true;
    }
    if a.is_dir != b.is_dir {
        return false;
    }
    let la = chars_of(str_to_lowercase(a.name.as_str()).as_str());
    let lb = chars_of(str_to_lowercase(b.name.as_str()).as_str());
    chars_lt(&la, &lb)
}

/// No entry is listed before the one before it.
pub open spec fn entries_ordered(s: Seq<FsEntry>) -> bool {
    forall|i: int| 0 <= i < s.len() - 1 ==> !entry_before(#[trigger] s[i + 1], s[i])
}

/// A directory listing as the file tree shows it: hidden entries dropped unless asked
/// for, then ordered by `entry_before` (entries neither before the other keep their order).
pub fn order_scanned(entries: Vec<FsEntry>, show_hidden: bool) -> (out: Vec<FsEntry>)
    ensures
        entries_ordered(out@),
        out@.to_multiset() == entries@.filter(|e: FsEntry| show_hidden || !hidden_name(e.name@)).to_multiset(),
{
    let ghost kept = entries@.filter(|e: FsEntry| show_hidden || !hidden_name(e.name@));
    let mut out: Vec<FsEntry> = Vec::new();
    let mut rest = entries;
    let ghost orig = rest@;
    let mut reversed: Vec<FsEntry> = Vec::new();
    while rest.len() > 0
        invariant
            reversed@.len() + rest@.len() == orig.len(),
            forall|i: int| 0 <= i < reversed@.len() ==> reversed@[i] == orig[orig.len() - 1 - i],
            rest@ == orig.take(rest@.len() as int),
        decreases rest@.len(),
    {
        let e = rest.pop().unwrap();
        reversed.push(e);
    }
    let ghost n = orig.len();
    assert(orig.take(0).filter(|e: FsEntry| show_hidden || !hidden_name(e.name@)) =~= Seq::<FsEntry>::empty()) by {
        reveal(Seq::filter);
    }
    assert(out@.to_multiset() =~= Seq::<FsEntry>::empty().to_multiset()) by {
        broadcast use vstd::seq_lib::group_to_multiset_ensures;
    }
    while reversed.len() > 0
        invariant
            reversed@.len() <= n,
            n == orig.len(),
            forall|i: int| 0 <= i < reversed@.len() ==> reversed@[i] == orig[n - 1 - i],
            entries_ordered(out@),
            out@.to_multiset() == orig.take(n - reversed@.len()).filter(|e: FsEntry| show_hidden || !hidden_name(e.name@)).to_multiset(),
        decreases reversed@.len(),
    {
        let ghost done = n - reversed@.len();
        let e = reversed.pop().unwrap();
        assert(e == orig[done]);
        assert(orig.take(done + 1) == orig.take(done).push(e));
        proof {
            orig.take(done).lemma_filter_push(e, |x: FsEntry| show_hidden || !hidden_name(x.name@));
        }
        if show_hidden || !is_hidden(e.name.as_str()) {
            let mut p: usize = 0;
            while p < out.len() && !entry_precedes(&e, &out[p])
                invariant
                    p <= out@.len(),
                    forall|q: int| 0 <= q < p ==> !entry_before(e, #[trigger] out@[q]),
                decreases out@.len() - p,
            {
                p += 1;
            }
            let ghost before = out@;
            proof {
                if p < out@.len() {
                    lemma_seq_lt_asymmetric(spec_lowercase(e.name@), spec_lowercase(out@[p as int].name@));
                }
            }
            out.insert(p, e);
            proof {
                assert forall|i: int| 0 <= i < out@.len() - 1 implies !entry_before(#[trigger] out@[i + 1], out@[i]) by {
                    if i + 1 < p {
                        assert(out@[i] == before[i] && out@[i + 1] == before[i + 1]);
                        assert(!entry_before(before[i + 1], before[i]));
                    } else if i + 1 == p {
                        assert(out@[i + 1] == e && out@[i] == before[i]);
                        assert(!entry_before(e, before[i]));
                    } else if i == p {
                        assert(out@[i] == e && out@[i + 1] == before[i]);
                        assert(entry_before(e, before[i]));
                    } else {
                        assert(out@[i] == before[i - 1] && out@[i + 1] == before[i]);
                        assert(!entry_before(before[(i - 1) + 1], before[i - 1]));
                    }
                }
                vstd::seq_lib::to_multiset_insert(before, p as int, e);
                vstd::seq_lib::to_multiset_build(orig.take(done).filter(|x: FsEntry| show_hidden || !hidden_name(x.name@)), e);
            }
        }
    }
    assert(orig.take(n as int) == orig);
    out
}


/// An entry with the same fields.
pub fn copy_entry(e: &FsEntry) -> (r: FsEntry)
    ensures
        r == *e,
{
    FsEntry {
        path: e.path.clone(),
        name: e.name.clone(),
        is_dir: e.is_dir,
        modified: e.modified,
        size: e.size,
        extension: match &e.extension {
            Some(x) => Some(x.clone()),
            None => None,
        },
    }
}

/// The number of listing records (for the given hidden-entry setting) whose path is longer
/// than `n` characters. Every walk into a subdirectory lowers it.
pub open spec fn longer_keys(s: Seq<(String, bool, Result<Vec<FsEntry>, String>)>, hidden: bool, n: int) -> nat
    decreases s.len(),
{
    if s.len() == 0 {
        0
    } else {
        longer_keys(s.drop_last(), hidden, n) + if s.last().1 == hidden && s.last().0@.len() > n {
            1nat
        } else {
            0nat
        }
    }
}

pub proof fn lemma_longer_keys_step(s: Seq<(String, bool, Result<Vec<FsEntry>, String>)>, hidden: bool, a: int, b: int, i: int)
    requires
        a < b,
        0 <= i < s.len(),
        s[i].1 == hidden,
        a < s[i].0@.len() <= b,
    ensures
        longer_keys(s, hidden, a) >= longer_keys(s, hidden, b) + 1,
    decreases s.len(),
{
    if i < s.len() - 1 {
        lemma_longer_keys_step(s.drop_last(), hidden, a, b, i);
    } else {
        lemma_longer_keys_mono(s.drop_last(), hidden, a, b);
    }
}

pub proof fn lemma_longer_keys_mono(s: Seq<(String, bool, Result<Vec<FsEntry>, String>)>, hidden: bool, a: int, b: int)
    requires
        a <= b,
    ensures
        longer_keys(s, hidden, a) >= longer_keys(s, hidden, b),
    decreases s.len(),
{
    if s.len() > 0 {
        lemma_longer_keys_mono(s.drop_last(), hidden, a, b);
    }
}

pub proof fn lemma_first_listing_found(s: Seq<(String, bool, Result<Vec<FsEntry>, String>)>, path: Seq<char>, hidden: bool)
    ensures
        first_listing(s, path, hidden) matches Some(i) ==> 0 <= i < s.len() && s[i].0@ == path && s[i].1 == hidden,
    decreases s.len(),
{
    if s.len() > 0 && !(s[0].0@ == path && s[0].1 == hidden) {
        lemma_first_listing_found(s.drop_first(), path, hidden);
    }
}

/// One directory's entries taken in, last entry first as the walk takes them: files join
/// `out` until it holds `limit` of them, and the subdirectories (those whose path extends
/// the directory's) are returned in listing order to be walked next.
pub open spec fn absorb(children: Seq<FsEntry>, parent_len: int, out: Seq<FsEntry>, limit: int) -> (Seq<FsEntry>, Seq<Seq<char>>)
    decreases children.len(),
{
    if children.len() == 0 {
        (out, seq![])
    } else {
        let c = children.last();
        if c.is_dir {
            let (o, ds) = absorb(children.drop_last(), parent_len, out, limit);
            (o, if c.path@.len() > parent_len { ds.push(c.path@) } else { ds })
        } else {
            let o1 = out.push(c);
            if o1.len() >= limit {
                (o1, seq![])
            } else {
                absorb(children.drop_last(), parent_len, o1, limit)
            }
        }
    }
}

/// The files a depth-first walk from `path` adds to `out`, stopping once `out` holds `limit`
/// files; a directory whose listing failed is skipped. `None` when the walk needs a listing
/// that the record does not hold.
pub open spec fn collect_visit(log: IoLog, hidden: bool, limit: int, path: Seq<char>, out: Seq<FsEntry>) -> Option<Seq<FsEntry>>
    decreases longer_keys(log.listings@, hidden, path.len() as int), 1int, 0int,
{
    if out.len() >= limit {
        Some(out)
    } else {
        match log_listing(log, path, hidden) {
            None => None,
            Some(None) => Some(out),
            Some(Some(children)) => {
                let (o, ds) = absorb(children, path.len() as int, out, limit);
                collect_dirs(log, hidden, limit, path, ds, o)
            },
        }
    }
}

/// The walk continued through subdirectories `ds` of `parent`, in order.
pub open spec fn collect_dirs(log: IoLog, hidden: bool, limit: int, parent: Seq<char>, ds: Seq<Seq<char>>, out: Seq<FsEntry>) -> Option<Seq<FsEntry>>
    decreases longer_keys(log.listings@, hidden, parent.len() as int), 0int, ds.len(),
{
    if ds.len() == 0 {
        Some(out)
    } else if out.len() >= limit {
        Some(out)
    } else {
        let d = ds[0];
        if first_listing(log.listings@, d, hidden) is None {
            None
        } else if d.len() <= parent.len() {
            collect_dirs(log, hidden, limit, parent, ds.drop_first(), out)
        } else {
            proof {
                lemma_first_listing_found(log.listings@, d, hidden);
                let i = first_listing(log.listings@, d, hidden)->0;
                lemma_longer_keys_step(log.listings@, hidden, parent.len() as int, d.len() as int, i);
            }
            match collect_visit(log, hidden, limit, d, out) {
                None => None,
                Some(o) => collect_dirs(log, hidden, limit, parent, ds.drop_first(), o),
            }
        }
    }
}

/// The directory whose listing the walk from `path` stops on, when it stops on one: the
/// first directory, in the order the walk reaches them, that the record holds no listing
/// for. (Any path when the walk finishes.)
pub open spec fn visit_missing(log: IoLog, hidden: bool, limit: int, path: Seq<char>, out: Seq<FsEntry>) -> Seq<char>
    decreases longer_keys(log.listings@, hidden, path.len() as int), 1int, 0int,
{
    if out.len() >= limit {
        path
    } else {
        match log_listing(log, path, hidden) {
            Some(Some(children)) => {
                let (o, ds) = absorb(children, path.len() as int, out, limit);
                dirs_missing(log, hidden, limit, path, ds, o)
            },
            _ => path,
        }
    }
}

/// The directory the walk through subdirectories `ds` of `parent` stops on.
pub open spec fn dirs_missing(log: IoLog, hidden: bool, limit: int, parent: Seq<char>, ds: Seq<Seq<char>>, out: Seq<FsEntry>) -> Seq<char>
    decreases longer_keys(log.listings@, hidden, parent.len() as int), 0int, ds.len(),
{
    if ds.len() == 0 || out.len() >= limit {
        parent
    } else {
        let d = ds[0];
        if first_listing(log.listings@, d, hidden) is None {
            d
        } else if d.len() <= parent.len() {
            dirs_missing(log, hidden, limit, parent, ds.drop_first(), out)
        } else {
            proof {
                lemma_first_listing_found(log.listings@, d, hidden);
                let i = first_listing(log.listings@, d, hidden)->0;
                lemma_longer_keys_step(log.listings@, hidden, parent.len() as int, d.len() as int, i);
            }
            match collect_visit(log, hidden, limit, d, out) {
                None => visit_missing(log, hidden, limit, d, out),
                Some(o) => dirs_missing(log, hidden, limit, parent, ds.drop_first(), o),
            }
        }
    }
}

/// `q` asks for the listing of `path` under hidden setting `hidden`.
pub open spec fn lists_dir(q: IoRequest, path: Seq<char>, hidden: bool) -> bool {
    q matches IoRequest::ListDir { path: p, show_hidden } && p@ == path && show_hidden == hidden
}

fn absorb_listing(children: &Vec<FsEntry>, parent: &String, out: &mut Vec<FsEntry>, limit: usize) -> (ds: Vec<String>)
    ensures
        (final(out)@, string_views(ds@)) == absorb(children@, parent@.len() as int, old(out)@, limit as int),
{
    let ghost start = out@;
    let mut ds: Vec<String> = Vec::new();
    let mut j: usize = children.len();
    let mut stopped = false;
    assert(children@.take(children@.len() as int) == children@);
    assert(string_views(ds@) + Seq::<Seq<char>>::empty() =~= string_views(ds@));
    while j > 0
        invariant
            j <= children@.len(),
            !stopped ==> absorb(children@, parent@.len() as int, start, limit as int) == ({
                let (o, d) = absorb(children@.take(j as int), parent@.len() as int, out@, limit as int);
                (o, d + string_views(ds@))
            }),
            stopped ==> absorb(children@, parent@.len() as int, start, limit as int) == (out@, string_views(ds@)),
            stopped ==> j == 0,
        decreases j,
    {
        let c = &children[j - 1];
        let ghost pre = children@.take(j as int);
        let ghost old_ds = string_views(ds@);
        assert(pre.last() == *c);
        assert(pre.drop_last() =~= children@.take(j - 1));
        if c.is_dir {
            if char_count(c.path.as_str()) > char_count(parent.as_str()) {
                ds.insert(0, c.path.clone());
                proof {
                    let (o, d) = absorb(children@.take(j - 1), parent@.len() as int, out@, limit as int);
                    assert(string_views(ds@) =~= seq![c.path@] + old_ds);
                    assert(d.push(c.path@) + old_ds =~= d + (seq![c.path@] + old_ds));
                }
            }
        } else {
            out.push(copy_entry(c));
            if out.len() >= limit {
                stopped = true;
                assert(Seq::<Seq<char>>::empty() + old_ds =~= old_ds);
                j = 0;
                continue;
            }
        }
        j -= 1;
    }
    proof {
        if !stopped {
            assert(children@.take(0) =~= Seq::<FsEntry>::empty());
            assert(Seq::<Seq<char>>::empty() + string_views(ds@) =~= string_views(ds@));
        }
    }
    ds
}


/// A request is a listing that the record lacks.
pub open spec fn missing_listing(log: IoLog, hidden: bool, q: IoRequest) -> bool {
    match q {
        IoRequest::ListDir { path, show_hidden } => show_hidden == hidden && log_listing(log, path@, hidden) is None,
        _ => false,
    }
}

fn visit(log: &IoLog, hidden: bool, limit: usize, path: &String, out: &mut Vec<FsEntry>) -> (r: Result<(), IoRequest>)
    ensures
        r is Ok <==> collect_visit(*log, hidden, limit as int, path@, old(out)@) is Some,
        r is Ok ==> collect_visit(*log, hidden, limit as int, path@, old(out)@) == Some(final(out)@),
        r matches Err(q) ==> missing_listing(*log, hidden, q),
        r matches Err(q) ==> lists_dir(q, visit_missing(*log, hidden, limit as int, path@, old(out)@), hidden),
    decreases longer_keys(log.listings@, hidden, path@.len() as int), 1int, 0int,
{
    if out.len() >= limit {
        return Ok(());
    }
    match log.find_listing(path, hidden) {
        None => Err(IoRequest::ListDir { path: path.clone(), show_hidden: hidden }),
        Some(i) => match &log.listings[i].2 {
            Err(_) => Ok(()),
            Ok(children) => {
                let ds = absorb_listing(children, path, out, limit);
                assert(string_views(ds@).skip(0) == string_views(ds@));
                visit_dirs(log, hidden, limit, path, &ds, 0, out)
            },
        },
    }
}

fn visit_dirs(log: &IoLog, hidden: bool, limit: usize, parent: &String, ds: &Vec<String>, k: usize, out: &mut Vec<FsEntry>) -> (r: Result<(), IoRequest>)
    requires
        k <= ds@.len(),
    ensures
        r is Ok <==> collect_dirs(*log, hidden, limit as int, parent@, string_views(ds@).skip(k as int), old(out)@) is Some,
        r is Ok ==> collect_dirs(*log, hidden, limit as int, parent@, string_views(ds@).skip(k as int), old(out)@) == Some(final(out)@),
        r matches Err(q) ==> missing_listing(*log, hidden, q),
        r matches Err(q) ==> lists_dir(
            q,
            dirs_missing(*log, hidden, limit as int, parent@, string_views(ds@).skip(k as int), old(out)@),
            hidden,
        ),
    decreases longer_keys(log.listings@, hidden, parent@.len() as int), 0int, ds@.len() - k,
{
    let ghost rest = string_views(ds@).skip(k as int);
    if k >= ds.len() {
        assert(rest.len() == 0);
        return Ok(());
    }
    if out.len() >= limit {
        return Ok(());
    }
    let d = &ds[k];
    assert(rest[0] == d@);
    assert(rest.drop_first() =~= string_views(ds@).skip(k + 1));
    match log.find_listing(d, hidden) {
        None => {
            return Err(IoRequest::ListDir { path: d.clone(), show_hidden: hidden });
        },
        Some(_) => {},
    }
    if char_count(d.as_str()) <= char_count(parent.as_str()) {
        return visit_dirs(log, hidden, limit, parent, ds, k + 1, out);
    }
    proof {
        lemma_first_listing_found(log.listings@, d@, hidden);
        let i = first_listing(log.listings@, d@, hidden)->0;
        lemma_longer_keys_step(log.listings@, hidden, parent@.len() as int, d@.len() as int, i);
    }
    match visit(log, hidden, limit, d, out) {
        Err(q) => Err(q),
        Ok(()) => visit_dirs(log, hidden, limit, parent, ds, k + 1, out),
    }
}

/// No entry's path comes, in path order, before the path of the entry before it.
pub open spec fn paths_ordered(s: Seq<FsEntry>) -> bool {
    forall|i: int| 0 <= i < s.len() - 1 ==> !spec_path_lt(#[trigger] s[i + 1].path@, s[i].path@)
}

/// Entries put in path order.
pub fn sort_by_path(entries: Vec<FsEntry>) -> (out: Vec<FsEntry>)
    ensures
        paths_ordered(out@),
        out@.to_multiset() == entries@.to_multiset(),
{
    let mut out: Vec<FsEntry> = Vec::new();
    let mut rest = entries;
    let ghost orig = rest@;
    assert(out@.to_multiset().add(rest@.to_multiset()) =~= orig.to_multiset()) by {
        broadcast use vstd::seq_lib::group_to_multiset_ensures;
    }
    while rest.len() > 0
        invariant
            paths_ordered(out@),
            out@.to_multiset().add(rest@.to_multiset()) == orig.to_multiset(),
        decreases rest@.len(),
    {
        let ghost rest_before = rest@;
        let e = rest.pop().unwrap();
        proof {
            assert(rest_before == rest@.push(e));
            vstd::seq_lib::to_multiset_build(rest@, e);
        }
        let mut p: usize = 0;
        while p < out.len() && !path_lt(e.path.as_str(), out[p].path.as_str())
            invariant
                p <= out@.len(),
                forall|q: int| 0 <= q < p ==> !spec_path_lt(e.path@, #[trigger] out@[q].path@),
            decreases out@.len() - p,
        {
            p += 1;
        }
        let ghost before = out@;
        out.insert(p, e);
        proof {
            assert forall|i: int| 0 <= i < out@.len() - 1 implies !spec_path_lt(#[trigger] out@[i + 1].path@, out@[i].path@) by {
                if i + 1 < p {
                    assert(out@[i] == before[i] && out@[i + 1] == before[i + 1]);
                    assert(!spec_path_lt(before[i + 1].path@, before[i].path@));
                } else if i + 1 == p {
                    assert(out@[i + 1] == e && out@[i] == before[i]);
                } else if i == p {
                    assert(out@[i] == e && out@[i + 1] == before[i]);
                    assert(spec_path_lt(e.path@, before[i].path@));
                } else {
                    assert(out@[i] == before[i - 1] && out@[i + 1] == before[i]);
                    assert(!spec_path_lt(before[(i - 1) + 1].path@, before[i - 1].path@));
                }
            }
            vstd::seq_lib::to_multiset_insert(before, p as int, e);
        }
    }
    assert(rest@.to_multiset() =~= vstd::multiset::Multiset::empty()) by {
        broadcast use vstd::seq_lib::group_to_multiset_ensures;
    }
    out
}

/// The files under `root` found by a depth-first walk that stops once it holds `limit`
/// files (directories whose listing failed are skipped), put in path order. It fails with
/// the listing request when the record lacks a listing the walk needs.
pub fn collect_files(root: &String, show_hidden: bool, limit: usize, log: &IoLog) -> (r: Result<Vec<FsEntry>, IoRequest>)
    ensures
        r is Ok <==> collect_visit(*log, show_hidden, limit as int, root@, seq![]) is Some,
        r matches Ok(v) ==> paths_ordered(v@) && v@.to_multiset() == collect_visit(
            *log,
            show_hidden,
            limit as int,
            root@,
            seq![],
        )->0.to_multiset(),
        r matches Err(q) ==> missing_listing(*log, show_hidden, q),
        r matches Err(q) ==> lists_dir(q, visit_missing(*log, show_hidden, limit as int, root@, seq![]), show_hidden),
{
    let mut out: Vec<FsEntry> = Vec::new();
    assert(out@ =~= Seq::<FsEntry>::empty());
    match visit(log, show_hidden, limit, root, &mut out) {
        Err(q) => Err(q),
        Ok(()) => Ok(sort_by_path(out)),
    }
}

} // verus!
