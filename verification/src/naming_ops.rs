//! Keeping the rename rows in step with the scope: rebuilding them from the files found,
//! proposing names, and marking collisions.
use vstd::prelude::*;
use crate::fs_scan::{FsEntry, collect_files, collect_visit, lists_dir, missing_listing, opt_view, paths_ordered, visit_missing};
use crate::io::{IoLog, IoRequest};
use crate::model::{RenameRow, SuggestionSet};
use crate::rows::{file_name_parts, name_parts, options_cut_ok, proposal, propose_name, row_conflicts};
use crate::state::{AppState, NamingState};
use crate::text::str_to_string;
use crate::paths::{parent_of, path_eq, path_starts_with, spec_parent, spec_path_eq, spec_starts_with};
use crate::scope::{has_text, text_index};
use crate::textset::{distinct_texts, set_insert};
use crate::naming::{within_size_constraint, within_time_constraint};
use crate::rows::current_name_of;
use crate::state::FilesState;

verus! {

/// The name proposed for a row under the current style and suggestions.
pub open spec fn row_proposal(app: AppState, row: RenameRow) -> Seq<char> {
    proposal(
        app.naming.style,
        app.naming.suggestion_set,
        row.path@,
        name_parts(row.path@).0,
        name_parts(row.path@).1,
        opt_view(row.override_name),
    )
}

/// `after` is `before` with every name proposed afresh under `app`'s style and suggestions
/// and every collision marked; nothing else of a row changes.
pub open spec fn proposals_redone(app: AppState, before: Seq<RenameRow>, after: Seq<RenameRow>) -> bool {
    &&& after.len() == before.len()
    &&& forall|k: int|
        0 <= k < before.len() ==> {
            let r = #[trigger] after[k];
            let o = before[k];
            &&& r.proposed_name@ == row_proposal(app, o)
            &&& r == (RenameRow { proposed_name: r.proposed_name, conflict: r.conflict, ..o })
            &&& r.conflict == row_conflicts(after, k)
        }
}

/// The rows with every collision flag recomputed.
pub open spec fn conflicts_marked(before: Seq<RenameRow>, after: Seq<RenameRow>) -> bool {
    &&& after.len() == before.len()
    &&& forall|k: int| 0 <= k < before.len() ==> #[trigger] after[k] == (RenameRow { conflict: row_conflicts(before, k), ..before[k] })
}

fn opt_str(o: &Option<String>) -> (r: Option<&str>)
    ensures
        crate::rows::opt_view_str(r) == opt_view(*o),
{
    match o {
        Some(s) => Some(s.as_str()),
        None => None,
    }
}

/// The directories from a file's parent upwards while they lie under the working
/// directory, stopping at it; `fuel` bounds the walk (a path's length is enough).
pub open spec fn dirs_up_to(p: Seq<char>, cwd: Seq<char>, fuel: nat) -> Set<Seq<char>>
    decreases fuel,
{
    if fuel == 0 {
        Set::empty()
    } else {
        match spec_parent(p) {
            None => Set::empty(),
            Some(d) => if !spec_starts_with(d, cwd) {
                Set::empty()
            } else if spec_path_eq(d, cwd) {
                set![d]
            } else {
                dirs_up_to(d, cwd, (fuel - 1) as nat).insert(d)
            },
        }
    }
}

/// The key a file's extension is matched by: the recorded lower-cased extension, or empty.
pub open spec fn entry_key(e: FsEntry) -> Seq<char> {
    match opt_view(e.extension) {
        Some(x) => x,
        None => seq![],
    }
}

/// The directories that hold, at any depth under the working directory, a file whose
/// extension is selected; none when no extension is selected.
pub open spec fn category_dir(files: Seq<FsEntry>, exts: Seq<String>, cwd: Seq<char>, d: Seq<char>) -> bool {
    exts.len() > 0 && exists|j: int|
        0 <= j < files.len() && has_text(exts, entry_key(#[trigger] files[j])) && dirs_up_to(
            files[j].path@,
            cwd,
            files[j].path@.len(),
        ).contains(d)
}

/// The first row for a path.
pub open spec fn row_for(rows: Seq<RenameRow>, path: Seq<char>) -> Option<RenameRow>
    decreases rows.len(),
{
    if rows.len() == 0 {
        None
    } else if rows[0].path@ == path {
        Some(rows[0])
    } else {
        row_for(rows.drop_first(), path)
    }
}

/// A row rebuilt for `path`: the current name from the path; the override, selection and
/// group kept from the old row for the path (else none, selected, group 1); the name
/// proposed afresh.
pub open spec fn synced_row(app: AppState, path: Seq<char>, row: RenameRow) -> bool {
    let ex = row_for(app.naming.rename_rows@, path);
    &&& row.path@ == path
    &&& row.current_name@ == current_name_of(path)
    &&& opt_view(row.override_name) == match ex {
        Some(r) => opt_view(r.override_name),
        None => None,
    }
    &&& row.selected == match ex {
        Some(r) => r.selected,
        None => true,
    }
    &&& row.group_id == match ex {
        Some(r) => r.group_id,
        None => 1u8,
    }
    &&& row.proposed_name@ == proposal(
        app.naming.style,
        app.naming.suggestion_set,
        path,
        name_parts(path).0,
        name_parts(path).1,
        opt_view(row.override_name),
    )
}

/// `after` is `before` with the rename rows rebuilt from the files found, as
/// `sync_rename_rows` does when the record holds every listing it needs.
pub open spec fn rows_synced(before: AppState, after: AppState) -> bool {
    &&& (exists|v: Seq<FsEntry>|
        {
            &&& v.to_multiset() == collect_visit(
                before.io_log,
                before.files.show_hidden,
                MAX_SCANNED_FILES as int,
                before.cwd@,
                seq![],
            )->0.to_multiset()
            &&& paths_ordered(v)
            &&& rows_rebuilt(before, chosen(v, before.files.selected_by_tree@), after.naming.rename_rows@)
            &&& forall|d: Seq<char>|
                has_text(after.files.category_match_dirs@, d) <==> category_dir(
                    v,
                    before.filters.selected_extensions@,
                    before.cwd@,
                    d,
                )
            &&& after.files.filter_cache@.len() == v.len()
            &&& forall|k: int| 0 <= k < v.len() ==> (#[trigger] after.files.filter_cache@[k]).0 == v[k].path
        })
    &&& (forall|k: int|
        0 <= k < after.naming.rename_rows@.len() ==> (#[trigger] after.naming.rename_rows@[k]).conflict
            == row_conflicts(after.naming.rename_rows@, k))
    &&& (after.naming.rename_cursor == (if after.naming.rename_rows@.len() == 0 {
        0
    } else {
        crate::scrollbar::min_int(before.naming.rename_cursor as int, after.naming.rename_rows@.len() - 1) as usize
    }))
    &&& (match before.naming.suggestion_set {
        None => after.naming.suggestion_set is None,
        Some(s) => after.naming.suggestion_set == Some(
            SuggestionSet {
                per_path_options: after.naming.suggestion_set->0.per_path_options,
                per_path_override_index: after.naming.suggestion_set->0.per_path_override_index,
                ..s
            },
        ) && after.naming.suggestion_set->0.per_path_options@ == options_kept(
            s.per_path_options@,
            after.naming.rename_rows@,
        ) && after.naming.suggestion_set->0.per_path_override_index@ == choices_kept(
            s.per_path_override_index@,
            after.naming.rename_rows@,
        ),
    })
    &&& (after == (AppState {
        files: FilesState {
            category_match_dirs: after.files.category_match_dirs,
            filter_cache: after.files.filter_cache,
            ..before.files
        },
        naming: NamingState {
            rename_rows: after.naming.rename_rows,
            rename_cursor: after.naming.rename_cursor,
            suggestion_set: after.naming.suggestion_set,
            ..before.naming
        },
        ..before
    }))
}

/// The most files a scan for rename rows collects.
pub const MAX_SCANNED_FILES: usize = 2500;

/// The files a scan for rename rows finds under `root` with hidden setting `hidden`
/// (`None` when the record lacks a listing the walk needs).
pub open spec fn root_walk(log: IoLog, hidden: bool, root: Seq<char>) -> Option<Seq<FsEntry>> {
    collect_visit(log, hidden, MAX_SCANNED_FILES as int, root, seq![])
}

/// The directory whose listing that scan stops on.
pub open spec fn root_needs(log: IoLog, hidden: bool, root: Seq<char>) -> Seq<char> {
    visit_missing(log, hidden, MAX_SCANNED_FILES as int, root, seq![])
}

/// The files a rebuild of the rename rows finds under the working directory.
pub open spec fn scan_walk(app: AppState) -> Option<Seq<FsEntry>> {
    root_walk(app.io_log, app.files.show_hidden, app.cwd@)
}

/// The directory whose listing a rebuild of the rename rows stops on.
pub open spec fn scan_needs(app: AppState) -> Seq<char> {
    root_needs(app.io_log, app.files.show_hidden, app.cwd@)
}

impl AppState {
    /// Marks each selected row whose proposed name another selected row shares.
    pub fn recompute_conflicts(&mut self)
        ensures
            conflicts_marked(old(self).naming.rename_rows@, final(self).naming.rename_rows@),
            *final(self) == (AppState {
                naming: NamingState { rename_rows: final(self).naming.rename_rows, ..old(self).naming },
                ..*old(self)
            }),
    {
        let ghost before = self.naming.rename_rows@;
        let n = self.naming.rename_rows.len();
        let mut k: usize = 0;
        while k < n
            invariant
                k <= n,
                n == before.len(),
                self.naming.rename_rows@.len() == n,
                forall|i: int| 0 <= i < k ==> #[trigger] self.naming.rename_rows@[i] == (RenameRow { conflict: row_conflicts(before, i), ..before[i] }),
                forall|i: int| k <= i < n ==> #[trigger] self.naming.rename_rows@[i] == before[i],
                forall|i: int| 0 <= i < n ==> {
                    let r = #[trigger] self.naming.rename_rows@[i];
                    r.selected == before[i].selected && r.proposed_name == before[i].proposed_name
                },
                *self == (AppState {
                    naming: NamingState { rename_rows: self.naming.rename_rows, ..old(self).naming },
                    ..*old(self)
                }),
            decreases n - k,
        {
            let mut c = false;
            if self.naming.rename_rows[k].selected {
                let mut j: usize = 0;
                while j < n
                    invariant
                        j <= n,
                        k < n,
                        n == before.len(),
                        self.naming.rename_rows@.len() == n,
                        before[k as int].selected,
                        forall|i: int| 0 <= i < n ==> {
                            let r = #[trigger] self.naming.rename_rows@[i];
                            r.selected == before[i].selected && r.proposed_name == before[i].proposed_name
                        },
                        c <==> exists|i: int| 0 <= i < j && i != k && (#[trigger] before[i]).selected
                            && before[i].proposed_name@ == before[k as int].proposed_name@,
                    decreases n - j,
                {
                    if j != k && self.naming.rename_rows[j].selected && crate::io::same_text(
                        &self.naming.rename_rows[j].proposed_name,
                        &self.naming.rename_rows[k].proposed_name,
                    ) {
                        c = true;
                    }
                    j += 1;
                }
            }
            self.naming.rename_rows[k].conflict = c;
            k += 1;
        }
    }

    /// Proposes every row's name afresh, then marks collisions.
    pub fn recompute_proposals(&mut self)
        requires
            old(self).naming.suggestion_set matches Some(s) ==> options_cut_ok(s.per_path_options@),
        ensures
            final(self).naming.rename_rows@.len() == old(self).naming.rename_rows@.len(),
            forall|k: int|
                0 <= k < old(self).naming.rename_rows@.len() ==> {
                    let r = #[trigger] final(self).naming.rename_rows@[k];
                    let o = old(self).naming.rename_rows@[k];
                    &&& r.proposed_name@ == row_proposal(*old(self), o)
                    &&& r == (RenameRow { proposed_name: r.proposed_name, conflict: r.conflict, ..o })
                    &&& r.conflict == row_conflicts(final(self).naming.rename_rows@, k)
                },
            proposals_redone(*old(self), old(self).naming.rename_rows@, final(self).naming.rename_rows@),
            *final(self) == (AppState {
                naming: NamingState { rename_rows: final(self).naming.rename_rows, ..old(self).naming },
                ..*old(self)
            }),
    {
        let n = self.naming.rename_rows.len();
        let mut k: usize = 0;
        while k < n
            invariant
                k <= n,
                n == old(self).naming.rename_rows@.len(),
                self.naming.rename_rows@.len() == n,
                old(self).naming.suggestion_set matches Some(s) ==> options_cut_ok(s.per_path_options@),
                forall|i: int| 0 <= i < k ==> {
                    let r = #[trigger] self.naming.rename_rows@[i];
                    let o = old(self).naming.rename_rows@[i];
                    &&& r.proposed_name@ == row_proposal(*old(self), o)
                    &&& r == (RenameRow { proposed_name: r.proposed_name, ..o })
                },
                forall|i: int| k <= i < n ==> #[trigger] self.naming.rename_rows@[i] == old(self).naming.rename_rows@[i],
                *self == (AppState {
                    naming: NamingState { rename_rows: self.naming.rename_rows, ..old(self).naming },
                    ..*old(self)
                }),
            decreases n - k,
        {
            let parts = file_name_parts(self.naming.rename_rows[k].path.as_str());
            let (stem, ext) = parts;
            let p = propose_name(
                &self.naming.style,
                &self.naming.suggestion_set,
                self.naming.rename_rows[k].path.as_str(),
                stem.as_str(),
                opt_str(&ext),
                opt_str(&self.naming.rename_rows[k].override_name),
            );
            self.naming.rename_rows[k].proposed_name = p;
            k += 1;
        }
        let ghost mid = self.naming.rename_rows@;
        self.recompute_conflicts();
        proof {
            assert forall|k: int| 0 <= k < n implies #[trigger] self.naming.rename_rows@[k].conflict == row_conflicts(self.naming.rename_rows@, k) by {
                assert forall|j: int| 0 <= j < n implies (#[trigger] self.naming.rename_rows@[j]).selected == mid[j].selected
                    && self.naming.rename_rows@[j].proposed_name == mid[j].proposed_name by {}
                if row_conflicts(mid, k) {
                    let j = choose|j: int| 0 <= j < mid.len() && j != k && (#[trigger] mid[j]).selected && mid[j].proposed_name@ == mid[k].proposed_name@;
                    assert(self.naming.rename_rows@[j].selected);
                }
                if row_conflicts(self.naming.rename_rows@, k) {
                    let j = choose|j: int| 0 <= j < n && j != k && (#[trigger] self.naming.rename_rows@[j]).selected
                        && self.naming.rename_rows@[j].proposed_name@ == self.naming.rename_rows@[k].proposed_name@;
                    assert(mid[j].selected);
                }
            }
        }
    }

    /// Adds the directories from a file's parent up to the working directory.
    fn add_dirs_of(&mut self, path: &String)
        ensures
            forall|d: Seq<char>|
                has_text(final(self).files.category_match_dirs@, d) <==> has_text(old(self).files.category_match_dirs@, d)
                    || dirs_up_to(path@, old(self).cwd@, path@.len()).contains(d),
            distinct_texts(old(self).files.category_match_dirs@) ==> distinct_texts(final(self).files.category_match_dirs@),
            *final(self) == (AppState {
                files: FilesState { category_match_dirs: final(self).files.category_match_dirs, ..old(self).files },
                ..*old(self)
            }),
    {
        let ghost before = self.files.category_match_dirs@;
        let mut cur = str_to_string(path.as_str());
        let ghost mut fuel: nat = path@.len();
        let ghost mut acc: Set<Seq<char>> = Set::empty();
        loop
            invariant_except_break
                forall|d: Seq<char>| has_text(self.files.category_match_dirs@, d) <==> has_text(before, d) || acc.contains(d),
            invariant
                cur@.len() <= fuel,
                fuel <= path@.len(),
                dirs_up_to(path@, self.cwd@, path@.len()) == acc + dirs_up_to(cur@, self.cwd@, fuel),
                before == old(self).files.category_match_dirs@,
                distinct_texts(before) ==> distinct_texts(self.files.category_match_dirs@),
                *self == (AppState {
                    files: FilesState { category_match_dirs: self.files.category_match_dirs, ..old(self).files },
                    ..*old(self)
                }),
            ensures
                forall|d: Seq<char>|
                    has_text(self.files.category_match_dirs@, d) <==> has_text(before, d) || dirs_up_to(
                        path@,
                        self.cwd@,
                        path@.len(),
                    ).contains(d),
                *self == (AppState {
                    files: FilesState { category_match_dirs: self.files.category_match_dirs, ..old(self).files },
                    ..*old(self)
                }),
            decreases cur@.len(),
        {
            let parent = match parent_of(cur.as_str()) {
                Some(d) => d,
                None => {
                    proof {
                        if fuel > 0 {
                            assert(dirs_up_to(cur@, self.cwd@, fuel) =~= Set::empty());
                        }
                        assert(acc + Set::empty() =~= acc);
                    }
                    break;
                },
            };
            assert(fuel > 0);
            if !path_starts_with(parent.as_str(), self.cwd.as_str()) {
                proof {
                    assert(acc + Set::empty() =~= acc);
                }
                break;
            }
            set_insert(&mut self.files.category_match_dirs, parent.as_str());
            if path_eq(parent.as_str(), self.cwd.as_str()) {
                proof {
                    assert(acc + set![parent@] =~= acc.insert(parent@));
                }
                break;
            }
            proof {
                assert(acc + dirs_up_to(cur@, self.cwd@, fuel) =~= acc.insert(parent@) + dirs_up_to(
                    parent@,
                    self.cwd@,
                    (fuel - 1) as nat,
                ));
                acc = acc.insert(parent@);
                fuel = (fuel - 1) as nat;
            }
            cur = parent;
        }
    }

    /// Rebuilds the directories that hold a file of a selected category.
    fn rebuild_category_match_dirs(&mut self, files: &Vec<FsEntry>)
        ensures
            forall|d: Seq<char>|
                has_text(final(self).files.category_match_dirs@, d) <==> category_dir(
                    files@,
                    old(self).filters.selected_extensions@,
                    old(self).cwd@,
                    d,
                ),
            distinct_texts(final(self).files.category_match_dirs@),
            *final(self) == (AppState {
                files: FilesState { category_match_dirs: final(self).files.category_match_dirs, ..old(self).files },
                ..*old(self)
            }),
    {
        self.files.category_match_dirs = Vec::new();
        if self.filters.selected_extensions.len() == 0 {
            return;
        }
        let mut i: usize = 0;
        while i < files.len()
            invariant
                i <= files@.len(),
                self.filters.selected_extensions@.len() > 0,
                distinct_texts(self.files.category_match_dirs@),
                *self == (AppState {
                    files: FilesState { category_match_dirs: self.files.category_match_dirs, ..old(self).files },
                    ..*old(self)
                }),
                forall|d: Seq<char>|
                    has_text(self.files.category_match_dirs@, d) <==> category_dir(
                        files@.take(i as int),
                        old(self).filters.selected_extensions@,
                        old(self).cwd@,
                        d,
                    ),
            decreases files@.len() - i,
        {
            let e = &files[i];
            let key = match &e.extension {
                Some(x) => str_to_string(x.as_str()),
                None => String::new(),
            };
            let ghost before = self.files.category_match_dirs@;
            let sel = text_index(&self.filters.selected_extensions, key.as_str()).is_some();
            if sel {
                self.add_dirs_of(&e.path);
            }
            proof {
                assert(files@.take(i + 1) == files@.take(i as int).push(*e));
                assert(key@ == entry_key(*e));
                assert(sel == has_text(self.filters.selected_extensions@, key@));
                assert(!sel ==> self.files.category_match_dirs@ == before);
                assert forall|d: Seq<char>|
                    category_dir(
                        files@.take(i + 1),
                        old(self).filters.selected_extensions@,
                        old(self).cwd@,
                        d,
                    ) implies has_text(self.files.category_match_dirs@, d) by {
                    {
                        let j = choose|j: int|
                            0 <= j < files@.take(i + 1).len() && has_text(old(self).filters.selected_extensions@, entry_key(#[trigger] files@.take(i + 1)[j]))
                                && dirs_up_to(files@.take(i + 1)[j].path@, old(self).cwd@, files@.take(i + 1)[j].path@.len()).contains(d);
                        if j < i {
                            assert(files@.take(i as int)[j] == files@.take(i + 1)[j]);
                            assert(category_dir(files@.take(i as int), old(self).filters.selected_extensions@, old(self).cwd@, d));
                            assert(has_text(before, d));
                        } else {
                            assert(files@.take(i + 1)[j] == *e);
                            assert(has_text(old(self).filters.selected_extensions@, entry_key(*e)));
                            assert(has_text(self.filters.selected_extensions@, key@));
                            assert(dirs_up_to(e.path@, old(self).cwd@, e.path@.len()).contains(d));
                            assert(sel);
                            assert(self.cwd == old(self).cwd);
                            assert(has_text(self.files.category_match_dirs@, d) <==> has_text(before, d) || dirs_up_to(e.path@, self.cwd@, e.path@.len()).contains(d));
                        }
                    }
                }
                assert forall|d: Seq<char>|
                    has_text(self.files.category_match_dirs@, d) implies category_dir(
                        files@.take(i + 1),
                        old(self).filters.selected_extensions@,
                        old(self).cwd@,
                        d,
                    ) by {
                    if has_text(self.files.category_match_dirs@, d) {
                        if has_text(before, d) {
                            let j = choose|j: int|
                                0 <= j < files@.take(i as int).len() && has_text(old(self).filters.selected_extensions@, entry_key(#[trigger] files@.take(i as int)[j]))
                                    && dirs_up_to(files@.take(i as int)[j].path@, old(self).cwd@, files@.take(i as int)[j].path@.len()).contains(d);
                            assert(files@.take(i + 1)[j] == files@.take(i as int)[j]);
                        } else {
                            assert(files@.take(i + 1)[i as int] == *e);
                        }
                    }
                }
            }
            i += 1;
        }
        assert(files@.take(i as int) == files@);
    }

    /// Rebuilds the rename rows from the files under the working directory (at most
    /// 2500, found as `collect_files` does): one row for each file chosen in the tree, in
    /// path order, as `synced_row` describes; then rebuilds the category directories and
    /// the filter results, keeps the suggestions of files that still have a row, holds the
    /// cursor inside the rows and marks collisions.
    pub fn sync_rename_rows(&mut self) -> (r: Result<(), IoRequest>)
        requires
            old(self).wf(),
        ensures
            r is Ok <==> collect_visit(
                old(self).io_log,
                old(self).files.show_hidden,
                MAX_SCANNED_FILES as int,
                old(self).cwd@,
                seq![],
            ) is Some,
            r matches Err(q) ==> missing_listing(old(self).io_log, old(self).files.show_hidden, q),
            r matches Err(q) ==> lists_dir(q, scan_needs(*old(self)), old(self).files.show_hidden),
            final(self).io_log == old(self).io_log,
            r is Ok ==> final(self).wf(),
            r is Ok ==> rows_synced(*old(self), *final(self)),
            r is Ok ==> exists|v: Seq<FsEntry>|
                {
                    &&& v.to_multiset() == collect_visit(
                        old(self).io_log,
                        old(self).files.show_hidden,
                        MAX_SCANNED_FILES as int,
                        old(self).cwd@,
                        seq![],
                    )->0.to_multiset()
                    &&& paths_ordered(v)
                    &&& rows_rebuilt(*old(self), chosen(v, old(self).files.selected_by_tree@), final(self).naming.rename_rows@)
                    &&& forall|d: Seq<char>|
                        has_text(final(self).files.category_match_dirs@, d) <==> category_dir(
                            v,
                            old(self).filters.selected_extensions@,
                            old(self).cwd@,
                            d,
                        )
                    &&& final(self).files.filter_cache@.len() == v.len()
                    &&& forall|k: int| 0 <= k < v.len() ==> (#[trigger] final(self).files.filter_cache@[k]).0 == v[k].path
                },
            r is Ok ==> forall|k: int|
                0 <= k < final(self).naming.rename_rows@.len() ==> (#[trigger] final(self).naming.rename_rows@[k]).conflict
                    == row_conflicts(final(self).naming.rename_rows@, k),
            r is Ok ==> final(self).naming.rename_cursor == (if final(self).naming.rename_rows@.len() == 0 {
                0
            } else {
                crate::scrollbar::min_int(old(self).naming.rename_cursor as int, final(self).naming.rename_rows@.len() - 1) as usize
            }),
            r is Ok ==> match old(self).naming.suggestion_set {
                None => final(self).naming.suggestion_set is None,
                Some(s) => final(self).naming.suggestion_set == Some(
                    SuggestionSet {
                        per_path_options: final(self).naming.suggestion_set->0.per_path_options,
                        per_path_override_index: final(self).naming.suggestion_set->0.per_path_override_index,
                        ..s
                    },
                ) && final(self).naming.suggestion_set->0.per_path_options@ == options_kept(
                    s.per_path_options@,
                    final(self).naming.rename_rows@,
                ) && final(self).naming.suggestion_set->0.per_path_override_index@ == choices_kept(
                    s.per_path_override_index@,
                    final(self).naming.rename_rows@,
                ),
            },
            r is Ok ==> *final(self) == (AppState {
                files: FilesState {
                    category_match_dirs: final(self).files.category_match_dirs,
                    filter_cache: final(self).files.filter_cache,
                    ..old(self).files
                },
                naming: NamingState {
                    rename_rows: final(self).naming.rename_rows,
                    rename_cursor: final(self).naming.rename_cursor,
                    suggestion_set: final(self).naming.suggestion_set,
                    ..old(self).naming
                },
                ..*old(self)
            }),
    {
        let all_files = match collect_files(&self.cwd, self.files.show_hidden, MAX_SCANNED_FILES, &self.io_log) {
            Err(q) => return Err(q),
            Ok(v) => v,
        };
        let ghost st0 = *self;
        self.rebuild_category_match_dirs(&all_files);
        let mut cache: Vec<(String, bool)> = Vec::new();
        let mut i: usize = 0;
        while i < all_files.len()
            invariant
                i <= all_files@.len(),
                cache@.len() == i,
                forall|k: int| 0 <= k < i ==> (#[trigger] cache@[k]).0 == all_files@[k].path,
            decreases all_files@.len() - i,
        {
            let keep = self.matches_filters(&all_files[i]);
            cache.push((all_files[i].path.clone(), keep));
            i += 1;
        }
        self.files.filter_cache = cache;
        let ghost sbt = self.files.selected_by_tree@;
        let ghost pred = |e: FsEntry| has_text(sbt, e.path@);
        let mut rows: Vec<RenameRow> = Vec::new();
        let mut i: usize = 0;
        while i < all_files.len()
            invariant
                i <= all_files@.len(),
                sbt == old(self).files.selected_by_tree@,
                sbt == self.files.selected_by_tree@,
                pred == (|e: FsEntry| has_text(sbt, e.path@)),
                self.naming == old(self).naming,
                old(self).naming.suggestion_set matches Some(s) ==> options_cut_ok(s.per_path_options@),
                rows_rebuilt(*old(self), all_files@.take(i as int).filter(pred), rows@),
            decreases all_files@.len() - i,
        {
            let e = &all_files[i];
            proof {
                reveal(Seq::filter);
                assert(all_files@.take(i + 1).drop_last() == all_files@.take(i as int));
                assert(all_files@.take(i + 1).last() == *e);
            }
            if text_index(&self.files.selected_by_tree, e.path.as_str()).is_some() {
                let (stem, ext) = file_name_parts(e.path.as_str());
                let existing = find_row(&self.naming.rename_rows, &e.path);
                let (override_name, selected, group_id) = match existing {
                    Some(k) => (
                        self.naming.rename_rows[k].override_name.clone(),
                        self.naming.rename_rows[k].selected,
                        self.naming.rename_rows[k].group_id,
                    ),
                    None => (None, true, 1u8),
                };
                let proposed_name = propose_name(
                    &self.naming.style,
                    &self.naming.suggestion_set,
                    e.path.as_str(),
                    stem.as_str(),
                    opt_str(&ext),
                    opt_str(&override_name),
                );
                let row = RenameRow {
                    path: e.path.clone(),
                    current_name: crate::rows::current_name(e.path.as_str()),
                    proposed_name,
                    override_name,
                    group_id,
                    selected,
                    conflict: false,
                };
                let ghost prev = rows@;
                rows.push(row);
                proof {
                    let f = all_files@.take(i + 1).filter(pred);
                    assert(f == all_files@.take(i as int).filter(pred).push(*e));
                    assert forall|k: int| 0 <= k < rows@.len() implies synced_row(*old(self), f[k].path@, #[trigger] rows@[k]) by {
                        if k < prev.len() {
                            assert(rows@[k] == prev[k]);
                            assert(f[k] == all_files@.take(i as int).filter(pred)[k]);
                        }
                    }
                }
            }
            i += 1;
        }
        assert(all_files@.take(i as int) == all_files@);
        let ghost rebuilt = rows@;
        self.naming.rename_rows = rows;
        let taken = self.naming.suggestion_set.take();
        match taken {
            Some(set) => {
                let mut set = set;
                let ghost s0 = set;
                keep_options(&mut set.per_path_options, &self.naming.rename_rows);
                keep_choices(&mut set.per_path_override_index, &self.naming.rename_rows);
                assert(set == (SuggestionSet {
                    per_path_options: set.per_path_options,
                    per_path_override_index: set.per_path_override_index,
                    ..s0
                }));
                self.naming.suggestion_set = Some(set);
            },
            None => {},
        }
        if self.naming.rename_rows.len() == 0 {
            self.naming.rename_cursor = 0;
        } else if self.naming.rename_cursor > self.naming.rename_rows.len() - 1 {
            self.naming.rename_cursor = self.naming.rename_rows.len() - 1;
        }
        let ghost before_marks = *self;
        self.recompute_conflicts();
        proof {
            let rows_f = self.naming.rename_rows@;
            if old(self).naming.suggestion_set is Some {
                let s0 = old(self).naming.suggestion_set->0;
                lemma_kept_same_paths(rows_f, rebuilt, s0.per_path_options@, s0.per_path_override_index@);
            }
            assert forall|k: int| 0 <= k < rows_f.len() implies #[trigger] rows_f[k].conflict == row_conflicts(rows_f, k) by {
                assert forall|j: int| 0 <= j < rows_f.len() implies (#[trigger] rows_f[j]).selected == rebuilt[j].selected
                    && rows_f[j].proposed_name == rebuilt[j].proposed_name by {}
                if row_conflicts(rebuilt, k) {
                    let j = choose|j: int| 0 <= j < rebuilt.len() && j != k && (#[trigger] rebuilt[j]).selected && rebuilt[j].proposed_name@ == rebuilt[k].proposed_name@;
                    assert(rows_f[j].selected);
                }
                if row_conflicts(rows_f, k) {
                    let j = choose|j: int| 0 <= j < rows_f.len() && j != k && (#[trigger] rows_f[j]).selected && rows_f[j].proposed_name@ == rows_f[k].proposed_name@;
                    assert(rebuilt[j].selected);
                }
            }
            assert(rows_rebuilt(*old(self), chosen(all_files@, old(self).files.selected_by_tree@), rows_f)) by {
                assert forall|k: int| 0 <= k < rows_f.len() implies synced_row(*old(self), chosen(all_files@, old(self).files.selected_by_tree@)[k].path@, #[trigger] rows_f[k]) by {
                    assert(rows_f[k] == (RenameRow { conflict: row_conflicts(rebuilt, k), ..rebuilt[k] }));
                }
            }
            if self.naming.suggestion_set is Some {
                let s = self.naming.suggestion_set->0;
                assert forall|k: int, j: int|
                    0 <= k < s.per_path_options@.len() && 0 <= j < 3 implies (crate::rows::name_parts(s.per_path_options@[k].0@).1 matches Some(e) ==> crate::strs::strip_ok(
                        crate::strs::trim((#[trigger] s.per_path_options@[k].1@[j])@),
                        e,
                    )) by {
                    let o = old(self).naming.suggestion_set->0.per_path_options@;
                    assert(o.contains(s.per_path_options@[k]));
                }
            }
        }
        Ok(())
    }

    /// Whether a file passes the filters: its extension is selected (or none is), it meets
    /// the time constraint now, and it meets the size constraint.
    fn matches_filters(&self, file: &FsEntry) -> (r: bool)
        ensures
            r ==> (self.filters.selected_extensions@.len() == 0 || has_text(self.filters.selected_extensions@, entry_key(*file)))
                && crate::naming::size_ok(file.size, self.filters.size_constraint),
            (self.filters.selected_extensions@.len() == 0 || has_text(self.filters.selected_extensions@, entry_key(*file)))
                && crate::naming::size_ok(file.size, self.filters.size_constraint)
                && crate::naming::time_window(self.filters.time_constraint) is None ==> r,
    {
        if self.filters.selected_extensions.len() > 0 {
            let key = match &file.extension {
                Some(x) => str_to_string(x.as_str()),
                None => String::new(),
            };
            if text_index(&self.filters.selected_extensions, key.as_str()).is_none() {
                return false;
            }
        }
        if !within_time_constraint(file.modified, self.filters.time_constraint) {
            return false;
        }
        within_size_constraint(file.size, self.filters.size_constraint)
    }
}

/// The files of `v` that were chosen in the tree.
pub open spec fn chosen(v: Seq<FsEntry>, sbt: Seq<String>) -> Seq<FsEntry> {
    v.filter(|e: FsEntry| has_text(sbt, e.path@))
}

/// With no file chosen in the tree, a rebuild leaves no rename row.
pub proof fn lemma_synced_nothing_chosen(before: AppState, after: AppState)
    requires
        rows_synced(before, after),
        before.files.selected_by_tree@.len() == 0,
    ensures
        after.naming.rename_rows@.len() == 0,
{
    let sbt = before.files.selected_by_tree@;
    let v = choose|v: Seq<FsEntry>| #[trigger] rows_rebuilt(before, chosen(v, sbt), after.naming.rename_rows@);
    let pred = |e: FsEntry| has_text(sbt, e.path@);
    if v.filter(pred).len() > 0 {
        v.lemma_filter_pred(pred, 0);
    }
}

/// `rows` are the rows rebuilt from the chosen files `files`, in order.
pub open spec fn rows_rebuilt(app: AppState, files: Seq<FsEntry>, rows: Seq<RenameRow>) -> bool {
    &&& rows.len() == files.len()
    &&& forall|k: int| 0 <= k < rows.len() ==> synced_row(app, files[k].path@, #[trigger] rows[k])
}

/// The suggestions kept for the files that still have a row.
pub open spec fn options_kept(opts: Seq<(String, [String; 3])>, rows: Seq<RenameRow>) -> Seq<(String, [String; 3])> {
    opts.filter(|e: (String, [String; 3])| has_row(rows, e.0@))
}

/// The option choices kept for the files that still have a row.
pub open spec fn choices_kept(ovr: Seq<(String, usize)>, rows: Seq<RenameRow>) -> Seq<(String, usize)> {
    ovr.filter(|e: (String, usize)| has_row(rows, e.0@))
}

/// Whether some row is for `path`.
pub open spec fn has_row(rows: Seq<RenameRow>, path: Seq<char>) -> bool {
    exists|k: int| 0 <= k < rows.len() && #[trigger] rows[k].path@ == path
}

/// Rows with the same paths have the same suggestions kept.
pub proof fn lemma_kept_same_paths(a: Seq<RenameRow>, b: Seq<RenameRow>, opts: Seq<(String, [String; 3])>, ovr: Seq<(String, usize)>)
    requires
        a.len() == b.len(),
        forall|k: int| 0 <= k < a.len() ==> (#[trigger] a[k]).path == b[k].path,
    ensures
        options_kept(opts, a) == options_kept(opts, b),
        choices_kept(ovr, a) == choices_kept(ovr, b),
{
    assert forall|p: Seq<char>| has_row(a, p) == has_row(b, p) by {
        if has_row(a, p) {
            let k = choose|k: int| 0 <= k < a.len() && #[trigger] a[k].path@ == p;
            assert(b[k].path@ == p);
        }
        if has_row(b, p) {
            let k = choose|k: int| 0 <= k < b.len() && #[trigger] b[k].path@ == p;
            assert(a[k].path@ == p);
        }
    }
    assert((|e: (String, [String; 3])| has_row(a, e.0@)) =~= (|e: (String, [String; 3])| has_row(b, e.0@)));
    assert((|e: (String, usize)| has_row(a, e.0@)) =~= (|e: (String, usize)| has_row(b, e.0@)));
}

/// Whether some row is for `path`.
fn rows_have_path(rows: &Vec<RenameRow>, path: &String) -> (r: bool)
    ensures
        r == has_row(rows@, path@),
{
    let mut i: usize = 0;
    while i < rows.len()
        invariant
            i <= rows@.len(),
            forall|k: int| 0 <= k < i ==> #[trigger] rows@[k].path@ != path@,
        decreases rows@.len() - i,
    {
        if crate::io::same_text(&rows[i].path, path) {
            return true;
        }
        i += 1;
    }
    false
}

/// Keeps the suggestions of the files that have a row.
fn keep_options(opts: &mut Vec<(String, [String; 3])>, rows: &Vec<RenameRow>)
    ensures
        final(opts)@ == options_kept(old(opts)@, rows@),
        forall|k: int| 0 <= k < final(opts)@.len() ==> old(opts)@.contains(#[trigger] final(opts)@[k]),
{
    let ghost orig = opts@;
    let ghost pred = |e: (String, [String; 3])| has_row(rows@, e.0@);
    let mut i: usize = 0;
    let ghost mut j: int = 0;
    while i < opts.len()
        invariant
            0 <= j <= orig.len(),
            i <= opts@.len(),
            pred == (|e: (String, [String; 3])| has_row(rows@, e.0@)),
            opts@ == orig.take(j).filter(pred) + orig.skip(j),
            i == orig.take(j).filter(pred).len(),
            forall|k: int| 0 <= k < opts@.len() ==> orig.contains(#[trigger] opts@[k]),
        decreases opts@.len() - i,
    {
        proof {
            reveal(Seq::filter);
            assert(orig.take(j + 1).drop_last() == orig.take(j));
            assert(orig.skip(j)[0] == orig[j]);
            assert(opts@[i as int] == orig[j]);
            assert(orig.take(j + 1).last() == orig[j]);
        }
        if rows_have_path(rows, &opts[i].0) {
            proof {
                assert(orig.take(j + 1).filter(pred) == orig.take(j).filter(pred).push(orig[j]));
                assert(orig.take(j + 1).filter(pred) + orig.skip(j + 1) =~= opts@);
                j = j + 1;
            }
            i += 1;
        } else {
            let ghost before = opts@;
            opts.remove(i);
            proof {
                assert(orig.take(j + 1).filter(pred) == orig.take(j).filter(pred));
                assert(orig.take(j + 1).filter(pred) + orig.skip(j + 1) =~= opts@);
                assert forall|k: int| 0 <= k < opts@.len() implies orig.contains(#[trigger] opts@[k]) by {
                    if k < i {
                        assert(opts@[k] == before[k]);
                    } else {
                        assert(opts@[k] == before[k + 1]);
                    }
                }
                j = j + 1;
            }
        }
    }
    proof {
        assert(orig.skip(j).len() == 0);
        assert(j == orig.len());
        assert(orig.take(j) == orig);
        assert(opts@ =~= orig.filter(pred));
    }
}

/// Keeps the option choices of the files that have a row.
fn keep_choices(ovr: &mut Vec<(String, usize)>, rows: &Vec<RenameRow>)
    ensures
        final(ovr)@ == choices_kept(old(ovr)@, rows@),
{
    let ghost orig = ovr@;
    let ghost pred = |e: (String, usize)| has_row(rows@, e.0@);
    let mut i: usize = 0;
    let ghost mut j: int = 0;
    while i < ovr.len()
        invariant
            0 <= j <= orig.len(),
            i <= ovr@.len(),
            pred == (|e: (String, usize)| has_row(rows@, e.0@)),
            ovr@ == orig.take(j).filter(pred) + orig.skip(j),
            i == orig.take(j).filter(pred).len(),
        decreases ovr@.len() - i,
    {
        proof {
            reveal(Seq::filter);
            assert(orig.take(j + 1).drop_last() == orig.take(j));
            assert(orig.skip(j)[0] == orig[j]);
            assert(ovr@[i as int] == orig[j]);
            assert(orig.take(j + 1).last() == orig[j]);
        }
        if rows_have_path(rows, &ovr[i].0) {
            proof {
                assert(orig.take(j + 1).filter(pred) == orig.take(j).filter(pred).push(orig[j]));
                assert(orig.take(j + 1).filter(pred) + orig.skip(j + 1) =~= ovr@);
                j = j + 1;
            }
            i += 1;
        } else {
            ovr.remove(i);
            proof {
                assert(orig.take(j + 1).filter(pred) == orig.take(j).filter(pred));
                assert(orig.take(j + 1).filter(pred) + orig.skip(j + 1) =~= ovr@);
                j = j + 1;
            }
        }
    }
    proof {
        assert(orig.skip(j).len() == 0);
        assert(j == orig.len());
        assert(orig.take(j) == orig);
        assert(ovr@ =~= orig.filter(pred));
    }
}

/// The position of the first row for `path`.
fn find_row(rows: &Vec<RenameRow>, path: &String) -> (r: Option<usize>)
    ensures
        match r {
            Some(i) => i < rows@.len() && row_for(rows@, path@) == Some(rows@[i as int]),
            None => row_for(rows@, path@) is None,
        },
{
    let mut i: usize = 0;
    assert(rows@.skip(0) == rows@);
    while i < rows.len()
        invariant
            i <= rows@.len(),
            row_for(rows@, path@) == row_for(rows@.skip(i as int), path@),
        decreases rows@.len() - i,
    {
        let ghost rest = rows@.skip(i as int);
        assert(rest[0] == rows@[i as int]);
        assert(rest.drop_first() =~= rows@.skip(i + 1));
        if crate::io::same_text(&rows[i].path, path) {
            return Some(i);
        }
        i += 1;
    }
    None
}

} // verus!
