//! Loading, expanding, collapsing and selecting in the file tree. Loading a directory takes
//! its listing from the record of answers; when the record lacks it, the operation stops
//! with the request, and the caller lists the directory, records the answer and runs the
//! operation again on the state it had before.
use vstd::prelude::*;
use crate::fs_scan::{lemma_first_listing_found, lists_dir};
use crate::fs_scan::{longer_keys, lemma_longer_keys_step};
use crate::io::{IoRequest, first_listing, log_listing, log_listing_error};
use crate::model::{FileNode, FileTree};
use crate::state::{AppState, FilesState, UiState, unloaded_empty, tree_backed};
use crate::model::{ScopeTab, Stage, ToastLevel};
use crate::scope::{has_text, normalized_cursor, scope_rows};
use crate::textset::{distinct_texts, set_insert, set_remove};
use crate::logs::concat;
use crate::tree::{child_entries, loaded_tree, paths_grow, root_loaded};

verus! {

/// What an operation that may load directories leaves: the error text of a listing that
/// failed, or the request for a listing the record lacks.
pub open spec fn missing_dir(app: AppState, q: IoRequest) -> bool {
    match q {
        IoRequest::ListDir { path, show_hidden } => show_hidden == app.files.show_hidden && log_listing(
            app.io_log,
            path@,
            app.files.show_hidden,
        ) is None,
        _ => false,
    }
}

/// The tree grew only by loading: every old node keeps its path, kind and (once loaded)
/// its children, and stays loaded.
pub open spec fn tree_grew(before: FileTree, after: FileTree) -> bool {
    &&& after.nodes@.len() >= before.nodes@.len()
    &&& after.root == before.root
    &&& after.cursor == before.cursor
    &&& after.scroll == before.scroll
    &&& forall|j: int|
        0 <= j < before.nodes@.len() ==> {
            let a = #[trigger] after.nodes@[j];
            let b = before.nodes@[j];
            &&& a.path == b.path
            &&& a.is_dir == b.is_dir
            &&& a.parent == b.parent
            &&& b.children_loaded ==> a.children_loaded && a.children == b.children
        }
}

/// No node that was expanded got closed.
pub open spec fn expanded_kept(before: FileTree, after: FileTree) -> bool {
    forall|j: int| 0 <= j < before.nodes@.len() && (#[trigger] before.nodes@[j]).expanded ==> after.nodes@[j].expanded
}

/// The node at `id` with one flag changed.
pub open spec fn node_with_unreadable(n: FileNode) -> FileNode {
    FileNode { unreadable: true, ..n }
}

/// What opening the node under the cursor and everything below it does to `pre`, giving `post`.
pub open spec fn all_expanded(pre: AppState, post: AppState, r: Result<(), IoRequest>) -> bool {
    &&& (r is Ok ==> post.wf())
    &&& (r matches Err(q) ==> missing_dir(pre, q))
    &&& (!(pre.ui.stage == Stage::Scope && pre.ui.scope_tab == ScopeTab::Files) || scope_rows(pre).len() == 0
        ==> r is Ok && post == pre)
    &&& (pre.ui.stage == Stage::Scope && pre.ui.scope_tab == ScopeTab::Files && scope_rows(pre).len() > 0 ==> ({
        let n = pre.files.tree.nodes@[scope_rows(pre)[crate::scrollbar::min_int(
            pre.files.tree.cursor as int,
            scope_rows(pre).len() - 1,
        )].node_id as int];
        &&& !n.is_dir ==> r is Ok
        &&& n.is_dir && !n.children_loaded && log_listing(pre.io_log, n.path@, pre.files.show_hidden) is None
            ==> (r matches Err(q) && lists_dir(q, n.path@, pre.files.show_hidden))
    }))
    &&& (r is Ok && pre.ui.stage == Stage::Scope && pre.ui.scope_tab == ScopeTab::Files && scope_rows(pre).len() > 0
        ==> ({
        let o = pre;
        let f = post;
        let id = scope_rows(o)[crate::scrollbar::min_int(o.files.tree.cursor as int, scope_rows(o).len() - 1)].node_id as int;
        let n = o.files.tree.nodes@[id];
        let listing = log_listing(o.io_log, n.path@, o.files.show_hidden);
        &&& f == (AppState { files: f.files, log: f.log, ..o })
        &&& expanded_kept(o.files.tree, f.files.tree)
        &&& !n.is_dir ==> f.files.tree.nodes == o.files.tree.nodes && f.log == o.log
        &&& n.is_dir && (n.children_loaded || listing != Some(None::<Seq<crate::fs_scan::FsEntry>>)) ==> f.files.tree.nodes@[id].expanded
            && f.files.tree.nodes@[id].children_loaded && f.log == o.log
        &&& n.is_dir && !n.children_loaded && listing == Some(None::<Seq<crate::fs_scan::FsEntry>>) ==> f.log.toasts@.last().level
            == ToastLevel::Warning && f.log.toasts@.last().message@ == "Expanded partially (some folders unreadable): "@
            + log_listing_error(o.io_log, n.path@, o.files.show_hidden)
    }))
}

/// What closing the node under the cursor and everything below it does to `pre`, giving `post`.
pub open spec fn all_collapsed(pre: AppState, post: AppState) -> bool {
    &&& (!(pre.ui.stage == Stage::Scope && pre.ui.scope_tab == ScopeTab::Files) || scope_rows(pre).len() == 0
        ==> post == pre)
    &&& (pre.ui.stage == Stage::Scope && pre.ui.scope_tab == ScopeTab::Files && scope_rows(pre).len() > 0
        ==> !post.files.tree.nodes@[scope_rows(pre)[crate::scrollbar::min_int(
        pre.files.tree.cursor as int,
        scope_rows(pre).len() - 1,
    )].node_id as int].expanded)
    &&& (post == (AppState { files: post.files, ..pre }))
}

/// What switching the selected-categories-only view does to `pre`, giving `post`.
pub open spec fn categories_only_toggled(pre: AppState, post: AppState) -> bool {
    &&& (post.files.show_selected_categories_only == !pre.files.show_selected_categories_only)
    &&& (post.log.toasts@.last().level == ToastLevel::Info)
    &&& (post.log.toasts@.last().message@ == (if post.files.show_selected_categories_only {
        "Files view: showing selected categories only"@
    } else {
        "Files view: showing all categories"@
    }))
    &&& (post == (AppState { files: post.files, log: post.log, ..pre }))
}

impl AppState {
    /// Loads a directory's entries from the record when they are not loaded yet. A failed
    /// listing marks the directory unreadable and gives the listing's error text.
    pub fn ensure_children_loaded(&mut self, node_id: usize) -> (r: Result<Result<(), String>, IoRequest>)
        requires
            old(self).wf(),
            node_id < old(self).files.tree.nodes@.len(),
        ensures
            final(self).wf(),
            ({
                let n = old(self).files.tree.nodes@[node_id as int];
                let hidden = old(self).files.show_hidden;
                if !n.is_dir || n.children_loaded {
                    r == Ok::<Result<(), String>, IoRequest>(Ok(())) && *final(self) == *old(self)
                } else {
                    match log_listing(old(self).io_log, n.path@, hidden) {
                        None => r == Err::<Result<(), String>, IoRequest>(IoRequest::ListDir { path: n.path, show_hidden: hidden })
                            && *final(self) == *old(self),
                        Some(None) => (r matches Ok(Err(e)) && e@ == log_listing_error(old(self).io_log, n.path@, hidden))
                            && final(self).files.tree.nodes@ == old(self).files.tree.nodes@.update(
                            node_id as int,
                            node_with_unreadable(n),
                        ),
                        Some(Some(entries)) => r == Ok::<Result<(), String>, IoRequest>(Ok(())) && loaded_tree(
                            old(self).files.tree,
                            final(self).files.tree,
                            node_id as int,
                            child_entries(entries, n.path@.len() as int),
                        ),
                    }
                }
            }),
            tree_grew(old(self).files.tree, final(self).files.tree),
            final(self).files.tree.nodes@.len() > node_id,
            (r matches Ok(Ok(_))) && old(self).files.tree.nodes@[node_id as int].is_dir
                ==> final(self).files.tree.nodes@[node_id as int].children_loaded,
            *final(self) == (AppState {
                files: FilesState { tree: final(self).files.tree, ..old(self).files },
                ..*old(self)
            }),
    {
        if !self.files.tree.nodes[node_id].is_dir || self.files.tree.nodes[node_id].children_loaded {
            return Ok(Ok(()));
        }
        let path = self.files.tree.nodes[node_id].path.clone();
        let hidden = self.files.show_hidden;
        match self.io_log.find_listing(&path, hidden) {
            None => Err(IoRequest::ListDir { path, show_hidden: hidden }),
            Some(i) => {
                proof {
                    lemma_first_listing_found(self.io_log.listings@, path@, hidden);
                }
                match &self.io_log.listings[i].2 {
                    Err(e) => {
                        let msg = e.clone();
                        self.files.tree.nodes[node_id].unreadable = true;
                        proof {
                            let a = self.files.tree.nodes@;
                            assert forall|p: int, k: int|
                                0 <= p < a.len() && 0 <= k < a[p].children@.len() implies p < #[trigger] a[p].children@[k]
                                < a.len() by {
                                assert(a[p].children == old(self).files.tree.nodes@[p].children);
                            }
                            assert(a =~= old(self).files.tree.nodes@.update(
                                node_id as int,
                                node_with_unreadable(old(self).files.tree.nodes@[node_id as int]),
                            ));
                        }
                        Ok(Err(msg))
                    },
                    Ok(entries) => {
                        let ghost before = self.files.tree;
                        self.files.tree.load_children(node_id, entries);
                        proof {
                            let a = self.files.tree.nodes@;
                            let ks = child_entries(entries@, before.nodes@[node_id as int].path@.len() as int);
                            assert forall|j: int| 0 <= j < a.len() && !(#[trigger] a[j]).children_loaded implies a[j].children@.len()
                                == 0 by {
                                if j < before.nodes@.len() && j != node_id {
                                    assert(a[j] == before.nodes@[j]);
                                } else if j >= before.nodes@.len() {
                                    assert(crate::tree::fresh_node(a[before.nodes@.len() + (j - before.nodes@.len())], ks[j - before.nodes@.len()], node_id));
                                }
                            }
                            assert forall|j: int| 0 <= j < a.len() && (#[trigger] a[j]).children_loaded implies first_listing(
                                self.io_log.listings@,
                                a[j].path@,
                                self.files.show_hidden,
                            ) is Some by {
                                if j < before.nodes@.len() && j != node_id {
                                    assert(a[j] == before.nodes@[j]);
                                } else if j >= before.nodes@.len() {
                                    assert(crate::tree::fresh_node(a[before.nodes@.len() + (j - before.nodes@.len())], ks[j - before.nodes@.len()], node_id));
                                }
                            }
                        }
                        Ok(Ok(()))
                    },
                }
            },
        }
    }

    /// Whether the record holds a listing for a node's path.
    pub(crate) fn has_listing(&self, node_id: usize) -> (r: bool)
        requires
            node_id < self.files.tree.nodes@.len(),
        ensures
            r == (first_listing(self.io_log.listings@, self.files.tree.nodes@[node_id as int].path@, self.files.show_hidden) is Some),
    {
        self.io_log.find_listing(&self.files.tree.nodes[node_id].path, self.files.show_hidden).is_some()
    }

    /// Expands a directory and every directory below it, loading them as needed. A failed
    /// listing below stops nothing but is given back for the directory itself.
    fn expand_recursive(&mut self, node_id: usize) -> (r: Result<Result<(), String>, IoRequest>)
        requires
            old(self).wf(),
            node_id < old(self).files.tree.nodes@.len(),
            old(self).files.tree.nodes@[node_id as int].is_dir ==> old(self).files.tree.nodes@[node_id as int].children_loaded
                || first_listing(
                old(self).io_log.listings@,
                old(self).files.tree.nodes@[node_id as int].path@,
                old(self).files.show_hidden,
            ) is Some,
        ensures
            r is Ok ==> final(self).wf() && tree_grew(old(self).files.tree, final(self).files.tree)
                && expanded_kept(old(self).files.tree, final(self).files.tree),
            r is Ok ==> *final(self) == (AppState {
                files: FilesState { tree: final(self).files.tree, ..old(self).files },
                ..*old(self)
            }),
            (r matches Ok(Ok(_))) && old(self).files.tree.nodes@[node_id as int].is_dir ==> final(self).files.tree.nodes@[node_id as int].expanded
                && final(self).files.tree.nodes@[node_id as int].children_loaded,
            r matches Err(q) ==> missing_dir(*old(self), q),
            !old(self).files.tree.nodes@[node_id as int].is_dir ==> r == Ok::<Result<(), String>, IoRequest>(Ok(())) && *final(self) == *old(self),
            ({
                let n = old(self).files.tree.nodes@[node_id as int];
                let failed = n.is_dir && !n.children_loaded && log_listing(old(self).io_log, n.path@, old(self).files.show_hidden)
                    == Some(None::<Seq<crate::fs_scan::FsEntry>>);
                &&& failed ==> (r matches Ok(Err(e)) && e@ == log_listing_error(old(self).io_log, n.path@, old(self).files.show_hidden))
                &&& (r matches Ok(Err(_))) ==> failed
            }),
        decreases longer_keys(
            old(self).io_log.listings@,
            old(self).files.show_hidden,
            old(self).files.tree.nodes@[node_id as int].path@.len() as int,
        ),
    {
        if !self.files.tree.nodes[node_id].is_dir {
            return Ok(Ok(()));
        }
        match self.ensure_children_loaded(node_id) {
            Err(q) => return Err(q),
            Ok(Err(e)) => return Ok(Err(e)),
            Ok(Ok(())) => {},
        }
        let ghost loaded = self.files.tree;
        self.files.tree.nodes[node_id].expanded = true;
        let ghost start = *self;
        proof {
            assert(expanded_kept(old(self).files.tree, loaded)) by {
                if !old(self).files.tree.nodes@[node_id as int].children_loaded {
                    assert forall|j: int| 0 <= j < old(self).files.tree.nodes@.len() && (#[trigger] old(self).files.tree.nodes@[j]).expanded
                        implies loaded.nodes@[j].expanded by {
                        if j != node_id {
                            assert(loaded.nodes@[j] == old(self).files.tree.nodes@[j]);
                        }
                    }
                }
            }
        }
        let children = self.files.tree.nodes[node_id].children.clone();
        let mut k: usize = 0;
        while k < children.len()
            invariant
                self.wf(),
                node_id < self.files.tree.nodes@.len(),
                start.files.tree.nodes@.len() <= self.files.tree.nodes@.len(),
                children@ == start.files.tree.nodes@[node_id as int].children@,
                start.files.tree.nodes@[node_id as int].children_loaded,
                old(self).files.tree.nodes@[node_id as int].is_dir,
                node_id < old(self).files.tree.nodes@.len(),
                !old(self).files.tree.nodes@[node_id as int].children_loaded ==> log_listing(
                    old(self).io_log,
                    old(self).files.tree.nodes@[node_id as int].path@,
                    old(self).files.show_hidden,
                ) != Some(None::<Seq<crate::fs_scan::FsEntry>>),
                start.files.tree.nodes@[node_id as int].path == old(self).files.tree.nodes@[node_id as int].path,
                k <= children@.len(),
                tree_grew(start.files.tree, self.files.tree),
                tree_grew(old(self).files.tree, self.files.tree),
                self.files.tree.nodes@[node_id as int].expanded,
                self.files.tree.nodes@[node_id as int].children_loaded,
                self.io_log == old(self).io_log,
                self.files.show_hidden == old(self).files.show_hidden,
                *self == (AppState { files: FilesState { tree: self.files.tree, ..old(self).files }, ..*old(self) }),
                paths_grow(start.files.tree),
                start.files.tree.wf(),
                node_id < start.files.tree.nodes@.len(),
                expanded_kept(old(self).files.tree, self.files.tree),
            decreases children@.len() - k,
        {
            let c = children[k];
            assert(node_id < c < start.files.tree.nodes@.len());
            assert(self.files.tree.nodes@[c as int].path == start.files.tree.nodes@[c as int].path);
            if self.files.tree.nodes[c].is_dir {
                if !self.files.tree.nodes[c].children_loaded && !self.has_listing(c) {
                    return Err(IoRequest::ListDir { path: self.files.tree.nodes[c].path.clone(), show_hidden: self.files.show_hidden });
                }
                proof {
                    let s = self.io_log.listings@;
                    let hidden = self.files.show_hidden;
                    let cp = self.files.tree.nodes@[c as int].path@;
                    lemma_first_listing_found(s, cp, hidden);
                    let i = first_listing(s, cp, hidden)->0;
                    assert(start.files.tree.nodes@[node_id as int].path@.len() < start.files.tree.nodes@[start.files.tree.nodes@[node_id as int].children@[k as int] as int].path@.len());
                    lemma_longer_keys_step(s, hidden, old(self).files.tree.nodes@[node_id as int].path@.len() as int, cp.len() as int, i);
                }
                let ghost before = *self;
                match self.expand_recursive(c) {
                    Err(q) => return Err(q),
                    Ok(_) => {},
                }
                assert(before.files.tree.nodes@[node_id as int].expanded);
            }
            k += 1;
        }
        Ok(Ok(()))
    }

    /// Closes a directory and every directory below it.
    fn collapse_recursive(&mut self, node_id: usize)
        requires
            old(self).wf(),
            node_id < old(self).files.tree.nodes@.len(),
        ensures
            final(self).wf(),
            final(self).files.tree.nodes@.len() == old(self).files.tree.nodes@.len(),
            !final(self).files.tree.nodes@[node_id as int].expanded,
            forall|j: int| 0 <= j < node_id ==> #[trigger] final(self).files.tree.nodes@[j] == old(self).files.tree.nodes@[j],
            forall|j: int|
                0 <= j < old(self).files.tree.nodes@.len() ==> (#[trigger] final(self).files.tree.nodes@[j]) == (FileNode {
                    expanded: final(self).files.tree.nodes@[j].expanded,
                    ..old(self).files.tree.nodes@[j]
                }),
            final(self).files.tree.root == old(self).files.tree.root,
            final(self).files.tree.cursor == old(self).files.tree.cursor,
            final(self).files.tree.scroll == old(self).files.tree.scroll,
            *final(self) == (AppState {
                files: FilesState { tree: final(self).files.tree, ..old(self).files },
                ..*old(self)
            }),
        decreases old(self).files.tree.nodes@.len() - node_id,
    {
        self.files.tree.nodes[node_id].expanded = false;
        let children = self.files.tree.nodes[node_id].children.clone();
        let mut k: usize = 0;
        while k < children.len()
            invariant
                self.wf(),
                node_id < self.files.tree.nodes@.len(),
                self.files.tree.nodes@.len() == old(self).files.tree.nodes@.len(),
                children@ == old(self).files.tree.nodes@[node_id as int].children@,
                k <= children@.len(),
                !self.files.tree.nodes@[node_id as int].expanded,
                forall|j: int| 0 <= j < node_id ==> #[trigger] self.files.tree.nodes@[j] == old(self).files.tree.nodes@[j],
                forall|j: int|
                    0 <= j < old(self).files.tree.nodes@.len() ==> (#[trigger] self.files.tree.nodes@[j]) == (FileNode {
                        expanded: self.files.tree.nodes@[j].expanded,
                        ..old(self).files.tree.nodes@[j]
                    }),
                self.files.tree.root == old(self).files.tree.root,
                self.files.tree.cursor == old(self).files.tree.cursor,
                self.files.tree.scroll == old(self).files.tree.scroll,
                *self == (AppState { files: FilesState { tree: self.files.tree, ..old(self).files }, ..*old(self) }),
                old(self).files.tree.wf(),
            decreases children@.len() - k,
        {
            let c = children[k];
            assert(node_id < c < old(self).files.tree.nodes@.len());
            self.collapse_recursive(c);
            k += 1;
        }
    }

    /// Marks a file selected or not and adds it to or takes it out of the chosen files.
    pub(crate) fn mark_file_selected(&mut self, node_id: usize, selected: bool)
        requires
            old(self).wf(),
            node_id < old(self).files.tree.nodes@.len(),
        ensures
            final(self).wf(),
            final(self).files.tree.nodes@ == old(self).files.tree.nodes@.update(
                node_id as int,
                FileNode { selected, ..old(self).files.tree.nodes@[node_id as int] },
            ),
            forall|x: Seq<char>|
                has_text(final(self).files.selected_by_tree@, x) <==> if x == old(self).files.tree.nodes@[node_id as int].path@ {
                    selected
                } else {
                    has_text(old(self).files.selected_by_tree@, x)
                },
            *final(self) == (AppState {
                files: FilesState {
                    tree: FileTree { nodes: final(self).files.tree.nodes, ..old(self).files.tree },
                    selected_by_tree: final(self).files.selected_by_tree,
                    ..old(self).files
                },
                ..*old(self)
            }),
    {
        self.files.tree.nodes[node_id].selected = selected;
        proof {
            let a = self.files.tree.nodes@;
            assert(a =~= old(self).files.tree.nodes@.update(
                node_id as int,
                FileNode { selected, ..old(self).files.tree.nodes@[node_id as int] },
            ));
            assert forall|p: int, k: int|
                0 <= p < a.len() && 0 <= k < a[p].children@.len() implies p < #[trigger] a[p].children@[k] < a.len() by {
                assert(a[p].children == old(self).files.tree.nodes@[p].children);
            }
            assert forall|p: int, k: int|
                0 <= p < a.len() && 0 <= k < a[p].children@.len() implies a[p].path@.len() < a[#[trigger] a[p].children@[k] as int].path@.len() by {
                assert(a[p].children == old(self).files.tree.nodes@[p].children);
                assert(old(self).files.tree.nodes@[p].path@.len() < old(self).files.tree.nodes@[old(self).files.tree.nodes@[p].children@[k] as int].path@.len());
            }
        }
        let path = self.files.tree.nodes[node_id].path.clone();
        if selected {
            set_insert(&mut self.files.selected_by_tree, path.as_str());
        } else {
            set_remove(&mut self.files.selected_by_tree, path.as_str());
        }
    }

    /// Marks a node selected or not. A file is added to or taken out of the chosen files; a
    /// directory is loaded and every node below it marked the same way (failures below are
    /// passed over; the directory's own failed listing is given back).
    pub(crate) fn set_node_selected(&mut self, node_id: usize, selected: bool) -> (r: Result<Result<(), String>, IoRequest>)
        requires
            old(self).wf(),
            node_id < old(self).files.tree.nodes@.len(),
            old(self).files.tree.nodes@[node_id as int].is_dir ==> old(self).files.tree.nodes@[node_id as int].children_loaded
                || first_listing(
                old(self).io_log.listings@,
                old(self).files.tree.nodes@[node_id as int].path@,
                old(self).files.show_hidden,
            ) is Some,
        ensures
            r is Ok ==> final(self).wf() && tree_grew(old(self).files.tree, final(self).files.tree)
                && final(self).files.tree.nodes@[node_id as int].selected == selected,
            r is Ok ==> forall|j: int| 0 <= j < node_id ==> #[trigger] final(self).files.tree.nodes@[j].selected == old(self).files.tree.nodes@[j].selected,
            r is Ok ==> *final(self) == (AppState {
                files: FilesState {
                    tree: final(self).files.tree,
                    selected_by_tree: final(self).files.selected_by_tree,
                    ..old(self).files
                },
                ..*old(self)
            }),
            r is Ok && !old(self).files.tree.nodes@[node_id as int].is_dir ==> final(self).files.tree.nodes@
                == old(self).files.tree.nodes@.update(
                node_id as int,
                FileNode { selected, ..old(self).files.tree.nodes@[node_id as int] },
            ) && forall|x: Seq<char>|
                has_text(final(self).files.selected_by_tree@, x) <==> if x == old(self).files.tree.nodes@[node_id as int].path@ {
                    selected
                } else {
                    has_text(old(self).files.selected_by_tree@, x)
                },
            r matches Err(q) ==> missing_dir(*old(self), q),
            !old(self).files.tree.nodes@[node_id as int].is_dir ==> r == Ok::<Result<(), String>, IoRequest>(Ok(())),
        decreases longer_keys(
            old(self).io_log.listings@,
            old(self).files.show_hidden,
            old(self).files.tree.nodes@[node_id as int].path@.len() as int,
        ),
    {
        if !self.files.tree.nodes[node_id].is_dir {
            self.mark_file_selected(node_id, selected);
            return Ok(Ok(()));
        }
        self.files.tree.nodes[node_id].selected = selected;
        proof {
            let a = self.files.tree.nodes@;
            assert forall|p: int, k: int|
                0 <= p < a.len() && 0 <= k < a[p].children@.len() implies p < #[trigger] a[p].children@[k] < a.len() by {
                assert(a[p].children == old(self).files.tree.nodes@[p].children);
            }
            assert forall|p: int, k: int|
                0 <= p < a.len() && 0 <= k < a[p].children@.len() implies a[p].path@.len() < a[#[trigger] a[p].children@[k] as int].path@.len() by {
                assert(a[p].children == old(self).files.tree.nodes@[p].children);
                assert(old(self).files.tree.nodes@[p].path@.len() < old(self).files.tree.nodes@[old(self).files.tree.nodes@[p].children@[k] as int].path@.len());
            }
        }
        match self.ensure_children_loaded(node_id) {
            Err(q) => return Err(q),
            Ok(Err(e)) => return Ok(Err(e)),
            Ok(Ok(())) => {},
        }
        let ghost start = *self;
        let children = self.files.tree.nodes[node_id].children.clone();
        let mut k: usize = 0;
        while k < children.len()
            invariant
                self.wf(),
                node_id < start.files.tree.nodes@.len(),
                node_id < old(self).files.tree.nodes@.len(),
                start.files.tree.nodes@.len() <= self.files.tree.nodes@.len(),
                children@ == start.files.tree.nodes@[node_id as int].children@,
                start.files.tree.nodes@[node_id as int].children_loaded,
                start.files.tree.nodes@[node_id as int].path == old(self).files.tree.nodes@[node_id as int].path,
                old(self).files.tree.nodes@[node_id as int].is_dir,
                k <= children@.len(),
                tree_grew(start.files.tree, self.files.tree),
                tree_grew(old(self).files.tree, self.files.tree),
                self.files.tree.nodes@[node_id as int].selected == selected,
                forall|j: int| 0 <= j < node_id ==> #[trigger] self.files.tree.nodes@[j].selected == old(self).files.tree.nodes@[j].selected,
                self.io_log == old(self).io_log,
                self.files.show_hidden == old(self).files.show_hidden,
                *self == (AppState {
                    files: FilesState {
                        tree: self.files.tree,
                        selected_by_tree: self.files.selected_by_tree,
                        ..old(self).files
                    },
                    ..*old(self)
                }),
                paths_grow(start.files.tree),
                start.files.tree.wf(),
            decreases children@.len() - k,
        {
            let c = children[k];
            assert(node_id < c < start.files.tree.nodes@.len());
            assert(self.files.tree.nodes@[c as int].path == start.files.tree.nodes@[c as int].path);
            if !self.files.tree.nodes[c].is_dir {
                self.mark_file_selected(c, selected);
            } else {
                if !self.files.tree.nodes[c].children_loaded && !self.has_listing(c) {
                    return Err(IoRequest::ListDir { path: self.files.tree.nodes[c].path.clone(), show_hidden: self.files.show_hidden });
                }
                proof {
                    let s = self.io_log.listings@;
                    let hidden = self.files.show_hidden;
                    let cp = self.files.tree.nodes@[c as int].path@;
                    lemma_first_listing_found(s, cp, hidden);
                    let i = first_listing(s, cp, hidden)->0;
                    assert(start.files.tree.nodes@[node_id as int].path@.len() < start.files.tree.nodes@[start.files.tree.nodes@[node_id as int].children@[k as int] as int].path@.len());
                    lemma_longer_keys_step(s, hidden, old(self).files.tree.nodes@[node_id as int].path@.len() as int, cp.len() as int, i);
                }
                match self.set_node_selected(c, selected) {
                    Err(q) => return Err(q),
                    Ok(_) => {},
                }
            }
            k += 1;
        }
        Ok(Ok(()))
    }

    /// Whether the Files tab of the scope stage is showing.
    pub(crate) fn in_files_tab(&self) -> (r: bool)
        ensures
            r == (self.ui.stage == Stage::Scope && self.ui.scope_tab == ScopeTab::Files),
    {
        self.ui.stage == Stage::Scope && self.ui.scope_tab == ScopeTab::Files
    }

    /// Rebuilds the tree from the working directory with only its top level loaded, and
    /// records the error when that listing failed.
    pub fn reload_tree(&mut self) -> (r: Result<(), IoRequest>)
        requires
            old(self).wf_but_backing(),
        ensures
            r is Ok ==> final(self).wf(),
            r is Ok ==> final(self).files.tree.root == 0 && final(self).files.tree.nodes@[0].path == old(self).cwd
                && final(self).files.tree.nodes@[0].expanded && final(self).files.tree.nodes@[0].is_dir,
            r is Ok ==> match log_listing(old(self).io_log, old(self).cwd@, old(self).files.show_hidden) {
                Some(Some(entries)) => final(self).files.scan_error is None && final(self).files.tree.nodes@[0].children_loaded
                    && final(self).files.tree.nodes@.len() == 1 + child_entries(entries, old(self).cwd@.len() as int).len()
                    && root_loaded(final(self).files.tree, old(self).cwd@, child_entries(entries, old(self).cwd@.len() as int)),
                Some(None) => final(self).files.scan_error matches Some(e) && e@ == log_listing_error(
                    old(self).io_log,
                    old(self).cwd@,
                    old(self).files.show_hidden,
                ),
                None => false,
            },
            r matches Err(q) ==> missing_dir(*old(self), q),
            r is Ok <==> log_listing(old(self).io_log, old(self).cwd@, old(self).files.show_hidden) is Some,
            r matches Err(q) ==> lists_dir(q, old(self).cwd@, old(self).files.show_hidden),
            final(self).io_log == old(self).io_log,
            r is Ok ==> *final(self) == (AppState {
                files: FilesState {
                    tree: final(self).files.tree,
                    scan_error: final(self).files.scan_error,
                    scope_files_focus_nodes: final(self).files.scope_files_focus_nodes,
                    scope_files_scrollbar: final(self).files.scope_files_scrollbar,
                    ..old(self).files
                },
                ..*old(self)
            }),
    {
        let mut focus: Vec<usize> = Vec::new();
        std::mem::swap(&mut focus, &mut self.files.scope_files_focus_nodes);
        self.files.tree = FileTree::new(self.cwd.clone());
        self.files.scan_error = None;
        match self.ensure_children_loaded(0) {
            Err(q) => return Err(q),
            Ok(Err(e)) => {
                self.files.scan_error = Some(e);
            },
            Ok(Ok(())) => {},
        }
        self.files.scope_files_focus_nodes = focus;
        self.normalize_scope_files_cursor();
        Ok(())
    }

    /// In the Files tab, opens the directory under the cursor, loading it first; a failed
    /// listing is reported in a toast and leaves it closed.
    pub fn expand_current(&mut self) -> (r: Result<(), IoRequest>)
        requires
            old(self).wf(),
        ensures
            r is Ok ==> final(self).wf(),
            r matches Err(q) ==> missing_dir(*old(self), q),
            !(old(self).ui.stage == Stage::Scope && old(self).ui.scope_tab == ScopeTab::Files) || scope_rows(*old(self)).len() == 0
                ==> r is Ok && *final(self) == *old(self),
            old(self).ui.stage == Stage::Scope && old(self).ui.scope_tab == ScopeTab::Files && scope_rows(*old(self)).len() > 0 ==> ({
                let n = old(self).files.tree.nodes@[scope_rows(*old(self))[crate::scrollbar::min_int(
                    old(self).files.tree.cursor as int,
                    scope_rows(*old(self)).len() - 1,
                )].node_id as int];
                &&& r is Ok <==> !n.is_dir || n.children_loaded || log_listing(old(self).io_log, n.path@, old(self).files.show_hidden) is Some
                &&& r matches Err(q) ==> lists_dir(q, n.path@, old(self).files.show_hidden)
            }),
            r is Ok && old(self).ui.stage == Stage::Scope && old(self).ui.scope_tab == ScopeTab::Files && scope_rows(*old(self)).len() > 0
                ==> ({
                let id = scope_rows(*old(self))[crate::scrollbar::min_int(old(self).files.tree.cursor as int, scope_rows(*old(self)).len() - 1)].node_id as int;
                &&& !old(self).files.tree.nodes@[id].is_dir ==> *final(self) == *old(self)
                &&& old(self).files.tree.nodes@[id].is_dir && log_listing(old(self).io_log, old(self).files.tree.nodes@[id].path@, old(self).files.show_hidden) != Some(None::<Seq<crate::fs_scan::FsEntry>>)
                    ==> final(self).files.tree.nodes@[id].expanded && final(self).files.tree.nodes@[id].children_loaded
                &&& old(self).files.tree.nodes@[id].is_dir && !old(self).files.tree.nodes@[id].children_loaded && log_listing(old(self).io_log, old(self).files.tree.nodes@[id].path@, old(self).files.show_hidden) == Some(None::<Seq<crate::fs_scan::FsEntry>>)
                    ==> final(self).log.toasts@.last().level == ToastLevel::Error && final(self).log.toasts@.last().message@ == "Could not expand folder: "@
                    + log_listing_error(old(self).io_log, old(self).files.tree.nodes@[id].path@, old(self).files.show_hidden)
            }),
    {
        if !self.in_files_tab() {
            return Ok(());
        }
        let node_id = match self.current_scope_file_node_id() {
            Some(n) => n,
            None => return Ok(()),
        };
        if !self.files.tree.nodes[node_id].is_dir {
            return Ok(());
        }
        match self.ensure_children_loaded(node_id) {
            Err(q) => Err(q),
            Ok(Err(e)) => {
                let msg = concat("Could not expand folder: ", e.as_str());
                self.push_toast(ToastLevel::Error, msg);
                Ok(())
            },
            Ok(Ok(())) => {
                self.files.tree.nodes[node_id].expanded = true;
                proof {
                    let a = self.files.tree.nodes@;
                    let b = old(self).files.tree.nodes@;
                    assert forall|p: int, k: int|
                        0 <= p < a.len() && 0 <= k < a[p].children@.len() implies p < #[trigger] a[p].children@[k] < a.len() by {
                    }
                }
                Ok(())
            },
        }
    }

    /// In the Files tab, closes the directory under the cursor when it is open; otherwise
    /// moves the cursor to the row of its parent directory when that row is shown.
    pub fn collapse_current(&mut self)
        requires
            old(self).wf(),
        ensures
            final(self).wf(),
            !(old(self).ui.stage == Stage::Scope && old(self).ui.scope_tab == ScopeTab::Files) || scope_rows(*old(self)).len() == 0
                ==> *final(self) == *old(self),
            old(self).ui.stage == Stage::Scope && old(self).ui.scope_tab == ScopeTab::Files && scope_rows(*old(self)).len() > 0
                ==> ({
                let id = scope_rows(*old(self))[crate::scrollbar::min_int(old(self).files.tree.cursor as int, scope_rows(*old(self)).len() - 1)].node_id as int;
                let n = old(self).files.tree.nodes@[id];
                &&& n.is_dir && n.expanded ==> !final(self).files.tree.nodes@[id].expanded
                &&& !(n.is_dir && n.expanded) ==> final(self).files.tree.nodes == old(self).files.tree.nodes
            }),
            *final(self) == (AppState { files: final(self).files, ..*old(self) }),
    {
        if !self.in_files_tab() {
            return;
        }
        let node_id = match self.current_scope_file_node_id() {
            Some(n) => n,
            None => return,
        };
        if self.files.tree.nodes[node_id].is_dir && self.files.tree.nodes[node_id].expanded {
            self.files.tree.nodes[node_id].expanded = false;
            proof {
                let a = self.files.tree.nodes@;
                assert forall|p: int, k: int|
                    0 <= p < a.len() && 0 <= k < a[p].children@.len() implies p < #[trigger] a[p].children@[k] < a.len() by {
                    assert(a[p].children == old(self).files.tree.nodes@[p].children);
                }
                assert forall|p: int, k: int|
                    0 <= p < a.len() && 0 <= k < a[p].children@.len() implies a[p].path@.len() < a[#[trigger] a[p].children@[k] as int].path@.len() by {
                    assert(a[p].children == old(self).files.tree.nodes@[p].children);
                    assert(old(self).files.tree.nodes@[p].path@.len() < old(self).files.tree.nodes@[old(self).files.tree.nodes@[p].children@[k] as int].path@.len());
                }
            }
            self.normalize_scope_files_cursor();
            return;
        }
        if let Some(parent) = self.files.tree.nodes[node_id].parent {
            let rows = self.scope_files_rows();
            let mut k: usize = 0;
            while k < rows.len()
                invariant
                    k <= rows@.len(),
                    *self == *old(self),
                decreases rows@.len() - k,
            {
                if rows[k].node_id == parent {
                    break;
                }
                k += 1;
            }
            if k < rows.len() {
                self.files.tree.cursor = k;
            }
        }
        self.normalize_scope_files_cursor();
    }

    /// In the Files tab, opens the node under the cursor and everything below it, loading
    /// as needed; failed listings are reported together in a warning toast.
    pub fn expand_all_current(&mut self) -> (r: Result<(), IoRequest>)
        requires
            old(self).wf(),
        ensures
            all_expanded(*old(self), *final(self), r),
    {
        if !self.in_files_tab() {
            return Ok(());
        }
        let node_id = match self.current_scope_file_node_id() {
            Some(n) => n,
            None => return Ok(()),
        };
        if self.files.tree.nodes[node_id].is_dir && !self.files.tree.nodes[node_id].children_loaded && !self.has_listing(node_id) {
            return Err(IoRequest::ListDir { path: self.files.tree.nodes[node_id].path.clone(), show_hidden: self.files.show_hidden });
        }
        match self.expand_recursive(node_id) {
            Err(q) => return Err(q),
            Ok(Err(e)) => {
                let msg = concat("Expanded partially (some folders unreadable): ", e.as_str());
                self.push_toast(ToastLevel::Warning, msg);
            },
            Ok(Ok(())) => {},
        }
        self.normalize_scope_files_cursor();
        Ok(())
    }

    /// In the Files tab, closes the node under the cursor and everything below it.
    pub fn collapse_all_current(&mut self)
        requires
            old(self).wf(),
        ensures
            final(self).wf(),
            all_collapsed(*old(self), *final(self)),
    {
        if !self.in_files_tab() {
            return;
        }
        let node_id = match self.current_scope_file_node_id() {
            Some(n) => n,
            None => return,
        };
        self.collapse_recursive(node_id);
        self.normalize_scope_files_cursor();
    }

    /// Marks the node on a row of the Files list selected or not, as `set_node_selected`
    /// does; a row past the end does nothing.
    pub fn set_scope_file_selection_at(&mut self, row_index: usize, selected: bool) -> (r: Result<Result<(), String>, IoRequest>)
        requires
            old(self).wf(),
        ensures
            r is Ok ==> final(self).wf(),
            r matches Err(q) ==> missing_dir(*old(self), q),
            row_index >= scope_rows(*old(self)).len() ==> r == Ok::<Result<(), String>, IoRequest>(Ok(())) && *final(self) == *old(self),
            row_index < scope_rows(*old(self)).len() ==> ({
                let n = old(self).files.tree.nodes@[scope_rows(*old(self))[row_index as int].node_id as int];
                &&& !n.is_dir ==> r == Ok::<Result<(), String>, IoRequest>(Ok(()))
                &&& n.is_dir && !n.children_loaded && log_listing(old(self).io_log, n.path@, old(self).files.show_hidden) is None
                    ==> (r matches Err(q) && lists_dir(q, n.path@, old(self).files.show_hidden))
            }),
            r is Ok && row_index < scope_rows(*old(self)).len() ==> final(self).files.tree.nodes@[scope_rows(*old(self))[row_index as int].node_id as int].selected
                == selected,
            r is Ok ==> *final(self) == (AppState { files: final(self).files, ..*old(self) }),
    {
        let node_id = match self.scope_file_node_id_at(row_index) {
            Some(n) => n,
            None => return Ok(Ok(())),
        };
        if self.files.tree.nodes[node_id].is_dir && !self.files.tree.nodes[node_id].children_loaded && !self.has_listing(node_id) {
            return Err(IoRequest::ListDir { path: self.files.tree.nodes[node_id].path.clone(), show_hidden: self.files.show_hidden });
        }
        self.set_node_selected(node_id, selected)
    }

    /// Switches between showing every file and only the selected categories, and says so in
    /// a toast.
    pub fn toggle_show_selected_categories_only(&mut self)
        requires
            old(self).wf(),
        ensures
            final(self).wf(),
            categories_only_toggled(*old(self), *final(self)),
    {
        self.files.show_selected_categories_only = !self.files.show_selected_categories_only;
        self.normalize_scope_files_cursor();
        let msg = if self.files.show_selected_categories_only {
            crate::text::str_to_string("Files view: showing selected categories only")
        } else {
            crate::text::str_to_string("Files view: showing all categories")
        };
        self.push_toast(ToastLevel::Info, msg);
    }
}

} // verus!
