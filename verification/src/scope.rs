//! The Files list of the scope stage: which tree rows it shows, its cursor and scrollbar,
//! and what a directory shows as selected.
use vstd::prelude::*;
use crate::interact::{Rect, rect_wf};
use crate::io::same_text;
use crate::model::{FileNode, FileTree, VisibleNode};
use crate::paths::{extension_of, spec_extension};
use crate::scrollbar::{ScopeFilesScrollbarGeometry, compute_scrollbar, min_int, scroll_for_top, scrollbar_for};
use crate::state::{AppState, FilesState};
use crate::text::{spec_lowercase, str_to_lowercase, str_to_string};
use crate::tree::{tree_wf, visible_rows};

verus! {

/// Whether some string of `v` holds the text `t`.
pub open spec fn has_text(v: Seq<String>, t: Seq<char>) -> bool {
    exists|i: int| 0 <= i < v.len() && #[trigger] v[i]@ == t
}

/// The position of the first string of `v` holding `t`, or `None`.
pub fn text_index(v: &Vec<String>, t: &str) -> (r: Option<usize>)
    ensures
        r is None <==> !has_text(v@, t@),
        r matches Some(i) ==> i < v@.len() && v@[i as int]@ == t@ && forall|j: int|
            0 <= j < i ==> #[trigger] v@[j]@ != t@,
{
    let target = str_to_string(t);
    let mut i: usize = 0;
    while i < v.len()
        invariant
            i <= v@.len(),
            target@ == t@,
            forall|j: int| 0 <= j < i ==> #[trigger] v@[j]@ != t@,
        decreases v@.len() - i,
    {
        if same_text(&v[i], &target) {
            return Some(i);
        }
        i += 1;
    }
    None
}

/// The lower-cased extension of a path, empty when it has none: the key by which files are
/// matched against the selected extensions.
pub open spec fn ext_key(path: Seq<char>) -> Seq<char> {
    match spec_extension(path) {
        Some(e) => spec_lowercase(e),
        None => seq![],
    }
}

/// Computes `ext_key`.
pub fn path_ext_key(path: &str) -> (r: String)
    ensures
        r@ == ext_key(path@),
{
    match extension_of(path) {
        Some(e) => str_to_lowercase(e.as_str()),
        None => String::new(),
    }
}

/// Whether a node belongs to the selected categories: a directory when it holds a matching
/// file, a file when its extension is selected.
pub open spec fn node_matches(app: AppState, id: int) -> bool {
    let n = app.files.tree.nodes@[id];
    if n.is_dir {
        has_text(app.files.category_match_dirs@, n.path@)
    } else {
        has_text(app.filters.selected_extensions@, ext_key(n.path@))
    }
}

/// The rows of the Files list: every visible tree row, or, when only the selected
/// categories are shown, the rows that match them (none when no category is selected).
pub open spec fn scope_rows(app: AppState) -> Seq<VisibleNode> {
    if app.files.show_selected_categories_only && app.filters.selected_extensions@.len() == 0 {
        seq![]
    } else if !app.files.show_selected_categories_only {
        visible_rows(app.files.tree)
    } else {
        visible_rows(app.files.tree).filter(|r: VisibleNode| node_matches(app, r.node_id as int))
    }
}

/// Whether some row shows node `id`.
pub open spec fn rows_have(rows: Seq<VisibleNode>, id: usize) -> bool {
    exists|k: int| 0 <= k < rows.len() && #[trigger] rows[k].node_id == id
}

/// Every visible row names a node of the tree.
pub proof fn lemma_visible_rows_in_tree(t: FileTree)
    requires
        t.wf(),
    ensures
        forall|k: int| 0 <= k < visible_rows(t).len() ==> (#[trigger] visible_rows(t)[k]).node_id < t.nodes@.len(),
{
    lemma_rows_from_in_tree(t.nodes@, t.root as int, t.root as int, 0);
}

/// The rows shown stand for nodes of the tree.
pub proof fn lemma_scope_rows_in_tree(app: AppState)
    requires
        app.files.tree.wf(),
    ensures
        forall|k: int| 0 <= k < scope_rows(app).len() ==> (#[trigger] scope_rows(app)[k]).node_id < app.files.tree.nodes@.len(),
{
    lemma_visible_rows_in_tree(app.files.tree);
    let v = visible_rows(app.files.tree);
    if app.files.show_selected_categories_only && app.filters.selected_extensions@.len() > 0 {
        let p = |r: VisibleNode| node_matches(app, r.node_id as int);
        assert forall|k: int| 0 <= k < v.filter(p).len() implies (#[trigger] v.filter(p)[k]).node_id < app.files.tree.nodes@.len() by {
            let x = v.filter(p)[k];
            assert(v.filter(p).contains(x));
            v.lemma_filter_contains_rev(p, x);
            let j = choose|j: int| 0 <= j < v.len() && v[j] == x;
            assert(v[j].node_id < app.files.tree.nodes@.len());
        }
    }
}

proof fn lemma_rows_from_in_tree(nodes: Seq<FileNode>, root: int, id: int, depth: u16)
    requires
        tree_wf(nodes, root),
        0 <= id < nodes.len(),
    ensures
        forall|k: int|
            0 <= k < crate::tree::rows_from(nodes, root, id, depth).len() ==> (#[trigger] crate::tree::rows_from(
                nodes,
                root,
                id,
                depth,
            )[k]).node_id < nodes.len(),
    decreases nodes.len() - id, 1int,
{
    let own: Seq<VisibleNode> = if id != root {
        seq![VisibleNode { node_id: id as usize, depth }]
    } else {
        seq![]
    };
    if nodes[id].is_dir && nodes[id].expanded {
        let rc = crate::tree::rows_of_children(nodes, root, id, 0, crate::tree::depth_succ(depth));
        lemma_rows_children_in_tree(nodes, root, id, 0, crate::tree::depth_succ(depth));
        assert forall|j: int| 0 <= j < (own + rc).len() implies (#[trigger] (own + rc)[j]).node_id < nodes.len() by {
            if j >= own.len() {
                assert((own + rc)[j] == rc[j - own.len()]);
            }
        }
    }
}

proof fn lemma_rows_children_in_tree(nodes: Seq<FileNode>, root: int, id: int, k: int, depth: u16)
    requires
        tree_wf(nodes, root),
        0 <= id < nodes.len(),
        0 <= k,
    ensures
        forall|j: int|
            0 <= j < crate::tree::rows_of_children(nodes, root, id, k, depth).len() ==> (
            #[trigger] crate::tree::rows_of_children(nodes, root, id, k, depth)[j]).node_id < nodes.len(),
    decreases nodes.len() - id, 0int, nodes[id].children@.len() - k,
{
    if k < nodes[id].children@.len() {
        let c = nodes[id].children@[k] as int;
        let first: Seq<VisibleNode> = if id < c < nodes.len() {
            crate::tree::rows_from(nodes, root, c, depth)
        } else {
            seq![]
        };
        let rest = crate::tree::rows_of_children(nodes, root, id, k + 1, depth);
        if id < c < nodes.len() {
            lemma_rows_from_in_tree(nodes, root, c, depth);
        }
        lemma_rows_children_in_tree(nodes, root, id, k + 1, depth);
        assert forall|j: int| 0 <= j < (first + rest).len() implies (#[trigger] (first + rest)[j]).node_id < nodes.len() by {
            if j >= first.len() {
                assert((first + rest)[j] == rest[j - first.len()]);
            }
        }
    }
}

/// The rows shown depend only on the tree's nodes and root, the category settings and the
/// selected extensions.
pub proof fn lemma_scope_rows_frame(a: AppState, b: AppState)
    requires
        a.files.tree.nodes == b.files.tree.nodes,
        a.files.tree.root == b.files.tree.root,
        a.files.show_selected_categories_only == b.files.show_selected_categories_only,
        a.files.category_match_dirs == b.files.category_match_dirs,
        a.filters.selected_extensions == b.filters.selected_extensions,
    ensures
        scope_rows(a) == scope_rows(b),
{
    assert((|r: VisibleNode| node_matches(a, r.node_id as int)) =~= (|r: VisibleNode| node_matches(b, r.node_id as int)));
}

/// Whether some row shows node `n`.
fn rows_contain(rows: &Vec<VisibleNode>, n: usize) -> (r: bool)
    ensures
        r == rows_have(rows@, n),
{
    let mut k: usize = 0;
    while k < rows.len()
        invariant
            k <= rows@.len(),
            forall|j: int| 0 <= j < k ==> #[trigger] rows@[j].node_id != n,
        decreases rows@.len() - k,
    {
        if rows[k].node_id == n {
            return true;
        }
        k += 1;
    }
    false
}

/// Whether a subtree holds anything that counts for selection, and whether all of that is
/// selected. A file, or a directory whose entries are not loaded, counts as itself; a loaded
/// directory counts through its entries.
pub open spec fn subtree_state(nodes: Seq<FileNode>, id: int) -> (bool, bool)
    decreases nodes.len() - id, 1int,
{
    if !(0 <= id < nodes.len()) {
        (false, true)
    } else if !nodes[id].is_dir || !nodes[id].children_loaded {
        (true, nodes[id].selected)
    } else {
        children_state(nodes, id, 0)
    }
}

/// `subtree_state` gathered over the children of `id` from the `k`-th on.
pub open spec fn children_state(nodes: Seq<FileNode>, id: int, k: int) -> (bool, bool)
    decreases nodes.len() - id, 0int, nodes[id].children@.len() - k,
{
    if !(0 <= id < nodes.len()) || !(0 <= k < nodes[id].children@.len()) {
        (false, true)
    } else {
        let c = nodes[id].children@[k] as int;
        let here = if id < c < nodes.len() {
            subtree_state(nodes, c)
        } else {
            (false, true)
        };
        let rest = children_state(nodes, id, k + 1);
        (here.0 || rest.0, (!here.0 || here.1) && rest.1)
    }
}

/// What the Files list shows for a node: a file its own mark; a directory whether every
/// loaded file and unloaded directory below it is selected, or its own mark when there is
/// nothing below it.
pub open spec fn shown_selected(nodes: Seq<FileNode>, id: int) -> bool {
    if !nodes[id].is_dir {
        nodes[id].selected
    } else {
        let s = subtree_state(nodes, id);
        if s.0 {
            s.1
        } else {
            nodes[id].selected
        }
    }
}

/// The cursor and scroll held inside a list of `len` rows.
pub open spec fn normalized_cursor(len: int, cursor: int, scroll: int) -> (int, int) {
    if len == 0 {
        (0, 0)
    } else {
        let c = min_int(cursor, len - 1);
        (c, min_int(scroll, c))
    }
}

impl AppState {
    fn node_matches_selected_categories(&self, node_id: usize) -> (r: bool)
        requires
            node_id < self.files.tree.nodes@.len(),
        ensures
            r == node_matches(*self, node_id as int),
    {
        let node = &self.files.tree.nodes[node_id];
        if node.is_dir {
            return text_index(&self.files.category_match_dirs, node.path.as_str()).is_some();
        }
        let ext = path_ext_key(node.path.as_str());
        text_index(&self.filters.selected_extensions, ext.as_str()).is_some()
    }

    /// The rows the Files list shows, as `scope_rows` describes.
    pub fn scope_files_rows(&self) -> (rows: Vec<VisibleNode>)
        requires
            self.files.tree.wf(),
        ensures
            rows@ == scope_rows(*self),
            forall|k: int| 0 <= k < rows@.len() ==> (#[trigger] rows@[k]).node_id < self.files.tree.nodes@.len(),
    {
        proof {
            lemma_visible_rows_in_tree(self.files.tree);
        }
        if self.files.show_selected_categories_only && self.filters.selected_extensions.len() == 0 {
            return Vec::new();
        }
        let all = self.files.tree.visible_nodes();
        if !self.files.show_selected_categories_only {
            return all;
        }
        let ghost pred = |r: VisibleNode| node_matches(*self, r.node_id as int);
        let mut rows: Vec<VisibleNode> = Vec::new();
        let mut i: usize = 0;
        while i < all.len()
            invariant
                i <= all@.len(),
                all@ == visible_rows(self.files.tree),
                forall|k: int| 0 <= k < all@.len() ==> (#[trigger] all@[k]).node_id < self.files.tree.nodes@.len(),
                rows@ == all@.take(i as int).filter(pred),
                pred == (|r: VisibleNode| node_matches(*self, r.node_id as int)),
                forall|k: int| 0 <= k < rows@.len() ==> (#[trigger] rows@[k]).node_id < self.files.tree.nodes@.len(),
            decreases all@.len() - i,
        {
            let r = all[i];
            proof {
                reveal(Seq::filter);
                assert(all@.take(i + 1).drop_last() == all@.take(i as int));
                assert(all@.take(i + 1).last() == r);
            }
            if self.node_matches_selected_categories(r.node_id) {
                rows.push(r);
            }
            i += 1;
        }
        assert(all@.take(i as int) == all@);
        rows
    }

    /// The number of rows the Files list shows.
    pub fn scope_files_rows_len(&self) -> (n: usize)
        requires
            self.files.tree.wf(),
        ensures
            n == scope_rows(*self).len(),
    {
        self.scope_files_rows().len()
    }

    /// The node under the Files cursor (the last row when the cursor is past the end).
    pub fn current_scope_file_node_id(&self) -> (r: Option<usize>)
        requires
            self.files.tree.wf(),
        ensures
            scope_rows(*self).len() == 0 <==> r is None,
            r matches Some(id) ==> id == scope_rows(*self)[min_int(
                self.files.tree.cursor as int,
                scope_rows(*self).len() - 1,
            )].node_id && id < self.files.tree.nodes@.len(),
    {
        let rows = self.scope_files_rows();
        if rows.len() == 0 {
            return None;
        }
        let k = if self.files.tree.cursor < rows.len() - 1 {
            self.files.tree.cursor
        } else {
            rows.len() - 1
        };
        Some(rows[k].node_id)
    }

    /// The node shown on a row of the Files list, if the row exists.
    pub fn scope_file_node_id_at(&self, row_index: usize) -> (r: Option<usize>)
        requires
            self.files.tree.wf(),
        ensures
            row_index < scope_rows(*self).len() ==> r == Some(scope_rows(*self)[row_index as int].node_id),
            row_index >= scope_rows(*self).len() ==> r is None,
            r matches Some(id) ==> id < self.files.tree.nodes@.len(),
    {
        let rows = self.scope_files_rows();
        if row_index >= rows.len() {
            return None;
        }
        Some(rows[row_index].node_id)
    }

    /// Holds the Files cursor and scroll inside the rows shown, drops gathered focus nodes
    /// that are no longer shown, and drops the scrollbar when nothing is shown.
    pub fn normalize_scope_files_cursor(&mut self)
        requires
            old(self).files.tree.wf(),
        ensures
            final(self).files.tree.wf(),
            (final(self).files.tree.cursor as int, final(self).files.tree.scroll as int) == normalized_cursor(
                scope_rows(*old(self)).len() as int,
                old(self).files.tree.cursor as int,
                old(self).files.tree.scroll as int,
            ),
            final(self).files.tree.nodes == old(self).files.tree.nodes,
            final(self).files.tree.root == old(self).files.tree.root,
            forall|n: usize|
                #![trigger final(self).files.scope_files_focus_nodes@.contains(n)]
                #![trigger old(self).files.scope_files_focus_nodes@.contains(n)]
                final(self).files.scope_files_focus_nodes@.contains(n) <==> old(self).files.scope_files_focus_nodes@.contains(n)
                    && rows_have(scope_rows(*old(self)), n),
            crate::state::distinct(old(self).files.scope_files_focus_nodes@) ==> crate::state::distinct(
                final(self).files.scope_files_focus_nodes@,
            ),
            forall|i: int|
                0 <= i < final(self).files.scope_files_focus_nodes@.len() ==> #[trigger] final(self).files.scope_files_focus_nodes@[i]
                    < final(self).files.tree.nodes@.len(),
            final(self).files.scope_files_scrollbar == (if scope_rows(*old(self)).len() == 0 {
                None
            } else {
                old(self).files.scope_files_scrollbar
            }),
            scope_rows(*final(self)) == scope_rows(*old(self)),
            *final(self) == (AppState { files: final(self).files, ..*old(self) }),
            final(self).files == (FilesState {
                tree: final(self).files.tree,
                scope_files_focus_nodes: final(self).files.scope_files_focus_nodes,
                scope_files_scrollbar: final(self).files.scope_files_scrollbar,
                ..old(self).files
            }),
    {
        let rows = self.scope_files_rows();
        let len = rows.len();
        let ghost old_focus = self.files.scope_files_focus_nodes@;
        let mut kept: Vec<usize> = Vec::new();
        let mut i: usize = 0;
        while i < self.files.scope_files_focus_nodes.len()
            invariant
                i <= old_focus.len(),
                self.files.scope_files_focus_nodes@ == old_focus,
                rows@ == scope_rows(*old(self)),
                forall|n: usize| kept@.contains(n) <==> old_focus.take(i as int).contains(n) && rows_have(rows@, n),
                forall|a: int| 0 <= a < kept@.len() ==> exists|b: int| 0 <= b < i && #[trigger] kept@[a] == old_focus[b],
                crate::state::distinct(old_focus) ==> crate::state::distinct(kept@),
                forall|k: int| 0 <= k < rows@.len() ==> (#[trigger] rows@[k]).node_id < self.files.tree.nodes@.len(),
                forall|j: int| 0 <= j < kept@.len() ==> #[trigger] kept@[j] < self.files.tree.nodes@.len(),
            decreases old_focus.len() - i,
        {
            let n = self.files.scope_files_focus_nodes[i];
            let found = rows_contain(&rows, n);
            let ghost prev = kept@;
            proof {
                assert(old_focus.take(i + 1) == old_focus.take(i as int).push(n));
                if crate::state::distinct(old_focus) && found {
                    assert forall|a: int| 0 <= a < kept@.len() implies kept@[a] != n by {
                        let b = choose|b: int| 0 <= b < i && #[trigger] kept@[a] == old_focus[b];
                        assert(old_focus[i as int] == n);
                    }
                }
            }
            if found {
                kept.push(n);
            }
            proof {
                if found {
                    let j = choose|j: int| 0 <= j < rows@.len() && #[trigger] rows@[j].node_id == n;
                    assert(rows@[j].node_id < self.files.tree.nodes@.len());
                    assert forall|j2: int| 0 <= j2 < kept@.len() implies #[trigger] kept@[j2] < self.files.tree.nodes@.len() by {
                        if j2 < prev.len() {
                            assert(kept@[j2] == prev[j2]);
                        }
                    }
                }
                assert forall|m: usize| kept@.contains(m) <==> old_focus.take(i + 1).contains(m) && rows_have(rows@, m) by {
                    if found {
                        assert(kept@ == prev.push(n));
                        if m == n {
                            assert(kept@[prev.len() as int] == n);
                            assert(old_focus.take(i + 1)[i as int] == n);
                        } else {
                            if kept@.contains(m) {
                                let a = choose|a: int| 0 <= a < kept@.len() && #[trigger] kept@[a] == m;
                                assert(prev[a] == m);
                            }
                            if prev.contains(m) {
                                let a = choose|a: int| 0 <= a < prev.len() && #[trigger] prev[a] == m;
                                assert(kept@[a] == m);
                            }
                            if old_focus.take(i + 1).contains(m) {
                                let a = choose|a: int| 0 <= a < i + 1 && #[trigger] old_focus.take(i + 1)[a] == m;
                                assert(old_focus.take(i as int)[a] == m);
                            }
                            if old_focus.take(i as int).contains(m) {
                                let a = choose|a: int| 0 <= a < i && #[trigger] old_focus.take(i as int)[a] == m;
                                assert(old_focus.take(i + 1)[a] == m);
                            }
                        }
                    } else {
                        if old_focus.take(i + 1).contains(m) {
                            let a = choose|a: int| 0 <= a < i + 1 && #[trigger] old_focus.take(i + 1)[a] == m;
                            if a < i {
                                assert(old_focus.take(i as int)[a] == m);
                            }
                        }
                        if old_focus.take(i as int).contains(m) {
                            let a = choose|a: int| 0 <= a < i && #[trigger] old_focus.take(i as int)[a] == m;
                            assert(old_focus.take(i + 1)[a] == m);
                        }
                    }
                }
                assert forall|a: int| 0 <= a < kept@.len() implies exists|b: int| 0 <= b < i + 1 && #[trigger] kept@[a]
                    == old_focus[b] by {
                    if a == kept@.len() - 1 && found {
                        assert(kept@[a] == old_focus[i as int]);
                    } else {
                        assert(kept@[a] == prev[a]);
                    }
                }
            }
            i += 1;
        }
        assert(old_focus.take(i as int) == old_focus);
        self.files.scope_files_focus_nodes = kept;
        proof {
            lemma_scope_rows_frame(*old(self), *self);
        }
        if len == 0 {
            self.files.tree.cursor = 0;
            self.files.tree.scroll = 0;
            self.files.scope_files_scrollbar = None;
            proof {
                lemma_scope_rows_frame(*old(self), *self);
            }
            return;
        }
        if self.files.tree.cursor > len - 1 {
            self.files.tree.cursor = len - 1;
        }
        if self.files.tree.scroll > self.files.tree.cursor {
            self.files.tree.scroll = self.files.tree.cursor;
        }
        proof {
            lemma_scope_rows_frame(*old(self), *self);
        }
    }

    fn subtree_selection_state(&self, node_id: usize) -> (r: (bool, bool))
        requires
            self.files.tree.wf(),
            node_id < self.files.tree.nodes@.len(),
        ensures
            r == subtree_state(self.files.tree.nodes@, node_id as int),
        decreases self.files.tree.nodes@.len() - node_id,
    {
        let node = &self.files.tree.nodes[node_id];
        if !node.is_dir || !node.children_loaded {
            return (true, node.selected);
        }
        let mut has = false;
        let mut all = true;
        let mut k: usize = 0;
        while k < node.children.len()
            invariant
                self.files.tree.wf(),
                node_id < self.files.tree.nodes@.len(),
                *node == self.files.tree.nodes@[node_id as int],
                k <= node.children@.len(),
                children_state(self.files.tree.nodes@, node_id as int, 0) == (
                    has || children_state(self.files.tree.nodes@, node_id as int, k as int).0,
                    all && children_state(self.files.tree.nodes@, node_id as int, k as int).1,
                ),
            decreases node.children@.len() - k,
        {
            let c = node.children[k];
            assert(node_id < c < self.files.tree.nodes@.len());
            let (ch, ca) = self.subtree_selection_state(c);
            if ch {
                has = true;
                all = all && ca;
            }
            k += 1;
        }
        (has, all)
    }

    /// Whether the Files list shows a node as selected, as `shown_selected` describes.
    pub fn node_selected_for_display(&self, node_id: usize) -> (r: bool)
        requires
            self.files.tree.wf(),
            node_id < self.files.tree.nodes@.len(),
        ensures
            r == shown_selected(self.files.tree.nodes@, node_id as int),
    {
        let node = &self.files.tree.nodes[node_id];
        if !node.is_dir {
            return node.selected;
        }
        let (has, all) = self.subtree_selection_state(node_id);
        if has {
            all
        } else {
            node.selected
        }
    }

    /// Forgets the scrollbar.
    pub fn clear_scope_files_scrollbar(&mut self)
        ensures
            *final(self) == (AppState {
                files: FilesState { scope_files_scrollbar: None, ..old(self).files },
                ..*old(self)
            }),
    {
        self.files.scope_files_scrollbar = None;
    }

    /// Records the scrollbar drawn for the Files list, as `scrollbar_for` describes, pulling
    /// the scroll position back to the largest one when it lies past it.
    pub fn set_scope_files_scrollbar_geometry(&mut self, track_area: Rect, content_len: usize, viewport_len: usize)
        requires
            rect_wf(track_area),
        ensures
            (final(self).files.scope_files_scrollbar, final(self).files.tree.scroll as int) == scrollbar_for(
                track_area,
                content_len as int,
                viewport_len as int,
                old(self).files.tree.scroll as int,
            ),
            *final(self) == (AppState { files: final(self).files, ..*old(self) }),
            final(self).files == (FilesState {
                scope_files_scrollbar: final(self).files.scope_files_scrollbar,
                tree: FileTree { scroll: final(self).files.tree.scroll, ..old(self).files.tree },
                ..old(self).files
            }),
    {
        let (g, s) = compute_scrollbar(track_area, content_len, viewport_len, self.files.tree.scroll);
        self.files.scope_files_scrollbar = g;
        self.files.tree.scroll = s;
    }

    /// Opens or closes the Files settings popup.
    pub fn toggle_files_settings_popup(&mut self)
        ensures
            *final(self) == (AppState {
                files: FilesState { files_settings_open: !old(self).files.files_settings_open, ..old(self).files },
                ..*old(self)
            }),
    {
        self.files.files_settings_open = !self.files.files_settings_open;
    }

    /// Forgets the nodes gathered by a row drag.
    pub fn clear_scope_file_focus_nodes(&mut self)
        ensures
            final(self).files.scope_files_focus_nodes@.len() == 0,
            *final(self) == (AppState {
                files: FilesState { scope_files_focus_nodes: final(self).files.scope_files_focus_nodes, ..old(self).files },
                ..*old(self)
            }),
    {
        self.files.scope_files_focus_nodes = Vec::new();
    }

    /// Gathers the node on a row of the Files list into the drag's focus group (once).
    pub fn add_scope_file_focus_node_at(&mut self, row_index: usize)
        requires
            old(self).files.tree.wf(),
        ensures
            row_index < scope_rows(*old(self)).len() ==> final(self).files.scope_files_focus_nodes@ == (if old(
                self,
            ).files.scope_files_focus_nodes@.contains(scope_rows(*old(self))[row_index as int].node_id) {
                old(self).files.scope_files_focus_nodes@
            } else {
                old(self).files.scope_files_focus_nodes@.push(scope_rows(*old(self))[row_index as int].node_id)
            }),
            row_index >= scope_rows(*old(self)).len() ==> *final(self) == *old(self),
            *final(self) == (AppState {
                files: FilesState { scope_files_focus_nodes: final(self).files.scope_files_focus_nodes, ..old(self).files },
                ..*old(self)
            }),
            forall|i: int|
                0 <= i < final(self).files.scope_files_focus_nodes@.len() ==> #[trigger] final(self).files.scope_files_focus_nodes@[i]
                    < final(self).files.tree.nodes@.len() || old(self).files.scope_files_focus_nodes@.contains(
                    final(self).files.scope_files_focus_nodes@[i],
                ),
    {
        if let Some(node_id) = self.scope_file_node_id_at(row_index) {
            let mut present = false;
            let mut k: usize = 0;
            while k < self.files.scope_files_focus_nodes.len()
                invariant
                    k <= self.files.scope_files_focus_nodes@.len(),
                    present <==> exists|j: int| 0 <= j < k && #[trigger] self.files.scope_files_focus_nodes@[j] == node_id,
                decreases self.files.scope_files_focus_nodes@.len() - k,
            {
                if self.files.scope_files_focus_nodes[k] == node_id {
                    present = true;
                }
                k += 1;
            }
            if !present {
                self.files.scope_files_focus_nodes.push(node_id);
            }
        }
    }
}

/// What the Files list says when it shows no row: that no category is selected, that none
/// of the files match the selected categories, the error of reading the tree, or that the
/// directory holds no file.
pub open spec fn files_empty_text(app: AppState) -> Seq<char> {
    if app.files.show_selected_categories_only && app.filters.selected_extensions@.len() == 0 {
        "No categories selected"@
    } else if app.files.show_selected_categories_only {
        "No files match currently selected categories"@
    } else {
        match app.files.scan_error {
            Some(e) => "Could not read directory tree: "@ + e@,
            None => "No files found in current directory"@,
        }
    }
}

impl AppState {
    /// Computes `files_empty_text`.
    pub fn scope_files_empty_message(&self) -> (r: String)
        ensures
            r@ == files_empty_text(*self),
    {
        if self.files.show_selected_categories_only && self.filters.selected_extensions.len() == 0 {
            str_to_string("No categories selected")
        } else if self.files.show_selected_categories_only {
            str_to_string("No files match currently selected categories")
        } else {
            match &self.files.scan_error {
                Some(e) => crate::logs::concat("Could not read directory tree: ", e.as_str()),
                None => str_to_string("No files found in current directory"),
            }
        }
    }
}

/// Whether every extension of category `idx` is selected (a category with no extension
/// counts as selected); `false` past the end of the list.
pub open spec fn category_active_spec(app: AppState, idx: int) -> bool {
    0 <= idx < app.filters.category_filters@.len() && forall|k: int|
        0 <= k < app.filters.category_filters@[idx].extensions@.len() ==> has_text(
            app.filters.selected_extensions@,
            (#[trigger] app.filters.category_filters@[idx].extensions@[k])@,
        )
}

impl AppState {
    /// Computes `category_active_spec`.
    pub fn category_active(&self, idx: usize) -> (r: bool)
        ensures
            r == category_active_spec(*self, idx as int),
    {
        if idx >= self.filters.category_filters.len() {
            return false;
        }
        let exts = &self.filters.category_filters[idx].extensions;
        let mut k: usize = 0;
        while k < exts.len()
            invariant
                idx < self.filters.category_filters@.len(),
                *exts == self.filters.category_filters@[idx as int].extensions,
                k <= exts@.len(),
                forall|j: int| 0 <= j < k ==> has_text(self.filters.selected_extensions@, (#[trigger] exts@[j])@),
            decreases exts@.len() - k,
        {
            if text_index(&self.filters.selected_extensions, exts[k].as_str()).is_none() {
                return false;
            }
            k += 1;
        }
        true
    }
}

} // verus!
