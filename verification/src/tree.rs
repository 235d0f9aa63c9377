//! The file tree: its shape, the rows it shows, and what it shows as selected.
use vstd::prelude::*;
use crate::model::{FileNode, FileTree, VisibleNode};
use crate::fs_scan::FsEntry;

verus! {

/// The tree is well formed: the root is a node, and every child index points at a later
/// node. Loading a directory appends its children after it, so this always holds of a
/// tree built by loading, and it makes every walk down the tree finite.
pub open spec fn tree_wf(nodes: Seq<FileNode>, root: int) -> bool {
    &&& 0 <= root < nodes.len()
    &&& forall|i: int, k: int|
        0 <= i < nodes.len() && 0 <= k < nodes[i].children@.len() ==> i < #[trigger] nodes[i].children@[k]
            < nodes.len()
}

impl FileTree {
    /// The tree is well formed.
    pub open spec fn wf(&self) -> bool {
        tree_wf(self.nodes@, self.root as int)
    }
}

/// Adds one to a depth, stopping at the largest value.
pub open spec fn depth_succ(d: u16) -> u16 {
    if d == u16::MAX {
        d
    } else {
        (d + 1) as u16
    }
}

/// The rows shown for node `id` at depth `depth`: the node itself unless it is the root,
/// then, when it is an expanded directory, the rows of each child one level deeper.
pub open spec fn rows_from(nodes: Seq<FileNode>, root: int, id: int, depth: u16) -> Seq<VisibleNode>
    decreases nodes.len() - id, 1int,
{
    let own: Seq<VisibleNode> = if id != root {
        seq![VisibleNode { node_id: id as usize, depth }]
    } else {
        seq![]
    };
    if 0 <= id < nodes.len() && nodes[id].is_dir && nodes[id].expanded {
        own + rows_of_children(nodes, root, id, 0, depth_succ(depth))
    } else {
        own
    }
}

/// The rows of the children of `id` from the `k`-th on, at depth `depth`.
pub open spec fn rows_of_children(nodes: Seq<FileNode>, root: int, id: int, k: int, depth: u16) -> Seq<VisibleNode>
    decreases nodes.len() - id, 0int, nodes[id].children@.len() - k,
{
    if 0 <= id < nodes.len() && 0 <= k < nodes[id].children@.len() {
        let c = nodes[id].children@[k] as int;
        let first = if id < c < nodes.len() {
            rows_from(nodes, root, c, depth)
        } else {
            seq![]
        };
        first + rows_of_children(nodes, root, id, k + 1, depth)
    } else {
        seq![]
    }
}

/// Two node lists of the same shape: the same nodes with the same paths, kinds, expansion
/// and children (marks such as the selection may differ).
pub open spec fn same_shape(a: Seq<FileNode>, b: Seq<FileNode>) -> bool {
    &&& a.len() == b.len()
    &&& forall|j: int|
        0 <= j < a.len() ==> {
            &&& (#[trigger] a[j]).path == b[j].path
            &&& a[j].is_dir == b[j].is_dir
            &&& a[j].expanded == b[j].expanded
            &&& a[j].children == b[j].children
        }
}

/// Node lists of the same shape show the same rows.
pub proof fn lemma_rows_same_shape(a: Seq<FileNode>, b: Seq<FileNode>, root: int, id: int, depth: u16)
    requires
        same_shape(a, b),
    ensures
        rows_from(a, root, id, depth) == rows_from(b, root, id, depth),
    decreases a.len() - id, 1int,
{
    if 0 <= id < a.len() && a[id].is_dir && a[id].expanded {
        lemma_children_same_shape(a, b, root, id, 0, depth_succ(depth));
    }
}

/// Node lists of the same shape show the same rows below a node.
pub proof fn lemma_children_same_shape(a: Seq<FileNode>, b: Seq<FileNode>, root: int, id: int, k: int, depth: u16)
    requires
        same_shape(a, b),
    ensures
        rows_of_children(a, root, id, k, depth) == rows_of_children(b, root, id, k, depth),
    decreases a.len() - id, 0int, a[id].children@.len() - k,
{
    if 0 <= id < a.len() && 0 <= k < a[id].children@.len() {
        let c = a[id].children@[k] as int;
        if id < c < a.len() {
            lemma_rows_same_shape(a, b, root, c, depth);
        }
        lemma_children_same_shape(a, b, root, id, k + 1, depth);
    }
}

/// The rows of the whole tree, as the Files list shows them.
pub open spec fn visible_rows(t: FileTree) -> Seq<VisibleNode> {
    rows_from(t.nodes@, t.root as int, t.root as int, 0)
}

impl FileTree {
    /// A tree holding only its root: the directory `root`, shown as `.`, expanded and not
    /// yet loaded.
    pub fn new(root: String) -> (t: FileTree)
        ensures
            t.wf(),
            t.nodes@.len() == 1,
            t.root == 0,
            t.cursor == 0,
            t.scroll == 0,
            t.nodes@[0].path == root,
            t.nodes@[0].name@ == "."@,
            t.nodes@[0].parent is None,
            t.nodes@[0].is_dir,
            t.nodes@[0].children@.len() == 0,
            !t.nodes@[0].children_loaded,
            t.nodes@[0].expanded,
            !t.nodes@[0].selected,
            !t.nodes@[0].unreadable,
    {
        let mut nodes: Vec<FileNode> = Vec::new();
        nodes.push(
            FileNode {
                parent: None,
                path: root,
                name: crate::text::str_to_string("."),
                is_dir: true,
                children: Vec::new(),
                children_loaded: false,
                expanded: true,
                selected: false,
                unreadable: false,
            },
        );
        FileTree { nodes, root: 0, cursor: 0, scroll: 0 }
    }

    /// The rows the tree shows, in order, as `visible_rows` describes.
    pub fn visible_nodes(&self) -> (out: Vec<VisibleNode>)
        requires
            self.wf(),
        ensures
            out@ == visible_rows(*self),
    {
        let mut out: Vec<VisibleNode> = Vec::new();
        self.collect_visible(self.root, 0, &mut out);
        assert(out@ =~= visible_rows(*self));
        out
    }

    fn collect_visible(&self, node_id: usize, depth: u16, out: &mut Vec<VisibleNode>)
        requires
            self.wf(),
            node_id < self.nodes@.len(),
        ensures
            final(out)@ == old(out)@ + rows_from(self.nodes@, self.root as int, node_id as int, depth),
        decreases self.nodes@.len() - node_id, 1int,
    {
        let ghost start = out@;
        if node_id != self.root {
            out.push(VisibleNode { node_id, depth });
        }
        let ghost own = out@.subrange(start.len() as int, out@.len() as int);
        assert(own =~= (if node_id as int != self.root as int {
            seq![VisibleNode { node_id, depth }]
        } else {
            Seq::<VisibleNode>::empty()
        }));
        assert(out@ =~= start + own);
        let node = &self.nodes[node_id];
        if !node.is_dir || !node.expanded {
            return;
        }
        let child_depth = if depth == u16::MAX { depth } else { depth + 1 };
        let mut k: usize = 0;
        while k < node.children.len()
            invariant
                self.wf(),
                node_id < self.nodes@.len(),
                node == self.nodes@[node_id as int],
                k <= node.children@.len(),
                child_depth == depth_succ(depth),
                out@ + rows_of_children(self.nodes@, self.root as int, node_id as int, k as int, child_depth)
                    == start + rows_from(self.nodes@, self.root as int, node_id as int, depth),
            decreases node.children@.len() - k,
        {
            let child = node.children[k];
            assert(node_id < child < self.nodes@.len());
            let ghost before = out@;
            self.collect_visible(child, child_depth, out);
            assert(out@ + rows_of_children(self.nodes@, self.root as int, node_id as int, k + 1, child_depth)
                =~= before + rows_of_children(self.nodes@, self.root as int, node_id as int, k as int, child_depth));
            k += 1;
        }
        assert(rows_of_children(self.nodes@, self.root as int, node_id as int, k as int, child_depth) =~= Seq::<VisibleNode>::empty());
        assert(out@ + Seq::<VisibleNode>::empty() =~= out@);
    }
}

/// Each child's path is longer than its directory's, as a listing's paths extend the
/// directory's path; it bounds every walk down the tree.
pub open spec fn paths_grow(t: FileTree) -> bool {
    forall|i: int, k: int|
        0 <= i < t.nodes@.len() && 0 <= k < t.nodes@[i].children@.len() ==> t.nodes@[i].path@.len()
            < t.nodes@[#[trigger] t.nodes@[i].children@[k] as int].path@.len()
}

/// The entries of a listing that become children: those whose path extends the
/// directory's (every entry of a real listing does).
pub open spec fn child_entries(entries: Seq<FsEntry>, dir_path_len: int) -> Seq<FsEntry> {
    entries.filter(|e: FsEntry| e.path@.len() > dir_path_len)
}

/// A node made from a listing entry under `parent`: closed, unselected, not yet loaded.
pub open spec fn fresh_node(n: FileNode, e: FsEntry, parent: usize) -> bool {
    &&& n.parent == Some(parent)
    &&& n.path == e.path
    &&& n.name == e.name
    &&& n.is_dir == e.is_dir
    &&& n.children@.len() == 0
    &&& !n.children_loaded
    &&& !n.expanded
    &&& !n.selected
    &&& !n.unreadable
}

/// `after` is `before` with the entries `ks` appended as the children of node `id`, which
/// is marked loaded.
pub open spec fn loaded_tree(before: FileTree, after: FileTree, id: int, ks: Seq<FsEntry>) -> bool {
    let b = before.nodes@;
    let a = after.nodes@;
    &&& after.root == before.root
    &&& after.cursor == before.cursor
    &&& after.scroll == before.scroll
    &&& a.len() == b.len() + ks.len()
    &&& forall|j: int| 0 <= j < b.len() && j != id ==> #[trigger] a[j] == b[j]
    &&& a[id].children@ == Seq::new(ks.len(), |k: int| (b.len() + k) as usize)
    &&& a[id].children_loaded
    &&& a[id].parent == b[id].parent
    &&& a[id].path == b[id].path
    &&& a[id].name == b[id].name
    &&& a[id].is_dir == b[id].is_dir
    &&& a[id].expanded == b[id].expanded
    &&& a[id].selected == b[id].selected
    &&& a[id].unreadable == b[id].unreadable
    &&& forall|k: int| 0 <= k < ks.len() ==> fresh_node(#[trigger] a[b.len() + k], ks[k], id as usize)
}

/// The tree holds the directory `dir` as its root, loaded with `ks` as its children: the
/// root is open and unselected, and each child is a closed, unselected, unloaded node made
/// from its entry, in order.
pub open spec fn root_loaded(t: FileTree, dir: Seq<char>, ks: Seq<FsEntry>) -> bool {
    let a = t.nodes@;
    &&& t.root == 0
    &&& a.len() == 1 + ks.len()
    &&& a[0].path@ == dir
    &&& a[0].parent is None
    &&& a[0].is_dir && a[0].expanded && a[0].children_loaded
    &&& !a[0].selected && !a[0].unreadable
    &&& a[0].children@ == Seq::new(ks.len(), |k: int| (1 + k) as usize)
    &&& forall|k: int| 0 <= k < ks.len() ==> fresh_node(#[trigger] a[1 + k], ks[k], 0)
}

impl FileTree {
    /// Appends the entries of a directory's listing (those whose path extends the
    /// directory's) as its children and marks it loaded.
    pub fn load_children(&mut self, node_id: usize, entries: &Vec<FsEntry>)
        requires
            old(self).wf(),
            node_id < old(self).nodes@.len(),
            old(self).nodes@[node_id as int].children@.len() == 0,
        ensures
            final(self).wf(),
            paths_grow(*old(self)) ==> paths_grow(*final(self)),
            loaded_tree(*old(self), *final(self), node_id as int, child_entries(entries@, old(self).nodes@[node_id as int].path@.len() as int)),
    {
        let ghost before = *self;
        let plen = crate::text::char_count(self.nodes[node_id].path.as_str());
        let ghost pred = |e: FsEntry| e.path@.len() > plen;
        let mut ids: Vec<usize> = Vec::new();
        let mut i: usize = 0;
        while i < entries.len()
            invariant
                i <= entries@.len(),
                before.wf(),
                node_id < before.nodes@.len(),
                before.nodes@[node_id as int].children@.len() == 0,
                plen == before.nodes@[node_id as int].path@.len(),
                pred == (|e: FsEntry| e.path@.len() > plen),
                self.root == before.root && self.cursor == before.cursor && self.scroll == before.scroll,
                self.nodes@.len() == before.nodes@.len() + entries@.take(i as int).filter(pred).len(),
                entries@.take(i as int).filter(pred).len() <= i,
                forall|j: int| 0 <= j < before.nodes@.len() ==> #[trigger] self.nodes@[j] == before.nodes@[j],
                ids@ == Seq::new(entries@.take(i as int).filter(pred).len(), |k: int| (before.nodes@.len() + k) as usize),
                forall|k: int|
                    0 <= k < entries@.take(i as int).filter(pred).len() ==> fresh_node(
                        #[trigger] self.nodes@[before.nodes@.len() + k],
                        entries@.take(i as int).filter(pred)[k],
                        node_id,
                    ),
            decreases entries@.len() - i,
        {
            let e = &entries[i];
            proof {
                reveal(Seq::filter);
                assert(entries@.take(i + 1).drop_last() == entries@.take(i as int));
                assert(entries@.take(i + 1).last() == *e);
            }
            if crate::text::char_count(e.path.as_str()) > plen {
                let child_id = self.nodes.len();
                self.nodes.push(
                    FileNode {
                        parent: Some(node_id),
                        path: e.path.clone(),
                        name: e.name.clone(),
                        is_dir: e.is_dir,
                        children: Vec::new(),
                        children_loaded: false,
                        expanded: false,
                        selected: false,
                        unreadable: false,
                    },
                );
                ids.push(child_id);
                assert(ids@ =~= Seq::new(entries@.take(i + 1).filter(pred).len(), |k: int| (before.nodes@.len() + k) as usize));
            }
            i += 1;
        }
        assert(entries@.take(i as int) == entries@);
        self.nodes[node_id].children = ids;
        self.nodes[node_id].children_loaded = true;
        proof {
            let a = self.nodes@;
            assert(self.nodes.len() == a.len());
            assert(a.len() <= usize::MAX);
            assert forall|k: int| 0 <= k < ids@.len() implies ids@[k] == before.nodes@.len() + k by {
                assert(before.nodes@.len() + k < a.len());
            }
            assert forall|p: int, k: int|
                0 <= p < a.len() && 0 <= k < a[p].children@.len() implies p < #[trigger] a[p].children@[k] < a.len() by {
                if p < before.nodes@.len() && p != node_id {
                    assert(a[p] == before.nodes@[p]);
                } else if p == node_id {
                    assert(a[p].children@ == ids@);
                    assert(ids@[k] == before.nodes@.len() + k);
                } else {
                    let q = p - before.nodes@.len();
                    assert(fresh_node(a[before.nodes@.len() + q], entries@.filter(pred)[q], node_id));
                }
            }
            if paths_grow(before) {
                assert forall|p: int, k: int|
                    0 <= p < a.len() && 0 <= k < a[p].children@.len() implies a[p].path@.len() < a[#[trigger] a[p].children@[k] as int].path@.len() by {
                    if p < before.nodes@.len() && p != node_id {
                        assert(a[p] == before.nodes@[p]);
                        let c = before.nodes@[p].children@[k] as int;
                        assert(a[c] == before.nodes@[c] || c == node_id);
                    } else if p == node_id {
                        assert(a[p].children@ == ids@);
                        let q = k;
                        assert(ids@[k] == before.nodes@.len() + k);
                        entries@.lemma_filter_pred(pred, q);
                        assert(fresh_node(a[before.nodes@.len() + q], entries@.filter(pred)[q], node_id));
                    } else {
                        let q = p - before.nodes@.len();
                        assert(fresh_node(a[before.nodes@.len() + q], entries@.filter(pred)[q], node_id));
                    }
                }
            }
        }
    }
}

} // verus!
