//! Choosing what is in scope: selecting files, toggling categories and constraints, and
//! saving, loading and applying presets. Every change of scope rebuilds the rename rows.
use vstd::prelude::*;
use crate::io::IoRequest;
use crate::logs::concat;
use crate::model::{
    PresetState, ScopeTab, SizeConstraint, StyleOptions, TimeConstraint, ToastLevel, string_views,
    SIZE_CONSTRAINT_COUNT, TIME_CONSTRAINT_COUNT, size_constraint_at, time_constraint_at,
};
use crate::scope::{has_text, scope_rows, shown_selected, text_index};
use crate::state::{AppState, FilterState, UiState};
use crate::strs::{split_on, split_once, split_on_str, split_once_str, trim, trim_str, trim_start_char, trim_start_char_str};
use crate::model::{CategoryFilter, InputMode};
use crate::text::{str_to_string, u64_to_decimal, spec_decimal, spec_lowercase, str_to_lowercase};
use crate::textset::{distinct_texts, set_insert, set_remove};
use crate::tree::{lemma_rows_same_shape, same_shape};
use crate::tree_ops::missing_dir;
use crate::fs_scan::{lists_dir, missing_listing};
use crate::naming_ops::{root_needs, root_walk, scan_needs, scan_walk};

verus! {

/// A copy of a list of strings.
pub fn copy_strings(v: &Vec<String>) -> (r: Vec<String>)
    ensures
        r@ == v@,
{
    let mut out: Vec<String> = Vec::new();
    let mut i: usize = 0;
    while i < v.len()
        invariant
            i <= v@.len(),
            out@ == v@.take(i as int),
        decreases v@.len() - i,
    {
        out.push(v[i].clone());
        assert(v@.take(i + 1) == v@.take(i as int).push(v@[i as int]));
        i += 1;
    }
    assert(v@.take(i as int) == v@);
    out
}

/// A request for outside work that an operation stopped on: a directory listing the
/// record lacks.
pub open spec fn needs_listing(app: AppState, q: IoRequest) -> bool {
    missing_dir(app, q) || missing_listing(app.io_log, app.files.show_hidden, q)
}

/// Whether acting on the item under the cursor of the shown scope tab changes the scope
/// and so rebuilds the rename rows: a category or marketplace row under the cursor, or the
/// Constraint tab.
pub open spec fn filter_rebuilds(app: AppState) -> bool {
    ||| app.ui.scope_tab == ScopeTab::Select && app.filters.select_cursor < app.filters.category_filters@.len()
    ||| app.ui.scope_tab == ScopeTab::Constraint
    ||| app.ui.scope_tab == ScopeTab::Marketplace && app.filters.marketplace_cursor < app.filters.marketplace_presets@.len()
}

/// The file nodes shown in the Files list, in row order.
pub open spec fn visible_file_ids(app: AppState) -> Seq<usize> {
    scope_rows(app).map_values(|r: crate::model::VisibleNode| r.node_id).filter(
        |id: usize| !app.files.tree.nodes@[id as int].is_dir,
    )
}

/// Outside the nodes `ids`, `f` keeps the selection of `o`: every other node keeps its
/// mark, and every path that is not the path of one of them stays chosen or not.
pub open spec fn selection_kept_outside(o: AppState, f: AppState, ids: Seq<usize>) -> bool {
    &&& f.files.tree.nodes@.len() == o.files.tree.nodes@.len()
    &&& forall|j: int|
        0 <= j < o.files.tree.nodes@.len() && !ids.contains(j as usize) ==> (#[trigger] f.files.tree.nodes@[j]).selected
            == o.files.tree.nodes@[j].selected
    &&& forall|x: Seq<char>|
        (forall|m: int| 0 <= m < ids.len() ==> o.files.tree.nodes@[#[trigger] ids[m] as int].path@ != x) ==> (has_text(
            f.files.selected_by_tree@,
            x,
        ) == has_text(o.files.selected_by_tree@, x))
}

/// Filtering by two tests that agree on every element gives the same result.
pub proof fn lemma_filter_agree(s: Seq<usize>, p: spec_fn(usize) -> bool, q: spec_fn(usize) -> bool)
    requires
        forall|i: int| 0 <= i < s.len() ==> p(#[trigger] s[i]) == q(s[i]),
    ensures
        s.filter(p) == s.filter(q),
    decreases s.len(),
{
    reveal(Seq::filter);
    if s.len() > 0 {
        lemma_filter_agree(s.drop_last(), p, q);
        assert(p(s.last()) == q(s.last()));
    }
}

/// With the tree's shape kept and every file shown, the same files are shown.
pub proof fn lemma_same_files_shown(a: AppState, b: AppState)
    requires
        a.files.tree.wf(),
        same_shape(a.files.tree.nodes@, b.files.tree.nodes@),
        a.files.tree.root == b.files.tree.root,
        !a.files.show_selected_categories_only,
        !b.files.show_selected_categories_only,
    ensures
        visible_file_ids(a) == visible_file_ids(b),
{
    lemma_rows_same_shape(a.files.tree.nodes@, b.files.tree.nodes@, a.files.tree.root as int, a.files.tree.root as int, 0);
    crate::scope::lemma_visible_rows_in_tree(a.files.tree);
    let ids = scope_rows(a).map_values(|r: crate::model::VisibleNode| r.node_id);
    assert(ids == scope_rows(b).map_values(|r: crate::model::VisibleNode| r.node_id));
    let p = |id: usize| !a.files.tree.nodes@[id as int].is_dir;
    let q = |id: usize| !b.files.tree.nodes@[id as int].is_dir;
    assert forall|i: int| 0 <= i < ids.len() implies p(#[trigger] ids[i]) == q(ids[i]) by {
        assert(ids[i] == scope_rows(a)[i].node_id);
    }
    lemma_filter_agree(ids, p, q);
}

/// Whether every shown file is selected.
pub open spec fn all_visible_selected(app: AppState) -> bool {
    forall|k: int| 0 <= k < visible_file_ids(app).len() ==> app.files.tree.nodes@[#[trigger] visible_file_ids(app)[k] as int].selected
}

/// The message of a selection count.
pub open spec fn count_message(verb: Seq<char>, n: int) -> Seq<char> {
    verb + " "@ + spec_decimal(n as u64) + " visible file(s)"@
}

/// What a preset slot holds after saving the current scope and style into it.
pub open spec fn preset_of(app: AppState, p: PresetState) -> bool {
    &&& string_views(p.selected_extensions@) == string_views(app.filters.selected_extensions@)
    &&& p.time_constraint == app.filters.time_constraint
    &&& p.size_constraint == app.filters.size_constraint
    &&& p.style == app.naming.style
    &&& p.show_hidden == app.files.show_hidden
}

/// Saving into slot `slot` (one to nine) recorded the scope and style of `before` there.
pub open spec fn preset_saved(before: AppState, after: AppState, slot: u8) -> bool {
    1 <= slot <= 9 ==> (after.filters.presets@[slot - 1] matches Some(p) && preset_of(before, p))
}

/// Loading slot `slot` put its preset's scope and style into `after`.
pub open spec fn preset_loaded(before: AppState, after: AppState, slot: u8) -> bool {
    1 <= slot <= 9 && before.filters.presets@[slot - 1] is Some ==> {
        let p = before.filters.presets@[slot - 1]->0;
        &&& string_views(after.filters.selected_extensions@) == string_views(p.selected_extensions@)
        &&& after.filters.time_constraint == p.time_constraint
        &&& after.filters.size_constraint == p.size_constraint
        &&& after.naming.style == p.style
        &&& after.files.show_hidden == p.show_hidden
    }
}

/// Loading a slot right after saving into it (whatever changed in between, as long as the
/// slots were left alone) gives back the saved extensions, constraints, style and hidden
/// setting.
pub proof fn lemma_preset_roundtrip(a: AppState, b: AppState, c: AppState, d: AppState, slot: u8)
    requires
        1 <= slot <= 9,
        preset_saved(a, b, slot),
        c.filters.presets@[slot - 1] == b.filters.presets@[slot - 1],
        preset_loaded(c, d, slot),
    ensures
        string_views(d.filters.selected_extensions@) == string_views(a.filters.selected_extensions@),
        d.filters.time_constraint == a.filters.time_constraint,
        d.filters.size_constraint == a.filters.size_constraint,
        d.naming.style == a.naming.style,
        d.files.show_hidden == a.files.show_hidden,
{
}

impl AppState {
    /// Selects every file shown in the Files list, or deselects them all when all are
    /// selected already, keeping the chosen files in step; says how many in a toast (or
    /// warns when none is shown); then rebuilds the rename rows.
    pub fn select_all_visible_files(&mut self) -> (r: Result<(), IoRequest>)
        requires
            old(self).wf(),
        ensures
            r is Ok ==> final(self).wf(),
            r is Ok <==> scan_walk(*old(self)) is Some,
            r matches Err(q) ==> lists_dir(q, scan_needs(*old(self)), old(self).files.show_hidden),
            r matches Err(q) ==> needs_listing(*old(self), q),
            r is Ok ==> selection_kept_outside(*old(self), *final(self), visible_file_ids(*old(self))),
            r is Ok ==> same_shape(old(self).files.tree.nodes@, final(self).files.tree.nodes@)
                && final(self).files.tree.root == old(self).files.tree.root && final(self).filters == old(self).filters
                && final(self).files.show_selected_categories_only == old(self).files.show_selected_categories_only,
            r is Ok && !old(self).files.show_selected_categories_only ==> visible_file_ids(*final(self)) == visible_file_ids(*old(self)),
            r is Ok ==> forall|k: int|
                0 <= k < visible_file_ids(*old(self)).len() ==> {
                    let id = #[trigger] visible_file_ids(*old(self))[k] as int;
                    &&& final(self).files.tree.nodes@[id].selected == !all_visible_selected(*old(self))
                    &&& has_text(final(self).files.selected_by_tree@, old(self).files.tree.nodes@[id].path@)
                        == !all_visible_selected(*old(self))
                },
            r is Ok && visible_file_ids(*old(self)).len() == 0 ==> final(self).log.toasts@.last().level == ToastLevel::Warning
                && final(self).log.toasts@.last().message@ == "No visible files to select"@,
            r is Ok && visible_file_ids(*old(self)).len() > 0 ==> final(self).log.toasts@.last().level == ToastLevel::Success
                && final(self).log.toasts@.last().message@ == count_message(
                if all_visible_selected(*old(self)) {
                    "Deselected"@
                } else {
                    "Selected"@
                },
                visible_file_ids(*old(self)).len() as int,
            ),
    {
        let rows = self.scope_files_rows();
        let ghost pred = |id: usize| !self.files.tree.nodes@[id as int].is_dir;
        let ghost ids_all = rows@.map_values(|r: crate::model::VisibleNode| r.node_id);
        let mut ids: Vec<usize> = Vec::new();
        let mut i: usize = 0;
        while i < rows.len()
            invariant
                i <= rows@.len(),
                rows@ == scope_rows(*old(self)),
                *self == *old(self),
                ids_all == rows@.map_values(|r: crate::model::VisibleNode| r.node_id),
                pred == (|id: usize| !self.files.tree.nodes@[id as int].is_dir),
                ids@ == ids_all.take(i as int).filter(pred),
                forall|k: int| 0 <= k < rows@.len() ==> (#[trigger] rows@[k]).node_id < self.files.tree.nodes@.len(),
                forall|j: int| 0 <= j < ids@.len() ==> #[trigger] ids@[j] < self.files.tree.nodes@.len(),
            decreases rows@.len() - i,
        {
            let id = rows[i].node_id;
            proof {
                reveal(Seq::filter);
                assert(ids_all.take(i + 1).drop_last() == ids_all.take(i as int));
                assert(ids_all.take(i + 1).last() == id);
            }
            if !self.files.tree.nodes[id].is_dir {
                ids.push(id);
            }
            i += 1;
        }
        assert(ids_all.take(i as int) == ids_all);
        assert(ids@ == visible_file_ids(*old(self)));
        if ids.len() == 0 {
            self.push_toast(ToastLevel::Warning, str_to_string("No visible files to select"));
            let r = self.sync_rename_rows();
            proof {
                if r is Ok && !old(self).files.show_selected_categories_only {
                    lemma_same_files_shown(*old(self), *self);
                }
            }
            return r;
        }
        let mut all = true;
        let mut k: usize = 0;
        while k < ids.len()
            invariant
                k <= ids@.len(),
                *self == *old(self),
                ids@ == visible_file_ids(*old(self)),
                forall|j: int| 0 <= j < ids@.len() ==> #[trigger] ids@[j] < self.files.tree.nodes@.len(),
                all == forall|j: int| 0 <= j < k ==> self.files.tree.nodes@[#[trigger] ids@[j] as int].selected,
            decreases ids@.len() - k,
        {
            if !self.files.tree.nodes[ids[k]].selected {
                all = false;
            }
            k += 1;
        }
        let mut k: usize = 0;
        while k < ids.len()
            invariant
                k <= ids@.len(),
                self.wf(),
                ids@ == visible_file_ids(*old(self)),
                all == all_visible_selected(*old(self)),
                self.files.tree.nodes@.len() == old(self).files.tree.nodes@.len(),
                forall|j: int| 0 <= j < ids@.len() ==> #[trigger] ids@[j] < self.files.tree.nodes@.len(),
                forall|j: int| 0 <= j < self.files.tree.nodes@.len() ==> #[trigger] self.files.tree.nodes@[j].path == old(self).files.tree.nodes@[j].path,
                selection_kept_outside(*old(self), *self, ids@.take(k as int)),
                same_shape(old(self).files.tree.nodes@, self.files.tree.nodes@),
                self.files.tree.root == old(self).files.tree.root,
                forall|j: int|
                    0 <= j < k ==> {
                        let id = #[trigger] ids@[j] as int;
                        &&& self.files.tree.nodes@[id].selected == !all
                        &&& has_text(self.files.selected_by_tree@, old(self).files.tree.nodes@[id].path@) == !all
                    },
                *self == (AppState {
                    files: crate::state::FilesState {
                        tree: self.files.tree,
                        selected_by_tree: self.files.selected_by_tree,
                        ..old(self).files
                    },
                    ..*old(self)
                }),
            decreases ids@.len() - k,
        {
            let ghost before = *self;
            self.mark_file_selected(ids[k], !all);
            proof {
                let t0 = ids@.take(k as int);
                let t1 = ids@.take(k + 1);
                assert(t1 == t0.push(ids@[k as int]));
                assert forall|j: int|
                    0 <= j < old(self).files.tree.nodes@.len() && !t1.contains(j as usize) implies (#[trigger] self.files.tree.nodes@[j]).selected
                        == old(self).files.tree.nodes@[j].selected by {
                    assert(j != ids@[k as int] as int) by {
                        assert(t1[k as int] == ids@[k as int]);
                    }
                    if t0.contains(j as usize) {
                        let a = choose|a: int| 0 <= a < t0.len() && t0[a] == j as usize;
                        assert(t1[a] == j as usize);
                    }
                    assert(before.files.tree.nodes@[j] == self.files.tree.nodes@[j]);
                }
                assert forall|x: Seq<char>|
                    (forall|m: int| 0 <= m < t1.len() ==> old(self).files.tree.nodes@[#[trigger] t1[m] as int].path@ != x) implies (has_text(
                        self.files.selected_by_tree@,
                        x,
                    ) == has_text(old(self).files.selected_by_tree@, x)) by {
                    assert forall|m: int| 0 <= m < t0.len() implies old(self).files.tree.nodes@[#[trigger] t0[m] as int].path@ != x by {
                        assert(t1[m] == t0[m]);
                    }
                    assert(t1[k as int] == ids@[k as int]);
                }
            }
            proof {
                assert forall|j: int| 0 <= j < k + 1 implies {
                    let id = #[trigger] ids@[j] as int;
                    &&& self.files.tree.nodes@[id].selected == !all
                    &&& has_text(self.files.selected_by_tree@, old(self).files.tree.nodes@[id].path@) == !all
                } by {
                    let id = ids@[j] as int;
                    if id != ids@[k as int] as int {
                        assert(self.files.tree.nodes@[id] == before.files.tree.nodes@[id]);
                    }
                }
            }
            k += 1;
        }
        assert(ids@.take(ids@.len() as int) == ids@);
        let count = u64_to_decimal(ids.len() as u64);
        let verb = if all {
            "Deselected "
        } else {
            "Selected "
        };
        let mut msg = concat(verb, count.as_str());
        crate::text::push_str(&mut msg, " visible file(s)");
        proof {
            reveal_strlit("Deselected ");
            reveal_strlit("Selected ");
            reveal_strlit("Deselected");
            reveal_strlit("Selected");
            reveal_strlit(" ");
        }
        assert(msg@ == count_message(if all { "Deselected"@ } else { "Selected"@ }, ids@.len() as int));
        self.push_toast(ToastLevel::Success, msg);
        let ghost pre = *self;
        let r = self.sync_rename_rows();
        proof {
            if r is Ok && !old(self).files.show_selected_categories_only {
                lemma_same_files_shown(*old(self), *self);
            }
        }
        r
    }

    /// Flips the selection in the Files list: the nodes gathered by a row drag all take the
    /// opposite of "all of them shown selected", otherwise the node under the cursor takes
    /// the opposite of how it is shown. A failed directory listing is reported in a toast
    /// (and ends the gathered run). Then the rename rows are rebuilt.
    pub fn toggle_scope_file_selection(&mut self) -> (r: Result<(), IoRequest>)
        requires
            old(self).wf(),
        ensures
            r is Ok ==> final(self).wf(),
            r matches Err(q) ==> needs_listing(*old(self), q),
            r matches Err(q) ==> (q matches IoRequest::ListDir { .. }),
            old(self).files.scope_files_focus_nodes@.len() == 0 && scope_rows(*old(self)).len() == 0 ==> r is Ok && *final(self)
                == *old(self),
            old(self).files.scope_files_focus_nodes@.len() == 0 && scope_rows(*old(self)).len() > 0 && !old(self).files.tree.nodes@[
                scope_rows(*old(self))[crate::scrollbar::min_int(
                    old(self).files.tree.cursor as int,
                    scope_rows(*old(self)).len() - 1,
                )].node_id as int].is_dir ==> (r is Ok <==> scan_walk(*old(self)) is Some) && (r matches Err(q) ==> lists_dir(
                q,
                scan_needs(*old(self)),
                old(self).files.show_hidden,
            )),
            r is Ok && old(self).files.scope_files_focus_nodes@.len() == 0 && scope_rows(*old(self)).len() > 0 ==> {
                let id = scope_rows(*old(self))[crate::scrollbar::min_int(
                    old(self).files.tree.cursor as int,
                    scope_rows(*old(self)).len() - 1,
                )].node_id as int;
                !old(self).files.tree.nodes@[id].is_dir ==> final(self).files.tree.nodes@[id].selected == !shown_selected(
                    old(self).files.tree.nodes@,
                    id,
                )
            },
    {
        if self.files.scope_files_focus_nodes.len() > 0 {
            let nodes = self.files.scope_files_focus_nodes.clone();
            let mut all = true;
            let mut k: usize = 0;
            while k < nodes.len()
                invariant
                    k <= nodes@.len(),
                    self.wf(),
                    nodes@ == self.files.scope_files_focus_nodes@,
                decreases nodes@.len() - k,
            {
                if !self.node_selected_for_display(nodes[k]) {
                    all = false;
                }
                k += 1;
            }
            let mut k: usize = 0;
            while k < nodes.len()
                invariant
                    k <= nodes@.len(),
                    self.wf(),
                    old(self).files.scope_files_focus_nodes@.len() > 0,
                    self.io_log == old(self).io_log,
                    self.files.show_hidden == old(self).files.show_hidden,
                    forall|j: int| 0 <= j < nodes@.len() ==> #[trigger] nodes@[j] < self.files.tree.nodes@.len(),
                decreases nodes@.len() - k,
            {
                let n = nodes[k];
                if self.files.tree.nodes[n].is_dir && !self.files.tree.nodes[n].children_loaded && !self.has_listing(n) {
                    return Err(IoRequest::ListDir { path: self.files.tree.nodes[n].path.clone(), show_hidden: self.files.show_hidden });
                }
                let ghost before = *self;
                match self.set_node_selected(n, !all) {
                    Err(q) => return Err(q),
                    Ok(Err(e)) => {
                        let msg = concat("Selection update failed: ", e.as_str());
                        self.push_toast(ToastLevel::Error, msg);
                        break;
                    },
                    Ok(Ok(())) => {},
                }
                proof {
                    assert forall|j: int| 0 <= j < nodes@.len() implies #[trigger] nodes@[j] < self.files.tree.nodes@.len() by {
                        assert(nodes@[j] < before.files.tree.nodes@.len());
                    }
                }
                k += 1;
            }
            return self.sync_rename_rows();
        }
        let node_id = match self.current_scope_file_node_id() {
            Some(n) => n,
            None => return Ok(()),
        };
        let selected = !self.node_selected_for_display(node_id);
        if self.files.tree.nodes[node_id].is_dir && !self.files.tree.nodes[node_id].children_loaded && !self.has_listing(node_id) {
            return Err(IoRequest::ListDir { path: self.files.tree.nodes[node_id].path.clone(), show_hidden: self.files.show_hidden });
        }
        match self.set_node_selected(node_id, selected) {
            Err(q) => return Err(q),
            Ok(Err(e)) => {
                let msg = concat("Selection update failed: ", e.as_str());
                self.push_toast(ToastLevel::Error, msg);
            },
            Ok(Ok(())) => {},
        }
        self.sync_rename_rows()
    }

    /// Saves the selected extensions, constraints, style and hidden setting into slot
    /// `slot` (one to nine) and says so; other slots do nothing.
    pub fn save_preset(&mut self, slot: u8)
        requires
            old(self).wf(),
        ensures
            final(self).wf(),
            preset_saved(*old(self), *final(self), slot),
            !(1 <= slot <= 9) ==> *final(self) == *old(self),
            1 <= slot <= 9 ==> final(self).filters.presets@ == old(self).filters.presets@.update(
                slot - 1,
                final(self).filters.presets@[slot - 1],
            ) && final(self).log.toasts@.last().level == ToastLevel::Success
                && final(self).log.toasts@.last().message@ == "Saved preset to "@ + spec_decimal(slot as u64),
            *final(self) == (AppState {
                filters: FilterState { presets: final(self).filters.presets, ..old(self).filters },
                log: final(self).log,
                ..*old(self)
            }),
    {
        if slot < 1 || slot > 9 {
            return;
        }
        let p = PresetState {
            selected_extensions: copy_strings(&self.filters.selected_extensions),
            time_constraint: self.filters.time_constraint,
            size_constraint: self.filters.size_constraint,
            style: self.naming.style,
            show_hidden: self.files.show_hidden,
        };
        self.filters.presets.set((slot - 1) as usize, Some(p));
        let msg = concat("Saved preset to ", u64_to_decimal(slot as u64).as_str());
        self.push_toast(ToastLevel::Success, msg);
    }

    /// Loads slot `slot` (one to nine): its extensions, constraints and style; when its
    /// hidden setting differs, the tree is rebuilt under it. Then the rename rows are
    /// rebuilt and a toast says so. An empty slot is reported in a warning.
    pub fn load_preset(&mut self, slot: u8) -> (r: Result<(), IoRequest>)
        requires
            old(self).wf(),
        ensures
            r is Ok ==> final(self).wf(),
            r is Ok ==> preset_loaded(*old(self), *final(self), slot),
            1 <= slot <= 9 && old(self).filters.presets@[slot - 1] is Some ==> ({
                let h = old(self).filters.presets@[slot - 1]->0.show_hidden;
                &&& r is Ok <==> root_walk(old(self).io_log, h, old(self).cwd@) is Some
                &&& r matches Err(q) ==> lists_dir(q, root_needs(old(self).io_log, h, old(self).cwd@), h)
            }),
            r matches Err(q) ==> 1 <= slot <= 9 && old(self).filters.presets@[slot - 1] is Some,
            !(1 <= slot <= 9) ==> r is Ok && *final(self) == *old(self),
            1 <= slot <= 9 && old(self).filters.presets@[slot - 1] is None ==> r is Ok
                && final(self).log.toasts@.last().level == ToastLevel::Warning
                && final(self).log.toasts@.last().message@ == "Preset "@ + spec_decimal(slot as u64) + " is empty"@,
            r is Ok && 1 <= slot <= 9 && old(self).filters.presets@[slot - 1] is Some ==> final(self).log.toasts@.last().level
                == ToastLevel::Success && final(self).log.toasts@.last().message@ == "Loaded preset "@ + spec_decimal(
                slot as u64,
            ),
    {
        if slot < 1 || slot > 9 {
            return Ok(());
        }
        let idx = (slot - 1) as usize;
        let (exts, time, size, style, hidden) = match &self.filters.presets[idx] {
            None => {
                let mut msg = concat("Preset ", u64_to_decimal(slot as u64).as_str());
                crate::text::push_str(&mut msg, " is empty");
                self.push_toast(ToastLevel::Warning, msg);
                return Ok(());
            },
            Some(p) => (copy_strings(&p.selected_extensions), p.time_constraint, p.size_constraint, p.style, p.show_hidden),
        };
        self.filters.selected_extensions = exts;
        self.filters.time_constraint = time;
        self.filters.size_constraint = size;
        self.naming.style = style;
        if self.files.show_hidden != hidden {
            self.files.show_hidden = hidden;
            match self.reload_tree() {
                Err(q) => return Err(q),
                Ok(()) => {},
            }
        }
        match self.sync_rename_rows() {
            Err(q) => return Err(q),
            Ok(()) => {},
        }
        let msg = concat("Loaded preset ", u64_to_decimal(slot as u64).as_str());
        self.push_toast(ToastLevel::Success, msg);
        Ok(())
    }

    /// Applies marketplace preset `idx`: its extensions (once each) and time constraint,
    /// switching to the Category tab; then rebuilds the rename rows and says so. An index
    /// past the end does nothing.
    pub fn apply_marketplace(&mut self, idx: usize) -> (r: Result<(), IoRequest>)
        requires
            old(self).wf(),
        ensures
            r is Ok ==> final(self).wf(),
            r matches Err(q) ==> needs_listing(*old(self), q),
            r matches Err(q) ==> lists_dir(q, scan_needs(*old(self)), old(self).files.show_hidden),
            idx < old(self).filters.marketplace_presets@.len() ==> (r is Ok <==> scan_walk(*old(self)) is Some),
            idx >= old(self).filters.marketplace_presets@.len() ==> r is Ok && *final(self) == *old(self),
            r is Ok ==> final(self).filters == (FilterState {
                selected_extensions: final(self).filters.selected_extensions,
                time_constraint: final(self).filters.time_constraint,
                ..old(self).filters
            }),
            r is Ok && idx < old(self).filters.marketplace_presets@.len() ==> {
                let p = old(self).filters.marketplace_presets@[idx as int];
                &&& forall|x: Seq<char>| has_text(final(self).filters.selected_extensions@, x) <==> has_text(p.extensions@, x)
                &&& final(self).filters.time_constraint == p.time_constraint
                &&& final(self).ui.scope_tab == ScopeTab::Select
                &&& final(self).log.toasts@.last().level == ToastLevel::Success
                &&& final(self).log.toasts@.last().message@ == "Applied marketplace preset: "@ + p.name@
            },
    {
        if idx >= self.filters.marketplace_presets.len() {
            return Ok(());
        }
        let mut set: Vec<String> = Vec::new();
        let n = self.filters.marketplace_presets[idx].extensions.len();
        let mut k: usize = 0;
        while k < n
            invariant
                k <= n,
                idx < self.filters.marketplace_presets@.len(),
                n == self.filters.marketplace_presets@[idx as int].extensions@.len(),
                *self == *old(self),
                distinct_texts(set@),
                forall|x: Seq<char>| has_text(set@, x) <==> has_text(self.filters.marketplace_presets@[idx as int].extensions@.take(k as int), x),
            decreases n - k,
        {
            let ghost exts = self.filters.marketplace_presets@[idx as int].extensions@;
            set_insert(&mut set, self.filters.marketplace_presets[idx].extensions[k].as_str());
            proof {
                assert forall|x: Seq<char>| has_text(set@, x) <==> has_text(exts.take(k + 1), x) by {
                    if x == exts[k as int]@ {
                        assert(exts.take(k + 1)[k as int]@ == x);
                    }
                    if has_text(exts.take(k as int), x) {
                        let j = choose|j: int| 0 <= j < exts.take(k as int).len() && #[trigger] exts.take(k as int)[j]@ == x;
                        assert(exts.take(k + 1)[j]@ == x);
                    }
                    if has_text(exts.take(k + 1), x) {
                        let j = choose|j: int| 0 <= j < exts.take(k + 1).len() && #[trigger] exts.take(k + 1)[j]@ == x;
                        if j < k {
                            assert(exts.take(k as int)[j]@ == x);
                        }
                    }
                }
            }
            k += 1;
        }
        assert(self.filters.marketplace_presets@[idx as int].extensions@.take(n as int) == self.filters.marketplace_presets@[idx as int].extensions@);
        let name = self.filters.marketplace_presets[idx].name.clone();
        self.filters.selected_extensions = set;
        self.filters.time_constraint = self.filters.marketplace_presets[idx].time_constraint;
        self.set_scope_tab(ScopeTab::Select);
        match self.sync_rename_rows() {
            Err(q) => return Err(q),
            Ok(()) => {},
        }
        let msg = concat("Applied marketplace preset: ", name.as_str());
        self.push_toast(ToastLevel::Success, msg);
        Ok(())
    }

    /// Shows or hides hidden files: the tree is rebuilt under the new setting and the rename
    /// rows with it, and a toast says which.
    pub fn toggle_show_hidden(&mut self) -> (r: Result<(), IoRequest>)
        requires
            old(self).wf(),
        ensures
            r is Ok ==> final(self).wf(),
            r is Ok ==> final(self).files.show_hidden == !old(self).files.show_hidden,
            r is Ok <==> root_walk(old(self).io_log, !old(self).files.show_hidden, old(self).cwd@) is Some,
            r matches Err(q) ==> lists_dir(
                q,
                root_needs(old(self).io_log, !old(self).files.show_hidden, old(self).cwd@),
                !old(self).files.show_hidden,
            ),
            r is Ok ==> final(self).log.toasts@.last().level == ToastLevel::Info && final(self).log.toasts@.last().message@ == (
            if final(self).files.show_hidden {
                "Showing hidden files"@
            } else {
                "Hiding hidden files"@
            }),
    {
        self.files.show_hidden = !self.files.show_hidden;
        match self.reload_tree() {
            Err(q) => return Err(q),
            Ok(()) => {},
        }
        match self.sync_rename_rows() {
            Err(q) => return Err(q),
            Ok(()) => {},
        }
        let msg = if self.files.show_hidden {
            str_to_string("Showing hidden files")
        } else {
            str_to_string("Hiding hidden files")
        };
        self.push_toast(ToastLevel::Info, msg);
        Ok(())
    }

    /// Acts on the item under the cursor of the shown scope tab: a category is enabled
    /// (every extension selected) or, when fully enabled, disabled; a constraint row sets the
    /// time or size constraint; a marketplace row is applied. Categories and constraints then
    /// rebuild the rename rows.
    pub fn toggle_current_scope_filter(&mut self) -> (r: Result<(), IoRequest>)
        requires
            old(self).wf(),
        ensures
            r is Ok ==> final(self).wf(),
            r matches Err(q) ==> needs_listing(*old(self), q),
            r matches Err(q) ==> lists_dir(q, scan_needs(*old(self)), old(self).files.show_hidden),
            filter_rebuilds(*old(self)) ==> (r is Ok <==> scan_walk(*old(self)) is Some),
            !filter_rebuilds(*old(self)) ==> r is Ok && *final(self) == *old(self),
            r is Ok && old(self).ui.scope_tab != ScopeTab::Marketplace ==> final(self).ui.scope_tab == old(self).ui.scope_tab,
            r is Ok && old(self).ui.scope_tab == ScopeTab::Constraint ==> final(self).filters.time_constraint == (if old(self).filters.constraint_cursor
                < TIME_CONSTRAINT_COUNT {
                time_constraint_at(old(self).filters.constraint_cursor as int)
            } else {
                old(self).filters.time_constraint
            }) && final(self).filters.size_constraint == (if TIME_CONSTRAINT_COUNT <= old(self).filters.constraint_cursor
                < TIME_CONSTRAINT_COUNT + SIZE_CONSTRAINT_COUNT {
                size_constraint_at(old(self).filters.constraint_cursor - TIME_CONSTRAINT_COUNT)
            } else {
                old(self).filters.size_constraint
            }),
            r is Ok ==> final(self).filters.category_filters == old(self).filters.category_filters
                && final(self).filters.select_cursor == old(self).filters.select_cursor
                && final(self).filters.constraint_cursor == old(self).filters.constraint_cursor,
            r is Ok && old(self).ui.scope_tab == ScopeTab::Select && old(self).filters.select_cursor < old(self).filters.category_filters@.len()
                ==> {
                let cat = old(self).filters.category_filters@[old(self).filters.select_cursor as int];
                let all = forall|k: int| 0 <= k < cat.extensions@.len() ==> has_text(old(self).filters.selected_extensions@, (#[trigger] cat.extensions@[k])@);
                &&& forall|x: Seq<char>| has_text(final(self).filters.selected_extensions@, x) <==> if has_text(cat.extensions@, x) {
                    !all
                } else {
                    has_text(old(self).filters.selected_extensions@, x)
                }
                &&& final(self).log.toasts@.last().message@ == (if all { "Disabled "@ } else { "Enabled "@ }) + cat.name@
            },
            r is Ok && old(self).ui.scope_tab == ScopeTab::Constraint && old(self).filters.constraint_cursor < TIME_CONSTRAINT_COUNT
                ==> final(self).filters.time_constraint == time_constraint_at(old(self).filters.constraint_cursor as int),
            r is Ok && old(self).ui.scope_tab == ScopeTab::Constraint && TIME_CONSTRAINT_COUNT <= old(self).filters.constraint_cursor
                < TIME_CONSTRAINT_COUNT + SIZE_CONSTRAINT_COUNT ==> final(self).filters.size_constraint == size_constraint_at(
                old(self).filters.constraint_cursor - TIME_CONSTRAINT_COUNT,
            ),
            old(self).ui.scope_tab == ScopeTab::Files || old(self).ui.scope_tab == ScopeTab::Preset ==> r is Ok && *final(self)
                == *old(self),
    {
        match self.ui.scope_tab {
            ScopeTab::Select => {
                if self.filters.select_cursor >= self.filters.category_filters.len() {
                    return Ok(());
                }
                let c = self.filters.select_cursor;
                let n = self.filters.category_filters[c].extensions.len();
                let ghost cat = self.filters.category_filters@[c as int];
                let mut all = true;
                let mut k: usize = 0;
                while k < n
                    invariant
                        k <= n,
                        c < self.filters.category_filters@.len(),
                        cat == self.filters.category_filters@[c as int],
                        n == cat.extensions@.len(),
                        *self == *old(self),
                        all == forall|j: int| 0 <= j < k ==> has_text(self.filters.selected_extensions@, (#[trigger] cat.extensions@[j])@),
                    decreases n - k,
                {
                    if text_index(&self.filters.selected_extensions, self.filters.category_filters[c].extensions[k].as_str()).is_none() {
                        all = false;
                    }
                    k += 1;
                }
                let mut k: usize = 0;
                while k < n
                    invariant
                        k <= n,
                        c < self.filters.category_filters@.len(),
                        cat == self.filters.category_filters@[c as int],
                        n == cat.extensions@.len(),
                        self.filters.category_filters == old(self).filters.category_filters,
                        distinct_texts(self.filters.selected_extensions@),
                        forall|x: Seq<char>| has_text(self.filters.selected_extensions@, x) <==> if has_text(cat.extensions@.take(k as int), x) {
                            !all
                        } else {
                            has_text(old(self).filters.selected_extensions@, x)
                        },
                        *self == (AppState {
                            filters: FilterState { selected_extensions: self.filters.selected_extensions, ..old(self).filters },
                            ..*old(self)
                        }),
                    decreases n - k,
                {
                    let ghost before = self.filters.selected_extensions@;
                    if all {
                        set_remove(&mut self.filters.selected_extensions, self.filters.category_filters[c].extensions[k].as_str());
                    } else {
                        set_insert(&mut self.filters.selected_extensions, self.filters.category_filters[c].extensions[k].as_str());
                    }
                    proof {
                        let e = cat.extensions@;
                        assert forall|x: Seq<char>| has_text(e.take(k + 1), x) <==> has_text(e.take(k as int), x) || x == e[k as int]@ by {
                            if has_text(e.take(k + 1), x) {
                                let j = choose|j: int| 0 <= j < e.take(k + 1).len() && #[trigger] e.take(k + 1)[j]@ == x;
                                if j < k {
                                    assert(e.take(k as int)[j]@ == x);
                                }
                            }
                            if has_text(e.take(k as int), x) {
                                let j = choose|j: int| 0 <= j < e.take(k as int).len() && #[trigger] e.take(k as int)[j]@ == x;
                                assert(e.take(k + 1)[j]@ == x);
                            }
                            if x == e[k as int]@ {
                                assert(e.take(k + 1)[k as int]@ == x);
                            }
                        }
                    }
                    k += 1;
                }
                proof {
                    assert(cat.extensions@.take(n as int) == cat.extensions@);
                }
                let verb = if all {
                    "Disabled "
                } else {
                    "Enabled "
                };
                let msg = concat(verb, self.filters.category_filters[c].name.as_str());
                proof {
                    reveal_strlit("Disabled ");
                    reveal_strlit("Enabled ");
                }
                self.push_toast(ToastLevel::Info, msg);
                self.sync_rename_rows()
            },
            ScopeTab::Constraint => {
                let idx = self.filters.constraint_cursor;
                if idx < TIME_CONSTRAINT_COUNT {
                    self.filters.time_constraint = TimeConstraint::at(idx);
                    let msg = concat("Time constraint: ", self.filters.time_constraint.title());
                    self.push_toast(ToastLevel::Info, msg);
                } else {
                    let s_idx = idx - TIME_CONSTRAINT_COUNT;
                    if s_idx < SIZE_CONSTRAINT_COUNT {
                        self.filters.size_constraint = SizeConstraint::at(s_idx);
                        let msg = concat("Size constraint: ", self.filters.size_constraint.title());
                        self.push_toast(ToastLevel::Info, msg);
                    }
                }
                self.sync_rename_rows()
            },
            ScopeTab::Marketplace => {
                let m = self.filters.marketplace_cursor;
                self.apply_marketplace(m)
            },
            _ => Ok(()),
        }
    }
}


/// The texts of `s` that are not empty, in order.
pub open spec fn non_empty_texts(s: Seq<Seq<char>>) -> Seq<Seq<char>>
    decreases s.len(),
{
    if s.len() == 0 {
        Seq::empty()
    } else {
        let rest = non_empty_texts(s.drop_last());
        if s.last().len() > 0 {
            rest.push(s.last())
        } else {
            rest
        }
    }
}

/// An extension as typed in a custom category: trimmed, without leading dots, lowercased.
pub open spec fn typed_extension(token: Seq<char>) -> Seq<char> {
    spec_lowercase(trim_start_char(trim(token), '.'))
}

/// The extensions listed in `ext_part`: its comma-separated tokens as `typed_extension`
/// reads them, the empty ones dropped.
pub open spec fn category_extensions(ext_part: Seq<char>) -> Seq<Seq<char>> {
    non_empty_texts(split_on(ext_part, ',').map_values(|t: Seq<char>| typed_extension(t)))
}

/// The name and the extension list of a custom category typed as `raw` (already trimmed):
/// `name:exts` splits at the first colon, both sides trimmed; without a colon the whole
/// text is both.
pub open spec fn category_parts(raw: Seq<char>) -> (Seq<char>, Seq<char>) {
    match split_once(raw, ':') {
        Some((n, rest)) => (trim(n), trim(rest)),
        None => (raw, raw),
    }
}

/// The extensions of the tokens of `pieces`, as `category_extensions` reads them.
fn typed_extensions(pieces: &Vec<String>) -> (r: Vec<String>)
    ensures
        string_views(r@) == non_empty_texts(string_views(pieces@).map_values(|t: Seq<char>| typed_extension(t))),
{
    let ghost toks = string_views(pieces@).map_values(|t: Seq<char>| typed_extension(t));
    let mut out: Vec<String> = Vec::new();
    let mut i: usize = 0;
    while i < pieces.len()
        invariant
            i <= pieces@.len(),
            toks == string_views(pieces@).map_values(|t: Seq<char>| typed_extension(t)),
            string_views(out@) == non_empty_texts(toks.take(i as int)),
        decreases pieces@.len() - i,
    {
        let t = trim_str(pieces[i].as_str());
        let t = trim_start_char_str(t.as_str(), '.');
        let t = str_to_lowercase(t.as_str());
        assert(toks.take(i + 1).drop_last() == toks.take(i as int));
        assert(toks.take(i + 1).last() == t@);
        if !t.as_str().is_empty() {
            out.push(t);
        }
        proof {
            assert(string_views(out@) =~= non_empty_texts(toks.take(i + 1)));
        }
        i += 1;
    }
    assert(toks.take(i as int) == toks);
    out
}

impl AppState {
    /// Adds the custom category typed in the category input, `name:ext,ext` or a single
    /// extension that is also the name. Empty input, or one that lists no extension, is
    /// refused with a warning and changes nothing else. On success the category is
    /// appended and selected, the input is cleared and typing returns to normal.
    pub fn add_custom_category_from_input(&mut self)
        ensures
            ({
                let raw = trim(old(self).filters.new_category_input@);
                let (name, ext_part) = category_parts(raw);
                let exts = category_extensions(ext_part);
                &&& raw.len() == 0 ==> final(self).log.toasts@.last().level == ToastLevel::Warning
                    && final(self).log.toasts@.last().message@ == "Category input is empty"@
                    && final(self).filters == old(self).filters && final(self).ui == old(self).ui
                &&& raw.len() > 0 && exts.len() == 0 ==> final(self).log.toasts@.last().level == ToastLevel::Warning
                    && final(self).log.toasts@.last().message@ == "Add at least one extension, e.g. Research:pdf,md"@
                    && final(self).filters == old(self).filters && final(self).ui == old(self).ui
                &&& raw.len() > 0 && exts.len() > 0 ==> final(self).log.toasts@.last().level == ToastLevel::Success
                    && final(self).log.toasts@.last().message@ == "Custom category added"@
                    && final(self).filters.category_filters@.len() == old(self).filters.category_filters@.len() + 1
                    && final(self).filters.category_filters@.drop_last() == old(self).filters.category_filters@
                    && final(self).filters.category_filters@.last()@ == (name, exts)
                    && final(self).filters.select_cursor == old(self).filters.category_filters@.len()
                    && final(self).filters.new_category_input@.len() == 0
                    && final(self).ui.mode == InputMode::Normal
                    && final(self).filters == (FilterState {
                        category_filters: final(self).filters.category_filters,
                        select_cursor: final(self).filters.select_cursor,
                        new_category_input: final(self).filters.new_category_input,
                        ..old(self).filters
                    })
                    && final(self).ui == (UiState { mode: InputMode::Normal, ..old(self).ui })
            }),
            *final(self) == (AppState {
                filters: final(self).filters,
                ui: final(self).ui,
                log: final(self).log,
                ..*old(self)
            }),
    {
        let raw = trim_str(self.filters.new_category_input.as_str());
        if raw.as_str().is_empty() {
            self.push_toast(ToastLevel::Warning, str_to_string("Category input is empty"));
            return;
        }
        let (name, ext_part) = match split_once_str(raw.as_str(), ':') {
            Some((n, rest)) => (trim_str(n.as_str()), trim_str(rest.as_str())),
            None => (raw.clone(), raw.clone()),
        };
        let pieces = split_on_str(ext_part.as_str(), ',');
        let extensions = typed_extensions(&pieces);
        if extensions.len() == 0 {
            self.push_toast(ToastLevel::Warning, str_to_string("Add at least one extension, e.g. Research:pdf,md"));
            return;
        }
        self.filters.category_filters.push(CategoryFilter { name, extensions });
        self.filters.select_cursor = self.filters.category_filters.len() - 1;
        self.filters.new_category_input = String::new();
        self.ui.mode = InputMode::Normal;
        self.push_toast(ToastLevel::Success, str_to_string("Custom category added"));
    }
}

} // verus!
