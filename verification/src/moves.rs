//! Moving the cursor of the focused list one step, and scrolling the Files list with its
//! scrollbar.
use vstd::prelude::*;
use crate::ai_ops::{model_query, shown_models};
use crate::logs::sat_sub;
use crate::model::{
    AiSettingsField, FileTree, FocusPane, NamingTab, ScopeTab, Stage, SIZE_CONSTRAINT_COUNT, TIME_CONSTRAINT_COUNT,
};
use crate::scope::{lemma_scope_rows_frame, normalized_cursor, rows_have, scope_rows};
use crate::scrollbar::{min_int, scroll_for_top, scrollbar_for};
use crate::state::{AiState, AppState, ApplyState, FilesState, FilterState, NamingState};
use crate::model::AiSettingsState;

verus! {

/// `after` is `before` with the Files cursor set to `cursor` and then held inside the rows
/// shown: the gathered focus nodes no longer shown are dropped, and the scrollbar with
/// them when nothing is shown. The scroll starts from `scroll`.
pub open spec fn files_cursor_moved(before: AppState, after: AppState, cursor: int, scroll: int) -> bool {
    let rows = scope_rows(before);
    &&& (after.files.tree.cursor as int, after.files.tree.scroll as int) == normalized_cursor(rows.len() as int, cursor, scroll)
    &&& after.files.tree == (FileTree { cursor: after.files.tree.cursor, scroll: after.files.tree.scroll, ..before.files.tree })
    &&& forall|n: usize|
        #![trigger after.files.scope_files_focus_nodes@.contains(n)]
        #![trigger before.files.scope_files_focus_nodes@.contains(n)]
        after.files.scope_files_focus_nodes@.contains(n) <==> before.files.scope_files_focus_nodes@.contains(n) && rows_have(rows, n)
    &&& after.files.scope_files_scrollbar == (if rows.len() == 0 {
        None
    } else {
        before.files.scope_files_scrollbar
    })
    &&& after == (AppState {
        files: FilesState {
            tree: after.files.tree,
            scope_files_focus_nodes: after.files.scope_files_focus_nodes,
            scope_files_scrollbar: after.files.scope_files_scrollbar,
            ..before.files
        },
        ..before
    })
}

/// One step down a list of `n` entries from `c`, stopping at the last.
pub open spec fn step_down(c: int, n: int) -> int {
    if n == 0 {
        c
    } else {
        min_int(c + 1, n - 1)
    }
}

/// One step down in exec form.
fn step_down_exec(c: usize, n: usize) -> (r: usize)
    ensures
        r == step_down(c as int, n as int),
{
    if n == 0 {
        c
    } else if c < n - 1 {
        c + 1
    } else {
        n - 1
    }
}

/// `f` is `o` with the cursor of the focused list moved one step up, as `move_up` does.
pub open spec fn moved_up(o: AppState, f: AppState) -> bool {
    match o.ui.stage {
        Stage::Scope => match o.ui.scope_tab {
            ScopeTab::Files => files_cursor_moved(o, f, sat_sub(o.files.tree.cursor as int, 1), o.files.tree.scroll as int),
            ScopeTab::Select => f == (AppState {
                filters: FilterState { select_cursor: sat_sub(o.filters.select_cursor as int, 1) as usize, ..o.filters },
                ..o
            }),
            ScopeTab::Constraint => f == (AppState {
                filters: FilterState { constraint_cursor: sat_sub(o.filters.constraint_cursor as int, 1) as usize, ..o.filters },
                ..o
            }),
            ScopeTab::Preset => f == (AppState {
                filters: FilterState { preset_cursor: sat_sub(o.filters.preset_cursor as int, 1) as usize, ..o.filters },
                ..o
            }),
            ScopeTab::Marketplace => f == (AppState {
                filters: FilterState { marketplace_cursor: sat_sub(o.filters.marketplace_cursor as int, 1) as usize, ..o.filters },
                ..o
            }),
        },
        Stage::Naming => match o.ui.focus {
            FocusPane::NamingTable => f == (AppState {
                naming: NamingState { rename_cursor: sat_sub(o.naming.rename_cursor as int, 1) as usize, ..o.naming },
                ..o
            }),
            FocusPane::NamingRight => match o.ui.naming_tab {
                NamingTab::Suggestions => if o.ai.ai_settings.popup_open && o.ai.ai_settings.active_field
                    == AiSettingsField::ModelList {
                    f == (AppState {
                        ai: AiState {
                            ai_settings: AiSettingsState {
                                model_list_cursor: sat_sub(o.ai.ai_settings.model_list_cursor as int, 1) as usize,
                                ..o.ai.ai_settings
                            },
                            ..o.ai
                        },
                        ..o
                    })
                } else {
                    f == (AppState {
                        naming: NamingState { suggestion_cursor: sat_sub(o.naming.suggestion_cursor as int, 1) as usize, ..o.naming },
                        ..o
                    })
                },
                NamingTab::Style => f == (AppState {
                    naming: NamingState { style_cursor: sat_sub(o.naming.style_cursor as int, 1) as usize, ..o.naming },
                    ..o
                }),
            },
            _ => f == o,
        },
        Stage::Apply => match o.ui.focus {
            FocusPane::ApplyReview => f == (AppState {
                apply: ApplyState { apply_cursor: sat_sub(o.apply.apply_cursor as int, 1) as usize, ..o.apply },
                ..o
            }),
            FocusPane::ApplyHistory => f == (AppState {
                apply: ApplyState { history_cursor: sat_sub(o.apply.history_cursor as int, 1) as usize, ..o.apply },
                ..o
            }),
            _ => f == o,
        },
    }
}

/// `f` is `o` with the cursor of the focused list moved one step down, as `move_down` does.
pub open spec fn moved_down(o: AppState, f: AppState) -> bool {
    match o.ui.stage {
        Stage::Scope => match o.ui.scope_tab {
            ScopeTab::Files => if scope_rows(o).len() > 0 {
                files_cursor_moved(
                    o,
                    f,
                    step_down(o.files.tree.cursor as int, scope_rows(o).len() as int),
                    o.files.tree.scroll as int,
                )
            } else {
                f == o
            },
            ScopeTab::Select => f == (AppState {
                filters: FilterState {
                    select_cursor: step_down(o.filters.select_cursor as int, o.filters.category_filters@.len() as int) as usize,
                    ..o.filters
                },
                ..o
            }),
            ScopeTab::Constraint => f == (AppState {
                filters: FilterState {
                    constraint_cursor: step_down(
                        o.filters.constraint_cursor as int,
                        TIME_CONSTRAINT_COUNT + SIZE_CONSTRAINT_COUNT,
                    ) as usize,
                    ..o.filters
                },
                ..o
            }),
            ScopeTab::Preset => f == (AppState {
                filters: FilterState { preset_cursor: step_down(o.filters.preset_cursor as int, 9) as usize, ..o.filters },
                ..o
            }),
            ScopeTab::Marketplace => f == (AppState {
                filters: FilterState {
                    marketplace_cursor: step_down(
                        o.filters.marketplace_cursor as int,
                        o.filters.marketplace_presets@.len() as int,
                    ) as usize,
                    ..o.filters
                },
                ..o
            }),
        },
        Stage::Naming => match o.ui.focus {
            FocusPane::NamingTable => f == (AppState {
                naming: NamingState {
                    rename_cursor: step_down(o.naming.rename_cursor as int, o.naming.rename_rows@.len() as int) as usize,
                    ..o.naming
                },
                ..o
            }),
            FocusPane::NamingRight => match o.ui.naming_tab {
                NamingTab::Suggestions => if o.ai.ai_settings.popup_open && o.ai.ai_settings.active_field
                    == AiSettingsField::ModelList {
                    f == (AppState {
                        ai: AiState {
                            ai_settings: AiSettingsState {
                                model_list_cursor: step_down(
                                    o.ai.ai_settings.model_list_cursor as int,
                                    shown_models(o.ai.ai_settings.discovered_models@, model_query(o.ai.ai_settings)).len() as int,
                                ) as usize,
                                ..o.ai.ai_settings
                            },
                            ..o.ai
                        },
                        ..o
                    })
                } else {
                    f == (AppState {
                        naming: NamingState {
                            suggestion_cursor: step_down(o.naming.suggestion_cursor as int, o.naming.suggestions@.len() as int) as usize,
                            ..o.naming
                        },
                        ..o
                    })
                },
                NamingTab::Style => f == (AppState {
                    naming: NamingState { style_cursor: step_down(o.naming.style_cursor as int, 5) as usize, ..o.naming },
                    ..o
                }),
            },
            _ => f == o,
        },
        Stage::Apply => match o.ui.focus {
            FocusPane::ApplyReview => f == (AppState {
                apply: ApplyState {
                    apply_cursor: step_down(o.apply.apply_cursor as int, o.naming.rename_rows@.len() as int) as usize,
                    ..o.apply
                },
                ..o
            }),
            FocusPane::ApplyHistory => f == (AppState {
                apply: ApplyState {
                    history_cursor: step_down(o.apply.history_cursor as int, o.apply.undo_history@.len() as int) as usize,
                    ..o.apply
                },
                ..o
            }),
            _ => f == o,
        },
    }
}

impl AppState {
    /// Moves the Files cursor to `cursor` and holds it inside the rows shown.
    pub(crate) fn set_files_cursor(&mut self, cursor: usize)
        requires
            old(self).wf(),
        ensures
            final(self).wf(),
            files_cursor_moved(*old(self), *final(self), cursor as int, old(self).files.tree.scroll as int),
    {
        let ghost before = *self;
        self.files.tree.cursor = cursor;
        proof {
            lemma_scope_rows_frame(before, *self);
        }
        let ghost mid = *self;
        self.normalize_scope_files_cursor();
        proof {
            assert(scope_rows(mid) == scope_rows(before));
            assert(mid.files.scope_files_focus_nodes@ == before.files.scope_files_focus_nodes@);
            assert forall|n: usize|
                self.files.scope_files_focus_nodes@.contains(n) <==> before.files.scope_files_focus_nodes@.contains(n)
                    && rows_have(scope_rows(before), n) by {
                assert(mid.files.scope_files_focus_nodes@ == before.files.scope_files_focus_nodes@);
            }
        }
    }

    /// Moves the cursor of the focused list one step up; at the top it stays.
    pub fn move_up(&mut self)
        requires
            old(self).wf(),
        ensures
            final(self).wf(),
            moved_up(*old(self), *final(self)),
    {
        match self.ui.stage {
            Stage::Scope => match self.ui.scope_tab {
                ScopeTab::Files => {
                    let c = if self.files.tree.cursor > 0 { self.files.tree.cursor - 1 } else { 0 };
                    self.set_files_cursor(c);
                },
                ScopeTab::Select => {
                    if self.filters.select_cursor > 0 {
                        self.filters.select_cursor = self.filters.select_cursor - 1;
                    }
                },
                ScopeTab::Constraint => {
                    if self.filters.constraint_cursor > 0 {
                        self.filters.constraint_cursor = self.filters.constraint_cursor - 1;
                    }
                },
                ScopeTab::Preset => {
                    if self.filters.preset_cursor > 0 {
                        self.filters.preset_cursor = self.filters.preset_cursor - 1;
                    }
                },
                ScopeTab::Marketplace => {
                    if self.filters.marketplace_cursor > 0 {
                        self.filters.marketplace_cursor = self.filters.marketplace_cursor - 1;
                    }
                },
            },
            Stage::Naming => match self.ui.focus {
                FocusPane::NamingTable => {
                    if self.naming.rename_cursor > 0 {
                        self.naming.rename_cursor = self.naming.rename_cursor - 1;
                    }
                },
                FocusPane::NamingRight => match self.ui.naming_tab {
                    NamingTab::Suggestions => {
                        if self.ai.ai_settings.popup_open && self.ai.ai_settings.active_field == AiSettingsField::ModelList {
                            if self.ai.ai_settings.model_list_cursor > 0 {
                                self.ai.ai_settings.model_list_cursor = self.ai.ai_settings.model_list_cursor - 1;
                            }
                        } else if self.naming.suggestion_cursor > 0 {
                            self.naming.suggestion_cursor = self.naming.suggestion_cursor - 1;
                        }
                    },
                    NamingTab::Style => {
                        if self.naming.style_cursor > 0 {
                            self.naming.style_cursor = self.naming.style_cursor - 1;
                        }
                    },
                },
                _ => {},
            },
            Stage::Apply => match self.ui.focus {
                FocusPane::ApplyReview => {
                    if self.apply.apply_cursor > 0 {
                        self.apply.apply_cursor = self.apply.apply_cursor - 1;
                    }
                },
                FocusPane::ApplyHistory => {
                    if self.apply.history_cursor > 0 {
                        self.apply.history_cursor = self.apply.history_cursor - 1;
                    }
                },
                _ => {},
            },
        }
    }

    /// Moves the cursor of the focused list one step down; at the last entry it stays.
    pub fn move_down(&mut self)
        requires
            old(self).wf(),
        ensures
            final(self).wf(),
            moved_down(*old(self), *final(self)),
    {
        match self.ui.stage {
            Stage::Scope => match self.ui.scope_tab {
                ScopeTab::Files => {
                    let count = self.scope_files_rows_len();
                    if count > 0 {
                        let c = step_down_exec(self.files.tree.cursor, count);
                        self.set_files_cursor(c);
                    }
                },
                ScopeTab::Select => {
                    self.filters.select_cursor = step_down_exec(self.filters.select_cursor, self.filters.category_filters.len());
                },
                ScopeTab::Constraint => {
                    self.filters.constraint_cursor = step_down_exec(
                        self.filters.constraint_cursor,
                        TIME_CONSTRAINT_COUNT + SIZE_CONSTRAINT_COUNT,
                    );
                },
                ScopeTab::Preset => {
                    self.filters.preset_cursor = step_down_exec(self.filters.preset_cursor, 9);
                },
                ScopeTab::Marketplace => {
                    self.filters.marketplace_cursor = step_down_exec(
                        self.filters.marketplace_cursor,
                        self.filters.marketplace_presets.len(),
                    );
                },
            },
            Stage::Naming => match self.ui.focus {
                FocusPane::NamingTable => {
                    self.naming.rename_cursor = step_down_exec(self.naming.rename_cursor, self.naming.rename_rows.len());
                },
                FocusPane::NamingRight => match self.ui.naming_tab {
                    NamingTab::Suggestions => {
                        if self.ai.ai_settings.popup_open && self.ai.ai_settings.active_field == AiSettingsField::ModelList {
                            let n = self.filtered_ai_models().len();
                            self.ai.ai_settings.model_list_cursor = step_down_exec(self.ai.ai_settings.model_list_cursor, n);
                        } else {
                            self.naming.suggestion_cursor = step_down_exec(self.naming.suggestion_cursor, self.naming.suggestions.len());
                        }
                    },
                    NamingTab::Style => {
                        self.naming.style_cursor = step_down_exec(self.naming.style_cursor, 5);
                    },
                },
                _ => {},
            },
            Stage::Apply => match self.ui.focus {
                FocusPane::ApplyReview => {
                    self.apply.apply_cursor = step_down_exec(self.apply.apply_cursor, self.naming.rename_rows.len());
                },
                FocusPane::ApplyHistory => {
                    self.apply.history_cursor = step_down_exec(self.apply.history_cursor, self.apply.undo_history.len());
                },
                _ => {},
            },
        }
    }
}


/// `after` is `before` with the Files list scrolled to `scroll` for a page of `vp` rows:
/// the scroll is kept within the last page and the cursor within the page, then held
/// inside the rows shown. With no row shown, cursor and scroll go to the top.
pub open spec fn files_scrolled(before: AppState, after: AppState, scroll: int, vp: int) -> bool {
    let len = scope_rows(before).len() as int;
    if len == 0 {
        after == (AppState {
            files: FilesState { tree: FileTree { cursor: 0, scroll: 0, ..before.files.tree }, ..before.files },
            ..before
        })
    } else {
        let v = min_int(if vp < 1 { 1 } else { vp }, len);
        let s = min_int(scroll, len - v);
        let c0 = before.files.tree.cursor as int;
        let c1 = if c0 < s { s } else { c0 };
        let c = min_int(c1, s + v - 1);
        files_cursor_moved(before, after, c, s)
    }
}

/// `after` is `before` with the scrollbar laid out again on its track for the current
/// scroll, as `scrollbar_for` describes; without a scrollbar nothing changes.
pub open spec fn geometry_refreshed(before: AppState, after: AppState) -> bool {
    match before.files.scope_files_scrollbar {
        None => after == before,
        Some(g) => {
            &&& (after.files.scope_files_scrollbar, after.files.tree.scroll as int) == scrollbar_for(
                g.track_area,
                g.content_len as int,
                g.viewport_len as int,
                before.files.tree.scroll as int,
            )
            &&& after == (AppState {
                files: FilesState {
                    scope_files_scrollbar: after.files.scope_files_scrollbar,
                    tree: FileTree { scroll: after.files.tree.scroll, ..before.files.tree },
                    ..before.files
                },
                ..before
            })
        },
    }
}

/// The thumb's top row when it is centred on `row`.
pub open spec fn centered_top(g: crate::scrollbar::ScopeFilesScrollbarGeometry, row: u16) -> int {
    if row < g.thumb_area.height / 2 {
        0
    } else {
        row - g.thumb_area.height / 2
    }
}

impl AppState {
    /// Scrolls the Files list, as `files_scrolled` describes.
    fn apply_scope_files_scroll(&mut self, scroll: usize, viewport_len: usize)
        requires
            old(self).wf(),
        ensures
            final(self).wf(),
            files_scrolled(*old(self), *final(self), scroll as int, viewport_len as int),
    {
        let len = self.scope_files_rows_len();
        if len == 0 {
            self.files.tree.cursor = 0;
            self.files.tree.scroll = 0;
            return;
        }
        let v0 = if viewport_len < 1 { 1 } else { viewport_len };
        let v = if v0 < len { v0 } else { len };
        let max_scroll = len - v;
        let s = if scroll < max_scroll { scroll } else { max_scroll };
        self.files.tree.scroll = s;
        let c0 = self.files.tree.cursor;
        let c1 = if c0 < s { s } else { c0 };
        let c = if c1 < s + v - 1 { c1 } else { s + v - 1 };
        let ghost before = *old(self);
        let ghost mid = *self;
        proof {
            lemma_scope_rows_frame(before, mid);
        }
        self.set_files_cursor(c);
        proof {
            lemma_scope_rows_frame(before, mid);
            assert forall|n: usize|
                self.files.scope_files_focus_nodes@.contains(n) <==> before.files.scope_files_focus_nodes@.contains(n)
                    && rows_have(scope_rows(before), n) by {
                assert(mid.files.scope_files_focus_nodes@ == before.files.scope_files_focus_nodes@);
            }
        }
    }

    /// Lays the scrollbar out again for the current scroll.
    fn recompute_scope_files_scrollbar_geometry(&mut self)
        requires
            old(self).wf(),
        ensures
            final(self).wf(),
            geometry_refreshed(*old(self), *final(self)),
    {
        let g = match self.files.scope_files_scrollbar {
            Some(g) => g,
            None => return,
        };
        self.set_scope_files_scrollbar_geometry(g.track_area, g.content_len, g.viewport_len);
        proof {
            crate::scrollbar::lemma_scrollbar_track(g.track_area, g.content_len as int, g.viewport_len as int, old(self).files.tree.scroll as int);
        }
    }

    /// A click on the scrollbar's track: the thumb is centred on the row clicked, the list
    /// scrolls with it and the scrollbar is laid out again. Without a scrollbar nothing
    /// changes.
    pub fn jump_scope_files_scrollbar_to_track_row(&mut self, row: u16)
        requires
            old(self).wf(),
        ensures
            final(self).wf(),
            match old(self).files.scope_files_scrollbar {
                None => *final(self) == *old(self),
                Some(g) => exists|mid: AppState|
                    #[trigger] files_scrolled(
                        *old(self),
                        mid,
                        scroll_for_top(g, centered_top(g, row)),
                        g.viewport_len as int,
                    ) && geometry_refreshed(mid, *final(self)),
            },
    {
        let g = match self.files.scope_files_scrollbar {
            Some(g) => g,
            None => return,
        };
        let scroll = g.scroll_for_track_row_centered(row);
        self.apply_scope_files_scroll(scroll, g.viewport_len);
        let ghost mid = *self;
        self.recompute_scope_files_scrollbar_geometry();
        assert(files_scrolled(*old(self), mid, scroll_for_top(g, centered_top(g, row)), g.viewport_len as int));
    }

    /// A drag of the scrollbar's thumb, held `grab` rows below its top, to row `row`: the
    /// list scrolls to the thumb's new top and the scrollbar is laid out again. Without a
    /// scrollbar nothing changes.
    pub fn drag_scope_files_scrollbar_thumb(&mut self, row: u16, grab: u16)
        requires
            old(self).wf(),
        ensures
            final(self).wf(),
            match old(self).files.scope_files_scrollbar {
                None => *final(self) == *old(self),
                Some(g) => exists|mid: AppState|
                    #[trigger] files_scrolled(
                        *old(self),
                        mid,
                        scroll_for_top(g, sat_sub(row as int, grab as int)),
                        g.viewport_len as int,
                    ) && geometry_refreshed(mid, *final(self)),
            },
    {
        let g = match self.files.scope_files_scrollbar {
            Some(g) => g,
            None => return,
        };
        let top = if row > grab { row - grab } else { 0 };
        let scroll = g.scroll_for_thumb_top_row(top);
        self.apply_scope_files_scroll(scroll, g.viewport_len);
        let ghost mid = *self;
        self.recompute_scope_files_scrollbar_geometry();
        assert(files_scrolled(*old(self), mid, scroll_for_top(g, sat_sub(row as int, grab as int)), g.viewport_len as int));
    }
}

} // verus!
