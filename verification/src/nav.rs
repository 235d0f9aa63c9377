//! Moving between stages, tabs and focused panes.
use vstd::prelude::*;
use ratatui_interact::state::FocusManager;
use crate::interact::{
    focus_current, focus_current_of, focus_elements, focus_index, focus_next, focus_prev,
    focus_register, focus_set, focus_clear,
};
use crate::model::{FocusPane, ScopeTab, Stage, scope_tab_next, scope_tab_prev};
use crate::state::{AppState, UiState};

verus! {

/// The panes of a stage, in the order Tab visits them.
pub open spec fn stage_focus_list(stage: Stage) -> Seq<FocusPane> {
    match stage {
        Stage::Scope => seq![FocusPane::ScopeCategory, FocusPane::ScopeFiles, FocusPane::ScopeOptions],
        Stage::Naming => seq![FocusPane::NamingTable, FocusPane::NamingRight, FocusPane::NamingCommand],
        Stage::Apply => seq![FocusPane::ApplyReview, FocusPane::ApplyHistory],
    }
}

/// The focus ring holds the stage's panes and points at one of them.
pub open spec fn ring_ok(m: FocusManager<FocusPane>, stage: Stage) -> bool {
    &&& focus_elements(m) == stage_focus_list(stage)
    &&& focus_index(m) matches Some(i) && i < focus_elements(m).len()
}

/// The position of a pane in its stage's list, or `None`.
pub open spec fn focus_position(stage: Stage, f: FocusPane) -> Option<usize> {
    match (stage, f) {
        (Stage::Scope, FocusPane::ScopeCategory) => Some(0usize),
        (Stage::Scope, FocusPane::ScopeFiles) => Some(1usize),
        (Stage::Scope, FocusPane::ScopeOptions) => Some(2usize),
        (Stage::Naming, FocusPane::NamingTable) => Some(0usize),
        (Stage::Naming, FocusPane::NamingRight) => Some(1usize),
        (Stage::Naming, FocusPane::NamingCommand) => Some(2usize),
        (Stage::Apply, FocusPane::ApplyReview) => Some(0usize),
        (Stage::Apply, FocusPane::ApplyHistory) => Some(1usize),
        _ => None,
    }
}

/// `focus_position` is where the pane stands in the stage's list, and the only place.
pub proof fn lemma_focus_position(stage: Stage, f: FocusPane)
    ensures
        stage_focus_list(stage).contains(f) <==> focus_position(stage, f) is Some,
        focus_position(stage, f) matches Some(p) ==> p < stage_focus_list(stage).len()
            && stage_focus_list(stage)[p as int] == f && forall|j: int|
            0 <= j < p ==> stage_focus_list(stage)[j] != f,
        stage_focus_list(stage).len() >= 2,
{
    let l = stage_focus_list(stage);
    if focus_position(stage, f) is None {
        assert forall|j: int| 0 <= j < l.len() implies l[j] != f by {
        }
    } else {
        let p = focus_position(stage, f)->0;
        assert(l[p as int] == f);
    }
}

/// The ring after `set(f)`: `f`'s position when the stage has it, otherwise the old one.
pub open spec fn ring_set(m: FocusManager<FocusPane>, stage: Stage, f: FocusPane, after: FocusManager<FocusPane>) -> bool {
    &&& focus_elements(after) == focus_elements(m)
    &&& focus_index(after) == match focus_position(stage, f) {
        Some(p) => Some(p),
        None => focus_index(m),
    }
}

/// The pane a scope tab puts the focus on.
pub open spec fn scope_focus_for(tab: ScopeTab) -> FocusPane {
    match tab {
        ScopeTab::Select => FocusPane::ScopeCategory,
        ScopeTab::Files => FocusPane::ScopeFiles,
        _ => FocusPane::ScopeOptions,
    }
}

/// The scope tab that goes with a focused pane: the category pane shows the Category tab,
/// the files pane the Files tab, and the options pane the last right-hand tab unless a
/// right-hand tab is already shown.
pub open spec fn scope_tab_for_focus(stage: Stage, focus: FocusPane, tab: ScopeTab, right: ScopeTab) -> ScopeTab {
    if stage != Stage::Scope {
        tab
    } else {
        match focus {
            FocusPane::ScopeCategory => ScopeTab::Select,
            FocusPane::ScopeFiles => ScopeTab::Files,
            FocusPane::ScopeOptions => if tab == ScopeTab::Files || tab == ScopeTab::Select {
                right
            } else {
                tab
            },
            _ => tab,
        }
    }
}

/// The index after one step forward in a ring of `n`.
pub open spec fn ring_next(i: int, n: int) -> int {
    (i + 1) % n
}

/// The index after one step back in a ring of `n`.
pub open spec fn ring_prev(i: int, n: int) -> int {
    if i == 0 {
        n - 1
    } else {
        i - 1
    }
}

/// Tab and Shift+Tab undo each other, and as many Tabs as the stage has panes come back to
/// where they started.
pub proof fn lemma_focus_ring(i: int, n: int)
    requires
        0 <= i < n,
    ensures
        ring_prev(ring_next(i, n), n) == i,
        ring_next(ring_prev(i, n), n) == i,
        0 <= ring_next(i, n) < n,
        0 <= ring_prev(i, n) < n,
        n == 2 ==> ring_next(ring_next(i, n), n) == i,
        n == 3 ==> ring_next(ring_next(ring_next(i, n), n), n) == i,
{
    if i + 1 < n {
        vstd::arithmetic::div_mod::lemma_small_mod((i + 1) as nat, n as nat);
    } else {
        vstd::arithmetic::div_mod::lemma_mod_self_0(n);
    }
    if i == 0 {
        vstd::arithmetic::div_mod::lemma_mod_self_0(n);
    } else {
        vstd::arithmetic::div_mod::lemma_small_mod(i as nat, n as nat);
    }
    if n == 2 || n == 3 {
        vstd::arithmetic::div_mod::lemma_small_mod(0, n as nat);
        vstd::arithmetic::div_mod::lemma_small_mod(1, n as nat);
        vstd::arithmetic::div_mod::lemma_mod_self_0(n);
    }
    if n == 3 {
        vstd::arithmetic::div_mod::lemma_small_mod(2, n as nat);
    }
    if n == 2 {
        assert(ring_next(ring_next(i, n), n) == i);
    }
    if n == 3 {
        assert(ring_next(ring_next(ring_next(i, n), n), n) == i);
    }
}

impl AppState {
    /// The panes of the current stage, in the order Tab visits them.
    pub fn stage_focuses(&self) -> (r: Vec<FocusPane>)
        ensures
            r@ == stage_focus_list(self.ui.stage),
    {
        match self.ui.stage {
            Stage::Scope => vec![FocusPane::ScopeCategory, FocusPane::ScopeFiles, FocusPane::ScopeOptions],
            Stage::Naming => vec![FocusPane::NamingTable, FocusPane::NamingRight, FocusPane::NamingCommand],
            Stage::Apply => vec![FocusPane::ApplyReview, FocusPane::ApplyHistory],
        }
    }


    /// Shows a scope tab; in the scope stage the focus follows it to the tab's pane.
    pub fn set_scope_tab(&mut self, tab: ScopeTab)
        requires
            ring_ok(old(self).ui.focus_manager, old(self).ui.stage),
        ensures
            ring_ok(final(self).ui.focus_manager, final(self).ui.stage),
            *final(self) == (AppState { ui: final(self).ui, ..*old(self) }),
            final(self).ui == (UiState {
                scope_tab: tab,
                scope_left_tab: if tab == ScopeTab::Files || tab == ScopeTab::Select {
                    tab
                } else {
                    old(self).ui.scope_left_tab
                },
                scope_right_tab: if tab == ScopeTab::Files || tab == ScopeTab::Select {
                    old(self).ui.scope_right_tab
                } else {
                    tab
                },
                focus: if old(self).ui.stage == Stage::Scope {
                    scope_focus_for(tab)
                } else {
                    old(self).ui.focus
                },
                focus_manager: final(self).ui.focus_manager,
                ..old(self).ui
            }),
            old(self).ui.stage == Stage::Scope ==> ring_set(
                old(self).ui.focus_manager,
                old(self).ui.stage,
                scope_focus_for(tab),
                final(self).ui.focus_manager,
            ),
            old(self).ui.stage != Stage::Scope ==> final(self).ui.focus_manager == old(self).ui.focus_manager,
    {
        self.ui.scope_tab = tab;
        match tab {
            ScopeTab::Files | ScopeTab::Select => self.ui.scope_left_tab = tab,
            ScopeTab::Constraint | ScopeTab::Preset | ScopeTab::Marketplace => {
                self.ui.scope_right_tab = tab;
            },
        }
        if self.ui.stage == Stage::Scope {
            let focus = match tab {
                ScopeTab::Select => FocusPane::ScopeCategory,
                ScopeTab::Files => FocusPane::ScopeFiles,
                ScopeTab::Constraint | ScopeTab::Preset | ScopeTab::Marketplace => FocusPane::ScopeOptions,
            };
            self.ui.focus = focus;
            proof {
                lemma_focus_position(self.ui.stage, focus);
            }
            focus_set(&mut self.ui.focus_manager, focus);
        }
    }

    /// Shows the next scope tab.
    pub fn next_scope_tab(&mut self)
        requires
            ring_ok(old(self).ui.focus_manager, old(self).ui.stage),
        ensures
            ring_ok(final(self).ui.focus_manager, final(self).ui.stage),
            *final(self) == (AppState { ui: final(self).ui, ..*old(self) }),
            final(self).ui.scope_tab == scope_tab_next(old(self).ui.scope_tab),
            final(self).ui.click_regions == old(self).ui.click_regions,
            final(self).ui.stage == old(self).ui.stage,
    {
        let t = self.ui.scope_tab.next();
        self.set_scope_tab(t);
    }

    /// Shows the previous scope tab.
    pub fn prev_scope_tab(&mut self)
        requires
            ring_ok(old(self).ui.focus_manager, old(self).ui.stage),
        ensures
            ring_ok(final(self).ui.focus_manager, final(self).ui.stage),
            *final(self) == (AppState { ui: final(self).ui, ..*old(self) }),
            final(self).ui.scope_tab == scope_tab_prev(old(self).ui.scope_tab),
            final(self).ui.click_regions == old(self).ui.click_regions,
            final(self).ui.stage == old(self).ui.stage,
    {
        let t = self.ui.scope_tab.prev();
        self.set_scope_tab(t);
    }

    /// In the scope stage, shows the tab that goes with the focused pane.
    fn sync_scope_tab_from_focus(&mut self)
        ensures
            *final(self) == (AppState { ui: final(self).ui, ..*old(self) }),
            final(self).ui == (UiState {
                scope_tab: scope_tab_for_focus(
                    old(self).ui.stage,
                    old(self).ui.focus,
                    old(self).ui.scope_tab,
                    old(self).ui.scope_right_tab,
                ),
                ..old(self).ui
            }),
    {
        if self.ui.stage != Stage::Scope {
            return;
        }
        match self.ui.focus {
            FocusPane::ScopeCategory => self.ui.scope_tab = ScopeTab::Select,
            FocusPane::ScopeFiles => self.ui.scope_tab = ScopeTab::Files,
            FocusPane::ScopeOptions => {
                if self.ui.scope_tab == ScopeTab::Files || self.ui.scope_tab == ScopeTab::Select {
                    self.ui.scope_tab = self.ui.scope_right_tab;
                }
            },
            _ => {},
        }
    }

    /// Focuses a pane; the ring follows when the stage has the pane, and in the scope stage
    /// the tab follows the focus.
    pub fn set_focus(&mut self, focus: FocusPane)
        requires
            ring_ok(old(self).ui.focus_manager, old(self).ui.stage),
        ensures
            ring_ok(final(self).ui.focus_manager, final(self).ui.stage),
            ring_set(old(self).ui.focus_manager, old(self).ui.stage, focus, final(self).ui.focus_manager),
            *final(self) == (AppState { ui: final(self).ui, ..*old(self) }),
            final(self).ui == (UiState {
                focus,
                focus_manager: final(self).ui.focus_manager,
                scope_tab: scope_tab_for_focus(
                    old(self).ui.stage,
                    focus,
                    old(self).ui.scope_tab,
                    old(self).ui.scope_right_tab,
                ),
                ..old(self).ui
            }),
    {
        self.ui.focus = focus;
        proof {
            lemma_focus_position(self.ui.stage, focus);
        }
        focus_set(&mut self.ui.focus_manager, focus);
        self.sync_scope_tab_from_focus();
    }

    /// Moves the focus to the stage's next pane, wrapping round.
    pub fn next_focus(&mut self)
        requires
            ring_ok(old(self).ui.focus_manager, old(self).ui.stage),
        ensures
            ring_ok(final(self).ui.focus_manager, final(self).ui.stage),
            focus_index(old(self).ui.focus_manager) matches Some(i) && focus_index(final(self).ui.focus_manager)
                == Some(
                ring_next(i as int, stage_focus_list(old(self).ui.stage).len() as int) as usize,
            ),
            *final(self) == (AppState { ui: final(self).ui, ..*old(self) }),
            final(self).ui == (UiState {
                focus: final(self).ui.focus,
                focus_manager: final(self).ui.focus_manager,
                scope_tab: scope_tab_for_focus(
                    old(self).ui.stage,
                    final(self).ui.focus,
                    old(self).ui.scope_tab,
                    old(self).ui.scope_right_tab,
                ),
                ..old(self).ui
            }),
            focus_current(final(self).ui.focus_manager) == Some(final(self).ui.focus),
    {
        focus_next(&mut self.ui.focus_manager);
        if let Some(f) = focus_current_of(&self.ui.focus_manager) {
            self.ui.focus = f;
        }
        self.sync_scope_tab_from_focus();
    }

    /// Moves the focus to the stage's previous pane, wrapping round.
    pub fn prev_focus(&mut self)
        requires
            ring_ok(old(self).ui.focus_manager, old(self).ui.stage),
        ensures
            ring_ok(final(self).ui.focus_manager, final(self).ui.stage),
            focus_index(old(self).ui.focus_manager) matches Some(i) && focus_index(final(self).ui.focus_manager)
                == Some(
                ring_prev(i as int, stage_focus_list(old(self).ui.stage).len() as int) as usize,
            ),
            *final(self) == (AppState { ui: final(self).ui, ..*old(self) }),
            final(self).ui == (UiState {
                focus: final(self).ui.focus,
                focus_manager: final(self).ui.focus_manager,
                scope_tab: scope_tab_for_focus(
                    old(self).ui.stage,
                    final(self).ui.focus,
                    old(self).ui.scope_tab,
                    old(self).ui.scope_right_tab,
                ),
                ..old(self).ui
            }),
            focus_current(final(self).ui.focus_manager) == Some(final(self).ui.focus),
    {
        focus_prev(&mut self.ui.focus_manager);
        if let Some(f) = focus_current_of(&self.ui.focus_manager) {
            self.ui.focus = f;
        }
        self.sync_scope_tab_from_focus();
    }

    /// Rebuilds the focus ring for the current stage and keeps the focused pane when the
    /// stage has it, else focuses the stage's first pane.
    pub(crate) fn sync_focus_manager(&mut self)
        ensures
            ring_ok(final(self).ui.focus_manager, final(self).ui.stage),
            *final(self) == (AppState { ui: final(self).ui, ..*old(self) }),
            final(self).ui == (UiState {
                focus: if focus_position(old(self).ui.stage, old(self).ui.focus) is Some {
                    old(self).ui.focus
                } else {
                    stage_focus_list(old(self).ui.stage)[0]
                },
                focus_manager: final(self).ui.focus_manager,
                ..old(self).ui
            }),
            focus_current(final(self).ui.focus_manager) == Some(final(self).ui.focus),
    {
        focus_clear(&mut self.ui.focus_manager);
        let panes = self.stage_focuses();
        let mut k: usize = 0;
        while k < panes.len()
            invariant
                k <= panes@.len(),
                panes@ == stage_focus_list(self.ui.stage),
                focus_elements(self.ui.focus_manager) == panes@.take(k as int),
                k == 0 ==> focus_index(self.ui.focus_manager) is None,
                k > 0 ==> focus_index(self.ui.focus_manager) == Some(0usize),
                *self == (AppState { ui: self.ui, ..*old(self) }),
                self.ui == (UiState { focus_manager: self.ui.focus_manager, ..old(self).ui }),
            decreases panes@.len() - k,
        {
            assert(!panes@.take(k as int).contains(panes@[k as int]));
            focus_register(&mut self.ui.focus_manager, panes[k]);
            assert(panes@.take(k + 1) == panes@.take(k as int).push(panes@[k as int]));
            k += 1;
        }
        assert(panes@.take(k as int) == panes@);
        let f = self.ui.focus;
        proof {
            lemma_focus_position(self.ui.stage, f);
        }
        focus_set(&mut self.ui.focus_manager, f);
        if let Some(current) = focus_current_of(&self.ui.focus_manager) {
            self.ui.focus = current;
        } else if panes.len() > 0 {
            let first = panes[0];
            self.ui.focus = first;
            focus_set(&mut self.ui.focus_manager, first);
        }
    }
}

} // verus!
