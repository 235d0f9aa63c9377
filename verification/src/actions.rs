//! What the user asks for, one action at a time, and how each changes the planner.
use vstd::prelude::*;
use crate::io::IoRequest;
use crate::logs::{concat, sat_sub};
use crate::model::{
    AiSettingsField, ClickTarget, FilesDragMode, FilesDragState, FocusPane, InputMode, NamingTab, ScopeTab, Stage,
    ToastLevel, SIZE_CONSTRAINT_COUNT, TIME_CONSTRAINT_COUNT, naming_tab_next, stage_next, stage_prev,
};
use crate::model::{scope_tab_next, scope_tab_prev};
use crate::moves::{files_cursor_moved, step_down};
use crate::naming_edit::style_moved;
use crate::scope::scope_rows;
use crate::scrollbar::min_int;
use crate::state::{AppState, LogState, NamingState, UiState, lemma_wf_kept};
use crate::tree_ops::missing_dir;
use crate::io::log_listing;
use crate::io::log_listing_error;
use crate::model::{RenameRow, SuggestionSet, string_views, size_constraint_at, time_constraint_at};
use crate::naming_edit::{keep_first, selected_rows, with_override, MAX_UNDO_ENTRIES};
use crate::naming_ops::{conflicts_marked, proposals_redone};
use crate::scope::{has_text, shown_selected};
use crate::scope_ops::{category_extensions, category_parts, needs_listing};
use crate::state::{AiState, ApplyState};
use crate::model::AiSettingsState;
use crate::config::opt_string_view;
use crate::fs_scan::opt_view;
use crate::prompts::history_recorded;
use crate::state::FilterState;
use crate::ai_ops::{model_query, shown_models};
use crate::interact::{click_regions_of, rect_contains};
use crate::moves::{moved_down, moved_up};
use crate::logs::{max_log_col, max_log_row};
use crate::ai_ops::{field_mode, has_minimum_config, needs_config_message, row_paths};
use crate::model::NamingAiStatus;
use crate::rows::index_at;
use crate::workers::AiWorkerCommand;
use crate::scope_ops::preset_loaded;
use crate::state::FilesState;
use crate::text::spec_decimal;
use crate::nav::{ring_next, ring_prev, stage_focus_list};
use crate::interact::{focus_current, focus_index};
use crate::fs_scan::missing_listing;
use crate::naming_ops::rows_synced;
use crate::moves::{centered_top, files_scrolled, geometry_refreshed};
use crate::scrollbar::scroll_for_top;
use crate::strs::{trim, trim_str};
use crate::text::{spec_lowercase, str_to_string};
use crate::vocab::completion;
use crate::logs::toasts_after_tick;
use crate::naming_edit::submitted;
use crate::tree_ops::{all_collapsed, all_expanded, categories_only_toggled};
use crate::ai_ops::{ai_field_advanced, ai_field_retreated, ai_key_cleared, ai_settings_saved, model_picked, models_requested, suggestions_requested, suggestions_settings_toggled};
use crate::naming_edit::{global_option_set, group_assigned, override_edit_begun, override_edit_cancelled, row_option_cleared, row_option_set};
use crate::prompts::{command_recalled_next, command_recalled_prev, history_cursor_down, history_cursor_up, history_entry_loaded, history_overlay_toggled};
use crate::preview_ops::preview_toggled;
use crate::tree::same_shape;
use crate::fs_scan::lists_dir;
use crate::naming_ops::{root_needs, root_walk, scan_needs, scan_walk};
use crate::scope_ops::{all_visible_selected, preset_saved, selection_kept_outside, visible_file_ids};

verus! {

/// One request of the user, as keys and the mouse give it.
#[derive(Debug, Clone, Copy, PartialEq, Eq, Structural)]
pub enum Action {
    Tick,
    Quit,
    ToggleLogOverlay,
    ScrollLogUp,
    ScrollLogDown,
    ScrollLogLeft,
    ScrollLogRight,
    ToggleHelp,
    NextStage,
    PrevStage,
    NextScopeTab,
    PrevScopeTab,
    ToggleNamingTab,
    NextFocus,
    PrevFocus,
    MoveUp,
    MoveDown,
    MoveLeft,
    MoveRight,
    ExpandAll,
    CollapseAll,
    ToggleSelect,
    SelectAllVisibleFiles,
    ToggleFilesSettingsPopup,
    ToggleShowSelectedCategoriesOnly,
    ToggleFilesPreview,
    TriggerNamingSuggestionsRefresh,
    ToggleNamingSuggestionsSettings,
    DiscoverModels,
    SaveAiSettings,
    ClearAiApiKey,
    FocusAiSettingsField(AiSettingsField),
    SelectAiModelByFilteredIndex(usize),
    SetGlobalSuggestionOption(usize),
    SetRowSuggestionOption(usize),
    ClearRowSuggestionOption,
    NextAiSettingsField,
    PrevAiSettingsField,
    TogglePromptHistoryOverlay,
    SelectPromptHistoryEntry,
    PromptHistoryUp,
    PromptHistoryDown,
    CommandHistoryPrev,
    CommandHistoryNext,
    ToggleShowHidden,
    SavePreset(u8),
    LoadPreset(u8),
    ApplyMarketplace(usize),
    Submit { stay: bool },
    StartOverrideEdit,
    StartCommandInput,
    StartNewCategoryInput,
    StartGroupAssign,
    AssignGroup(u8),
    InputChar(char),
    Backspace,
    CommitInput,
    CancelInput,
    Autocomplete,
    MouseDown(u16, u16),
    MouseDrag(u16, u16),
    MouseUp(u16, u16),
    MouseScrollUp(u16, u16),
    MouseScrollDown(u16, u16),
    MouseScrollLeft(u16, u16),
    MouseScrollRight(u16, u16),
}


/// The index one step up (`up`) or down a list of `len` entries from `current`, stopping at
/// the ends; an empty list gives zero.
pub open spec fn scrolled_index(current: int, len: int, up: bool) -> int {
    if len == 0 {
        0
    } else if up {
        sat_sub(current, 1)
    } else {
        step_down(current, len)
    }
}

/// Computes `scrolled_index`.
pub fn scroll_index(current: usize, len: usize, up: bool) -> (r: usize)
    ensures
        r == scrolled_index(current as int, len as int, up),
{
    if len == 0 {
        0
    } else if up {
        if current > 0 { current - 1 } else { 0 }
    } else if current < len - 1 {
        current + 1
    } else {
        len - 1
    }
}

/// Whether the list holds `x`.
fn holds(v: &Vec<usize>, x: usize) -> (r: bool)
    ensures
        r == v@.contains(x),
{
    let mut i: usize = 0;
    while i < v.len()
        invariant
            i <= v@.len(),
            forall|j: int| 0 <= j < i ==> v@[j] != x,
        decreases v@.len() - i,
    {
        if v[i] == x {
            return true;
        }
        i += 1;
    }
    false
}

/// The number of selected rows.
fn selected_count(app: &AppState) -> (n: usize)
    ensures
        n == crate::naming_edit::selected_rows(app.naming.rename_rows@).len(),
{
    let rows = &app.naming.rename_rows;
    let mut n: usize = 0;
    let mut i: usize = 0;
    while i < rows.len()
        invariant
            i <= rows@.len(),
            n == crate::naming_edit::selected_rows(rows@.take(i as int)).len(),
            n <= i,
        decreases rows@.len() - i,
    {
        assert(rows@.take(i + 1).drop_last() == rows@.take(i as int));
        assert(rows@.take(i + 1).last() == rows@[i as int]);
        if rows[i].selected {
            n += 1;
        }
        i += 1;
    }
    assert(rows@.take(i as int) == rows@);
    n
}

/// What Space or Enter on a scope filter row does, as `toggle_current_scope_filter` states
/// it: on the Category tab the category under the cursor is enabled or, when fully
/// enabled, disabled, with a toast; on the Constraint tab the time or size constraint under
/// the cursor is set.
pub open spec fn filter_toggled(o: AppState, f: AppState, r: Result<(), IoRequest>) -> bool {
    &&& r is Ok && o.ui.scope_tab == ScopeTab::Select && o.filters.select_cursor < o.filters.category_filters@.len() ==> {
        let cat = o.filters.category_filters@[o.filters.select_cursor as int];
        let all = forall|k: int| 0 <= k < cat.extensions@.len() ==> has_text(o.filters.selected_extensions@, (#[trigger] cat.extensions@[k])@);
        &&& forall|x: Seq<char>| has_text(f.filters.selected_extensions@, x) <==> if has_text(cat.extensions@, x) {
            !all
        } else {
            has_text(o.filters.selected_extensions@, x)
        }
        &&& f.log.toasts@.last().message@ == (if all { "Disabled "@ } else { "Enabled "@ }) + cat.name@
    }
    &&& r is Ok && o.ui.scope_tab == ScopeTab::Constraint && o.filters.constraint_cursor < TIME_CONSTRAINT_COUNT
        ==> f.filters.time_constraint == time_constraint_at(o.filters.constraint_cursor as int)
    &&& r is Ok && o.ui.scope_tab == ScopeTab::Constraint && TIME_CONSTRAINT_COUNT <= o.filters.constraint_cursor
        < TIME_CONSTRAINT_COUNT + SIZE_CONSTRAINT_COUNT ==> f.filters.size_constraint == size_constraint_at(
        o.filters.constraint_cursor - TIME_CONSTRAINT_COUNT,
    )
    &&& r matches Err(q) ==> needs_listing(o, q) || o.ui.scope_tab == ScopeTab::Marketplace
    &&& o.ui.scope_tab == ScopeTab::Files || o.ui.scope_tab == ScopeTab::Preset ==> r is Ok && f == o
}

/// What toggling the file under the Files cursor does, as `toggle_scope_file_selection`
/// states it: with no gathered rows, a file under the cursor flips from how it is shown.
pub open spec fn file_toggled(o: AppState, f: AppState, r: Result<(), IoRequest>) -> bool {
    &&& r matches Err(q) ==> needs_listing(o, q)
    &&& r is Ok && o.files.scope_files_focus_nodes@.len() == 0 && scope_rows(o).len() > 0 ==> {
        let id = scope_rows(o)[min_int(o.files.tree.cursor as int, scope_rows(o).len() - 1)].node_id as int;
        !o.files.tree.nodes@[id].is_dir ==> f.files.tree.nodes@[id].selected == !shown_selected(o.files.tree.nodes@, id)
    }
}

/// What toggling the rename row under the cursor does: the row flips its selection and
/// conflicts are marked afresh; only the rows change, and past the end nothing does.
pub open spec fn row_toggled(o: AppState, f: AppState) -> bool {
    let rows = o.naming.rename_rows@;
    let c = o.naming.rename_cursor as int;
    &&& c < rows.len() ==> conflicts_marked(rows.update(c, (RenameRow { selected: !rows[c].selected, ..rows[c] })), f.naming.rename_rows@)
    &&& c >= rows.len() ==> f == o
    &&& f == (AppState { naming: NamingState { rename_rows: f.naming.rename_rows, ..o.naming }, ..o })
}

/// What applying the suggestion under the cursor does, as `apply_suggestion` states it: it
/// becomes the default option of the suggestion set, names are proposed afresh and a toast
/// says so; without suggestions, or past the end, nothing changes.
pub open spec fn suggestion_applied(o: AppState, f: AppState) -> bool {
    let c = o.naming.suggestion_cursor;
    match o.naming.suggestion_set {
        Some(set) if c < o.naming.suggestions@.len() => {
            let g = if c < 2 { c } else { 2 };
            &&& f.naming.suggestion_set == Some(SuggestionSet { global_option_index: g, ..set })
            &&& proposals_redone(
                (AppState { naming: NamingState { suggestion_set: f.naming.suggestion_set, ..o.naming }, ..o }),
                o.naming.rename_rows@,
                f.naming.rename_rows@,
            )
            &&& f.log.toasts@.last().level == ToastLevel::Success
            &&& f.log.toasts@.last().message@ == "Applied suggestion: "@ + o.naming.suggestions@[c as int]@
            &&& f == (AppState {
                naming: NamingState { suggestion_set: f.naming.suggestion_set, rename_rows: f.naming.rename_rows, ..o.naming },
                log: f.log,
                ..o
            })
        },
        _ => f == o,
    }
}

/// What the left key does to `o`, giving `f`.
pub open spec fn moved_left(o: AppState, f: AppState) -> bool {
    let rows = scope_rows(o);
    &&& o.ui.stage == Stage::Scope && o.ui.scope_tab == ScopeTab::Files ==> f == (AppState { files: f.files, ..o })
    &&& o.ui.stage == Stage::Scope && o.ui.scope_tab == ScopeTab::Files && rows.len() == 0 ==> f == o
    &&& o.ui.stage == Stage::Scope && o.ui.scope_tab == ScopeTab::Files && rows.len() > 0 ==> {
        let id = rows[min_int(o.files.tree.cursor as int, rows.len() - 1)].node_id as int;
        let n = o.files.tree.nodes@[id];
        &&& n.is_dir && n.expanded ==> !f.files.tree.nodes@[id].expanded
        &&& !(n.is_dir && n.expanded) ==> f.files.tree.nodes == o.files.tree.nodes
    }
    &&& o.ui.stage == Stage::Scope && o.ui.scope_tab != ScopeTab::Files ==> f.ui.scope_tab == scope_tab_prev(o.ui.scope_tab)
        && f.ui.stage == o.ui.stage && f == (AppState { ui: f.ui, ..o })
    &&& o.ui.stage == Stage::Naming && o.ui.focus == FocusPane::NamingRight && o.ui.naming_tab == NamingTab::Style
        ==> f.naming.style == style_moved(o.naming.style, o.naming.style_cursor, -1i8) && f == (AppState {
        naming: NamingState { style: f.naming.style, rename_rows: f.naming.rename_rows, ..o.naming },
        ..o
    })
    &&& o.ui.stage == Stage::Naming && !(o.ui.focus == FocusPane::NamingRight && o.ui.naming_tab == NamingTab::Style)
        ==> f == (AppState { ui: UiState { naming_tab: naming_tab_next(o.ui.naming_tab), ..o.ui }, ..o })
    &&& o.ui.stage == Stage::Apply ==> f.ui.focus == FocusPane::ApplyReview && f == (AppState { ui: f.ui, ..o })
}

/// Left: in the Files list collapses the entry, elsewhere in the scope stage goes to the
/// previous tab; in the naming stage steps the style setting back (on the style tab) or
/// switches tab; in the apply stage focuses the review.
fn handle_left(app: &mut AppState)
    requires
        old(app).wf(),
    ensures
        final(app).wf(),
        moved_left(*old(app), *final(app)),
{
    let ghost before = *app;
    match app.ui.stage {
        Stage::Scope => {
            if app.ui.scope_tab == ScopeTab::Files {
                app.collapse_current();
            } else {
                app.prev_scope_tab();
                proof { lemma_wf_kept(before, *app); }
            }
        },
        Stage::Naming => {
            if app.ui.focus == FocusPane::NamingRight && app.ui.naming_tab == NamingTab::Style {
                app.apply_style_cursor_delta(-1);
            } else {
                app.ui.naming_tab = app.ui.naming_tab.next();
                proof { lemma_wf_kept(before, *app); }
            }
        },
        Stage::Apply => {
            app.set_focus(FocusPane::ApplyReview);
            proof { lemma_wf_kept(before, *app); }
        },
    }
}

/// What the right key does to `o`, giving `f`.
pub open spec fn moved_right(o: AppState, f: AppState, r: Result<(), IoRequest>) -> bool {
    let rows = scope_rows(o);
    let files = o.ui.stage == Stage::Scope && o.ui.scope_tab == ScopeTab::Files;
    &&& r matches Err(q) ==> files && missing_dir(o, q)
    &&& files && rows.len() == 0 ==> r is Ok && f == o
    &&& r is Ok && files && rows.len() > 0 ==> {
        let id = rows[min_int(o.files.tree.cursor as int, rows.len() - 1)].node_id as int;
        let n = o.files.tree.nodes@[id];
        let listing = log_listing(o.io_log, n.path@, o.files.show_hidden);
        &&& !n.is_dir ==> f == o
        &&& n.is_dir && listing != Some(None::<Seq<crate::fs_scan::FsEntry>>) ==> f.files.tree.nodes@[id].expanded
            && f.files.tree.nodes@[id].children_loaded
        &&& n.is_dir && !n.children_loaded && listing == Some(None::<Seq<crate::fs_scan::FsEntry>>)
            ==> f.log.toasts@.last().level == ToastLevel::Error && f.log.toasts@.last().message@
            == "Could not expand folder: "@ + log_listing_error(o.io_log, n.path@, o.files.show_hidden)
    }
    &&& o.ui.stage == Stage::Scope && o.ui.scope_tab != ScopeTab::Files ==> r is Ok && f.ui.scope_tab == scope_tab_next(
        o.ui.scope_tab,
    ) && f.ui.stage == o.ui.stage && f == (AppState { ui: f.ui, ..o })
    &&& o.ui.stage == Stage::Naming && o.ui.focus == FocusPane::NamingRight && o.ui.naming_tab == NamingTab::Style
        ==> r is Ok && f.naming.style == style_moved(o.naming.style, o.naming.style_cursor, 1i8) && f == (AppState {
        naming: NamingState { style: f.naming.style, rename_rows: f.naming.rename_rows, ..o.naming },
        ..o
    })
    &&& o.ui.stage == Stage::Naming && !(o.ui.focus == FocusPane::NamingRight && o.ui.naming_tab == NamingTab::Style)
        ==> r is Ok && f == (AppState { ui: UiState { naming_tab: naming_tab_next(o.ui.naming_tab), ..o.ui }, ..o })
    &&& o.ui.stage == Stage::Apply ==> r is Ok && f.ui.focus == FocusPane::ApplyHistory && f == (AppState { ui: f.ui, ..o })
}

/// Right: in the Files list expands the entry, elsewhere in the scope stage goes to the
/// next tab; in the naming stage steps the style setting on (on the style tab) or switches
/// tab; in the apply stage focuses the history.
fn handle_right(app: &mut AppState) -> (r: Result<(), IoRequest>)
    requires
        old(app).wf(),
    ensures
        r is Ok ==> final(app).wf(),
        r matches Err(q) ==> (q matches IoRequest::ListDir { .. }),
        moved_right(*old(app), *final(app), r),
{
    let ghost before = *app;
    match app.ui.stage {
        Stage::Scope => {
            if app.ui.scope_tab == ScopeTab::Files {
                return app.expand_current();
            } else {
                app.next_scope_tab();
                proof { lemma_wf_kept(before, *app); }
            }
        },
        Stage::Naming => {
            if app.ui.focus == FocusPane::NamingRight && app.ui.naming_tab == NamingTab::Style {
                app.apply_style_cursor_delta(1);
            } else {
                app.ui.naming_tab = app.ui.naming_tab.next();
                proof { lemma_wf_kept(before, *app); }
            }
        },
        Stage::Apply => {
            app.set_focus(FocusPane::ApplyHistory);
            proof { lemma_wf_kept(before, *app); }
        },
    }
    Ok(())
}

/// What the selection key does to `o`, giving `f`.
pub open spec fn select_toggled(o: AppState, f: AppState, r: Result<(), IoRequest>) -> bool {
    let normal = o.ui.mode == InputMode::Normal;
    &&& !normal ==> r is Ok && f == o
    &&& normal && o.ui.stage == Stage::Scope && o.ui.scope_tab == ScopeTab::Files ==> file_toggled(o, f, r)
    &&& normal && o.ui.stage == Stage::Scope && o.ui.scope_tab != ScopeTab::Files ==> filter_toggled(o, f, r)
    &&& normal && o.ui.stage == Stage::Naming && o.ui.focus == FocusPane::NamingTable ==> r is Ok && row_toggled(o, f)
    &&& normal && o.ui.stage == Stage::Naming && o.ui.focus != FocusPane::NamingTable ==> r is Ok && f == o
    &&& normal && o.ui.stage == Stage::Apply ==> r is Ok && f == o
}

/// Space in normal mode: toggles the file or the filter under the cursor in the scope
/// stage, or the row in the naming table.
fn handle_toggle_select(app: &mut AppState) -> (r: Result<(), IoRequest>)
    requires
        old(app).wf(),
    ensures
        r is Ok ==> final(app).wf(),
        r matches Err(q) ==> (q matches IoRequest::ListDir { .. }),
        select_toggled(*old(app), *final(app), r),
{
    let ghost before = *app;
    if app.ui.mode != InputMode::Normal {
        return Ok(());
    }
    match app.ui.stage {
        Stage::Scope => {
            if app.ui.scope_tab == ScopeTab::Files {
                app.toggle_scope_file_selection()
            } else {
                app.toggle_current_scope_filter()
            }
        },
        Stage::Naming => {
            if app.ui.focus == FocusPane::NamingTable {
                app.toggle_current_naming_row();
                proof { lemma_wf_kept(before, *app); }
            }
            Ok(())
        },
        Stage::Apply => Ok(()),
    }
}

/// What committing the typed text does to `o`, giving `f`.
pub open spec fn committed(o: AppState, f: AppState, r: Result<(), IoRequest>) -> bool {
    let a = o.ai.ai_settings;
    &&& o.ui.mode != InputMode::Normal ==> r is Ok
    &&& o.ui.mode == InputMode::EditingOverride ==> match o.naming.editing_row {
        Some(i) if i < o.naming.rename_rows@.len() => {
            let value = trim(o.naming.override_input@);
            &&& exists|ov: Option<String>|
                opt_view(ov) == (if value.len() == 0 { None } else { Some(value) }) && proposals_redone(
                    o,
                    #[trigger] with_override(o.naming.rename_rows@, i as int, ov),
                    f.naming.rename_rows@,
                )
            &&& f.ui.mode == InputMode::Normal
            &&& f.naming.editing_row is None
            &&& f.naming.override_input@.len() == 0
            &&& f.log.toasts@.last().message@ == "Override updated"@
        },
        _ => f == o,
    }
    &&& o.ui.mode == InputMode::Command ==> {
        let cmd = trim(o.naming.command_input@);
        &&& f.ui.mode == InputMode::Normal
        &&& f.naming.command_input@.len() == 0
        &&& cmd.len() == 0 ==> f.log.toasts@.last().level == ToastLevel::Warning
        &&& cmd.len() > 0 ==> string_views(f.history.prompt_history@) == history_recorded(
            string_views(o.history.prompt_history@),
            cmd,
        )
    }
    &&& o.ui.mode == InputMode::NewCategory ==> {
        let raw = trim(o.filters.new_category_input@);
        let (name, ext_part) = category_parts(raw);
        let exts = category_extensions(ext_part);
        &&& raw.len() > 0 && exts.len() > 0 ==> f.filters.category_filters@.drop_last() == o.filters.category_filters@
            && f.filters.category_filters@.len() == o.filters.category_filters@.len() + 1
            && f.filters.category_filters@.last()@ == (name, exts) && f.ui.mode == InputMode::Normal
        &&& !(raw.len() > 0 && exts.len() > 0) ==> f.filters == o.filters && f.ui == o.ui
            && f.log.toasts@.last().level == ToastLevel::Warning
    }
    &&& o.ui.mode == InputMode::EditingAiApiKey ==> opt_string_view(f.ai.ai_settings.api_key) == (if trim(
        a.api_key_input@,
    ).len() > 0 {
        Some(trim(a.api_key_input@))
    } else {
        None
    }) && f == (AppState {
        ui: UiState { mode: InputMode::Normal, ..o.ui },
        ai: AiState { ai_settings: AiSettingsState { api_key: f.ai.ai_settings.api_key, ..a }, ..o.ai },
        ..o
    })
    &&& o.ui.mode == InputMode::EditingAiManualModel ==> opt_string_view(f.ai.ai_settings.selected_model) == (if trim(
        a.manual_model_input@,
    ).len() > 0 {
        Some(trim(a.manual_model_input@))
    } else {
        None
    }) && f == (AppState {
        ui: UiState { mode: InputMode::Normal, ..o.ui },
        ai: AiState { ai_settings: AiSettingsState { selected_model: f.ai.ai_settings.selected_model, ..a }, ..o.ai },
        ..o
    })
    &&& o.ui.mode == InputMode::EditingAiModelSearch || o.ui.mode == InputMode::AwaitGroup ==> f == (AppState {
        ui: UiState { mode: InputMode::Normal, ..o.ui },
        ..o
    })
    &&& o.ui.mode == InputMode::Normal && o.ui.stage == Stage::Scope ==> filter_toggled(o, f, r)
    &&& o.ui.mode == InputMode::Normal && o.ui.stage == Stage::Naming ==> r is Ok && (if o.ui.focus
        == FocusPane::NamingRight && o.ui.naming_tab == NamingTab::Suggestions {
        suggestion_applied(o, f)
    } else {
        f == o
    })
    &&& o.ui.mode == InputMode::Normal && o.ui.stage == Stage::Apply ==> r is Ok && submitted(o, f, false)
}

/// Enter: ends the typing under way (the override, the prompt, the new category, the key
/// or model typed), or in normal mode toggles the scope filter, applies the suggestion, or
/// submits the simulated apply and quits.
#[verifier::spinoff_prover]
#[verifier::rlimit(100)]
fn handle_commit(app: &mut AppState) -> (r: Result<(), IoRequest>)
    requires
        old(app).wf(),
    ensures
        r is Ok ==> final(app).wf(),
        r matches Err(q) ==> (q matches IoRequest::ListDir { .. }),
        committed(*old(app), *final(app), r),
{
    let ghost before = *app;
    match app.ui.mode {
        InputMode::EditingOverride => app.commit_override_edit(),
        InputMode::Command => {
            app.apply_command_input();
            proof { lemma_wf_kept(before, *app); }
        },
        InputMode::NewCategory => {
            app.add_custom_category_from_input();
            proof { lemma_wf_kept(before, *app); }
        },
        InputMode::EditingAiApiKey => {
            let value = trim_str(app.ai.ai_settings.api_key_input.as_str());
            app.ai.ai_settings.api_key = if value.as_str().is_empty() { None } else { Some(value) };
            app.ui.mode = InputMode::Normal;
            proof { lemma_wf_kept(before, *app); }
        },
        InputMode::EditingAiModelSearch => {
            app.ui.mode = InputMode::Normal;
            proof { lemma_wf_kept(before, *app); }
        },
        InputMode::EditingAiManualModel => {
            let value = trim_str(app.ai.ai_settings.manual_model_input.as_str());
            app.ai.ai_settings.selected_model = if value.as_str().is_empty() { None } else { Some(value) };
            app.ui.mode = InputMode::Normal;
            proof { lemma_wf_kept(before, *app); }
        },
        InputMode::AwaitGroup => {
            app.ui.mode = InputMode::Normal;
            proof { lemma_wf_kept(before, *app); }
        },
        InputMode::Normal => match app.ui.stage {
            Stage::Scope => return app.toggle_current_scope_filter(),
            Stage::Naming => {
                if app.ui.focus == FocusPane::NamingRight && app.ui.naming_tab == NamingTab::Suggestions {
                    app.apply_suggestion();
                }
            },
            Stage::Apply => {
                app.submit_simulated(false);
                proof { lemma_wf_kept(before, *app); }
            },
        },
    }
    Ok(())
}

/// `after` is `before` with the Files tab shown and its pane focused (the stage and typing
/// mode kept), and the Files cursor then put on row `index`, as `files_cursor_moved` says.
pub open spec fn at_files_row(before: AppState, after: AppState, index: int) -> bool {
    &&& after.ui.scope_tab == ScopeTab::Files
    &&& after.ui.focus == FocusPane::ScopeFiles
    &&& after.ui.stage == before.ui.stage
    &&& after.ui.mode == before.ui.mode
    &&& after.ui.click_regions == before.ui.click_regions
    &&& files_cursor_moved((AppState { ui: after.ui, ..before }), after, index, before.files.tree.scroll as int)
}

/// Puts the Files cursor on row `index` of the Files tab, with the Files pane focused.
fn focus_files_row(app: &mut AppState, index: usize)
    requires
        old(app).wf(),
    ensures
        final(app).wf(),
        at_files_row(*old(app), *final(app), index as int),
{
    let ghost before = *app;
    app.set_scope_tab(ScopeTab::Files);
    app.set_focus(FocusPane::ScopeFiles);
    proof { lemma_wf_kept(before, *app); }
    app.set_files_cursor(index);
}

/// Reports a failed selection change in a toast.
fn report_selection(app: &mut AppState, r: Result<(), String>)
    requires
        old(app).wf(),
    ensures
        final(app).wf(),
        r is Ok ==> *final(app) == *old(app),
        r matches Err(e) ==> final(app).log.toasts@.last().level == ToastLevel::Error && final(app).log.toasts@.last().message@
            == "Selection update failed: "@ + e@ && *final(app) == (AppState { log: final(app).log, ..*old(app) }),
{
    let ghost before = *app;
    match r {
        Ok(()) => {},
        Err(e) => {
            let msg = concat("Selection update failed: ", e.as_str());
            app.push_toast(ToastLevel::Error, msg);
            proof { lemma_wf_kept(before, *app); }
        },
    }
}

/// What a click on a region of the scope stage does: a tab is shown; a Files row is picked
/// and the folder on it opens or closes; a checkbox is picked and its file toggled; the
/// settings button opens or closes the Files settings; the setting toggles showing only the
/// selected categories; a category, constraint, preset or marketplace row is picked and
/// applied; a pane is focused. Any other target changes nothing.
pub open spec fn scope_clicked(o: AppState, f: AppState, target: ClickTarget, r: Result<(), IoRequest>) -> bool {
    let rows = scope_rows(o);
    let fl = o.filters;
    match target {
        ClickTarget::ScopeTab(tab) => r is Ok && f.ui.scope_tab == tab && f == (AppState { ui: f.ui, ..o }),
        ClickTarget::ScopeFileRow(i) => {
            &&& r matches Err(q) ==> missing_dir(o, q)
            &&& rows.len() == 0 || o.ui.stage != Stage::Scope ==> r is Ok
            &&& rows.len() > 0 && o.ui.stage == Stage::Scope ==> {
                let n = o.files.tree.nodes@[rows[min_int(i as int, rows.len() - 1)].node_id as int];
                &&& r is Ok <==> !(n.is_dir && !n.expanded && !n.children_loaded && log_listing(o.io_log, n.path@, o.files.show_hidden) is None)
                &&& r matches Err(q) ==> lists_dir(q, n.path@, o.files.show_hidden)
            }
            &&& r is Ok && rows.len() > 0 && o.ui.stage == Stage::Scope ==> {
                let id = rows[min_int(i as int, rows.len() - 1)].node_id as int;
                let n = o.files.tree.nodes@[id];
                &&& n.is_dir && n.expanded ==> !f.files.tree.nodes@[id].expanded
                &&& n.is_dir && !n.expanded && log_listing(o.io_log, n.path@, o.files.show_hidden) != Some(None::<Seq<crate::fs_scan::FsEntry>>)
                    ==> f.files.tree.nodes@[id].expanded
                &&& !n.is_dir ==> f.files.tree.nodes == o.files.tree.nodes
            }
        },
        ClickTarget::ScopeFileCheckbox(i) => {
            &&& rows.len() == 0 ==> r is Ok
            &&& rows.len() > 0 && !o.files.tree.nodes@[rows[min_int(i as int, rows.len() - 1)].node_id as int].is_dir ==> (r is Ok
                <==> scan_walk(o) is Some) && (r matches Err(q) ==> lists_dir(q, scan_needs(o), o.files.show_hidden))
            &&& r is Ok && rows.len() > 0 ==> {
                let id = rows[min_int(i as int, rows.len() - 1)].node_id as int;
                !o.files.tree.nodes@[id].is_dir ==> f.files.tree.nodes@[id].selected == !shown_selected(o.files.tree.nodes@, id)
            }
        },
        ClickTarget::ScopeFilesSettingsButton => r is Ok && f.ui.scope_tab == ScopeTab::Files && f.ui.focus == FocusPane::ScopeFiles
            && f == (AppState {
            ui: f.ui,
            files: FilesState { files_settings_open: !o.files.files_settings_open, ..o.files },
            ..o
        }),
        ClickTarget::ScopeFilesSettingShowSelectedCategoriesOnly => r is Ok && f.ui.scope_tab == ScopeTab::Files
            && f.files.show_selected_categories_only == !o.files.show_selected_categories_only,
        ClickTarget::ScopeCategoryRow(i) => {
            &&& i < fl.category_filters@.len() ==> (r is Ok <==> scan_walk(o) is Some)
            &&& i >= fl.category_filters@.len() ==> r is Ok
            &&& r matches Err(q) ==> lists_dir(q, scan_needs(o), o.files.show_hidden)
            &&& r is Ok ==> f.ui.scope_tab == ScopeTab::Select && f.filters.select_cursor == i
                && f.filters.category_filters == fl.category_filters
            &&& r is Ok && i < fl.category_filters@.len() ==> {
                let cat = fl.category_filters@[i as int];
                let all = forall|k: int| 0 <= k < cat.extensions@.len() ==> has_text(fl.selected_extensions@, (#[trigger] cat.extensions@[k])@);
                &&& forall|x: Seq<char>| has_text(f.filters.selected_extensions@, x) <==> if has_text(cat.extensions@, x) {
                    !all
                } else {
                    has_text(fl.selected_extensions@, x)
                }
                &&& f.log.toasts@.last().message@ == (if all { "Disabled "@ } else { "Enabled "@ }) + cat.name@
            }
        },
        ClickTarget::ScopeConstraintRow(i) => {
            &&& r is Ok <==> scan_walk(o) is Some
            &&& r matches Err(q) ==> lists_dir(q, scan_needs(o), o.files.show_hidden)
            &&& r is Ok ==> f.ui.scope_tab == ScopeTab::Constraint && f.filters.constraint_cursor == i
            &&& r is Ok ==> f.filters.time_constraint == (if i < TIME_CONSTRAINT_COUNT {
                time_constraint_at(i as int)
            } else {
                fl.time_constraint
            })
            &&& r is Ok ==> f.filters.size_constraint == (if TIME_CONSTRAINT_COUNT <= i < TIME_CONSTRAINT_COUNT + SIZE_CONSTRAINT_COUNT {
                size_constraint_at(i - TIME_CONSTRAINT_COUNT)
            } else {
                fl.size_constraint
            })
        },
        ClickTarget::ScopePresetRow(i) => {
            let slot = ((i + 1) % 256) as u8;
            &&& r is Ok ==> preset_loaded(o, f, slot)
            &&& !(1 <= slot <= 9 && fl.presets@[slot - 1] is Some) ==> r is Ok
            &&& 1 <= slot <= 9 && fl.presets@[slot - 1] is Some ==> ({
                let h = fl.presets@[slot - 1]->0.show_hidden;
                &&& r is Ok <==> root_walk(o.io_log, h, o.cwd@) is Some
                &&& r matches Err(q) ==> lists_dir(q, root_needs(o.io_log, h, o.cwd@), h)
            })
            &&& 1 <= slot <= 9 && fl.presets@[slot - 1] is None ==> f.log.toasts@.last().message@ == "Preset "@ + spec_decimal(
                slot as u64,
            ) + " is empty"@
        },
        ClickTarget::ScopeMarketplaceRow(i) => {
            &&& i >= fl.marketplace_presets@.len() ==> r is Ok
            &&& i < fl.marketplace_presets@.len() ==> (r is Ok <==> scan_walk(o) is Some)
            &&& r matches Err(q) ==> lists_dir(q, scan_needs(o), o.files.show_hidden)
            &&& r is Ok && i < fl.marketplace_presets@.len() ==> {
                let p = fl.marketplace_presets@[i as int];
                &&& forall|x: Seq<char>| has_text(f.filters.selected_extensions@, x) <==> has_text(p.extensions@, x)
                &&& f.filters.time_constraint == p.time_constraint
                &&& f.log.toasts@.last().message@ == "Applied marketplace preset: "@ + p.name@
            }
        },
        ClickTarget::ScopePane(focus) => r is Ok && f.ui.focus == focus && f == (AppState { ui: f.ui, ..o }),
        _ => r is Ok && f == o,
    }
}

/// A click on a region of the scope stage.
#[verifier::spinoff_prover]
#[verifier::rlimit(80)]
fn click_scope_target(app: &mut AppState, target: ClickTarget) -> (r: Result<(), IoRequest>)
    requires
        old(app).wf(),
    ensures
        r is Ok ==> final(app).wf(),
        r matches Err(q) ==> (q matches IoRequest::ListDir { .. }),
        scope_clicked(*old(app), *final(app), target, r),
{
    let ghost before = *app;
    match target {
        ClickTarget::ScopeTab(tab) => {
            app.set_scope_tab(tab);
            proof { lemma_wf_kept(before, *app); }
        },
        ClickTarget::ScopeFileRow(index) => {
            app.set_scope_tab(ScopeTab::Files);
            proof { lemma_wf_kept(before, *app); }
            let ghost s1 = *app;
            app.set_files_cursor(index);
            let ghost mid = *app;
            proof {
                crate::scope::lemma_scope_rows_frame(before, s1);
                crate::scope::lemma_scope_rows_frame(before, mid);
                let rows = scope_rows(before);
                if rows.len() > 0 {
                    assert(mid.files.tree.cursor == min_int(index as int, rows.len() - 1));
                    assert(min_int(mid.files.tree.cursor as int, rows.len() - 1) == min_int(index as int, rows.len() - 1));
                }
                assert(mid.files.tree.nodes == before.files.tree.nodes);
                assert(mid.io_log == before.io_log && mid.files.show_hidden == before.files.show_hidden);
                assert(mid.ui.scope_tab == ScopeTab::Files && mid.ui.stage == before.ui.stage);
            }
            match app.current_scope_file_node_id() {
                Some(node_id) => {
                    if app.files.tree.nodes[node_id].is_dir {
                        if app.files.tree.nodes[node_id].expanded {
                            app.collapse_current();
                        } else {
                            let r = app.expand_current();
                            assert(r matches Err(q) ==> missing_dir(mid, q));
                            return r;
                        }
                    }
                },
                None => {},
            }
        },
        ClickTarget::ScopeFileCheckbox(index) => {
            focus_files_row(app, index);
            let ghost mid = *app;
            app.clear_scope_file_focus_nodes();
            proof {
                lemma_wf_kept(mid, *app);
                crate::scope::lemma_scope_rows_frame(before, (AppState { ui: mid.ui, ..before }));
                crate::scope::lemma_scope_rows_frame(before, mid);
                crate::scope::lemma_scope_rows_frame(mid, *app);
                let rows = scope_rows(before);
                if rows.len() > 0 {
                    assert(app.files.tree.cursor == min_int(index as int, rows.len() - 1));
                }
                assert(app.files.tree.nodes == before.files.tree.nodes);
            }
            return app.toggle_scope_file_selection();
        },
        ClickTarget::ScopeFilesSettingsButton => {
            app.set_scope_tab(ScopeTab::Files);
            app.set_focus(FocusPane::ScopeFiles);
            app.toggle_files_settings_popup();
            proof { lemma_wf_kept(before, *app); }
        },
        ClickTarget::ScopeFilesSettingShowSelectedCategoriesOnly => {
            app.set_scope_tab(ScopeTab::Files);
            app.set_focus(FocusPane::ScopeFiles);
            proof { lemma_wf_kept(before, *app); }
            app.toggle_show_selected_categories_only();
        },
        ClickTarget::ScopeCategoryRow(index) => {
            app.set_scope_tab(ScopeTab::Select);
            app.filters.select_cursor = index;
            proof { lemma_wf_kept(before, *app); }
            return app.toggle_current_scope_filter();
        },
        ClickTarget::ScopeConstraintRow(index) => {
            app.set_scope_tab(ScopeTab::Constraint);
            app.filters.constraint_cursor = index;
            proof { lemma_wf_kept(before, *app); }
            return app.toggle_current_scope_filter();
        },
        ClickTarget::ScopePresetRow(index) => {
            app.set_scope_tab(ScopeTab::Preset);
            app.filters.preset_cursor = index;
            proof { lemma_wf_kept(before, *app); }
            let slot = ((index % 256 + 1) % 256) as u8;
            assert(slot == ((index + 1) % 256) as u8);
            return app.load_preset(slot);
        },
        ClickTarget::ScopeMarketplaceRow(index) => {
            app.set_scope_tab(ScopeTab::Marketplace);
            app.filters.marketplace_cursor = index;
            proof { lemma_wf_kept(before, *app); }
            return app.apply_marketplace(index);
        },
        ClickTarget::ScopePane(focus) => {
            app.set_focus(focus);
            proof { lemma_wf_kept(before, *app); }
        },
        _ => {},
    }
    Ok(())
}

/// What asking for suggestions does, as `trigger_naming_suggestions_refresh` states it:
/// without a key and model the status asks for them; with no rows it goes idle; otherwise
/// a request for every row goes to the worker (or the status turns to an error when no
/// worker runs).
pub open spec fn refresh_asked(o: AppState, f: AppState) -> bool {
    let a = o.ai;
    let rows = o.naming.rename_rows@;
    &&& !has_minimum_config(a.ai_settings) ==> f.ai.naming_ai_status == NamingAiStatus::NeedsConfig
        && f.log.toasts@.last().message@ == needs_config_message() && f == (AppState { ai: f.ai, log: f.log, ..o })
    &&& has_minimum_config(a.ai_settings) && rows.len() == 0 ==> f == (AppState {
        ai: AiState { naming_ai_status: NamingAiStatus::Idle, ..a },
        ..o
    })
    &&& has_minimum_config(a.ai_settings) && rows.len() > 0 && a.ai_worker_available ==> {
        &&& f.ai.naming_ai_status == NamingAiStatus::AnalyzingFiles
        &&& f.ai.ai_active_request_id == Some(a.ai_next_request_id)
        &&& (f.ai.ai_outbox@.last() matches AiWorkerCommand::GenerateSuggestions { request_id, paths, user_prompt: None, .. }
            && request_id == a.ai_next_request_id && string_views(paths@) == row_paths(rows))
        &&& f == (AppState { ai: f.ai, ..o })
    }
    &&& has_minimum_config(a.ai_settings) && rows.len() > 0 && !a.ai_worker_available ==> f.ai.naming_ai_status
        == NamingAiStatus::Error && f == (AppState { ai: f.ai, ..o })
}

/// `f` is `o` with the AI settings field `field` made active, typing into it when it is a
/// text field.
pub open spec fn field_focused(o: AppState, f: AppState, field: AiSettingsField) -> bool {
    f == (AppState {
        ui: UiState { mode: field_mode(field), ..o.ui },
        ai: AiState { ai_settings: AiSettingsState { active_field: field, ..o.ai.ai_settings }, ..o.ai },
        ..o
    })
}

/// What a click on a region of the naming stage does: a pane is focused (the prompt pane
/// starts typing); a row is picked and toggled; a suggestion is picked and applied; the
/// settings button opens or closes the settings; the refresh button asks for suggestions;
/// a settings field becomes active; save writes the settings; clear forgets the key; the
/// reveal button shows or hides it; discover asks for the model list; a model row picks
/// that model; an option button sets the row's option; a style row is picked. Any other
/// target changes nothing.
#[verifier::opaque]
pub open spec fn naming_clicked(o: AppState, f: AppState, target: ClickTarget) -> bool {
    let a = o.ai.ai_settings;
    match target {
        ClickTarget::NamingPane(focus) => f.ui.focus == focus && f.ui.mode == (if focus == FocusPane::NamingCommand {
            InputMode::Command
        } else {
            o.ui.mode
        }) && f == (AppState { ui: f.ui, ..o }),
        ClickTarget::NamingRow(i) => f.ui.focus == FocusPane::NamingTable && row_toggled(
            (AppState { ui: f.ui, naming: NamingState { rename_cursor: i, ..o.naming }, ..o }),
            f,
        ),
        ClickTarget::NamingSuggestion(i) => f.ui.focus == FocusPane::NamingRight && f.ui.naming_tab == NamingTab::Suggestions
            && suggestion_applied((AppState { ui: f.ui, naming: NamingState { suggestion_cursor: i, ..o.naming }, ..o }), f),
        ClickTarget::NamingSuggestionsSettingsButton => {
            &&& f.ui.focus == FocusPane::NamingRight
            &&& f.ui.naming_tab == NamingTab::Suggestions
            &&& f.ai.ai_settings == (AiSettingsState { popup_open: !a.popup_open, ..a })
            &&& f.ui.mode == (if a.popup_open { InputMode::Normal } else { o.ui.mode })
            &&& f == (AppState { ui: f.ui, ai: AiState { ai_settings: f.ai.ai_settings, ..o.ai }, ..o })
        },
        ClickTarget::NamingSuggestionsRefreshButton => f.ui.focus == FocusPane::NamingRight && f.ui.naming_tab
            == NamingTab::Suggestions && refresh_asked((AppState { ui: f.ui, ..o }), f),
        ClickTarget::NamingAiSettingsApiKeyField => field_focused(o, f, AiSettingsField::ApiKey),
        ClickTarget::NamingAiSettingsModelSearchField => field_focused(o, f, AiSettingsField::ModelSearch),
        ClickTarget::NamingAiSettingsManualModelField => field_focused(o, f, AiSettingsField::ManualModel),
        ClickTarget::NamingAiSettingsSaveConfig => {
            let n = f.ai.ai_settings;
            &&& opt_string_view(n.api_key) == (if trim(a.api_key_input@).len() > 0 {
                Some(trim(a.api_key_input@))
            } else {
                opt_string_view(a.api_key)
            })
            &&& opt_string_view(n.selected_model) == (if trim(a.manual_model_input@).len() > 0 {
                Some(trim(a.manual_model_input@))
            } else {
                opt_string_view(a.selected_model)
            })
            &&& f.io_outbox@.drop_last() == o.io_outbox@
            &&& (f.io_outbox@.last() matches IoRequest::SaveConfig(c) && c@ == (opt_string_view(n.api_key), opt_string_view(n.selected_model)))
            &&& f == (AppState {
                ai: AiState { ai_settings: AiSettingsState { api_key: n.api_key, selected_model: n.selected_model, ..a }, naming_ai_status: f.ai.naming_ai_status, ..o.ai },
                io_outbox: f.io_outbox,
                ..o
            })
        },
        ClickTarget::NamingAiSettingsClearApiKey => {
            &&& f.ai.ai_settings.api_key is None
            &&& f.ai.ai_settings.api_key_input@.len() == 0
            &&& f.ai.naming_ai_status == NamingAiStatus::NeedsConfig
            &&& f.log.toasts@.last().message@ == "Cleared OpenRouter API key"@
        },
        ClickTarget::NamingAiSettingsToggleReveal => f == (AppState {
            ai: AiState { ai_settings: AiSettingsState { reveal_api_key: !a.reveal_api_key, ..a }, ..o.ai },
            ..o
        }),
        ClickTarget::NamingAiSettingsDiscoverModels => {
            &&& f.ai.ai_active_request_id == Some(o.ai.ai_next_request_id)
            &&& o.ai.ai_worker_available ==> f.ai.naming_ai_status == NamingAiStatus::DiscoveringModels && f.ai.ai_outbox@
                == o.ai.ai_outbox@.push(AiWorkerCommand::DiscoverModels { request_id: o.ai.ai_next_request_id, api_key: a.api_key })
            &&& !o.ai.ai_worker_available ==> f.ai.naming_ai_status == NamingAiStatus::Error
            &&& f == (AppState { ai: f.ai, ..o })
        },
        ClickTarget::NamingAiSettingsModelRow(k) => {
            let idx = shown_models(a.discovered_models@, model_query(a));
            &&& k >= idx.len() ==> f == o
            &&& k < idx.len() ==> (f.ai.ai_settings.selected_model matches Some(m) && m@ == a.discovered_models@[idx[k as int]].id@)
                && f.ai.ai_settings.model_list_cursor == k
        },
        ClickTarget::NamingRowSuggestionOption { row_index, option_index } => {
            let rows = o.naming.rename_rows@;
            let last = if rows.len() > 0 { rows.len() - 1 } else { 0 };
            let c = if row_index < last { row_index as int } else { last };
            let g = if option_index < 2 { option_index } else { 2 };
            match o.naming.suggestion_set {
                Some(set) if rows.len() > 0 => {
                    &&& f.naming.rename_cursor == c
                    &&& (f.naming.suggestion_set matches Some(ns) && index_at(ns.per_path_override_index@, rows[c].path@) == Some(g))
                },
                _ => f == (AppState { naming: NamingState { rename_cursor: c as usize, ..o.naming }, ..o }),
            }
        },
        ClickTarget::NamingStyleRow(i) => f.ui.focus == FocusPane::NamingRight && f.ui.naming_tab == NamingTab::Style && f == (AppState {
            ui: f.ui,
            naming: NamingState { style_cursor: i, ..o.naming },
            ..o
        }),
        _ => f == o,
    }
}

/// A click on a naming pane, a rename row, a suggestion, an option button or a style row.
#[verifier::spinoff_prover]
#[verifier::rlimit(60)]
fn click_naming_rows(app: &mut AppState, target: ClickTarget)
    requires
        old(app).wf(),
        target matches ClickTarget::NamingPane(_) || target matches ClickTarget::NamingRow(_) || target matches ClickTarget::NamingSuggestion(_) || target matches ClickTarget::NamingRowSuggestionOption { .. } || target matches ClickTarget::NamingStyleRow(_),
    ensures
        final(app).wf(),
        naming_clicked(*old(app), *final(app), target),
{
    let ghost before = *app;
    match target {
        ClickTarget::NamingPane(focus) => {
            app.set_focus(focus);
            if focus == FocusPane::NamingCommand {
                app.ui.mode = InputMode::Command;
            }
            proof { lemma_wf_kept(before, *app); }
            assert(naming_clicked(before, *app, target)) by { reveal(naming_clicked); }
        },
        ClickTarget::NamingRow(index) => {
            app.set_focus(FocusPane::NamingTable);
            app.naming.rename_cursor = index;
            app.toggle_current_naming_row();
            proof { lemma_wf_kept(before, *app); }
            assert(naming_clicked(before, *app, target)) by { reveal(naming_clicked); }
        },
        ClickTarget::NamingSuggestion(index) => {
            app.set_focus(FocusPane::NamingRight);
            app.ui.naming_tab = NamingTab::Suggestions;
            app.naming.suggestion_cursor = index;
            proof { lemma_wf_kept(before, *app); }
            app.apply_suggestion();
            assert(naming_clicked(before, *app, target)) by { reveal(naming_clicked); }
        },
        ClickTarget::NamingRowSuggestionOption { row_index, option_index } => {
            let n = app.naming.rename_rows.len();
            let last = if n > 0 { n - 1 } else { 0 };
            app.naming.rename_cursor = if row_index < last { row_index } else { last };
            proof { lemma_wf_kept(before, *app); }
            app.set_row_suggestion_option(option_index);
            assert(naming_clicked(before, *app, target)) by { reveal(naming_clicked); }
        },
        ClickTarget::NamingStyleRow(index) => {
            app.set_focus(FocusPane::NamingRight);
            app.ui.naming_tab = NamingTab::Style;
            app.naming.style_cursor = index;
            proof { lemma_wf_kept(before, *app); }
            assert(naming_clicked(before, *app, target)) by { reveal(naming_clicked); }
        },
        _ => {},
    }
}

/// A click on the suggestion buttons or a text field of the AI settings.
#[verifier::spinoff_prover]
#[verifier::rlimit(60)]
fn click_naming_controls(app: &mut AppState, target: ClickTarget)
    requires
        old(app).wf(),
        target matches ClickTarget::NamingSuggestionsSettingsButton || target matches ClickTarget::NamingSuggestionsRefreshButton || target matches ClickTarget::NamingAiSettingsApiKeyField || target matches ClickTarget::NamingAiSettingsModelSearchField || target matches ClickTarget::NamingAiSettingsManualModelField,
    ensures
        final(app).wf(),
        naming_clicked(*old(app), *final(app), target),
{
    let ghost before = *app;
    match target {
        ClickTarget::NamingSuggestionsSettingsButton => {
            app.set_focus(FocusPane::NamingRight);
            app.ui.naming_tab = NamingTab::Suggestions;
            app.toggle_naming_suggestions_settings();
            proof { lemma_wf_kept(before, *app); }
            assert(naming_clicked(before, *app, target)) by { reveal(naming_clicked); }
        },
        ClickTarget::NamingSuggestionsRefreshButton => {
            app.set_focus(FocusPane::NamingRight);
            app.ui.naming_tab = NamingTab::Suggestions;
            app.trigger_naming_suggestions_refresh();
            proof { lemma_wf_kept(before, *app); }
            assert(naming_clicked(before, *app, target)) by { reveal(naming_clicked); }
        },
        ClickTarget::NamingAiSettingsApiKeyField => {
            app.focus_ai_settings_field(AiSettingsField::ApiKey);
            proof { lemma_wf_kept(before, *app); }
            assert(naming_clicked(before, *app, target)) by { reveal(naming_clicked); }
        },
        ClickTarget::NamingAiSettingsModelSearchField => {
            app.focus_ai_settings_field(AiSettingsField::ModelSearch);
            proof { lemma_wf_kept(before, *app); }
            assert(naming_clicked(before, *app, target)) by { reveal(naming_clicked); }
        },
        ClickTarget::NamingAiSettingsManualModelField => {
            app.focus_ai_settings_field(AiSettingsField::ManualModel);
            proof { lemma_wf_kept(before, *app); }
            assert(naming_clicked(before, *app, target)) by { reveal(naming_clicked); }
        },
        _ => {},
    }
}

/// A click on an action or a model row of the AI settings.
#[verifier::spinoff_prover]
#[verifier::rlimit(60)]
fn click_naming_settings(app: &mut AppState, target: ClickTarget)
    requires
        old(app).wf(),
        target matches ClickTarget::NamingAiSettingsSaveConfig || target matches ClickTarget::NamingAiSettingsClearApiKey || target matches ClickTarget::NamingAiSettingsToggleReveal || target matches ClickTarget::NamingAiSettingsDiscoverModels || target matches ClickTarget::NamingAiSettingsModelRow(_),
    ensures
        final(app).wf(),
        naming_clicked(*old(app), *final(app), target),
{
    let ghost before = *app;
    match target {
        ClickTarget::NamingAiSettingsSaveConfig => {
            app.save_ai_settings_to_disk();
            proof { lemma_wf_kept(before, *app); }
            assert(naming_clicked(before, *app, target)) by { reveal(naming_clicked); }
        },
        ClickTarget::NamingAiSettingsClearApiKey => {
            app.clear_ai_api_key();
            proof { lemma_wf_kept(before, *app); }
            assert(naming_clicked(before, *app, target)) by { reveal(naming_clicked); }
        },
        ClickTarget::NamingAiSettingsToggleReveal => {
            app.ai.ai_settings.reveal_api_key = !app.ai.ai_settings.reveal_api_key;
            proof { lemma_wf_kept(before, *app); }
            assert(naming_clicked(before, *app, target)) by { reveal(naming_clicked); }
        },
        ClickTarget::NamingAiSettingsDiscoverModels => {
            app.discover_openrouter_models();
            proof { lemma_wf_kept(before, *app); }
            assert(naming_clicked(before, *app, target)) by { reveal(naming_clicked); }
        },
        ClickTarget::NamingAiSettingsModelRow(index) => {
            app.select_ai_model_by_filtered_index(index);
            proof { lemma_wf_kept(before, *app); }
            assert(naming_clicked(before, *app, target)) by { reveal(naming_clicked); }
        },
        _ => {},
    }
}

/// A click on a region of the naming stage.
fn click_naming_target(app: &mut AppState, target: ClickTarget)
    requires
        old(app).wf(),
    ensures
        final(app).wf(),
        naming_clicked(*old(app), *final(app), target),
{
    let ghost before = *app;
    match target {
        ClickTarget::NamingPane(_) | ClickTarget::NamingRow(_) | ClickTarget::NamingSuggestion(_) | ClickTarget::NamingRowSuggestionOption { .. } | ClickTarget::NamingStyleRow(_) => click_naming_rows(app, target),
        ClickTarget::NamingSuggestionsSettingsButton | ClickTarget::NamingSuggestionsRefreshButton | ClickTarget::NamingAiSettingsApiKeyField | ClickTarget::NamingAiSettingsModelSearchField | ClickTarget::NamingAiSettingsManualModelField => click_naming_controls(app, target),
        ClickTarget::NamingAiSettingsSaveConfig | ClickTarget::NamingAiSettingsClearApiKey | ClickTarget::NamingAiSettingsToggleReveal | ClickTarget::NamingAiSettingsDiscoverModels | ClickTarget::NamingAiSettingsModelRow(_) => click_naming_settings(app, target),
        _ => {
            assert(naming_clicked(before, *app, target)) by { reveal(naming_clicked); }
        },
    }
}

/// What a click on a region does (see `handle_click_target`).
pub open spec fn clicked(o: AppState, f: AppState, target: ClickTarget, r: Result<(), IoRequest>) -> bool {
    match target {
        ClickTarget::StageTab(stage) => {
            &&& r is Ok ==> f.ui.stage == stage && f.ui.focus == stage_focus_list(stage)[0]
            &&& stage != Stage::Naming ==> r is Ok && f == (AppState { ui: f.ui, ..o })
            &&& r matches Err(q) ==> missing_listing(o.io_log, o.files.show_hidden, q)
        },
        ClickTarget::ApplyPane(focus) => r is Ok && f.ui.focus == focus && f == (AppState { ui: f.ui, ..o }),
        ClickTarget::ApplyRow(i) => r is Ok && f.ui.focus == FocusPane::ApplyReview && f == (AppState {
            ui: f.ui,
            apply: ApplyState { apply_cursor: i, ..o.apply },
            ..o
        }),
        ClickTarget::ApplyHistoryRow(i) => r is Ok && f.ui.focus == FocusPane::ApplyHistory && f == (AppState {
            ui: f.ui,
            apply: ApplyState { history_cursor: i, ..o.apply },
            ..o
        }),
        ClickTarget::LogCopyLine(i) => {
            &&& r is Ok
            &&& i < o.log.logs@.len() ==> f == (AppState { io_outbox: f.io_outbox, ..o }) && f.io_outbox@ == o.io_outbox@.push(
                IoRequest::CopyText(o.log.logs@[i as int]),
            )
            &&& i >= o.log.logs@.len() ==> f == o
        },
        ClickTarget::LogOverlay | ClickTarget::ScopeFilesScrollbarTrack | ClickTarget::ScopeFilesScrollbarThumb => r is Ok && f == o,
        _ => if scope_target(target) {
            scope_clicked(o, f, target, r)
        } else {
            r is Ok && naming_clicked(o, f, target)
        },
    }
}

/// What a click on a region does: each target goes to its stage, tab, pane or row and
/// acts on it (a folder row opens or closes, a checkbox toggles, a category, constraint,
/// preset or marketplace row applies, a suggestion applies, the settings buttons act, a
/// log line is copied).
pub fn handle_click_target(app: &mut AppState, target: ClickTarget) -> (r: Result<(), IoRequest>)
    requires
        old(app).wf(),
    ensures
        r is Ok ==> final(app).wf(),
        r matches Err(q) ==> (q matches IoRequest::ListDir { .. }),
        clicked(*old(app), *final(app), target, r),
{
    let ghost before = *app;
    match target {
        ClickTarget::StageTab(stage) => {
            let r = app.set_stage(stage);
            assert(r is Ok ==> app.ui.stage == stage && app.ui.focus == stage_focus_list(stage)[0]);
            assert(stage != Stage::Naming ==> r is Ok && *app == (AppState { ui: app.ui, ..before }));
            assert(r matches Err(q) ==> missing_listing(before.io_log, before.files.show_hidden, q));
            assert(clicked(before, *app, target, r));
            r
        },
        ClickTarget::ScopeTab(_) | ClickTarget::ScopeFileRow(_) | ClickTarget::ScopeFileCheckbox(_)
        | ClickTarget::ScopeFilesSettingsButton | ClickTarget::ScopeFilesSettingShowSelectedCategoriesOnly
        | ClickTarget::ScopeCategoryRow(_) | ClickTarget::ScopeConstraintRow(_) | ClickTarget::ScopePresetRow(_)
        | ClickTarget::ScopeMarketplaceRow(_) | ClickTarget::ScopePane(_) => {
            let r = click_scope_target(app, target);
            assert(scope_target(target));
            assert(scope_clicked(before, *app, target, r));
            assert(clicked(before, *app, target, r));
            r
        },
        ClickTarget::ApplyPane(focus) => {
            app.set_focus(focus);
            proof { lemma_wf_kept(before, *app); }
            assert(clicked(before, *app, target, Ok(())));
            Ok(())
        },
        ClickTarget::ApplyRow(index) => {
            app.set_focus(FocusPane::ApplyReview);
            app.apply.apply_cursor = index;
            proof { lemma_wf_kept(before, *app); }
            assert(clicked(before, *app, target, Ok(())));
            Ok(())
        },
        ClickTarget::ApplyHistoryRow(index) => {
            app.set_focus(FocusPane::ApplyHistory);
            app.apply.history_cursor = index;
            proof { lemma_wf_kept(before, *app); }
            assert(clicked(before, *app, target, Ok(())));
            Ok(())
        },
        ClickTarget::LogCopyLine(index) => {
            app.copy_log_line(index);
            proof { lemma_wf_kept(before, *app); }
            assert(clicked(before, *app, target, Ok(())));
            Ok(())
        },
        ClickTarget::LogOverlay | ClickTarget::ScopeFilesScrollbarTrack | ClickTarget::ScopeFilesScrollbarThumb => Ok(()),
        _ => {
            click_naming_target(app, target);
            assert(clicked(before, *app, target, Ok(())));
            Ok(())
        },
    }
}

/// A drag is under way from row `start`: a checkbox drag setting checkboxes to `sel` (when
/// `sel` is some) or a row drag (when it is none), having crossed the rows `visited`.
pub open spec fn drag_is(d: Option<FilesDragState>, start: usize, sel: Option<bool>, visited: Seq<usize>) -> bool {
    match d {
        Some(x) => x.start_index == start && match x.mode {
            FilesDragMode::CheckboxSelect { target_selected, visited_rows } => sel == Some(target_selected) && visited_rows@ == visited,
            FilesDragMode::RowFocus { visited_rows } => sel is None && visited_rows@ == visited,
            _ => false,
        },
        None => false,
    }
}

/// The grab offset of a press on the scrollbar thumb at `row`: how far below the thumb's
/// top the press lies.
pub open spec fn grab_offset(o: AppState, row: u16) -> u16 {
    match o.files.scope_files_scrollbar {
        Some(g) => if row > g.thumb_area.y { (row - g.thumb_area.y) as u16 } else { 0 },
        None => 0,
    }
}

/// What a left press on a region with target `t` does, outside the log overlay: a checkbox
/// picks its row, sets its file to the opposite of how it is shown and starts a checkbox
/// drag; a row picks it and starts a row drag gathering it; the thumb starts a thumb drag;
/// the track moves the thumb there; any other region ends any drag, forgets the gathered
/// rows and is clicked.
pub open spec fn pressed(o: AppState, f: AppState, t: ClickTarget, row: u16, r: Result<(), IoRequest>) -> bool {
    let rows = scope_rows(o);
    let ended = AppState { files: FilesState { scope_files_drag: None, ..o.files }, ..o };
    match t {
        ClickTarget::ScopeFileCheckbox(i) => {
            let ts = if i < rows.len() { !shown_selected(o.files.tree.nodes@, rows[i as int].node_id as int) } else { false };
            &&& r matches Err(q) ==> missing_dir(o, q)
            &&& r is Ok ==> f.ui.focus == FocusPane::ScopeFiles && drag_is(f.files.scope_files_drag, i, Some(ts), seq![i])
            &&& r is Ok && i < rows.len() ==> f.files.tree.nodes@[rows[i as int].node_id as int].selected == ts
        },
        ClickTarget::ScopeFileRow(i) => r is Ok && f.ui.focus == FocusPane::ScopeFiles && drag_is(f.files.scope_files_drag, i, None, seq![i]),
        ClickTarget::ScopeFilesScrollbarThumb => r is Ok && f == (AppState {
            files: FilesState {
                scope_files_drag: Some(FilesDragState {
                    mode: FilesDragMode::ScrollbarThumb { grab_offset_rows: grab_offset(o, row) },
                    start_index: o.files.tree.cursor,
                }),
                ..o.files
            },
            ..o
        }),
        ClickTarget::ScopeFilesScrollbarTrack => r is Ok && match o.files.scope_files_scrollbar {
            None => f == ended,
            Some(g) => exists|mid: AppState|
                #[trigger] files_scrolled(ended, mid, scroll_for_top(g, centered_top(g, row)), g.viewport_len as int)
                    && geometry_refreshed(mid, f),
        },
        _ => exists|m: AppState|
            m == (AppState {
                files: FilesState { scope_files_focus_nodes: m.files.scope_files_focus_nodes, ..ended.files },
                ..o
            }) && m.files.scope_files_focus_nodes@.len() == 0 && #[trigger] clicked(m, f, t, r),
    }
}

/// The press on a region with target `target` at `row`, outside the log overlay.
fn press_target(app: &mut AppState, target: ClickTarget, row: u16) -> (r: Result<(), IoRequest>)
    requires
        old(app).wf(),
    ensures
        r is Ok ==> final(app).wf(),
        r matches Err(q) ==> (q matches IoRequest::ListDir { .. }),
        pressed(*old(app), *final(app), target, row, r),
{
    let ghost before = *app;
    match target {
        ClickTarget::ScopeFileCheckbox(index) => {
            focus_files_row(app, index);
            let ghost mid = *app;
            app.clear_scope_file_focus_nodes();
            proof { lemma_wf_kept(mid, *app); }
            proof {
                crate::scope::lemma_scope_rows_frame(before, (AppState { ui: mid.ui, ..before }));
                crate::scope::lemma_scope_rows_frame(before, *app);
                assert(app.files.tree.nodes == before.files.tree.nodes);
            }
            let ghost mid1 = *app;
            let target_selected = match app.scope_file_node_id_at(index) {
                Some(node_id) => !app.node_selected_for_display(node_id),
                None => false,
            };
            match app.set_scope_file_selection_at(index, target_selected) {
                Err(q) => return Err(q),
                Ok(res) => report_selection(app, res),
            }
            let ghost mid2 = *app;
            let visited = vec![index];
            assert(visited@ == seq![index]);
            app.files.scope_files_drag = Some(FilesDragState {
                mode: FilesDragMode::CheckboxSelect { target_selected, visited_rows: visited },
                start_index: index,
            });
            proof {
                lemma_wf_kept(mid2, *app);
                assert(drag_is(app.files.scope_files_drag, index, Some(target_selected), seq![index]));
            }
        },
        ClickTarget::ScopeFileRow(index) => {
            focus_files_row(app, index);
            let ghost mid = *app;
            app.clear_scope_file_focus_nodes();
            app.add_scope_file_focus_node_at(index);
            let visited = vec![index];
            assert(visited@ == seq![index]);
            app.files.scope_files_drag = Some(FilesDragState {
                mode: FilesDragMode::RowFocus { visited_rows: visited },
                start_index: index,
            });
            proof {
                lemma_wf_kept(mid, *app);
                assert(drag_is(app.files.scope_files_drag, index, None, seq![index]));
            }
        },
        ClickTarget::ScopeFilesScrollbarThumb => {
            let grab = match app.files.scope_files_scrollbar {
                Some(g) => if row > g.thumb_area.y { row - g.thumb_area.y } else { 0 },
                None => 0,
            };
            app.files.scope_files_drag = Some(FilesDragState {
                mode: FilesDragMode::ScrollbarThumb { grab_offset_rows: grab },
                start_index: app.files.tree.cursor,
            });
            proof { lemma_wf_kept(before, *app); }
        },
        ClickTarget::ScopeFilesScrollbarTrack => {
            app.files.scope_files_drag = None;
            proof { lemma_wf_kept(before, *app); }
            let ghost ended = *app;
            app.jump_scope_files_scrollbar_to_track_row(row);
            proof {
                assert(ended == (AppState { files: FilesState { scope_files_drag: None, ..before.files }, ..before }));
            }
        },
        _ => {
            app.files.scope_files_drag = None;
            app.clear_scope_file_focus_nodes();
            proof { lemma_wf_kept(before, *app); }
            let ghost m = *app;
            let r = handle_click_target(app, target);
            proof {
                assert(m == (AppState {
                    files: FilesState { scope_files_focus_nodes: m.files.scope_files_focus_nodes, scope_files_drag: None, ..before.files },
                    ..before
                }));
                assert(clicked(m, *app, target, r));
            }
            return r;
        },
    }
    Ok(())
}

/// What a press of the left button at (`col`, `row`) does to `o`, giving `f`.
pub open spec fn mouse_pressed(o: AppState, f: AppState, col: u16, row: u16, r: Result<(), IoRequest>) -> bool {
    &&& o.log.show_log_overlay && no_hit(o, col, row) ==> r is Ok && f == o
    &&& o.log.show_log_overlay ==> forall|t: ClickTarget| #[trigger] last_hit(o, col, row, t) ==> clicked(o, f, t, r)
    &&& !o.log.show_log_overlay && no_hit(o, col, row) ==> r is Ok && f.files.scope_files_focus_nodes@.len() == 0
        && f == (AppState {
        files: FilesState {
            scope_files_drag: None,
            scope_files_focus_nodes: f.files.scope_files_focus_nodes,
            ..o.files
        },
        ..o
    })
    &&& !o.log.show_log_overlay ==> forall|t: ClickTarget| #[trigger] first_hit(o, col, row, t) ==> pressed(o, f, t, row, r)
}

/// A left press: with the log overlay open the topmost region answers; otherwise a
/// checkbox starts a drag that sets every checkbox it crosses to the opposite of the first,
/// a row starts a drag that gathers the rows it crosses, the scrollbar thumb starts a drag
/// of the thumb, the track moves the thumb there, and any other region is clicked.
/// Pressing outside every region ends any drag and forgets the gathered rows.
fn handle_mouse_down(app: &mut AppState, col: u16, row: u16) -> (r: Result<(), IoRequest>)
    requires
        old(app).wf(),
    ensures
        r is Ok ==> final(app).wf(),
        r matches Err(q) ==> (q matches IoRequest::ListDir { .. }),
        mouse_pressed(*old(app), *final(app), col, row, r),
{
    let ghost before = *app;
    if app.log.show_log_overlay {
        match app.click_target_at_topmost(col, row) {
            Some(t) => {
                assert(last_hit(before, col, row, t));
                let r = handle_click_target(app, t);
                proof {
                    if no_hit(before, col, row) {
                        lemma_no_hit(before, col, row, t);
                    }
                    assert forall|u: ClickTarget| #[trigger] last_hit(before, col, row, u) implies clicked(before, *app, u, r) by {
                        lemma_last_hit_unique(before, col, row, u, t);
                    }
                }
                return r;
            },
            None => {
                proof {
                    assert(no_hit(before, col, row));
                    assert forall|u: ClickTarget| #[trigger] last_hit(before, col, row, u) implies false by {
                        lemma_no_hit(before, col, row, u);
                    }
                }
                return Ok(());
            },
        }
    }
    let target = match app.click_target_at(col, row) {
        Some(t) => t,
        None => {
            app.files.scope_files_drag = None;
            app.clear_scope_file_focus_nodes();
            proof {
                lemma_wf_kept(before, *app);
                assert(no_hit(before, col, row));
                assert forall|u: ClickTarget| #[trigger] first_hit(before, col, row, u) implies false by {
                    lemma_no_hit(before, col, row, u);
                }
            }
            return Ok(());
        },
    };
    assert(first_hit(before, col, row, target));
    let r = press_target(app, target, row);
    proof {
        if no_hit(before, col, row) {
            lemma_no_hit(before, col, row, target);
        }
        assert forall|u: ClickTarget| #[trigger] first_hit(before, col, row, u) implies pressed(before, *app, u, row, r) by {
            lemma_first_hit_unique(before, col, row, u, target);
        }
    }
    r
}

/// A row drag from row `start`, having crossed `visited`, reached row `i`: the row is picked,
/// gathered when not crossed before, and remembered.
pub open spec fn row_dragged(o: AppState, f: AppState, start: usize, visited: Seq<usize>, i: usize) -> bool {
    let rows = scope_rows(o);
    &&& f.ui.focus == FocusPane::ScopeFiles
    &&& drag_is(f.files.scope_files_drag, start, None, visited_after(visited, i))
    &&& !visited.contains(i) && i < rows.len() ==> f.files.scope_files_focus_nodes@.contains(rows[i as int].node_id)
}

/// The rows a drag has crossed once it reaches row `i`.
pub open spec fn visited_after(v: Seq<usize>, i: usize) -> Seq<usize> {
    if v.contains(i) { v } else { v.push(i) }
}

/// What moving drag `d` onto a region with target `t` (none outside every region) does, `o`
/// being the state with the drag under way: a checkbox drag picks each checkbox it reaches
/// and remembers it, but selects nothing (there is no range selection by dragging); a row
/// drag picks each row it reaches and gathers each one not crossed before; the drag
/// remembers the rows crossed. A thumb drag moves the thumb with the pointer. Anywhere else
/// nothing changes.
pub open spec fn dragged(o: AppState, f: AppState, d: FilesDragState, t: Option<ClickTarget>, row: u16, r: Result<(), IoRequest>) -> bool {
    let rows = scope_rows(o);
    let taken = AppState { files: FilesState { scope_files_drag: None, ..o.files }, ..o };
    match d.mode {
        FilesDragMode::CheckboxSelect { target_selected, visited_rows } => match t {
            Some(ClickTarget::ScopeFileCheckbox(i)) => {
                &&& r is Ok
                &&& f.ui.focus == FocusPane::ScopeFiles
                &&& drag_is(f.files.scope_files_drag, d.start_index, Some(target_selected), visited_after(visited_rows@, i))
                &&& f.files.tree.nodes == o.files.tree.nodes
                &&& f.files.selected_by_tree == o.files.selected_by_tree
                &&& f.naming == o.naming
            },
            _ => r is Ok && f == o,
        },
        FilesDragMode::RowFocus { visited_rows } => match t {
            Some(ClickTarget::ScopeFileRow(i)) => r is Ok && row_dragged(o, f, d.start_index, visited_rows@, i),
            Some(ClickTarget::ScopeFileCheckbox(i)) => r is Ok && row_dragged(o, f, d.start_index, visited_rows@, i),
            _ => r is Ok && f == o,
        },
        FilesDragMode::ScrollbarThumb { grab_offset_rows } => r is Ok && match o.files.scope_files_scrollbar {
            None => f == o,
            Some(g) => exists|mid: AppState, fin: AppState|
                #![trigger files_scrolled(taken, mid, scroll_for_top(g, sat_sub(row as int, grab_offset_rows as int)), g.viewport_len as int), geometry_refreshed(mid, fin)]
                files_scrolled(taken, mid, scroll_for_top(g, sat_sub(row as int, grab_offset_rows as int)), g.viewport_len as int)
                    && geometry_refreshed(mid, fin) && f == (AppState {
                    files: FilesState { scope_files_drag: o.files.scope_files_drag, ..fin.files },
                    ..fin
                }),
        },
    }
}

/// Moves drag `drag`, taken out of the state, onto the region with target `target`.
#[verifier::spinoff_prover]
#[verifier::rlimit(60)]
fn drag_step(app: &mut AppState, drag: FilesDragState, target: Option<ClickTarget>, row: u16) -> (r: Result<(), IoRequest>)
    requires
        old(app).wf(),
        old(app).files.scope_files_drag is None,
    ensures
        r is Ok ==> final(app).wf(),
        r matches Err(q) ==> (q matches IoRequest::ListDir { .. }),
        dragged(
            (AppState { files: FilesState { scope_files_drag: Some(drag), ..old(app).files }, ..*old(app) }),
            *final(app),
            drag,
            target,
            row,
            r,
        ),
{
    let ghost before = *app;
    let ghost o = AppState { files: FilesState { scope_files_drag: Some(drag), ..before.files }, ..before };
    proof { crate::scope::lemma_scope_rows_frame(o, before); }
    let start_index = drag.start_index;
    let ghost taken = before;
    let mode = match drag.mode {
        FilesDragMode::CheckboxSelect { target_selected, mut visited_rows } => {
            let ghost v0 = visited_rows@;
            match target {
                Some(ClickTarget::ScopeFileCheckbox(index)) => {
                    focus_files_row(app, index);
                    let ghost m1 = *app;
                    proof {
                        crate::scope::lemma_scope_rows_frame(before, (AppState { ui: m1.ui, ..before }));
                        crate::scope::lemma_scope_rows_frame(before, m1);
                    }
                    if !holds(&visited_rows, index) {
                        visited_rows.push(index);
                    }
                    assert(visited_rows@ == visited_after(v0, index));
                },
                _ => {},
            }
            FilesDragMode::CheckboxSelect { target_selected, visited_rows }
        },
        FilesDragMode::RowFocus { mut visited_rows } => {
            let ghost v0 = visited_rows@;
            let hit: Option<usize> = match target {
                Some(ClickTarget::ScopeFileRow(k)) => Some(k),
                Some(ClickTarget::ScopeFileCheckbox(k)) => Some(k),
                _ => None,
            };
            match hit {
                Some(index) => {
                    focus_files_row(app, index);
                    let ghost m1 = *app;
                    proof {
                        crate::scope::lemma_scope_rows_frame(before, (AppState { ui: m1.ui, ..before }));
                        crate::scope::lemma_scope_rows_frame(before, m1);
                    }
                    if !holds(&visited_rows, index) {
                        visited_rows.push(index);
                        let ghost mid = *app;
                        app.add_scope_file_focus_node_at(index);
                        proof {
                            let rows = scope_rows(o);
                            if index < rows.len() {
                                let nid = rows[index as int].node_id;
                                assert(scope_rows(mid) == rows);
                                if !mid.files.scope_files_focus_nodes@.contains(nid) {
                                    assert(app.files.scope_files_focus_nodes@[mid.files.scope_files_focus_nodes@.len() as int] == nid);
                                }
                                assert(app.files.scope_files_focus_nodes@.contains(nid));
                            }
                            assert forall|i: int| 0 <= i < app.files.scope_files_focus_nodes@.len() implies #[trigger] app.files.scope_files_focus_nodes@[i]
                                < app.files.tree.nodes@.len() by {
                                if i < mid.files.scope_files_focus_nodes@.len() {
                                    assert(app.files.scope_files_focus_nodes@[i] == mid.files.scope_files_focus_nodes@[i]);
                                } else {
                                    crate::scope::lemma_scope_rows_in_tree(mid);
                                }
                            }
                            lemma_wf_kept(mid, *app);
                        }
                    }
                    assert(visited_rows@ == visited_after(v0, index));
                },
                None => {},
            }
            FilesDragMode::RowFocus { visited_rows }
        },
        FilesDragMode::ScrollbarThumb { grab_offset_rows } => {
            app.drag_scope_files_scrollbar_thumb(row, grab_offset_rows);
            FilesDragMode::ScrollbarThumb { grab_offset_rows }
        },
    };
    let ghost fin = *app;
    app.files.scope_files_drag = Some(FilesDragState { mode, start_index });
    proof {
        lemma_wf_kept(fin, *app);
        if drag.mode is ScrollbarThumb {
            let grab = drag.mode->grab_offset_rows;
            match before.files.scope_files_scrollbar {
                Some(g) => {
                    let mid = choose|mid: AppState|
                        #[trigger] files_scrolled(before, mid, scroll_for_top(g, sat_sub(row as int, grab as int)), g.viewport_len as int)
                            && geometry_refreshed(mid, fin);
                    assert(taken == before);
                    assert(*app == (AppState { files: FilesState { scope_files_drag: o.files.scope_files_drag, ..fin.files }, ..fin }));
                    assert(files_scrolled(taken, mid, scroll_for_top(g, sat_sub(row as int, grab as int)), g.viewport_len as int)
                        && geometry_refreshed(mid, fin));
                },
                None => {},
            }
            assert(dragged(o, *app, drag, target, row, Ok(())));
        } else if drag.mode is CheckboxSelect {
            assert(dragged(o, *app, drag, target, row, Ok(())));
        } else {
            assert(dragged(o, *app, drag, target, row, Ok(())));
        }
    }
    Ok(())

}

/// What a drag to (`col`, `row`) does to `o`, giving `f`.
pub open spec fn mouse_dragged(o: AppState, f: AppState, col: u16, row: u16, r: Result<(), IoRequest>) -> bool {
    &&& o.log.show_log_overlay || o.files.scope_files_drag is None ==> r is Ok && f == o
    &&& !o.log.show_log_overlay && no_hit(o, col, row) ==> (o.files.scope_files_drag matches Some(d) ==> dragged(o, f, d, None, row, r))
    &&& !o.log.show_log_overlay ==> forall|t: ClickTarget| #[trigger] first_hit(o, col, row, t) ==> (o.files.scope_files_drag matches Some(d)
        ==> dragged(o, f, d, Some(t), row, r))
}

/// A drag with the left button: a checkbox drag only moves the cursor (it selects nothing),
/// a row drag gathers each new row it crosses, a thumb drag moves the thumb; the cursor
/// follows the row. Without a drag, or with the log overlay open, nothing changes.
fn handle_mouse_drag(app: &mut AppState, col: u16, row: u16) -> (r: Result<(), IoRequest>)
    requires
        old(app).wf(),
    ensures
        r is Ok ==> final(app).wf(),
        r matches Err(q) ==> (q matches IoRequest::ListDir { .. }),
        mouse_dragged(*old(app), *final(app), col, row, r),
{
    let ghost before = *app;
    if app.log.show_log_overlay {
        return Ok(());
    }
    let drag = match app.files.scope_files_drag.take() {
        Some(d) => d,
        None => return Ok(()),
    };
    proof { lemma_wf_kept(before, *app); }
    let target = app.click_target_at(col, row);
    let ghost d0 = drag;
    let r = drag_step(app, drag, target, row);
    proof {
        assert(before == (AppState { files: FilesState { scope_files_drag: Some(d0), ..before.files }, ..before }));
        match target {
            None => {
                assert(no_hit(before, col, row));
                assert forall|u: ClickTarget| #[trigger] first_hit(before, col, row, u) implies false by {
                    lemma_no_hit(before, col, row, u);
                }
            },
            Some(t) => {
                assert(first_hit(before, col, row, t));
                if no_hit(before, col, row) {
                    lemma_no_hit(before, col, row, t);
                }
                assert forall|u: ClickTarget| #[trigger] first_hit(before, col, row, u) implies dragged(before, *app, d0, Some(u), row, r) by {
                    lemma_first_hit_unique(before, col, row, u, t);
                }
            },
        }
    }
    r
}

/// What releasing the left button does to `o`, giving `f`.
pub open spec fn mouse_released(o: AppState, f: AppState, r: Result<(), IoRequest>) -> bool {
    let ended = AppState { files: FilesState { scope_files_drag: None, ..o.files }, ..o };
    &&& o.log.show_log_overlay || o.files.scope_files_drag is None ==> r is Ok && f == o
    &&& !o.log.show_log_overlay ==> match o.files.scope_files_drag {
        Some(d) => match d.mode {
            FilesDragMode::CheckboxSelect { .. } => r is Ok ==> rows_synced(ended, f),
            FilesDragMode::RowFocus { visited_rows } => if visited_rows@.len() <= 1 {
                exists|m: AppState|
                    m == (AppState {
                        files: FilesState { scope_files_focus_nodes: m.files.scope_files_focus_nodes, ..ended.files },
                        ..o
                    }) && m.files.scope_files_focus_nodes@.len() == 0 && #[trigger] clicked(
                        m,
                        f,
                        ClickTarget::ScopeFileRow(d.start_index),
                        r,
                    )
            } else {
                r is Ok && f == ended
            },
            FilesDragMode::ScrollbarThumb { .. } => r is Ok && f == ended,
        },
        None => true,
    }
}

/// Releasing the left button ends a drag: a checkbox drag rebuilds the rename rows, a row
/// drag that crossed only its first row clicks that row. With the log overlay open nothing
/// changes.
fn handle_mouse_up(app: &mut AppState) -> (r: Result<(), IoRequest>)
    requires
        old(app).wf(),
    ensures
        r is Ok ==> final(app).wf(),
        r matches Err(q) ==> (q matches IoRequest::ListDir { .. }),
        mouse_released(*old(app), *final(app), r),
{
    let ghost before = *app;
    if app.log.show_log_overlay {
        return Ok(());
    }
    let drag = match app.files.scope_files_drag.take() {
        Some(d) => d,
        None => return Ok(()),
    };
    proof { lemma_wf_kept(before, *app); }
    match drag.mode {
        FilesDragMode::CheckboxSelect { .. } => app.sync_rename_rows(),
        FilesDragMode::RowFocus { visited_rows } => {
            if visited_rows.len() <= 1 {
                let ghost mid = *app;
                app.clear_scope_file_focus_nodes();
                proof { lemma_wf_kept(mid, *app); }
                return handle_click_target(app, ClickTarget::ScopeFileRow(drag.start_index));
            }
            Ok(())
        },
        FilesDragMode::ScrollbarThumb { .. } => Ok(()),
    }
}

/// The number of constraint rows: the time constraints, then the size constraints.
pub const CONSTRAINT_ROWS: usize = TIME_CONSTRAINT_COUNT + SIZE_CONSTRAINT_COUNT;

/// The Files cursor scrolled one step (up or down) in the Files tab: `f` is `o` with the
/// Files tab shown, the cursor first held within the rows, then moved one step.
pub open spec fn files_stepped(o: AppState, f: AppState, up: bool) -> bool {
    &&& f.ui.scope_tab == ScopeTab::Files
    &&& exists|m: AppState|
        #[trigger] files_cursor_moved((AppState { ui: f.ui, ..o }), m, o.files.tree.cursor as int, o.files.tree.scroll as int)
            && files_cursor_moved(
            m,
            f,
            scrolled_index(m.files.tree.cursor as int, scope_rows(m).len() as int, up),
            m.files.tree.scroll as int,
        )
}

/// `f` is `o` with the scope tab `tab` shown and one filter cursor set to `select`,
/// `constraint`, `preset` and `market`.
pub open spec fn scope_cursors(o: AppState, f: AppState, tab: ScopeTab, select: int, constraint: int, preset: int, market: int) -> bool {
    &&& f.ui.scope_tab == tab
    &&& f == (AppState {
        ui: f.ui,
        filters: FilterState {
            select_cursor: select as usize,
            constraint_cursor: constraint as usize,
            preset_cursor: preset as usize,
            marketplace_cursor: market as usize,
            ..o.filters
        },
        ..o
    })
}

/// What the wheel does over a region of the scope stage: the Files list, the category,
/// constraint, preset or marketplace list under the pointer moves one step with its tab
/// shown; over a pane, that pane is focused and its list moves; elsewhere nothing changes.
pub open spec fn scope_scrolled(o: AppState, f: AppState, target: ClickTarget, up: bool) -> bool {
    let fl = o.filters;
    let cat = scrolled_index(fl.select_cursor as int, fl.category_filters@.len() as int, up);
    let con = scrolled_index(fl.constraint_cursor as int, CONSTRAINT_ROWS as int, up);
    let pre = scrolled_index(fl.preset_cursor as int, 9, up);
    let mar = scrolled_index(fl.marketplace_cursor as int, fl.marketplace_presets@.len() as int, up);
    match target {
        ClickTarget::ScopeFileRow(_) | ClickTarget::ScopeFileCheckbox(_) | ClickTarget::ScopeFilesScrollbarTrack
        | ClickTarget::ScopeFilesScrollbarThumb => files_stepped(o, f, up),
        ClickTarget::ScopeCategoryRow(_) => scope_cursors(o, f, ScopeTab::Select, cat, fl.constraint_cursor as int, fl.preset_cursor as int, fl.marketplace_cursor as int),
        ClickTarget::ScopeConstraintRow(_) => scope_cursors(o, f, ScopeTab::Constraint, fl.select_cursor as int, con, fl.preset_cursor as int, fl.marketplace_cursor as int),
        ClickTarget::ScopePresetRow(_) => scope_cursors(o, f, ScopeTab::Preset, fl.select_cursor as int, fl.constraint_cursor as int, pre, fl.marketplace_cursor as int),
        ClickTarget::ScopeMarketplaceRow(_) => scope_cursors(o, f, ScopeTab::Marketplace, fl.select_cursor as int, fl.constraint_cursor as int, fl.preset_cursor as int, mar),
        ClickTarget::ScopePane(focus) => {
            &&& f.ui.focus == focus
            &&& focus == FocusPane::ScopeCategory ==> f == (AppState { ui: f.ui, filters: FilterState { select_cursor: cat as usize, ..fl }, ..o })
            &&& focus == FocusPane::ScopeFiles ==> files_cursor_moved(
                (AppState { ui: f.ui, ..o }),
                f,
                scrolled_index(o.files.tree.cursor as int, scope_rows((AppState { ui: f.ui, ..o })).len() as int, up),
                o.files.tree.scroll as int,
            )
            &&& focus == FocusPane::ScopeOptions ==> f == (AppState {
                ui: f.ui,
                filters: FilterState {
                    constraint_cursor: if o.ui.scope_right_tab == ScopeTab::Constraint { con as usize } else { fl.constraint_cursor },
                    preset_cursor: if o.ui.scope_right_tab == ScopeTab::Preset { pre as usize } else { fl.preset_cursor },
                    marketplace_cursor: if o.ui.scope_right_tab == ScopeTab::Marketplace { mar as usize } else { fl.marketplace_cursor },
                    ..fl
                },
                ..o
            })
            &&& !(focus == FocusPane::ScopeCategory || focus == FocusPane::ScopeFiles || focus == FocusPane::ScopeOptions)
                ==> f == (AppState { ui: f.ui, ..o })
        },
        _ => f == o,
    }
}

/// What the wheel does over a region of the naming or apply stage: the list under the
/// pointer (the rename table, the suggestions, the style settings, the model list, the
/// review or the history) moves one step with its pane focused; over a pane, that pane's
/// list moves; elsewhere nothing changes.
pub open spec fn other_scrolled(o: AppState, f: AppState, target: ClickTarget, up: bool) -> bool {
    let n = o.naming;
    let ren = scrolled_index(n.rename_cursor as int, n.rename_rows@.len() as int, up) as usize;
    let sug = scrolled_index(n.suggestion_cursor as int, n.suggestions@.len() as int, up) as usize;
    let sty = scrolled_index(n.style_cursor as int, 5, up) as usize;
    let rev = scrolled_index(o.apply.apply_cursor as int, selected_rows(n.rename_rows@).len() as int, up) as usize;
    let his = scrolled_index(o.apply.history_cursor as int, o.apply.undo_history@.len() as int, up) as usize;
    let a = o.ai.ai_settings;
    let mdl = scrolled_index(a.model_list_cursor as int, shown_models(a.discovered_models@, model_query(a)).len() as int, up) as usize;
    match target {
        ClickTarget::NamingPane(focus) => f.ui.focus == focus && f == (AppState {
            ui: f.ui,
            naming: NamingState {
                rename_cursor: if focus == FocusPane::NamingTable { ren } else { n.rename_cursor },
                suggestion_cursor: if focus == FocusPane::NamingRight && o.ui.naming_tab == NamingTab::Suggestions { sug } else { n.suggestion_cursor },
                style_cursor: if focus == FocusPane::NamingRight && o.ui.naming_tab != NamingTab::Suggestions { sty } else { n.style_cursor },
                ..n
            },
            ..o
        }),
        ClickTarget::NamingRow(_) => f.ui.focus == FocusPane::NamingTable && f == (AppState {
            ui: f.ui,
            naming: NamingState { rename_cursor: ren, ..n },
            ..o
        }),
        ClickTarget::NamingSuggestion(_) => f.ui.focus == FocusPane::NamingRight && f.ui.naming_tab == NamingTab::Suggestions && f == (AppState {
            ui: f.ui,
            naming: NamingState { suggestion_cursor: sug, ..n },
            ..o
        }),
        ClickTarget::NamingStyleRow(_) => f.ui.focus == FocusPane::NamingRight && f.ui.naming_tab == NamingTab::Style && f == (AppState {
            ui: f.ui,
            naming: NamingState { style_cursor: sty, ..n },
            ..o
        }),
        ClickTarget::NamingAiSettingsModelRow(_) => f == (AppState {
            ai: AiState { ai_settings: AiSettingsState { model_list_cursor: mdl, ..a }, ..o.ai },
            ..o
        }),
        ClickTarget::ApplyPane(focus) => f.ui.focus == focus && f == (AppState {
            ui: f.ui,
            apply: ApplyState {
                apply_cursor: if focus == FocusPane::ApplyReview { rev } else { o.apply.apply_cursor },
                history_cursor: if focus == FocusPane::ApplyHistory { his } else { o.apply.history_cursor },
                ..o.apply
            },
            ..o
        }),
        ClickTarget::ApplyRow(_) => f.ui.focus == FocusPane::ApplyReview && f == (AppState {
            ui: f.ui,
            apply: ApplyState { apply_cursor: rev, ..o.apply },
            ..o
        }),
        ClickTarget::ApplyHistoryRow(_) => f.ui.focus == FocusPane::ApplyHistory && f == (AppState {
            ui: f.ui,
            apply: ApplyState { history_cursor: his, ..o.apply },
            ..o
        }),
        _ => f == o,
    }
}

/// Wheel over the scope stage: the list under the pointer (or the focused pane's list)
/// moves one step.
fn scroll_scope_target(app: &mut AppState, target: ClickTarget, up: bool)
    requires
        old(app).wf(),
    ensures
        final(app).wf(),
        scope_scrolled(*old(app), *final(app), target, up),
{
    let ghost before = *app;
    match target {
        ClickTarget::ScopeFileRow(_) | ClickTarget::ScopeFileCheckbox(_) | ClickTarget::ScopeFilesScrollbarTrack
        | ClickTarget::ScopeFilesScrollbarThumb => {
            app.set_scope_tab(ScopeTab::Files);
            proof { lemma_wf_kept(before, *app); }
            let ghost s1 = *app;
            let c0 = app.files.tree.cursor;
            app.set_files_cursor(c0);
            let ghost m = *app;
            let n = app.scope_files_rows_len();
            let c = scroll_index(app.files.tree.cursor, n, up);
            app.set_files_cursor(c);
            proof {
                assert(m.ui == s1.ui);
                assert(app.ui == m.ui);
                assert(s1 == (AppState { ui: app.ui, ..before }));
                assert(files_cursor_moved((AppState { ui: app.ui, ..before }), m, before.files.tree.cursor as int, before.files.tree.scroll as int));
                assert(files_cursor_moved(m, *app, scrolled_index(m.files.tree.cursor as int, scope_rows(m).len() as int, up), m.files.tree.scroll as int));
                assert(files_stepped(before, *app, up));
            }
        },
        ClickTarget::ScopeCategoryRow(_) => {
            app.set_scope_tab(ScopeTab::Select);
            app.filters.select_cursor = scroll_index(app.filters.select_cursor, app.filters.category_filters.len(), up);
            proof { lemma_wf_kept(before, *app); assert(scope_scrolled(before, *app, target, up)); }
        },
        ClickTarget::ScopeConstraintRow(_) => {
            app.set_scope_tab(ScopeTab::Constraint);
            app.filters.constraint_cursor = scroll_index(app.filters.constraint_cursor, CONSTRAINT_ROWS, up);
            proof { lemma_wf_kept(before, *app); assert(scope_scrolled(before, *app, target, up)); }
        },
        ClickTarget::ScopePresetRow(_) => {
            app.set_scope_tab(ScopeTab::Preset);
            app.filters.preset_cursor = scroll_index(app.filters.preset_cursor, 9, up);
            proof { lemma_wf_kept(before, *app); assert(scope_scrolled(before, *app, target, up)); }
        },
        ClickTarget::ScopeMarketplaceRow(_) => {
            app.set_scope_tab(ScopeTab::Marketplace);
            app.filters.marketplace_cursor = scroll_index(app.filters.marketplace_cursor, app.filters.marketplace_presets.len(), up);
            proof { lemma_wf_kept(before, *app); assert(scope_scrolled(before, *app, target, up)); }
        },
        ClickTarget::ScopePane(focus) => {
            app.set_focus(focus);
            proof { lemma_wf_kept(before, *app); }
            match focus {
                FocusPane::ScopeCategory => {
                    let ghost mid = *app;
                    app.filters.select_cursor = scroll_index(app.filters.select_cursor, app.filters.category_filters.len(), up);
                    proof { lemma_wf_kept(mid, *app); }
                },
                FocusPane::ScopeFiles => {
                    let n = app.scope_files_rows_len();
                    let c = scroll_index(app.files.tree.cursor, n, up);
                    app.set_files_cursor(c);
                },
                FocusPane::ScopeOptions => {
                    let ghost mid = *app;
                    match app.ui.scope_right_tab {
                        ScopeTab::Constraint => {
                            app.filters.constraint_cursor = scroll_index(app.filters.constraint_cursor, CONSTRAINT_ROWS, up);
                        },
                        ScopeTab::Preset => {
                            app.filters.preset_cursor = scroll_index(app.filters.preset_cursor, 9, up);
                        },
                        ScopeTab::Marketplace => {
                            app.filters.marketplace_cursor = scroll_index(
                                app.filters.marketplace_cursor,
                                app.filters.marketplace_presets.len(),
                                up,
                            );
                        },
                        _ => {},
                    }
                    proof { lemma_wf_kept(mid, *app); }
                },
                _ => {},
            }
        },
        _ => {},
    }
}

/// Wheel over the naming and apply stages: the list under the pointer (or the focused
/// pane's list) moves one step.
fn scroll_other_target(app: &mut AppState, target: ClickTarget, up: bool)
    requires
        old(app).wf(),
    ensures
        final(app).wf(),
        other_scrolled(*old(app), *final(app), target, up),
{
    let ghost before = *app;
    match target {
        ClickTarget::NamingPane(focus) => {
            app.set_focus(focus);
            match focus {
                FocusPane::NamingTable => {
                    app.naming.rename_cursor = scroll_index(app.naming.rename_cursor, app.naming.rename_rows.len(), up);
                },
                FocusPane::NamingRight => {
                    if app.ui.naming_tab == NamingTab::Suggestions {
                        app.naming.suggestion_cursor = scroll_index(app.naming.suggestion_cursor, app.naming.suggestions.len(), up);
                    } else {
                        app.naming.style_cursor = scroll_index(app.naming.style_cursor, 5, up);
                    }
                },
                _ => {},
            }
        },
        ClickTarget::NamingRow(_) => {
            app.set_focus(FocusPane::NamingTable);
            app.naming.rename_cursor = scroll_index(app.naming.rename_cursor, app.naming.rename_rows.len(), up);
        },
        ClickTarget::NamingSuggestion(_) => {
            app.set_focus(FocusPane::NamingRight);
            app.ui.naming_tab = NamingTab::Suggestions;
            app.naming.suggestion_cursor = scroll_index(app.naming.suggestion_cursor, app.naming.suggestions.len(), up);
        },
        ClickTarget::NamingAiSettingsModelRow(_) => {
            let n = app.filtered_ai_models().len();
            app.ai.ai_settings.model_list_cursor = scroll_index(app.ai.ai_settings.model_list_cursor, n, up);
        },
        ClickTarget::NamingStyleRow(_) => {
            app.set_focus(FocusPane::NamingRight);
            app.ui.naming_tab = NamingTab::Style;
            app.naming.style_cursor = scroll_index(app.naming.style_cursor, 5, up);
        },
        ClickTarget::ApplyPane(focus) => {
            app.set_focus(focus);
            match focus {
                FocusPane::ApplyReview => {
                    let n = selected_count(app);
                    app.apply.apply_cursor = scroll_index(app.apply.apply_cursor, n, up);
                },
                FocusPane::ApplyHistory => {
                    app.apply.history_cursor = scroll_index(app.apply.history_cursor, app.apply.undo_history.len(), up);
                },
                _ => {},
            }
        },
        ClickTarget::ApplyRow(_) => {
            app.set_focus(FocusPane::ApplyReview);
            let n = selected_count(app);
            app.apply.apply_cursor = scroll_index(app.apply.apply_cursor, n, up);
        },
        ClickTarget::ApplyHistoryRow(_) => {
            app.set_focus(FocusPane::ApplyHistory);
            app.apply.history_cursor = scroll_index(app.apply.history_cursor, app.apply.undo_history.len(), up);
        },
        _ => {},
    }
    proof { lemma_wf_kept(before, *app); }
}

/// No click region holds the cell at `col`, `row`.
pub open spec fn no_hit(o: AppState, col: u16, row: u16) -> bool {
    forall|i: int|
        0 <= i < click_regions_of(o.ui.click_regions).len() ==> !rect_contains(
            #[trigger] click_regions_of(o.ui.click_regions)[i].0,
            col,
            row,
        )
}

/// `t` is the target of the first region, in registration order, that holds the cell.
pub open spec fn first_hit(o: AppState, col: u16, row: u16, t: ClickTarget) -> bool {
    exists|i: int|
        0 <= i < click_regions_of(o.ui.click_regions).len() && rect_contains(
            #[trigger] click_regions_of(o.ui.click_regions)[i].0,
            col,
            row,
        ) && click_regions_of(o.ui.click_regions)[i].1 == t && forall|j: int|
            0 <= j < i ==> !rect_contains(#[trigger] click_regions_of(o.ui.click_regions)[j].0, col, row)
}

/// `t` is the target of the last region, in registration order, that holds the cell.
pub open spec fn last_hit(o: AppState, col: u16, row: u16, t: ClickTarget) -> bool {
    exists|i: int|
        0 <= i < click_regions_of(o.ui.click_regions).len() && rect_contains(
            #[trigger] click_regions_of(o.ui.click_regions)[i].0,
            col,
            row,
        ) && click_regions_of(o.ui.click_regions)[i].1 == t && forall|j: int|
            i < j < click_regions_of(o.ui.click_regions).len() ==> !rect_contains(
                #[trigger] click_regions_of(o.ui.click_regions)[j].0,
                col,
                row,
            )
}

/// Only one region is the first to hold a cell.
proof fn lemma_first_hit_unique(o: AppState, col: u16, row: u16, t1: ClickTarget, t2: ClickTarget)
    requires
        first_hit(o, col, row, t1),
        first_hit(o, col, row, t2),
    ensures
        t1 == t2,
{
    let r = click_regions_of(o.ui.click_regions);
    let i1 = choose|i: int|
        0 <= i < r.len() && rect_contains(#[trigger] r[i].0, col, row) && r[i].1 == t1 && forall|j: int|
            0 <= j < i ==> !rect_contains(#[trigger] r[j].0, col, row);
    let i2 = choose|i: int|
        0 <= i < r.len() && rect_contains(#[trigger] r[i].0, col, row) && r[i].1 == t2 && forall|j: int|
            0 <= j < i ==> !rect_contains(#[trigger] r[j].0, col, row);
    if i1 < i2 {
        assert(!rect_contains(r[i1].0, col, row));
    } else if i2 < i1 {
        assert(!rect_contains(r[i2].0, col, row));
    }
}

/// Only one region is the last to hold a cell.
proof fn lemma_last_hit_unique(o: AppState, col: u16, row: u16, t1: ClickTarget, t2: ClickTarget)
    requires
        last_hit(o, col, row, t1),
        last_hit(o, col, row, t2),
    ensures
        t1 == t2,
{
    let r = click_regions_of(o.ui.click_regions);
    let i1 = choose|i: int|
        0 <= i < r.len() && rect_contains(#[trigger] r[i].0, col, row) && r[i].1 == t1 && forall|j: int|
            i < j < r.len() ==> !rect_contains(#[trigger] r[j].0, col, row);
    let i2 = choose|i: int|
        0 <= i < r.len() && rect_contains(#[trigger] r[i].0, col, row) && r[i].1 == t2 && forall|j: int|
            i < j < r.len() ==> !rect_contains(#[trigger] r[j].0, col, row);
    if i1 < i2 {
        assert(!rect_contains(r[i2].0, col, row));
    } else if i2 < i1 {
        assert(!rect_contains(r[i1].0, col, row));
    }
}

/// A cell no region holds has no first region.
proof fn lemma_no_hit(o: AppState, col: u16, row: u16, t: ClickTarget)
    requires
        no_hit(o, col, row),
    ensures
        !first_hit(o, col, row, t),
        !last_hit(o, col, row, t),
{
}

/// The regions of the scope stage, whose wheel is `scope_scrolled`.
pub open spec fn scope_target(t: ClickTarget) -> bool {
    match t {
        ClickTarget::ScopeFileRow(_) | ClickTarget::ScopeFileCheckbox(_) | ClickTarget::ScopeFilesScrollbarTrack
        | ClickTarget::ScopeFilesScrollbarThumb | ClickTarget::ScopeCategoryRow(_) | ClickTarget::ScopeConstraintRow(_)
        | ClickTarget::ScopePresetRow(_) | ClickTarget::ScopeMarketplaceRow(_) | ClickTarget::ScopePane(_)
        | ClickTarget::ScopeTab(_) | ClickTarget::ScopeFilesSettingsButton
        | ClickTarget::ScopeFilesSettingShowSelectedCategoriesOnly => true,
        _ => false,
    }
}

/// What turning the wheel up (`up`) or down at (`col`, `row`) does to `o`, giving `f`.
pub open spec fn wheel_scrolled(o: AppState, f: AppState, col: u16, row: u16, up: bool) -> bool {
    &&& o.log.show_log_overlay && up ==> f == (AppState {
        log: LogState { log_scroll: sat_sub(min_int(o.log.log_scroll as int, max_log_row(o.log)), 1) as usize, ..o.log },
        ..o
    })
    &&& o.log.show_log_overlay && !up ==> f == (AppState {
        log: LogState { log_scroll: min_int(o.log.log_scroll as int + 1, max_log_row(o.log)) as usize, ..o.log },
        ..o
    })
    &&& !o.log.show_log_overlay && no_hit(o, col, row) ==> if up { moved_up(o, f) } else { moved_down(o, f) }
    &&& !o.log.show_log_overlay ==> forall|t: ClickTarget| #[trigger] first_hit(o, col, row, t) ==> if scope_target(t) {
        scope_scrolled(o, f, t, up)
    } else {
        other_scrolled(o, f, t, up)
    }
}

/// The vertical wheel: with the log overlay open it scrolls the log; over a region it
/// moves that region's list; elsewhere it moves the focused list.
fn handle_mouse_scroll(app: &mut AppState, col: u16, row: u16, up: bool)
    requires
        old(app).wf(),
    ensures
        final(app).wf(),
        wheel_scrolled(*old(app), *final(app), col, row, up),
{
    let ghost before = *app;
    if app.log.show_log_overlay {
        if up {
            app.scroll_log_up();
        } else {
            app.scroll_log_down();
        }
        proof { lemma_wf_kept(before, *app); }
        return;
    }
    match app.click_target_at(col, row) {
        None => {
            assert(no_hit(before, col, row));
            if up {
                app.move_up();
            } else {
                app.move_down();
            }
            proof {
                assert forall|t: ClickTarget| #[trigger] first_hit(before, col, row, t) implies false by {
                    lemma_no_hit(before, col, row, t);
                }
            }
        },
        Some(target) => {
            assert(first_hit(before, col, row, target));
            match target {
                ClickTarget::ScopeFileRow(_) | ClickTarget::ScopeFileCheckbox(_) | ClickTarget::ScopeFilesScrollbarTrack
                | ClickTarget::ScopeFilesScrollbarThumb | ClickTarget::ScopeCategoryRow(_) | ClickTarget::ScopeConstraintRow(_)
                | ClickTarget::ScopePresetRow(_) | ClickTarget::ScopeMarketplaceRow(_) | ClickTarget::ScopePane(_) => {
                    scroll_scope_target(app, target, up)
                },
                _ => scroll_other_target(app, target, up),
            }
            proof {
                assert(!no_hit(before, col, row));
                assert forall|t: ClickTarget| #[trigger] first_hit(before, col, row, t) implies (if scope_target(t) {
                    scope_scrolled(before, *app, t, up)
                } else {
                    other_scrolled(before, *app, t, up)
                }) by {
                    lemma_first_hit_unique(before, col, row, t, target);
                }
            }
        },
    }
}

/// The sideways wheel scrolls the open log overlay.
fn handle_mouse_hscroll(app: &mut AppState, left: bool)
    requires
        old(app).wf(),
    ensures
        final(app).wf(),
        !old(app).log.show_log_overlay ==> *final(app) == *old(app),
        old(app).log.show_log_overlay && left ==> *final(app) == (AppState {
            log: LogState { log_col_scroll: sat_sub(old(app).log.log_col_scroll as int, 1) as usize, ..old(app).log },
            ..*old(app)
        }),
        old(app).log.show_log_overlay && !left ==> *final(app) == (AppState {
            log: LogState {
                log_col_scroll: min_int(old(app).log.log_col_scroll as int + 1, crate::logs::max_log_col(old(app).log)) as usize,
                ..old(app).log
            },
            ..*old(app)
        }),
{
    let ghost before = *app;
    if !app.log.show_log_overlay {
        return;
    }
    if left {
        app.scroll_log_left();
    } else {
        app.scroll_log_right();
    }
    proof { lemma_wf_kept(before, *app); }
}

/// The text a typed character goes to in each typing mode, if any.
pub open spec fn typed_text(app: AppState) -> Option<Seq<char>> {
    match app.ui.mode {
        InputMode::EditingOverride => Some(app.naming.override_input@),
        InputMode::Command => Some(app.naming.command_input@),
        InputMode::NewCategory => Some(app.filters.new_category_input@),
        InputMode::EditingAiApiKey => Some(app.ai.ai_settings.api_key_input@),
        InputMode::EditingAiModelSearch => Some(app.ai.ai_settings.model_search_query@),
        InputMode::EditingAiManualModel => Some(app.ai.ai_settings.manual_model_input@),
        _ => None,
    }
}

/// What going to stage `s` does to `o`, giving `f`: the stage's first pane is focused; the
/// naming stage rebuilds the rename rows and so stops on the listing the rebuild needs.
pub open spec fn stage_set(o: AppState, f: AppState, s: Stage, r: Result<(), IoRequest>) -> bool {
    &&& r is Ok ==> f.ui.stage == s && f.ui.focus == stage_focus_list(s)[0]
    &&& s != Stage::Naming ==> r is Ok && f == (AppState { ui: f.ui, ..o })
    &&& s == Stage::Naming ==> (r is Ok <==> scan_walk(o) is Some)
    &&& r matches Err(q) ==> lists_dir(q, scan_needs(o), o.files.show_hidden)
}

/// What completing the override text does to `o`, giving `f`.
pub open spec fn autocompleted(o: AppState, f: AppState) -> bool {
    let prefix = spec_lowercase(trim(o.naming.override_input@));
    &&& match completion(o.naming.override_vocab@, prefix) {
        Some(c) if prefix.len() > 0 => f.naming.override_input@ == c,
        _ => f.naming.override_input == o.naming.override_input,
    }
    &&& f == (AppState { naming: NamingState { override_input: f.naming.override_input, ..o.naming }, ..o })
}

/// What the sideways wheel does to `o`, giving `f`: it scrolls the open log overlay.
pub open spec fn log_hscrolled(o: AppState, f: AppState, left: bool) -> bool {
    &&& !o.log.show_log_overlay ==> f == o
    &&& o.log.show_log_overlay && left ==> f == (AppState {
        log: LogState { log_col_scroll: sat_sub(o.log.log_col_scroll as int, 1) as usize, ..o.log },
        ..o
    })
    &&& o.log.show_log_overlay && !left ==> f == (AppState {
        log: LogState { log_col_scroll: min_int(o.log.log_col_scroll as int + 1, max_log_col(o.log)) as usize, ..o.log },
        ..o
    })
}

/// Whether the Files list of the scope stage has the focus.
pub open spec fn files_focused(o: AppState) -> bool {
    o.ui.stage == Stage::Scope && o.ui.scope_tab == ScopeTab::Files && o.ui.focus == FocusPane::ScopeFiles
}

/// `f` is `o` with only the text being typed (the one `typed_text` reads) changed.
pub open spec fn retyped(o: AppState, f: AppState) -> bool {
    match o.ui.mode {
        InputMode::EditingOverride => f == (AppState {
            naming: NamingState { override_input: f.naming.override_input, ..o.naming },
            ..o
        }),
        InputMode::Command => f == (AppState { naming: NamingState { command_input: f.naming.command_input, ..o.naming }, ..o }),
        InputMode::NewCategory => f == (AppState {
            filters: FilterState { new_category_input: f.filters.new_category_input, ..o.filters },
            ..o
        }),
        InputMode::EditingAiApiKey => f == (AppState {
            ai: AiState { ai_settings: AiSettingsState { api_key_input: f.ai.ai_settings.api_key_input, ..o.ai.ai_settings }, ..o.ai },
            ..o
        }),
        InputMode::EditingAiModelSearch => f == (AppState {
            ai: AiState {
                ai_settings: AiSettingsState { model_search_query: f.ai.ai_settings.model_search_query, ..o.ai.ai_settings },
                ..o.ai
            },
            ..o
        }),
        InputMode::EditingAiManualModel => f == (AppState {
            ai: AiState {
                ai_settings: AiSettingsState { manual_model_input: f.ai.ai_settings.manual_model_input, ..o.ai.ai_settings },
                ..o.ai
            },
            ..o
        }),
        _ => f == o,
    }
}

/// The actions that `reduce` applies itself: the overlays, the stages, tabs and focus,
/// the moves, expanding and collapsing, and the selection key.
pub open spec fn top_action(a: Action) -> bool {
    match a {
        Action::Tick | Action::Quit | Action::ToggleLogOverlay | Action::ScrollLogUp | Action::ScrollLogDown
        | Action::ScrollLogLeft | Action::ScrollLogRight | Action::ToggleHelp | Action::NextStage | Action::PrevStage
        | Action::NextScopeTab | Action::PrevScopeTab | Action::ToggleNamingTab | Action::NextFocus | Action::PrevFocus
        | Action::MoveUp | Action::MoveDown | Action::MoveLeft | Action::MoveRight | Action::ExpandAll
        | Action::CollapseAll | Action::ToggleSelect => true,
        _ => false,
    }
}

/// The actions of the scope and naming tools.
pub open spec fn tools_action(a: Action) -> bool {
    match a {
        Action::SelectAllVisibleFiles | Action::ToggleFilesSettingsPopup | Action::ToggleShowSelectedCategoriesOnly
        | Action::ToggleFilesPreview | Action::TriggerNamingSuggestionsRefresh | Action::ToggleNamingSuggestionsSettings
        | Action::DiscoverModels | Action::SaveAiSettings | Action::ClearAiApiKey | Action::FocusAiSettingsField(_)
        | Action::SelectAiModelByFilteredIndex(_) | Action::SetGlobalSuggestionOption(_) | Action::SetRowSuggestionOption(_)
        | Action::ClearRowSuggestionOption | Action::NextAiSettingsField | Action::PrevAiSettingsField
        | Action::TogglePromptHistoryOverlay | Action::SelectPromptHistoryEntry | Action::PromptHistoryUp
        | Action::PromptHistoryDown | Action::CommandHistoryPrev | Action::CommandHistoryNext | Action::ToggleShowHidden
        | Action::SavePreset(_) | Action::LoadPreset(_) | Action::ApplyMarketplace(_) | Action::Submit { .. } => true,
        _ => false,
    }
}

/// What applying `action` to `o` does, giving `f`. Actions tied to the Files list or to a
/// stage change nothing elsewhere.
pub open spec fn reduced(o: AppState, f: AppState, action: Action, r: Result<(), IoRequest>) -> bool {
    let naming = o.ui.stage == Stage::Naming;
    match action {
        Action::Tick => r is Ok && f.ui.ticks == (if o.ui.ticks == u64::MAX {
            u64::MAX
        } else {
            (o.ui.ticks + 1) as u64
        }) && f.log.toasts@ == toasts_after_tick(o.log.toasts@) && f == (AppState {
            ui: UiState { ticks: f.ui.ticks, ..o.ui },
            log: LogState { toasts: f.log.toasts, ..o.log },
            ..o
        }),
        Action::Quit => r is Ok && f == (AppState { ui: UiState { should_quit: true, ..o.ui }, ..o }),
        Action::ToggleHelp => r is Ok && f == (AppState { ui: UiState { show_help: !o.ui.show_help, ..o.ui }, ..o }),
        Action::ToggleNamingTab => r is Ok && f == (AppState {
            ui: UiState { naming_tab: naming_tab_next(o.ui.naming_tab), ..o.ui },
            ..o
        }),
        Action::NextStage => stage_set(o, f, stage_next(o.ui.stage), r),
        Action::PrevStage => stage_set(o, f, stage_prev(o.ui.stage), r),
        Action::MoveUp => r is Ok && moved_up(o, f),
        Action::MoveDown => r is Ok && moved_down(o, f),
        Action::MoveLeft => r is Ok && moved_left(o, f),
        Action::MoveRight => moved_right(o, f, r),
        Action::ExpandAll => all_expanded(o, f, r),
        Action::CollapseAll => r is Ok && all_collapsed(o, f),
        Action::ToggleSelect => select_toggled(o, f, r),
        Action::ToggleLogOverlay => r is Ok && f == (AppState {
            log: if !o.log.show_log_overlay {
                LogState { show_log_overlay: true, log_col_scroll: 0, log_scroll: max_log_row(o.log) as usize, ..o.log }
            } else {
                LogState { show_log_overlay: false, ..o.log }
            },
            ..o
        }),
        Action::ScrollLogUp => r is Ok && f == (AppState {
            log: LogState { log_scroll: sat_sub(min_int(o.log.log_scroll as int, max_log_row(o.log)), 1) as usize, ..o.log },
            ..o
        }),
        Action::ScrollLogDown => r is Ok && f == (AppState {
            log: LogState { log_scroll: min_int(o.log.log_scroll as int + 1, max_log_row(o.log)) as usize, ..o.log },
            ..o
        }),
        Action::ScrollLogLeft => r is Ok && f == (AppState {
            log: LogState { log_col_scroll: sat_sub(o.log.log_col_scroll as int, 1) as usize, ..o.log },
            ..o
        }),
        Action::ScrollLogRight => r is Ok && f == (AppState {
            log: LogState { log_col_scroll: min_int(o.log.log_col_scroll as int + 1, max_log_col(o.log)) as usize, ..o.log },
            ..o
        }),
        Action::NextScopeTab => r is Ok && f.ui.scope_tab == scope_tab_next(o.ui.scope_tab) && f.ui.stage == o.ui.stage
            && f == (AppState { ui: f.ui, ..o }),
        Action::PrevScopeTab => r is Ok && f.ui.scope_tab == scope_tab_prev(o.ui.scope_tab) && f.ui.stage == o.ui.stage
            && f == (AppState { ui: f.ui, ..o }),
        Action::NextFocus => r is Ok && (focus_index(o.ui.focus_manager) matches Some(i) && focus_index(f.ui.focus_manager) == Some(
            ring_next(i as int, stage_focus_list(o.ui.stage).len() as int) as usize,
        )) && focus_current(f.ui.focus_manager) == Some(f.ui.focus) && f == (AppState { ui: f.ui, ..o }),
        Action::PrevFocus => r is Ok && (focus_index(o.ui.focus_manager) matches Some(i) && focus_index(f.ui.focus_manager) == Some(
            ring_prev(i as int, stage_focus_list(o.ui.stage).len() as int) as usize,
        )) && focus_current(f.ui.focus_manager) == Some(f.ui.focus) && f == (AppState { ui: f.ui, ..o }),
        Action::SelectAllVisibleFiles => if files_focused(o) {
            &&& r is Ok <==> scan_walk(o) is Some
            &&& r matches Err(q) ==> lists_dir(q, scan_needs(o), o.files.show_hidden)
            &&& r is Ok ==> forall|k: int|
                0 <= k < visible_file_ids(o).len() ==> f.files.tree.nodes@[#[trigger] visible_file_ids(o)[k] as int].selected
                    == !all_visible_selected(o)
            &&& r is Ok ==> selection_kept_outside(o, f, visible_file_ids(o))
            &&& r is Ok ==> same_shape(o.files.tree.nodes@, f.files.tree.nodes@) && f.filters == o.filters
            &&& r is Ok && !o.files.show_selected_categories_only ==> visible_file_ids(f) == visible_file_ids(o)
        } else {
            r is Ok && f == o
        },
        Action::ToggleFilesSettingsPopup => r is Ok && if files_focused(o) {
            f == (AppState { files: FilesState { files_settings_open: !o.files.files_settings_open, ..o.files }, ..o })
        } else {
            f == o
        },
        Action::ToggleShowSelectedCategoriesOnly => r is Ok && if files_focused(o) {
            categories_only_toggled(o, f)
        } else {
            f == o
        },
        Action::TriggerNamingSuggestionsRefresh => r is Ok && if naming {
            suggestions_requested(o, f)
        } else {
            f == o
        },
        Action::ToggleNamingSuggestionsSettings => r is Ok && if naming {
            suggestions_settings_toggled(o, f)
        } else {
            f == o
        },
        Action::DiscoverModels => r is Ok && if naming {
            models_requested(o, f)
        } else {
            f == o
        },
        Action::ToggleShowHidden => {
            &&& r is Ok <==> root_walk(o.io_log, !o.files.show_hidden, o.cwd@) is Some
            &&& r matches Err(q) ==> lists_dir(q, root_needs(o.io_log, !o.files.show_hidden, o.cwd@), !o.files.show_hidden)
            &&& r is Ok ==> f.files.show_hidden == !o.files.show_hidden
        },
        Action::SavePreset(slot) => r is Ok && preset_saved(o, f, slot),
        Action::LoadPreset(slot) => {
            &&& r is Ok ==> preset_loaded(o, f, slot)
            &&& !(1 <= slot <= 9 && o.filters.presets@[slot - 1] is Some) ==> r is Ok
            &&& 1 <= slot <= 9 && o.filters.presets@[slot - 1] is Some ==> ({
                let h = o.filters.presets@[slot - 1]->0.show_hidden;
                &&& r is Ok <==> root_walk(o.io_log, h, o.cwd@) is Some
                &&& r matches Err(q) ==> lists_dir(q, root_needs(o.io_log, h, o.cwd@), h)
            })
        },
        Action::ApplyMarketplace(k) => {
            &&& k < o.filters.marketplace_presets@.len() ==> (r is Ok <==> scan_walk(o) is Some)
            &&& k >= o.filters.marketplace_presets@.len() ==> r is Ok && f == o
            &&& r matches Err(q) ==> lists_dir(q, scan_needs(o), o.files.show_hidden)
        },
        Action::Submit { stay } => r is Ok && if o.ui.stage == Stage::Apply {
            submitted(o, f, stay)
        } else {
            f == o
        },
        Action::ToggleFilesPreview => r is Ok && preview_toggled(o, f),
        Action::ClearAiApiKey => r is Ok && ai_key_cleared(o, f),
        Action::FocusAiSettingsField(field) => r is Ok && field_focused(o, f, field),
        Action::TogglePromptHistoryOverlay => r is Ok && history_overlay_toggled(o, f),
        Action::SaveAiSettings => r is Ok && ai_settings_saved(o, f),
        Action::SelectAiModelByFilteredIndex(k) => r is Ok && model_picked(o, f, k),
        Action::SetGlobalSuggestionOption(k) => r is Ok && global_option_set(o, f, k),
        Action::SetRowSuggestionOption(k) => r is Ok && row_option_set(o, f, k),
        Action::ClearRowSuggestionOption => r is Ok && row_option_cleared(o, f),
        Action::NextAiSettingsField => r is Ok && ai_field_advanced(o, f),
        Action::PrevAiSettingsField => r is Ok && ai_field_retreated(o, f),
        Action::SelectPromptHistoryEntry => r is Ok && history_entry_loaded(o, f),
        Action::PromptHistoryUp => r is Ok && history_cursor_up(o, f),
        Action::PromptHistoryDown => r is Ok && history_cursor_down(o, f),
        Action::CommandHistoryPrev => r is Ok && command_recalled_prev(o, f),
        Action::CommandHistoryNext => r is Ok && command_recalled_next(o, f),
        Action::StartOverrideEdit => r is Ok && if naming && o.ui.mode == InputMode::Normal {
            override_edit_begun(o, f)
        } else {
            f == o
        },
        Action::StartCommandInput => r is Ok && if naming {
            f.ui.mode == InputMode::Command && f.ui.focus == FocusPane::NamingCommand && f == (AppState { ui: f.ui, ..o })
        } else {
            f == o
        },
        Action::StartNewCategoryInput => r is Ok && if o.ui.stage == Stage::Scope && o.ui.scope_tab == ScopeTab::Select {
            f.filters.new_category_input@.len() == 0 && f == (AppState {
                ui: UiState { mode: InputMode::NewCategory, ..o.ui },
                filters: FilterState { new_category_input: f.filters.new_category_input, ..o.filters },
                ..o
            })
        } else {
            f == o
        },
        Action::StartGroupAssign => r is Ok && if naming {
            f.log.toasts@.last().message@ == "Group mode: press 1-9"@ && f == (AppState {
                ui: UiState { mode: InputMode::AwaitGroup, ..o.ui },
                log: f.log,
                ..o
            })
        } else {
            f == o
        },
        Action::AssignGroup(g) => r is Ok && if o.ui.mode == InputMode::AwaitGroup {
            group_assigned(o, f, g)
        } else {
            f == o
        },
        Action::InputChar(ch) => r is Ok && retyped(o, f) && match typed_text(o) {
            Some(t) => typed_text(f) == Some(t.push(ch)),
            None => f == o,
        },
        Action::Backspace => r is Ok && retyped(o, f) && match typed_text(o) {
            Some(t) => typed_text(f) == Some(if t.len() > 0 { t.drop_last() } else { t }),
            None => f == o,
        },
        Action::CommitInput => committed(o, f, r),
        Action::CancelInput => r is Ok && match o.ui.mode {
            InputMode::EditingOverride => override_edit_cancelled(o, f),
            InputMode::Normal => if naming && o.ai.ai_settings.popup_open {
                f == (AppState {
                    ai: AiState { ai_settings: AiSettingsState { popup_open: false, ..o.ai.ai_settings }, ..o.ai },
                    ..o
                })
            } else {
                f == (AppState { ui: UiState { show_help: false, ..o.ui }, ..o })
            },
            _ => f == (AppState { ui: UiState { mode: InputMode::Normal, ..o.ui }, ..o }),
        },
        Action::Autocomplete => r is Ok && if o.ui.mode == InputMode::EditingOverride {
            autocompleted(o, f)
        } else {
            f == o
        },
        Action::MouseDown(col, row) => mouse_pressed(o, f, col, row, r),
        Action::MouseDrag(col, row) => mouse_dragged(o, f, col, row, r),
        Action::MouseUp(_, _) => mouse_released(o, f, r),
        Action::MouseScrollUp(col, row) => r is Ok && wheel_scrolled(o, f, col, row, true),
        Action::MouseScrollDown(col, row) => r is Ok && wheel_scrolled(o, f, col, row, false),
        Action::MouseScrollLeft(_, _) => r is Ok && log_hscrolled(o, f, true),
        Action::MouseScrollRight(_, _) => r is Ok && log_hscrolled(o, f, false),
    }
}

/// Applies one action to the planner. Actions tied to a stage or pane do nothing
/// elsewhere. It stops on a directory listing the record lacks, returning the request.
#[verifier::spinoff_prover]
#[verifier::rlimit(100)]
pub fn reduce(app: &mut AppState, action: Action) -> (r: Result<(), IoRequest>)
    requires
        old(app).wf(),
        action == Action::StartOverrideEdit && old(app).ui.stage == Stage::Naming && old(app).ui.mode == InputMode::Normal
            && old(app).naming.rename_rows@.len() > 0 ==> old(app).naming.rename_cursor < old(app).naming.rename_rows@.len(),
    ensures
        r is Ok ==> final(app).wf(),
        r matches Err(q) ==> (q matches IoRequest::ListDir { .. }),
        reduced(*old(app), *final(app), action, r),
{
    let ghost before = *app;
    match action {
        Action::Tick => {
            app.tick();
            proof { lemma_wf_kept(before, *app); }
        },
        Action::Quit => {
            app.ui.should_quit = true;
            proof { lemma_wf_kept(before, *app); }
        },
        Action::ToggleLogOverlay => {
            app.toggle_log_overlay();
            proof { lemma_wf_kept(before, *app); }
        },
        Action::ScrollLogUp => {
            app.scroll_log_up();
            proof { lemma_wf_kept(before, *app); }
        },
        Action::ScrollLogDown => {
            app.scroll_log_down();
            proof { lemma_wf_kept(before, *app); }
        },
        Action::ScrollLogLeft => {
            app.scroll_log_left();
            proof { lemma_wf_kept(before, *app); }
        },
        Action::ScrollLogRight => {
            app.scroll_log_right();
            proof { lemma_wf_kept(before, *app); }
        },
        Action::ToggleHelp => {
            app.ui.show_help = !app.ui.show_help;
            proof { lemma_wf_kept(before, *app); }
        },
        Action::NextStage => {
            let s = app.ui.stage.next();
            return app.set_stage(s);
        },
        Action::PrevStage => {
            let s = app.ui.stage.prev();
            return app.set_stage(s);
        },
        Action::NextScopeTab => {
            app.next_scope_tab();
            proof { lemma_wf_kept(before, *app); }
        },
        Action::PrevScopeTab => {
            app.prev_scope_tab();
            proof { lemma_wf_kept(before, *app); }
        },
        Action::ToggleNamingTab => {
            app.ui.naming_tab = app.ui.naming_tab.next();
            proof { lemma_wf_kept(before, *app); }
        },
        Action::NextFocus => {
            app.next_focus();
            proof { lemma_wf_kept(before, *app); }
        },
        Action::PrevFocus => {
            app.prev_focus();
            proof { lemma_wf_kept(before, *app); }
        },
        Action::MoveUp => app.move_up(),
        Action::MoveDown => app.move_down(),
        Action::MoveLeft => handle_left(app),
        Action::MoveRight => return handle_right(app),
        Action::ExpandAll => return app.expand_all_current(),
        Action::CollapseAll => app.collapse_all_current(),
        Action::ToggleSelect => return handle_toggle_select(app),
        _ => return reduce_more(app, action),
    }
    Ok(())
}

/// The actions of the scope and naming tools, as `reduce` applies them.
#[verifier::spinoff_prover]
#[verifier::rlimit(80)]
fn reduce_more(app: &mut AppState, action: Action) -> (r: Result<(), IoRequest>)
    requires
        old(app).wf(),
        action == Action::StartOverrideEdit && old(app).ui.stage == Stage::Naming && old(app).ui.mode == InputMode::Normal
            && old(app).naming.rename_rows@.len() > 0 ==> old(app).naming.rename_cursor < old(app).naming.rename_rows@.len(),
    ensures
        r is Ok ==> final(app).wf(),
        r matches Err(q) ==> (q matches IoRequest::ListDir { .. }),
        !top_action(action) ==> reduced(*old(app), *final(app), action, r),
{
    let ghost before = *app;
    let scope_files = app.ui.stage == Stage::Scope && app.ui.scope_tab == ScopeTab::Files && app.ui.focus == FocusPane::ScopeFiles;
    let naming = app.ui.stage == Stage::Naming;
    match action {
        Action::SelectAllVisibleFiles => {
            if scope_files {
                return app.select_all_visible_files();
            }
        },
        Action::ToggleFilesSettingsPopup => {
            if scope_files {
                app.toggle_files_settings_popup();
                proof { lemma_wf_kept(before, *app); }
            }
        },
        Action::ToggleShowSelectedCategoriesOnly => {
            if scope_files {
                app.toggle_show_selected_categories_only();
            }
        },
        Action::ToggleFilesPreview => {
            app.toggle_files_preview();
            proof { lemma_wf_kept(before, *app); }
        },
        Action::TriggerNamingSuggestionsRefresh => {
            if naming {
                app.trigger_naming_suggestions_refresh();
                proof { lemma_wf_kept(before, *app); }
            }
        },
        Action::ToggleNamingSuggestionsSettings => {
            if naming {
                app.toggle_naming_suggestions_settings();
                proof { lemma_wf_kept(before, *app); }
            }
        },
        Action::DiscoverModels => {
            if naming {
                app.discover_openrouter_models();
                proof { lemma_wf_kept(before, *app); }
            }
        },
        Action::SaveAiSettings => {
            app.save_ai_settings_to_disk();
            proof { lemma_wf_kept(before, *app); }
        },
        Action::ClearAiApiKey => {
            app.clear_ai_api_key();
            proof { lemma_wf_kept(before, *app); }
        },
        Action::FocusAiSettingsField(field) => {
            app.focus_ai_settings_field(field);
            proof { lemma_wf_kept(before, *app); }
        },
        Action::SelectAiModelByFilteredIndex(k) => {
            app.select_ai_model_by_filtered_index(k);
            proof { lemma_wf_kept(before, *app); }
        },
        Action::SetGlobalSuggestionOption(k) => app.set_global_suggestion_option(k),
        Action::SetRowSuggestionOption(k) => app.set_row_suggestion_option(k),
        Action::ClearRowSuggestionOption => app.clear_row_suggestion_option(),
        Action::NextAiSettingsField => {
            app.ai_settings_next_field();
            proof { lemma_wf_kept(before, *app); }
        },
        Action::PrevAiSettingsField => {
            app.ai_settings_prev_field();
            proof { lemma_wf_kept(before, *app); }
        },
        Action::TogglePromptHistoryOverlay => {
            app.toggle_prompt_history_overlay();
            proof { lemma_wf_kept(before, *app); }
        },
        Action::SelectPromptHistoryEntry => app.select_prompt_history_entry(),
        Action::PromptHistoryUp => {
            app.prompt_history_move_up();
            proof { lemma_wf_kept(before, *app); }
        },
        Action::PromptHistoryDown => {
            app.prompt_history_move_down();
            proof { lemma_wf_kept(before, *app); }
        },
        Action::CommandHistoryPrev => {
            app.command_history_prev();
            proof { lemma_wf_kept(before, *app); }
        },
        Action::CommandHistoryNext => {
            app.command_history_next();
            proof { lemma_wf_kept(before, *app); }
        },
        Action::ToggleShowHidden => return app.toggle_show_hidden(),
        Action::SavePreset(slot) => app.save_preset(slot),
        Action::LoadPreset(slot) => return app.load_preset(slot),
        Action::ApplyMarketplace(k) => return app.apply_marketplace(k),
        Action::Submit { stay } => {
            if app.ui.stage == Stage::Apply {
                app.submit_simulated(stay);
                proof { lemma_wf_kept(before, *app); }
            }
        },
        _ => return reduce_input(app, action),
    }
    Ok(())
}

/// The typing and mouse actions, as `reduce` applies them.
#[verifier::spinoff_prover]
#[verifier::rlimit(80)]
fn reduce_input(app: &mut AppState, action: Action) -> (r: Result<(), IoRequest>)
    requires
        old(app).wf(),
        action == Action::StartOverrideEdit && old(app).ui.stage == Stage::Naming && old(app).ui.mode == InputMode::Normal
            && old(app).naming.rename_rows@.len() > 0 ==> old(app).naming.rename_cursor < old(app).naming.rename_rows@.len(),
    ensures
        r is Ok ==> final(app).wf(),
        r matches Err(q) ==> (q matches IoRequest::ListDir { .. }),
        !top_action(action) && !tools_action(action) ==> reduced(*old(app), *final(app), action, r),
{
    let ghost before = *app;
    match action {
        Action::StartOverrideEdit => {
            if app.ui.stage == Stage::Naming && app.ui.mode == InputMode::Normal {
                app.begin_override_edit();
                proof { lemma_wf_kept(before, *app); }
            }
        },
        Action::StartCommandInput => {
            if app.ui.stage == Stage::Naming {
                app.ui.mode = InputMode::Command;
                app.set_focus(FocusPane::NamingCommand);
                proof { lemma_wf_kept(before, *app); }
            }
        },
        Action::StartNewCategoryInput => {
            if app.ui.stage == Stage::Scope && app.ui.scope_tab == ScopeTab::Select {
                app.ui.mode = InputMode::NewCategory;
                app.filters.new_category_input = String::new();
                proof { lemma_wf_kept(before, *app); }
            }
        },
        Action::StartGroupAssign => {
            if app.ui.stage == Stage::Naming {
                app.ui.mode = InputMode::AwaitGroup;
                app.push_toast(ToastLevel::Info, str_to_string("Group mode: press 1-9"));
                proof { lemma_wf_kept(before, *app); }
            }
        },
        Action::AssignGroup(g) => {
            if app.ui.mode == InputMode::AwaitGroup {
                app.assign_group(g);
                proof { lemma_wf_kept(before, *app); }
            }
        },
        Action::InputChar(ch) => {
            match app.ui.mode {
                InputMode::EditingOverride => crate::text::push_char(&mut app.naming.override_input, ch),
                InputMode::Command => crate::text::push_char(&mut app.naming.command_input, ch),
                InputMode::NewCategory => crate::text::push_char(&mut app.filters.new_category_input, ch),
                InputMode::EditingAiApiKey => crate::text::push_char(&mut app.ai.ai_settings.api_key_input, ch),
                InputMode::EditingAiModelSearch => crate::text::push_char(&mut app.ai.ai_settings.model_search_query, ch),
                InputMode::EditingAiManualModel => crate::text::push_char(&mut app.ai.ai_settings.manual_model_input, ch),
                _ => {},
            }
            proof { lemma_wf_kept(before, *app); }
        },
        Action::Backspace => {
            match app.ui.mode {
                InputMode::EditingOverride => crate::text::pop_char(&mut app.naming.override_input),
                InputMode::Command => crate::text::pop_char(&mut app.naming.command_input),
                InputMode::NewCategory => crate::text::pop_char(&mut app.filters.new_category_input),
                InputMode::EditingAiApiKey => crate::text::pop_char(&mut app.ai.ai_settings.api_key_input),
                InputMode::EditingAiModelSearch => crate::text::pop_char(&mut app.ai.ai_settings.model_search_query),
                InputMode::EditingAiManualModel => crate::text::pop_char(&mut app.ai.ai_settings.manual_model_input),
                _ => {},
            }
            proof { lemma_wf_kept(before, *app); }
        },
        Action::CommitInput => return handle_commit(app),
        Action::CancelInput => {
            match app.ui.mode {
                InputMode::EditingOverride => app.cancel_override_edit(),
                InputMode::Normal => {
                    if app.ui.stage == Stage::Naming && app.ai.ai_settings.popup_open {
                        app.ai.ai_settings.popup_open = false;
                    } else {
                        app.ui.show_help = false;
                    }
                },
                _ => {
                    app.ui.mode = InputMode::Normal;
                },
            }
            proof { lemma_wf_kept(before, *app); }
        },
        Action::Autocomplete => {
            if app.ui.mode == InputMode::EditingOverride {
                app.autocomplete_override();
                proof { lemma_wf_kept(before, *app); }
            }
        },
        Action::MouseDown(col, row) => return handle_mouse_down(app, col, row),
        Action::MouseDrag(col, row) => return handle_mouse_drag(app, col, row),
        Action::MouseUp(_, _) => return handle_mouse_up(app),
        Action::MouseScrollUp(col, row) => handle_mouse_scroll(app, col, row, true),
        Action::MouseScrollDown(col, row) => handle_mouse_scroll(app, col, row, false),
        Action::MouseScrollLeft(_, _) => handle_mouse_hscroll(app, true),
        Action::MouseScrollRight(_, _) => handle_mouse_hscroll(app, false),
        _ => {},
    }
    Ok(())
}

} // verus!
