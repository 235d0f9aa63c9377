//! Starting the planner, moving between its stages, answering clicks, and stopping the
//! workers.
use vstd::prelude::*;
use crate::ai_ops::{build_ai_settings_from_config, has_minimum_config, refreshed_if_configured};
use crate::config::AppConfig;
use crate::fs_scan::{collect_visit, lists_dir, missing_listing};
use crate::naming_ops::{root_needs, root_walk};
use crate::tree::{child_entries, root_loaded};
use crate::io::log_listing;
use crate::interact::{
    Rect, click_regions_of, clicks_clear, clicks_handle, clicks_new, clicks_regions, clicks_register, focus_new,
    rect_contains, rect_wf,
};
use crate::io::{IoLog, IoRequest};
use crate::logs::{concat, keep_last};
use crate::model::{
    ClickTarget, FilesPreviewStatus, FocusPane, InputMode, NamingAiStatus, NamingTab, ScopeTab, SizeConstraint, Stage,
    StyleOptions, TimeConstraint, Toast, ToastLevel, string_views,
};
use crate::naming_ops::{rows_synced, MAX_SCANNED_FILES};
use crate::nav::{ring_ok, stage_focus_list};
use crate::prompts::MAX_PROMPT_HISTORY_ENTRIES;
use crate::state::{
    AiState, AppState, ApplyState, FilesState, FilterState, LogState, NamingState, PreviewState, PromptHistoryState, UiState,
};
use crate::text::str_to_string;
use crate::workers::{AiWorkerCommand, PreviewWorkerCommand};

verus! {

/// The model offered when none is saved.
pub open spec fn default_model() -> Seq<char> {
    "google/gemini-2.0-flash-001"@
}

/// The last `n` strings of `v`, or all of them.
fn keep_last_strings(v: Vec<String>, n: usize) -> (r: Vec<String>)
    ensures
        r@ == keep_last(v@, n as int),
{
    if v.len() <= n {
        return v;
    }
    let start = v.len() - n;
    let mut out: Vec<String> = Vec::new();
    let mut i: usize = start;
    while i < v.len()
        invariant
            start <= i <= v@.len(),
            start == v@.len() - n,
            out@ == v@.subrange(start as int, i as int),
        decreases v@.len() - i,
    {
        out.push(v[i].clone());
        assert(v@.subrange(start as int, i + 1) == v@.subrange(start as int, i as int).push(v@[i as int]));
        i += 1;
    }
    out
}

impl AppState {
    /// Goes to a stage: the focus ring holds its panes and its first pane is focused. The
    /// naming stage rebuilds the rename rows and asks for suggestions when a key and model
    /// are set; it stops on a listing the record lacks.
    pub fn set_stage(&mut self, stage: Stage) -> (r: Result<(), IoRequest>)
        requires
            old(self).wf(),
        ensures
            r is Ok ==> final(self).wf(),
            r is Ok ==> final(self).ui.stage == stage && final(self).ui.focus == stage_focus_list(stage)[0],
            r is Ok ==> final(self).ui == (UiState {
                stage,
                focus: final(self).ui.focus,
                focus_manager: final(self).ui.focus_manager,
                scope_tab: final(self).ui.scope_tab,
                ..old(self).ui
            }),
            r is Ok ==> final(self).naming.command_input == old(self).naming.command_input,
            stage != Stage::Naming ==> r is Ok && *final(self) == (AppState { ui: final(self).ui, ..*old(self) }),
            stage == Stage::Naming ==> (r is Ok <==> collect_visit(
                old(self).io_log,
                old(self).files.show_hidden,
                MAX_SCANNED_FILES as int,
                old(self).cwd@,
                seq![],
            ) is Some),
            r matches Err(q) ==> missing_listing(old(self).io_log, old(self).files.show_hidden, q),
            r matches Err(q) ==> lists_dir(q, root_needs(old(self).io_log, old(self).files.show_hidden, old(self).cwd@), old(self).files.show_hidden),
            stage == Stage::Naming && r is Ok ==> exists|a: AppState, b: AppState|
                a == (AppState { ui: final(self).ui, ..*old(self) }) && #[trigger] rows_synced(a, b) && refreshed_if_configured(
                    b,
                    *final(self),
                ),
    {
        self.ui.stage = stage;
        self.sync_focus_manager();
        let panes = self.stage_focuses();
        let first = panes[0];
        self.set_focus(first);
        if stage == Stage::Naming {
            let ghost a = *self;
            match self.sync_rename_rows() {
                Err(q) => return Err(q),
                Ok(()) => {},
            }
            let ghost b = *self;
            self.trigger_naming_suggestions_refresh_if_configured();
            assert(rows_synced(a, b));
        }
        Ok(())
    }

    /// Tells the AI worker to stop, when one runs.
    pub fn shutdown_ai_worker(&mut self)
        ensures
            old(self).ai.ai_worker_available ==> final(self).ai.ai_outbox@ == old(self).ai.ai_outbox@.push(
                AiWorkerCommand::Shutdown,
            ),
            !old(self).ai.ai_worker_available ==> final(self).ai.ai_outbox == old(self).ai.ai_outbox,
            *final(self) == (AppState { ai: AiState { ai_outbox: final(self).ai.ai_outbox, ..old(self).ai }, ..*old(self) }),
    {
        if self.ai.ai_worker_available {
            self.ai.ai_outbox.push(AiWorkerCommand::Shutdown);
        }
    }

    /// Tells the preview worker to stop, when one runs.
    pub fn shutdown_preview_worker(&mut self)
        ensures
            old(self).preview.worker_available ==> final(self).preview.outbox@ == old(self).preview.outbox@.push(
                PreviewWorkerCommand::Shutdown,
            ),
            !old(self).preview.worker_available ==> final(self).preview.outbox == old(self).preview.outbox,
            *final(self) == (AppState {
                preview: PreviewState { outbox: final(self).preview.outbox, ..old(self).preview },
                ..*old(self)
            }),
    {
        if self.preview.worker_available {
            self.preview.outbox.push(PreviewWorkerCommand::Shutdown);
        }
    }

    /// The target of the first region, in the order they were registered, that holds the
    /// cell at column `col`, row `row`.
    pub fn click_target_at(&self, col: u16, row: u16) -> (t: Option<ClickTarget>)
        requires
            self.wf(),
        ensures
            t is None ==> forall|i: int|
                0 <= i < click_regions_of(self.ui.click_regions).len() ==> !rect_contains(
                    #[trigger] click_regions_of(self.ui.click_regions)[i].0,
                    col,
                    row,
                ),
            t matches Some(x) ==> exists|i: int|
                0 <= i < click_regions_of(self.ui.click_regions).len() && rect_contains(
                    #[trigger] click_regions_of(self.ui.click_regions)[i].0,
                    col,
                    row,
                ) && click_regions_of(self.ui.click_regions)[i].1 == x && forall|j: int|
                    0 <= j < i ==> !rect_contains(#[trigger] click_regions_of(self.ui.click_regions)[j].0, col, row),
    {
        clicks_handle(&self.ui.click_regions, col, row)
    }

    /// The target of the last registered region (the one drawn on top) that holds the cell
    /// at column `col`, row `row`.
    pub fn click_target_at_topmost(&self, col: u16, row: u16) -> (t: Option<ClickTarget>)
        ensures
            t is None ==> forall|i: int|
                0 <= i < click_regions_of(self.ui.click_regions).len() ==> !rect_contains(
                    #[trigger] click_regions_of(self.ui.click_regions)[i].0,
                    col,
                    row,
                ),
            t matches Some(x) ==> exists|i: int|
                0 <= i < click_regions_of(self.ui.click_regions).len() && rect_contains(
                    #[trigger] click_regions_of(self.ui.click_regions)[i].0,
                    col,
                    row,
                ) && click_regions_of(self.ui.click_regions)[i].1 == x && forall|j: int|
                    i < j < click_regions_of(self.ui.click_regions).len() ==> !rect_contains(
                        #[trigger] click_regions_of(self.ui.click_regions)[j].0,
                        col,
                        row,
                    ),
    {
        let regions = clicks_regions(&self.ui.click_regions);
        let mut k: usize = regions.len();
        while k > 0
            invariant
                k <= regions@.len(),
                regions@ == click_regions_of(self.ui.click_regions),
                forall|j: int| k <= j < regions@.len() ==> !rect_contains(#[trigger] regions@[j].0, col, row),
            decreases k,
        {
            let (area, target) = regions[k - 1];
            if area.x <= col && (col as u32) < (area.x as u32) + (area.width as u32) && area.y <= row && (row as u32)
                < (area.y as u32) + (area.height as u32) {
                return Some(target);
            }
            k -= 1;
        }
        None
    }

    /// Forgets every click region, before the screen is drawn again.
    pub fn clear_click_regions(&mut self)
        requires
            old(self).wf(),
        ensures
            final(self).wf(),
            click_regions_of(final(self).ui.click_regions) == Seq::<(Rect, ClickTarget)>::empty(),
            *final(self) == (AppState {
                ui: UiState { click_regions: final(self).ui.click_regions, ..old(self).ui },
                ..*old(self)
            }),
    {
        clicks_clear(&mut self.ui.click_regions);
    }

    /// Makes the cells of `area` answer clicks with `target`, above the regions registered
    /// before.
    pub fn register_click(&mut self, area: Rect, target: ClickTarget)
        requires
            old(self).wf(),
            rect_wf(area),
        ensures
            final(self).wf(),
            click_regions_of(final(self).ui.click_regions) == click_regions_of(old(self).ui.click_regions).push((area, target)),
            *final(self) == (AppState {
                ui: UiState { click_regions: final(self).ui.click_regions, ..old(self).ui },
                ..*old(self)
            }),
    {
        clicks_register(&mut self.ui.click_regions, area, target);
    }
}


/// The help lines shown by `?`.
fn help_text() -> (r: Vec<String>)
    ensures
        r@.len() == 5,
{
    let mut v: Vec<String> = Vec::new();
    v.push(str_to_string("Global: q quit | [ / ] stage | Tab focus | ? help"));
    v.push(str_to_string("Global: L logs overlay"));
    v.push(str_to_string("Files: arrows move | Space select | A select-all | p settings | f category-filter | v preview"));
    v.push(str_to_string(
        "Naming: r refresh AI | m suggestions settings | p prompt history | 1-3 row option | / prompt | v preview",
    ));
    v.push(str_to_string("Apply: Enter submit+exit (simulated) | Ctrl+Enter submit+stay"));
    v
}

/// Nine empty preset slots.
fn empty_presets() -> (r: Vec<Option<crate::model::PresetState>>)
    ensures
        r@.len() == 9,
        forall|k: int| 0 <= k < 9 ==> #[trigger] r@[k] is None,
{
    let mut v: Vec<Option<crate::model::PresetState>> = Vec::new();
    let mut i: usize = 0;
    while i < 9
        invariant
            i <= 9,
            v@.len() == i,
            forall|k: int| 0 <= k < i ==> #[trigger] v@[k] is None,
        decreases 9 - i,
    {
        v.push(None);
        i += 1;
    }
    v
}

impl AppState {
    /// The planner at start in `cwd`: the scope stage with the Files tab focused, the
    /// default categories and marketplace presets, the saved key and model (the default
    /// model offered when none is saved), the last two hundred prompts of the loaded
    /// history, a welcome toast, and the tree and rename rows built from the record of
    /// listings. A failed history load is logged. It stops on a listing the record lacks,
    /// handing the record back.
    pub fn new(
        cwd: String,
        config: &AppConfig,
        history: Result<Vec<String>, String>,
        ai_worker_available: bool,
        preview_worker_available: bool,
        io_log: IoLog,
    ) -> (r: Result<AppState, (IoRequest, IoLog)>)
        ensures
            r matches Ok(app) ==> {
                &&& app.wf()
                &&& app.cwd == cwd
                &&& app.ui.stage == Stage::Scope
                &&& app.ui.scope_tab == ScopeTab::Files
                &&& app.ui.mode == InputMode::Normal
                &&& !app.ui.should_quit
                &&& app.files.selected_by_tree@.len() == 0
                &&& app.filters.selected_extensions@.len() == 0
                &&& app.filters.category_filters@.map_values(|c: crate::model::CategoryFilter| c@) == crate::naming::default_categories()
                &&& app.filters.marketplace_presets@.map_values(|p: crate::model::MarketplacePreset| p@) == crate::naming::default_marketplace()
                &&& app.filters.time_constraint == TimeConstraint::Any
                &&& app.filters.size_constraint == SizeConstraint::Any
                &&& app.naming.style == crate::model::default_style()
                &&& app.naming.suggestion_set is None
                &&& app.apply.undo_history@.len() == 0
                &&& app.preview.status == FilesPreviewStatus::Hidden && !app.preview.visible
                &&& app.preview.worker_available == preview_worker_available
                &&& app.ai.ai_worker_available == ai_worker_available
                &&& crate::config::opt_string_view(app.ai.ai_settings.api_key) == crate::config::opt_string_view(config.openrouter_api_key)
                &&& crate::config::opt_string_view(app.ai.ai_settings.selected_model) == crate::config::opt_string_view(config.openrouter_model)
                &&& config.openrouter_model is None ==> app.ai.ai_settings.manual_model_input@ == default_model()
                &&& app.ai.naming_ai_status == (if has_minimum_config(app.ai.ai_settings) {
                    NamingAiStatus::Idle
                } else {
                    NamingAiStatus::NeedsConfig
                })
                &&& string_views(app.history.prompt_history@) == match history {
                    Ok(h) => keep_last(string_views(h@), MAX_PROMPT_HISTORY_ENTRIES as int),
                    Err(_) => Seq::<Seq<char>>::empty(),
                }
                &&& app.log.toasts@.len() == 1
                &&& app.log.toasts@[0].level == ToastLevel::Info
                &&& app.log.toasts@[0].message@ == "Welcome to irm. Scope files, shape names, and simulate apply."@
            },
            r matches Err((q, log)) ==> log == io_log && missing_listing(io_log, false, q),
            r is Ok <==> root_walk(io_log, false, cwd@) is Some,
            r matches Err((q, log)) ==> lists_dir(q, root_needs(io_log, false, cwd@), false),
            r matches Ok(app) ==> {
                &&& app.ui.focus == FocusPane::ScopeFiles
                &&& !app.ui.show_help && !app.log.show_log_overlay && !app.history.show_prompt_history_overlay
                &&& !app.files.files_settings_open && !app.ai.ai_settings.popup_open
                &&& !app.files.show_hidden && !app.files.show_selected_categories_only
                &&& app.filters.presets@.len() == 9
                &&& forall|k: int| 0 <= k < 9 ==> #[trigger] app.filters.presets@[k] is None
                &&& app.naming.rename_rows@.len() == 0
                &&& app.files.tree.root == 0 && app.files.tree.nodes@[0].path == cwd
                &&& app.io_log == io_log
                &&& app.naming.command_input@.len() == 0
                &&& match log_listing(io_log, cwd@, false) {
                    Some(Some(entries)) => app.files.scan_error is None && root_loaded(
                        app.files.tree,
                        cwd@,
                        child_entries(entries, cwd@.len() as int),
                    ),
                    _ => app.files.scan_error is Some,
                }
            },
    {
        let tree = crate::model::FileTree::new(cwd.clone());
        let prompt_history = match &history {
            Ok(h) => {
                let mut copy: Vec<String> = Vec::new();
                let mut i: usize = 0;
                while i < h.len()
                    invariant
                        i <= h@.len(),
                        copy@ == h@.take(i as int),
                    decreases h@.len() - i,
                {
                    copy.push(h[i].clone());
                    assert(h@.take(i + 1) == h@.take(i as int).push(h@[i as int]));
                    i += 1;
                }
                assert(h@.take(i as int) == h@);
                keep_last_strings(copy, MAX_PROMPT_HISTORY_ENTRIES)
            },
            Err(_) => Vec::new(),
        };
        let mut ai_settings = build_ai_settings_from_config(config);
        if ai_settings.selected_model.is_none() {
            ai_settings.manual_model_input = str_to_string("google/gemini-2.0-flash-001");
        }
        let mut toasts: Vec<Toast> = Vec::new();
        toasts.push(Toast {
            level: ToastLevel::Info,
            message: str_to_string("Welcome to irm. Scope files, shape names, and simulate apply."),
            ttl_ticks: 55,
        });
        let mut app = AppState {
            cwd,
            ui: UiState {
                stage: Stage::Scope,
                scope_tab: ScopeTab::Files,
                scope_left_tab: ScopeTab::Files,
                scope_right_tab: ScopeTab::Constraint,
                naming_tab: NamingTab::Suggestions,
                focus: FocusPane::ScopeFiles,
                focus_manager: focus_new(),
                mode: InputMode::Normal,
                should_quit: false,
                show_help: false,
                ticks: 0,
                help_lines: help_text(),
                click_regions: clicks_new(),
            },
            files: FilesState {
                show_hidden: false,
                files_settings_open: false,
                show_selected_categories_only: false,
                tree,
                scan_error: None,
                selected_by_tree: Vec::new(),
                filter_cache: Vec::new(),
                category_match_dirs: Vec::new(),
                scope_files_focus_nodes: Vec::new(),
                scope_files_drag: None,
                scope_files_scrollbar: None,
            },
            filters: FilterState {
                category_filters: crate::naming::default_category_filters(),
                selected_extensions: Vec::new(),
                select_cursor: 0,
                new_category_input: String::new(),
                time_constraint: TimeConstraint::Any,
                size_constraint: SizeConstraint::Any,
                constraint_cursor: 0,
                presets: empty_presets(),
                preset_cursor: 0,
                marketplace_presets: crate::naming::default_marketplace_presets(),
                marketplace_cursor: 0,
            },
            preview: PreviewState {
                visible: false,
                status: FilesPreviewStatus::Hidden,
                target: None,
                error: None,
                source_meta: None,
                next_request_id: 1,
                active_request_id: None,
                worker_available: preview_worker_available,
                outbox: Vec::new(),
            },
            naming: NamingState {
                rename_rows: Vec::new(),
                rename_cursor: 0,
                rename_scroll: 0,
                suggestions: crate::naming::default_suggestion_labels(),
                suggestion_cursor: 0,
                suggestion_set: None,
                style: StyleOptions::default(),
                style_cursor: 0,
                command_input: String::new(),
                command_history_nav: None,
                command_history_draft: None,
                override_input: String::new(),
                editing_row: None,
                override_vocab: Vec::new(),
            },
            apply: ApplyState { undo_history: Vec::new(), apply_cursor: 0, history_cursor: 0 },
            log: LogState {
                toasts,
                logs: Vec::new(),
                show_log_overlay: false,
                log_scroll: 0,
                log_view_height: 0,
                log_col_scroll: 0,
                log_view_width: 0,
            },
            history: PromptHistoryState {
                prompt_history,
                show_prompt_history_overlay: false,
                prompt_history_cursor: 0,
                prompt_history_scroll: 0,
                prompt_history_view_height: 0,
            },
            ai: AiState {
                ai_settings,
                naming_ai_status: NamingAiStatus::Idle,
                naming_ai_error: None,
                ai_next_request_id: 1,
                ai_active_request_id: None,
                ai_analyzing_paths: Vec::new(),
                ai_worker_available,
                ai_outbox: Vec::new(),
            },
            io_log,
            io_outbox: Vec::new(),
        };
        app.sync_focus_manager();
        match app.reload_tree() {
            Ok(()) => {},
            Err(q) => return Err((q, app.io_log)),
        }
        let ghost before_sync = app;
        match app.sync_rename_rows() {
            Ok(()) => {},
            Err(q) => return Err((q, app.io_log)),
        }
        proof {
            crate::naming_ops::lemma_synced_nothing_chosen(before_sync, app);
        }
        app.append_log("INFO", "App initialized");
        match history {
            Err(e) => {
                let msg = concat("Prompt history load failed: ", e.as_str());
                app.append_log("WARN", msg.as_str());
            },
            Ok(_) => {},
        }
        app.ai.naming_ai_status = if app.ai_settings_has_minimum_config() {
            NamingAiStatus::Idle
        } else {
            NamingAiStatus::NeedsConfig
        };
        Ok(app)
    }
}

} // verus!
