//! The whole state of the planner, and what keeps it well formed.
//!
//! Paths are held as text. Every path the planner holds is built the same way from the
//! working directory (a listing joins the directory and the entry name), so two paths that
//! name the same file are the same text, and sets and maps of paths compare them as text.
use vstd::prelude::*;
use ratatui_interact::state::FocusManager;
use ratatui_interact::traits::ClickRegionRegistry;
use crate::interact::{click_regions_of, rect_wf};
use crate::io::{IoLog, IoRequest};
use crate::model::{
    AiSettingsState, CategoryFilter, ClickTarget, FileTree, FilesDragState, FilesPreviewStatus,
    FocusPane, InputMode, MarketplacePreset, NamingAiStatus, NamingTab, PresetState, RenameRow,
    ScopeTab, SessionUndoEntry, SizeConstraint, Stage, StyleOptions, SuggestionSet, TimeConstraint,
    Toast,
};
use crate::preview::PreviewSourceMeta;
use crate::scrollbar::ScopeFilesScrollbarGeometry;
use crate::nav::ring_ok;
use crate::textset::distinct_texts;
use crate::vocab::sorted_texts;
use crate::rows::options_cut_ok;
use crate::tree::paths_grow;
use crate::io::first_listing;
use crate::fs_scan::FsEntry;
use crate::workers::{AiWorkerCommand, PreviewWorkerCommand};

verus! {

/// Where the user is: stage, tabs, focus, input mode, and the screen regions that answer
/// clicks.
#[derive(Debug, Clone)]
pub struct UiState {
    pub stage: Stage,
    pub scope_tab: ScopeTab,
    pub scope_left_tab: ScopeTab,
    pub scope_right_tab: ScopeTab,
    pub naming_tab: NamingTab,
    pub focus: FocusPane,
    pub focus_manager: FocusManager<FocusPane>,
    pub mode: InputMode,
    pub should_quit: bool,
    pub show_help: bool,
    pub ticks: u64,
    pub help_lines: Vec<String>,
    pub click_regions: ClickRegionRegistry<ClickTarget>,
}

/// The Files list: the tree, what is chosen in it, and how it is shown.
#[derive(Debug, Clone)]
pub struct FilesState {
    pub show_hidden: bool,
    pub files_settings_open: bool,
    pub show_selected_categories_only: bool,
    pub tree: FileTree,
    pub scan_error: Option<String>,
    /// The files chosen in the tree; no path occurs twice.
    pub selected_by_tree: Vec<String>,
    /// For each file found, whether the filters let it through.
    pub filter_cache: Vec<(String, bool)>,
    /// The directories holding a file of a selected category; no path occurs twice.
    pub category_match_dirs: Vec<String>,
    /// The tree nodes gathered by a row drag; none occurs twice.
    pub scope_files_focus_nodes: Vec<usize>,
    pub scope_files_drag: Option<FilesDragState>,
    pub scope_files_scrollbar: Option<ScopeFilesScrollbarGeometry>,
}

/// The filters of the scope: categories, constraints, presets and marketplace presets.
#[derive(Debug, Clone)]
pub struct FilterState {
    pub category_filters: Vec<CategoryFilter>,
    /// The extensions in scope; no text occurs twice.
    pub selected_extensions: Vec<String>,
    pub select_cursor: usize,
    pub new_category_input: String,
    pub time_constraint: TimeConstraint,
    pub size_constraint: SizeConstraint,
    pub constraint_cursor: usize,
    /// The nine preset slots.
    pub presets: Vec<Option<PresetState>>,
    pub preset_cursor: usize,
    pub marketplace_presets: Vec<MarketplacePreset>,
    pub marketplace_cursor: usize,
}

/// The preview pane and the requests sent to the preview worker.
#[derive(Debug, Clone)]
pub struct PreviewState {
    pub visible: bool,
    pub status: FilesPreviewStatus,
    pub target: Option<String>,
    pub error: Option<String>,
    pub source_meta: Option<PreviewSourceMeta>,
    pub next_request_id: u64,
    pub active_request_id: Option<u64>,
    /// Whether the preview worker runs.
    pub worker_available: bool,
    /// Requests waiting to be sent to the worker.
    pub outbox: Vec<PreviewWorkerCommand>,
}

/// The naming stage: the rename rows, suggestions, style, and the text being typed.
#[derive(Debug, Clone)]
pub struct NamingState {
    pub rename_rows: Vec<RenameRow>,
    pub rename_cursor: usize,
    pub rename_scroll: usize,
    pub suggestions: Vec<String>,
    pub suggestion_cursor: usize,
    pub suggestion_set: Option<SuggestionSet>,
    pub style: StyleOptions,
    pub style_cursor: usize,
    pub command_input: String,
    pub command_history_nav: Option<usize>,
    pub command_history_draft: Option<String>,
    pub override_input: String,
    pub editing_row: Option<usize>,
    /// Every override typed so far, in sorted order, none twice.
    pub override_vocab: Vec<String>,
}

/// The apply stage: the simulated applies of the session.
#[derive(Debug, Clone)]
pub struct ApplyState {
    pub undo_history: Vec<SessionUndoEntry>,
    pub apply_cursor: usize,
    pub history_cursor: usize,
}

/// Notifications and the log, with the log overlay's viewport.
#[derive(Debug, Clone)]
pub struct LogState {
    pub toasts: Vec<Toast>,
    pub logs: Vec<String>,
    pub show_log_overlay: bool,
    pub log_scroll: usize,
    pub log_view_height: usize,
    pub log_col_scroll: usize,
    pub log_view_width: usize,
}

/// The prompts submitted so far (oldest first) and their picker.
#[derive(Debug, Clone)]
pub struct PromptHistoryState {
    pub prompt_history: Vec<String>,
    pub show_prompt_history_overlay: bool,
    pub prompt_history_cursor: usize,
    pub prompt_history_scroll: usize,
    pub prompt_history_view_height: usize,
}

/// The AI settings and the state of the requests sent to the AI worker.
#[derive(Debug, Clone)]
pub struct AiState {
    pub ai_settings: AiSettingsState,
    pub naming_ai_status: NamingAiStatus,
    pub naming_ai_error: Option<String>,
    pub ai_next_request_id: u64,
    pub ai_active_request_id: Option<u64>,
    /// The files sent with the active suggestion request.
    pub ai_analyzing_paths: Vec<String>,
    /// Whether the AI worker runs.
    pub ai_worker_available: bool,
    /// Requests waiting to be sent to the worker.
    pub ai_outbox: Vec<AiWorkerCommand>,
}

/// The planner's state: where the user is, what is in scope, the proposed names, the AI
/// settings and requests, notifications and logs, and the work waiting for the outside.
#[derive(Debug, Clone)]
pub struct AppState {
    pub cwd: String,
    pub ui: UiState,
    pub files: FilesState,
    pub filters: FilterState,
    pub preview: PreviewState,
    pub naming: NamingState,
    pub apply: ApplyState,
    pub log: LogState,
    pub history: PromptHistoryState,
    pub ai: AiState,
    /// The answers to directory listings gathered so far.
    pub io_log: IoLog,
    /// Writes and clipboard copies waiting to be performed.
    pub io_outbox: Vec<IoRequest>,
}

/// No element occurs twice.
pub open spec fn distinct<T>(s: Seq<T>) -> bool {
    forall|i: int, j: int| 0 <= i < s.len() && 0 <= j < s.len() && i != j ==> s[i] != s[j]
}

/// A directory whose entries are not loaded has no children yet.
pub open spec fn unloaded_empty(t: FileTree) -> bool {
    forall|i: int| 0 <= i < t.nodes@.len() && !(#[trigger] t.nodes@[i]).children_loaded ==> t.nodes@[i].children@.len() == 0
}

/// Every loaded directory was loaded from a listing that the record holds.
pub open spec fn tree_backed(t: FileTree, log: IoLog, hidden: bool) -> bool {
    forall|i: int|
        0 <= i < t.nodes@.len() && (#[trigger] t.nodes@[i]).children_loaded ==> first_listing(log.listings@, t.nodes@[i].path@, hidden) is Some
}

impl AppState {
    /// The state is well formed: the tree is, and each directory in it that is loaded has a
    /// listing on record;
    /// the nine preset slots exist; every click region and the scrollbar's track fit the
    /// screen; the gathered focus nodes are nodes of the tree; the chosen files and selected extensions hold no text
    /// twice; the focus ring holds the stage's panes; and every suggested name can lose its
    /// extension without cutting a character.
    pub open spec fn wf(&self) -> bool {
        &&& self.wf_but_backing()
        &&& tree_backed(self.files.tree, self.io_log, self.files.show_hidden)
    }

    /// `wf` except that the tree need not come from the record of listings.
    pub open spec fn wf_but_backing(&self) -> bool {
        &&& self.files.tree.wf()
        &&& paths_grow(self.files.tree)
        &&& unloaded_empty(self.files.tree)
        &&& distinct_texts(self.filters.selected_extensions@)
        &&& distinct_texts(self.files.selected_by_tree@)
        &&& (self.naming.suggestion_set matches Some(s) ==> options_cut_ok(s.per_path_options@))
        &&& self.filters.presets@.len() == 9
        &&& forall|k: int|
            0 <= k < self.filters.presets@.len() ==> (#[trigger] self.filters.presets@[k] matches Some(p) ==> distinct_texts(
                p.selected_extensions@,
            ))
        &&& forall|i: int|
            0 <= i < click_regions_of(self.ui.click_regions).len() ==> rect_wf(
                #[trigger] click_regions_of(self.ui.click_regions)[i].0,
            )
        &&& forall|i: int|
            0 <= i < self.files.scope_files_focus_nodes@.len() ==> #[trigger] self.files.scope_files_focus_nodes@[i]
                < self.files.tree.nodes@.len()
        &&& self.files.scope_files_focus_nodes@.no_duplicates()
        &&& distinct_texts(self.files.category_match_dirs@)
        &&& sorted_texts(self.naming.override_vocab@)
        &&& ring_ok(self.ui.focus_manager, self.ui.stage)
        &&& (self.files.scope_files_scrollbar matches Some(g) ==> rect_wf(g.track_area))
    }
}

/// A state that keeps everything well-formedness speaks of (the tree and its record, the
/// chosen files and extensions, the presets, the suggestions' options, the click regions,
/// the focus nodes, the scrollbar) and whose focus ring fits its stage is well formed.
pub proof fn lemma_wf_kept(a: AppState, b: AppState)
    requires
        a.wf(),
        b.files.tree == a.files.tree,
        b.files.show_hidden == a.files.show_hidden,
        b.io_log == a.io_log,
        b.filters.selected_extensions == a.filters.selected_extensions,
        b.files.selected_by_tree == a.files.selected_by_tree,
        b.naming.suggestion_set == a.naming.suggestion_set,
        b.filters.presets == a.filters.presets,
        b.ui.click_regions == a.ui.click_regions,
        forall|i: int|
            0 <= i < b.files.scope_files_focus_nodes@.len() ==> #[trigger] b.files.scope_files_focus_nodes@[i]
                < b.files.tree.nodes@.len(),
        b.files.scope_files_focus_nodes@.no_duplicates(),
        b.files.category_match_dirs == a.files.category_match_dirs,
        b.naming.override_vocab == a.naming.override_vocab,
        b.files.scope_files_scrollbar == a.files.scope_files_scrollbar,
        ring_ok(b.ui.focus_manager, b.ui.stage),
    ensures
        b.wf(),
{
}

impl AppState {
    /// Takes in the answer to a directory listing that an operation asked for; nothing else
    /// changes, and the state stays well formed.
    pub fn record_listing(&mut self, path: String, show_hidden: bool, result: Result<Vec<FsEntry>, String>)
        requires
            old(self).wf(),
        ensures
            final(self).wf(),
            final(self).io_log.listings@ == old(self).io_log.listings@.push((path, show_hidden, result)),
            *final(self) == (AppState { io_log: final(self).io_log, ..*old(self) }),
    {
        let ghost before = *self;
        let ghost e = (path, show_hidden, result);
        self.io_log.add_listing(path, show_hidden, result);
        proof {
            assert forall|i: int|
                0 <= i < self.files.tree.nodes@.len() && (#[trigger] self.files.tree.nodes@[i]).children_loaded implies first_listing(
                self.io_log.listings@,
                self.files.tree.nodes@[i].path@,
                self.files.show_hidden,
            ) is Some by {
                crate::io::lemma_first_listing_push(before.io_log.listings@, e, self.files.tree.nodes@[i].path@, self.files.show_hidden);
            }
        }
    }
}

} // verus!
