//! The data model of the rename planner: stages, tabs, panes, style options and the
//! records that the planner keeps about files, suggestions and applied batches.
use vstd::prelude::*;

verus! {

/// The three stages of the planner, visited in a ring.
#[derive(Debug, Clone, Copy, PartialEq, Eq, Hash, Structural)]
pub enum Stage {
    Scope,
    Naming,
    Apply,
}

pub open spec fn stage_next(s: Stage) -> Stage {
    match s {
        Stage::Scope => Stage::Naming,
        Stage::Naming => Stage::Apply,
        Stage::Apply => Stage::Scope,
    }
}

pub open spec fn stage_prev(s: Stage) -> Stage {
    match s {
        Stage::Scope => Stage::Apply,
        Stage::Naming => Stage::Scope,
        Stage::Apply => Stage::Naming,
    }
}

impl Stage {
    /// The tab title of the stage.
    pub fn title(self) -> (r: &'static str)
        ensures
            r@ == match self {
                Stage::Scope => "Scope"@,
                Stage::Naming => "Naming"@,
                Stage::Apply => "Apply"@,
            },
    {
        match self {
            Stage::Scope => "Scope",
            Stage::Naming => "Naming",
            Stage::Apply => "Apply",
        }
    }

    /// The stage after this one; the last wraps to the first.
    pub fn next(self) -> (r: Stage)
        ensures
            r == stage_next(self),
    {
        match self {
            Stage::Scope => Stage::Naming,
            Stage::Naming => Stage::Apply,
            Stage::Apply => Stage::Scope,
        }
    }

    /// The stage before this one; the first wraps to the last.
    pub fn prev(self) -> (r: Stage)
        ensures
            r == stage_prev(self),
    {
        match self {
            Stage::Scope => Stage::Apply,
            Stage::Naming => Stage::Scope,
            Stage::Apply => Stage::Naming,
        }
    }
}

/// Stepping back undoes stepping forward and the other way round, and three steps
/// forward visit every stage once and come back.
pub proof fn lemma_stage_ring(s: Stage)
    ensures
        stage_prev(stage_next(s)) == s,
        stage_next(stage_prev(s)) == s,
        stage_next(stage_next(stage_next(s))) == s,
        stage_next(s) != s,
        stage_next(stage_next(s)) != s,
{
}

/// The tabs of the scope stage, visited in a ring.
#[derive(Debug, Clone, Copy, PartialEq, Eq, Hash, Structural)]
pub enum ScopeTab {
    Files,
    Select,
    Constraint,
    Preset,
    Marketplace,
}

pub open spec fn scope_tab_next(t: ScopeTab) -> ScopeTab {
    match t {
        ScopeTab::Files => ScopeTab::Select,
        ScopeTab::Select => ScopeTab::Constraint,
        ScopeTab::Constraint => ScopeTab::Preset,
        ScopeTab::Preset => ScopeTab::Marketplace,
        ScopeTab::Marketplace => ScopeTab::Files,
    }
}

pub open spec fn scope_tab_prev(t: ScopeTab) -> ScopeTab {
    match t {
        ScopeTab::Files => ScopeTab::Marketplace,
        ScopeTab::Select => ScopeTab::Files,
        ScopeTab::Constraint => ScopeTab::Select,
        ScopeTab::Preset => ScopeTab::Constraint,
        ScopeTab::Marketplace => ScopeTab::Preset,
    }
}

impl ScopeTab {
    /// The tab title.
    pub fn title(self) -> (r: &'static str)
        ensures
            r@ == match self {
                ScopeTab::Files => "Files"@,
                ScopeTab::Select => "Category"@,
                ScopeTab::Constraint => "Constraint"@,
                ScopeTab::Preset => "Preset"@,
                ScopeTab::Marketplace => "Marketplace"@,
            },
    {
        match self {
            ScopeTab::Files => "Files",
            ScopeTab::Select => "Category",
            ScopeTab::Constraint => "Constraint",
            ScopeTab::Preset => "Preset",
            ScopeTab::Marketplace => "Marketplace",
        }
    }

    /// The next tab; the last wraps to the first.
    pub fn next(self) -> (r: ScopeTab)
        ensures
            r == scope_tab_next(self),
    {
        match self {
            ScopeTab::Files => ScopeTab::Select,
            ScopeTab::Select => ScopeTab::Constraint,
            ScopeTab::Constraint => ScopeTab::Preset,
            ScopeTab::Preset => ScopeTab::Marketplace,
            ScopeTab::Marketplace => ScopeTab::Files,
        }
    }

    /// The previous tab; the first wraps to the last.
    pub fn prev(self) -> (r: ScopeTab)
        ensures
            r == scope_tab_prev(self),
    {
        match self {
            ScopeTab::Files => ScopeTab::Marketplace,
            ScopeTab::Select => ScopeTab::Files,
            ScopeTab::Constraint => ScopeTab::Select,
            ScopeTab::Preset => ScopeTab::Constraint,
            ScopeTab::Marketplace => ScopeTab::Preset,
        }
    }
}

/// `prev` undoes `next` on scope tabs, and five steps forward come back.
pub proof fn lemma_scope_tab_ring(t: ScopeTab)
    ensures
        scope_tab_prev(scope_tab_next(t)) == t,
        scope_tab_next(scope_tab_prev(t)) == t,
        scope_tab_next(scope_tab_next(scope_tab_next(scope_tab_next(scope_tab_next(t))))) == t,
{
}

/// The two panels of the naming stage's right pane.
#[derive(Debug, Clone, Copy, PartialEq, Eq, Hash, Structural)]
pub enum NamingTab {
    Suggestions,
    Style,
}

pub open spec fn naming_tab_next(t: NamingTab) -> NamingTab {
    match t {
        NamingTab::Suggestions => NamingTab::Style,
        NamingTab::Style => NamingTab::Suggestions,
    }
}

impl NamingTab {
    /// The other panel.
    pub fn next(self) -> (r: NamingTab)
        ensures
            r == naming_tab_next(self),
    {
        match self {
            NamingTab::Suggestions => NamingTab::Style,
            NamingTab::Style => NamingTab::Suggestions,
        }
    }
}

/// Toggling the naming panel twice changes nothing, once always changes it.
pub proof fn lemma_naming_tab_toggle(t: NamingTab)
    ensures
        naming_tab_next(naming_tab_next(t)) == t,
        naming_tab_next(t) != t,
{
}

/// The panes that can hold keyboard focus.
#[derive(Debug, Clone, Copy, PartialEq, Eq, Hash, Structural)]
pub enum FocusPane {
    ScopeCategory,
    ScopeFiles,
    ScopeOptions,
    NamingTable,
    NamingRight,
    NamingCommand,
    ApplyReview,
    ApplyHistory,
}

/// The severity of a toast notification.
#[derive(Debug, Clone, Copy, PartialEq, Eq, Structural)]
pub enum ToastLevel {
    Info,
    Success,
    Warning,
    Error,
}

/// A transient notification with the number of ticks it stays on screen.
#[derive(Debug, Clone)]
pub struct Toast {
    pub level: ToastLevel,
    pub message: String,
    pub ttl_ticks: u16,
}

/// What typed characters go to.
#[derive(Debug, Clone, Copy, PartialEq, Eq, Structural)]
pub enum InputMode {
    Normal,
    EditingOverride,
    Command,
    NewCategory,
    AwaitGroup,
    EditingAiApiKey,
    EditingAiModelSearch,
    EditingAiManualModel,
}

/// How many words and characters a proposed name keeps.
#[derive(Debug, Clone, Copy, PartialEq, Eq, Structural)]
pub enum NameLength {
    Long,
    Medium,
    Short,
}

pub open spec fn name_length_next(l: NameLength) -> NameLength {
    match l {
        NameLength::Long => NameLength::Medium,
        NameLength::Medium => NameLength::Short,
        NameLength::Short => NameLength::Long,
    }
}

pub open spec fn name_length_prev(l: NameLength) -> NameLength {
    match l {
        NameLength::Long => NameLength::Short,
        NameLength::Medium => NameLength::Long,
        NameLength::Short => NameLength::Medium,
    }
}

impl NameLength {
    /// The next length setting, in a ring.
    pub fn next(self) -> (r: NameLength)
        ensures
            r == name_length_next(self),
    {
        match self {
            NameLength::Long => NameLength::Medium,
            NameLength::Medium => NameLength::Short,
            NameLength::Short => NameLength::Long,
        }
    }

    /// The previous length setting, in a ring.
    pub fn prev(self) -> (r: NameLength)
        ensures
            r == name_length_prev(self),
    {
        match self {
            NameLength::Long => NameLength::Short,
            NameLength::Medium => NameLength::Long,
            NameLength::Short => NameLength::Medium,
        }
    }
}

/// How the words of a proposed name are cased.
#[derive(Debug, Clone, Copy, PartialEq, Eq, Structural)]
pub enum Capitalization {
    Lower,
    Title,
    Upper,
}

pub open spec fn capitalization_next(c: Capitalization) -> Capitalization {
    match c {
        Capitalization::Lower => Capitalization::Title,
        Capitalization::Title => Capitalization::Upper,
        Capitalization::Upper => Capitalization::Lower,
    }
}

pub open spec fn capitalization_prev(c: Capitalization) -> Capitalization {
    match c {
        Capitalization::Lower => Capitalization::Upper,
        Capitalization::Title => Capitalization::Lower,
        Capitalization::Upper => Capitalization::Title,
    }
}

impl Capitalization {
    /// The next casing, in a ring.
    pub fn next(self) -> (r: Capitalization)
        ensures
            r == capitalization_next(self),
    {
        match self {
            Capitalization::Lower => Capitalization::Title,
            Capitalization::Title => Capitalization::Upper,
            Capitalization::Upper => Capitalization::Lower,
        }
    }

    /// The previous casing, in a ring.
    pub fn prev(self) -> (r: Capitalization)
        ensures
            r == capitalization_prev(self),
    {
        match self {
            Capitalization::Lower => Capitalization::Upper,
            Capitalization::Title => Capitalization::Lower,
            Capitalization::Upper => Capitalization::Title,
        }
    }
}

/// What goes between the words of a proposed name.
#[derive(Debug, Clone, Copy, PartialEq, Eq, Structural)]
pub enum Separator {
    Space,
    Dash,
    Underscore,
}

pub open spec fn separator_next(s: Separator) -> Separator {
    match s {
        Separator::Space => Separator::Dash,
        Separator::Dash => Separator::Underscore,
        Separator::Underscore => Separator::Space,
    }
}

pub open spec fn separator_prev(s: Separator) -> Separator {
    match s {
        Separator::Space => Separator::Underscore,
        Separator::Dash => Separator::Space,
        Separator::Underscore => Separator::Dash,
    }
}

impl Separator {
    /// The next separator, in a ring.
    pub fn next(self) -> (r: Separator)
        ensures
            r == separator_next(self),
    {
        match self {
            Separator::Space => Separator::Dash,
            Separator::Dash => Separator::Underscore,
            Separator::Underscore => Separator::Space,
        }
    }

    /// The previous separator, in a ring.
    pub fn prev(self) -> (r: Separator)
        ensures
            r == separator_prev(self),
    {
        match self {
            Separator::Space => Separator::Underscore,
            Separator::Dash => Separator::Space,
            Separator::Underscore => Separator::Dash,
        }
    }
}

/// Each style setting's `prev` undoes its `next`, and three steps come back round.
pub proof fn lemma_style_setting_rings(l: NameLength, c: Capitalization, s: Separator)
    ensures
        name_length_prev(name_length_next(l)) == l,
        name_length_next(name_length_prev(l)) == l,
        name_length_next(name_length_next(name_length_next(l))) == l,
        capitalization_prev(capitalization_next(c)) == c,
        capitalization_next(capitalization_prev(c)) == c,
        capitalization_next(capitalization_next(capitalization_next(c))) == c,
        separator_prev(separator_next(s)) == s,
        separator_next(separator_prev(s)) == s,
        separator_next(separator_next(separator_next(s))) == s,
{
}

/// How recently a file must have been modified to be in scope.
#[derive(Debug, Clone, Copy, PartialEq, Eq, Structural)]
pub enum TimeConstraint {
    Any,
    Day,
    Week,
    Month,
    Custom,
}

/// The time constraints in the order the constraint list shows them.
pub open spec fn time_constraint_at(i: int) -> TimeConstraint {
    if i == 0 {
        TimeConstraint::Any
    } else if i == 1 {
        TimeConstraint::Day
    } else if i == 2 {
        TimeConstraint::Week
    } else if i == 3 {
        TimeConstraint::Month
    } else {
        TimeConstraint::Custom
    }
}

/// The number of time constraints.
pub const TIME_CONSTRAINT_COUNT: usize = 5;

/// The number of size constraints.
pub const SIZE_CONSTRAINT_COUNT: usize = 4;

impl TimeConstraint {
    /// The constraint at a position of the list `Any, Day, Week, Month, Custom`.
    pub fn at(index: usize) -> (r: TimeConstraint)
        requires
            index < TIME_CONSTRAINT_COUNT,
        ensures
            r == time_constraint_at(index as int),
    {
        if index == 0 {
            TimeConstraint::Any
        } else if index == 1 {
            TimeConstraint::Day
        } else if index == 2 {
            TimeConstraint::Week
        } else if index == 3 {
            TimeConstraint::Month
        } else {
            TimeConstraint::Custom
        }
    }

    /// The label shown for the constraint.
    pub fn title(self) -> (r: &'static str)
        ensures
            r@ == match self {
                TimeConstraint::Any => "Any time"@,
                TimeConstraint::Day => "Last day"@,
                TimeConstraint::Week => "Last week"@,
                TimeConstraint::Month => "Last month"@,
                TimeConstraint::Custom => "Custom (placeholder)"@,
            },
    {
        match self {
            TimeConstraint::Any => "Any time",
            TimeConstraint::Day => "Last day",
            TimeConstraint::Week => "Last week",
            TimeConstraint::Month => "Last month",
            TimeConstraint::Custom => "Custom (placeholder)",
        }
    }
}

/// How large a file may be to be in scope.
#[derive(Debug, Clone, Copy, PartialEq, Eq, Structural)]
pub enum SizeConstraint {
    Any,
    Small,
    Medium,
    Large,
}

/// The size constraints in the order the constraint list shows them.
pub open spec fn size_constraint_at(i: int) -> SizeConstraint {
    if i == 0 {
        SizeConstraint::Any
    } else if i == 1 {
        SizeConstraint::Small
    } else if i == 2 {
        SizeConstraint::Medium
    } else {
        SizeConstraint::Large
    }
}

impl SizeConstraint {
    /// The constraint at a position of the list `Any, Small, Medium, Large`.
    pub fn at(index: usize) -> (r: SizeConstraint)
        requires
            index < SIZE_CONSTRAINT_COUNT,
        ensures
            r == size_constraint_at(index as int),
    {
        if index == 0 {
            SizeConstraint::Any
        } else if index == 1 {
            SizeConstraint::Small
        } else if index == 2 {
            SizeConstraint::Medium
        } else {
            SizeConstraint::Large
        }
    }

    /// The label shown for the constraint.
    pub fn title(self) -> (r: &'static str)
        ensures
            r@ == match self {
                SizeConstraint::Any => "Any size"@,
                SizeConstraint::Small => "Small < 5 MB"@,
                SizeConstraint::Medium => "Medium 5-100 MB"@,
                SizeConstraint::Large => "Large > 100 MB"@,
            },
    {
        match self {
            SizeConstraint::Any => "Any size",
            SizeConstraint::Small => "Small < 5 MB",
            SizeConstraint::Medium => "Medium 5-100 MB",
            SizeConstraint::Large => "Large > 100 MB",
        }
    }
}

/// The style that turns a file name into a proposed name.
#[derive(Debug, Clone, Copy, PartialEq, Eq, Structural)]
pub struct StyleOptions {
    pub length: NameLength,
    pub capitalization: Capitalization,
    pub separator: Separator,
    pub keep_extension: bool,
    pub strip_colons: bool,
}

pub open spec fn default_style() -> StyleOptions {
    StyleOptions {
        length: NameLength::Medium,
        capitalization: Capitalization::Title,
        separator: Separator::Dash,
        keep_extension: true,
        strip_colons: true,
    }
}

impl Default for StyleOptions {
    /// Medium length, title case, dashes, keeping the extension and stripping colons.
    fn default() -> (r: Self)
        ensures
            r == default_style(),
    {
        StyleOptions {
            length: NameLength::Medium,
            capitalization: Capitalization::Title,
            separator: Separator::Dash,
            keep_extension: true,
            strip_colons: true,
        }
    }
}


/// The string contents of a vector of strings.
pub open spec fn string_views(v: Seq<String>) -> Seq<Seq<char>> {
    v.map_values(|s: String| s@)
}

/// A named set of file extensions used to filter the scope.
#[derive(Debug, Clone)]
pub struct CategoryFilter {
    pub name: String,
    pub extensions: Vec<String>,
}

impl View for CategoryFilter {
    type V = (Seq<char>, Seq<Seq<char>>);

    open spec fn view(&self) -> (Seq<char>, Seq<Seq<char>>) {
        (self.name@, string_views(self.extensions@))
    }
}

/// A ready-made scope: a set of extensions and a time constraint.
#[derive(Debug, Clone)]
pub struct MarketplacePreset {
    pub name: String,
    pub description: String,
    pub extensions: Vec<String>,
    pub time_constraint: TimeConstraint,
}

impl View for MarketplacePreset {
    type V = (Seq<char>, Seq<char>, Seq<Seq<char>>, TimeConstraint);

    open spec fn view(&self) -> (Seq<char>, Seq<char>, Seq<Seq<char>>, TimeConstraint) {
        (self.name@, self.description@, string_views(self.extensions@), self.time_constraint)
    }
}

/// A labelled style that the naming stage offers.
#[derive(Debug, Clone)]
pub struct SuggestionOption {
    pub label: String,
    pub style: StyleOptions,
}

impl View for SuggestionOption {
    type V = (Seq<char>, StyleOptions);

    open spec fn view(&self) -> (Seq<char>, StyleOptions) {
        (self.label@, self.style)
    }
}


/// One entry of the file tree: a file or a directory whose children are loaded on demand.
/// Children are held as indices into the tree's node list.
#[derive(Debug, Clone)]
pub struct FileNode {
    pub parent: Option<usize>,
    pub path: String,
    pub name: String,
    pub is_dir: bool,
    pub children: Vec<usize>,
    pub children_loaded: bool,
    pub expanded: bool,
    pub selected: bool,
    pub unreadable: bool,
}

/// A row of the tree as shown: a node and its indentation depth.
#[derive(Debug, Clone, Copy, PartialEq, Eq, Structural)]
pub struct VisibleNode {
    pub node_id: usize,
    pub depth: u16,
}

/// The lazily loaded tree of files under the working directory, with the cursor and scroll
/// position of its list.
#[derive(Debug, Clone)]
pub struct FileTree {
    pub nodes: Vec<FileNode>,
    pub root: usize,
    pub cursor: usize,
    pub scroll: usize,
}


/// A proposed rename of one file in scope.
#[derive(Debug, Clone)]
pub struct RenameRow {
    pub path: String,
    pub current_name: String,
    pub proposed_name: String,
    pub override_name: Option<String>,
    pub group_id: u8,
    pub selected: bool,
    pub conflict: bool,
}

/// One simulated apply kept for the session: when, which files, and their old and new names.
#[derive(Debug, Clone)]
pub struct SessionUndoEntry {
    pub timestamp: String,
    pub affected_paths: Vec<String>,
    pub previous_names: Vec<String>,
    pub simulated_new_names: Vec<String>,
}

/// The scope and style saved in a preset slot. The extensions hold no text twice.
#[derive(Debug, Clone)]
pub struct PresetState {
    pub selected_extensions: Vec<String>,
    pub time_constraint: TimeConstraint,
    pub size_constraint: SizeConstraint,
    pub style: StyleOptions,
    pub show_hidden: bool,
}

/// What a registered screen region stands for when it is clicked.
#[derive(Debug, Clone, Copy, PartialEq, Eq, Hash, Structural)]
pub enum ClickTarget {
    StageTab(Stage),
    ScopeTab(ScopeTab),
    ScopeFileRow(usize),
    ScopeFileCheckbox(usize),
    ScopeFilesSettingsButton,
    ScopeFilesSettingShowSelectedCategoriesOnly,
    ScopeFilesScrollbarTrack,
    ScopeFilesScrollbarThumb,
    ScopeCategoryRow(usize),
    ScopeConstraintRow(usize),
    ScopePresetRow(usize),
    ScopeMarketplaceRow(usize),
    ScopePane(FocusPane),
    NamingPane(FocusPane),
    NamingRow(usize),
    NamingSuggestion(usize),
    NamingSuggestionsSettingsButton,
    NamingSuggestionsRefreshButton,
    NamingAiSettingsApiKeyField,
    NamingAiSettingsModelSearchField,
    NamingAiSettingsManualModelField,
    NamingAiSettingsSaveConfig,
    NamingAiSettingsClearApiKey,
    NamingAiSettingsToggleReveal,
    NamingAiSettingsDiscoverModels,
    NamingAiSettingsModelRow(usize),
    NamingRowSuggestionOption { row_index: usize, option_index: usize },
    NamingStyleRow(usize),
    ApplyPane(FocusPane),
    ApplyRow(usize),
    ApplyHistoryRow(usize),
    LogCopyLine(usize),
    LogOverlay,
}

/// What a drag that began in the Files list does as it moves: set every checkbox it
/// crosses to one value, gather the rows it crosses as a focus group, or move the
/// scrollbar thumb held at a row offset. The visited rows hold no index twice.
#[derive(Debug, Clone)]
pub enum FilesDragMode {
    CheckboxSelect { target_selected: bool, visited_rows: Vec<usize> },
    RowFocus { visited_rows: Vec<usize> },
    ScrollbarThumb { grab_offset_rows: u16 },
}

/// A drag in the Files list and the row it began on.
#[derive(Debug, Clone)]
pub struct FilesDragState {
    pub mode: FilesDragMode,
    pub start_index: usize,
}

/// The fields and actions of the AI settings popup, in the order Tab visits them.
#[derive(Debug, Clone, Copy, PartialEq, Eq, Structural)]
pub enum AiSettingsField {
    ApiKey,
    ModelSearch,
    ModelList,
    ManualModel,
    Discover,
    Save,
}

/// Where the preview pane stands.
#[derive(Debug, Clone, Copy, PartialEq, Eq, Structural)]
pub enum FilesPreviewStatus {
    Hidden,
    Empty,
    Loading,
    Ready,
    Unsupported,
    Error,
}

/// Where the AI suggestions stand.
#[derive(Debug, Clone, Copy, PartialEq, Eq, Structural)]
pub enum NamingAiStatus {
    Idle,
    NeedsConfig,
    DiscoveringModels,
    AnalyzingFiles,
    Generating,
    Ready,
    Error,
}

/// A model that OpenRouter offers.
#[derive(Debug, Clone)]
pub struct ModelListItem {
    pub id: String,
    pub name: String,
    pub context_length: Option<u64>,
    pub pricing_prompt: Option<String>,
    pub pricing_completion: Option<String>,
}

impl View for ModelListItem {
    type V = (Seq<char>, Seq<char>, Option<u64>, Option<Seq<char>>, Option<Seq<char>>);

    open spec fn view(&self) -> (Seq<char>, Seq<char>, Option<u64>, Option<Seq<char>>, Option<Seq<char>>) {
        (
            self.id@,
            self.name@,
            self.context_length,
            crate::config::opt_string_view(self.pricing_prompt),
            crate::config::opt_string_view(self.pricing_completion),
        )
    }
}

impl ModelListItem {
    /// A copy of the model.
    pub fn copy(&self) -> (r: ModelListItem)
        ensures
            r@ == self@,
    {
        ModelListItem {
            id: self.id.clone(),
            name: self.name.clone(),
            context_length: self.context_length,
            pricing_prompt: match &self.pricing_prompt {
                Some(p) => Some(p.clone()),
                None => None,
            },
            pricing_completion: match &self.pricing_completion {
                Some(p) => Some(p.clone()),
                None => None,
            },
        }
    }
}

/// The state of the AI settings popup: the saved key and model, what is being typed, and
/// the models found.
#[derive(Debug, Clone)]
pub struct AiSettingsState {
    pub api_key: Option<String>,
    pub api_key_input: String,
    pub selected_model: Option<String>,
    pub manual_model_input: String,
    pub model_search_query: String,
    pub discovered_models: Vec<ModelListItem>,
    pub model_list_cursor: usize,
    pub discovery_error: Option<String>,
    pub popup_open: bool,
    pub active_field: AiSettingsField,
    pub reveal_api_key: bool,
}

/// The three AI names offered for each file, which of them is used by default, and the
/// files that use another. Each path occurs at most once in either list.
#[derive(Debug, Clone)]
pub struct SuggestionSet {
    pub request_id: u64,
    pub global_option_index: usize,
    pub per_path_options: Vec<(String, [String; 3])>,
    pub per_path_override_index: Vec<(String, usize)>,
    pub source_model: String,
}

} // verus!
