//! Turning key presses and mouse events into actions, by where the user is.
use vstd::prelude::*;
use crate::actions::Action;
use crate::model::{AiSettingsField, FocusPane, InputMode, NamingTab, ScopeTab, Stage};
use crate::state::AppState;

verus! {

/// A key.
#[derive(Debug, Clone, Copy, PartialEq, Eq, Structural)]
pub enum Key {
    Char(char),
    Enter,
    Esc,
    Backspace,
    Tab,
    BackTab,
    Up,
    Down,
    Left,
    Right,
    PageUp,
    PageDown,
    Other,
}

/// The modifier keys held with a key or a mouse event.
#[derive(Debug, Clone, Copy, PartialEq, Eq, Structural)]
pub struct Modifiers {
    pub shift: bool,
    pub control: bool,
    pub alt: bool,
    pub super_key: bool,
}

/// A key event: the key, the modifiers, and whether it is a press (rather than a release
/// or a repeat).
#[derive(Debug, Clone, Copy, PartialEq, Eq, Structural)]
pub struct KeyInput {
    pub code: Key,
    pub modifiers: Modifiers,
    pub press: bool,
}

/// What the mouse did.
#[derive(Debug, Clone, Copy, PartialEq, Eq, Structural)]
pub enum MouseKind {
    LeftDown,
    LeftDrag,
    LeftUp,
    ScrollUp,
    ScrollDown,
    ScrollLeft,
    ScrollRight,
    Other,
}

/// An event of the terminal.
#[derive(Debug, Clone, Copy, PartialEq, Eq, Structural)]
pub enum InputEvent {
    Key(KeyInput),
    Mouse { kind: MouseKind, column: u16, row: u16, shift: bool },
    Resize,
    Other,
}

/// Control, Alt or Super is held.
pub open spec fn commanded(m: Modifiers) -> bool {
    m.control || m.alt || m.super_key
}

/// The actions of a mouse event: left button presses, drags and releases, and the wheel
/// (with Shift the vertical wheel scrolls sideways).
pub open spec fn mouse_actions(kind: MouseKind, col: u16, row: u16, shift: bool) -> Seq<Action> {
    match kind {
        MouseKind::LeftDown => seq![Action::MouseDown(col, row)],
        MouseKind::LeftDrag => seq![Action::MouseDrag(col, row)],
        MouseKind::LeftUp => seq![Action::MouseUp(col, row)],
        MouseKind::ScrollUp => if shift {
            seq![Action::MouseScrollLeft(col, row)]
        } else {
            seq![Action::MouseScrollUp(col, row)]
        },
        MouseKind::ScrollDown => if shift {
            seq![Action::MouseScrollRight(col, row)]
        } else {
            seq![Action::MouseScrollDown(col, row)]
        },
        MouseKind::ScrollLeft => seq![Action::MouseScrollLeft(col, row)],
        MouseKind::ScrollRight => seq![Action::MouseScrollRight(col, row)],
        MouseKind::Other => Seq::empty(),
    }
}

/// The keys of the log overlay: `L` or Esc closes it, the arrows and `j`/`k` scroll it by a
/// line, Shift with the side arrows sideways, the page keys by three lines.
pub open spec fn log_overlay_actions(key: KeyInput) -> Seq<Action> {
    if commanded(key.modifiers) {
        Seq::empty()
    } else {
        match key.code {
            Key::Char('L') | Key::Char('l') | Key::Esc => seq![Action::ToggleLogOverlay],
            Key::Left => if key.modifiers.shift { seq![Action::ScrollLogLeft] } else { Seq::empty() },
            Key::Right => if key.modifiers.shift { seq![Action::ScrollLogRight] } else { Seq::empty() },
            Key::Up | Key::Char('k') => seq![Action::ScrollLogUp],
            Key::Down | Key::Char('j') => seq![Action::ScrollLogDown],
            Key::PageUp => seq![Action::ScrollLogUp, Action::ScrollLogUp, Action::ScrollLogUp],
            Key::PageDown => seq![Action::ScrollLogDown, Action::ScrollLogDown, Action::ScrollLogDown],
            _ => Seq::empty(),
        }
    }
}

/// The keys of the prompt history picker: `p` or Esc closes it, Enter loads the prompt,
/// the arrows and `j`/`k` move by one, the page keys by three.
pub open spec fn prompt_history_actions(key: KeyInput) -> Seq<Action> {
    if commanded(key.modifiers) {
        Seq::empty()
    } else {
        match key.code {
            Key::Char('p') | Key::Char('P') | Key::Esc => seq![Action::TogglePromptHistoryOverlay],
            Key::Enter => seq![Action::SelectPromptHistoryEntry],
            Key::Up | Key::Char('k') => seq![Action::PromptHistoryUp],
            Key::Down | Key::Char('j') => seq![Action::PromptHistoryDown],
            Key::PageUp => seq![Action::PromptHistoryUp, Action::PromptHistoryUp, Action::PromptHistoryUp],
            Key::PageDown => seq![Action::PromptHistoryDown, Action::PromptHistoryDown, Action::PromptHistoryDown],
            _ => Seq::empty(),
        }
    }
}

/// One of the three AI settings text fields is being typed into.
pub open spec fn typing_ai_field(mode: InputMode) -> bool {
    mode == InputMode::EditingAiApiKey || mode == InputMode::EditingAiModelSearch || mode == InputMode::EditingAiManualModel
}

/// The keys while typing: Esc cancels, Enter commits, Backspace deletes; in the command
/// line the vertical arrows recall prompts, in the AI fields Tab moves between fields, in
/// an override Tab completes; other characters without Control are typed.
pub open spec fn text_input_actions(mode: InputMode, key: KeyInput) -> Seq<Action> {
    match key.code {
        Key::Esc => seq![Action::CancelInput],
        Key::Enter => seq![Action::CommitInput],
        Key::Backspace => seq![Action::Backspace],
        Key::Up => if mode == InputMode::Command { seq![Action::CommandHistoryPrev] } else { Seq::empty() },
        Key::Down => if mode == InputMode::Command { seq![Action::CommandHistoryNext] } else { Seq::empty() },
        Key::Tab => if typing_ai_field(mode) {
            seq![Action::NextAiSettingsField]
        } else if mode == InputMode::EditingOverride {
            seq![Action::Autocomplete]
        } else {
            Seq::empty()
        },
        Key::BackTab => if typing_ai_field(mode) { seq![Action::PrevAiSettingsField] } else { Seq::empty() },
        Key::Char(ch) => if !key.modifiers.control { seq![Action::InputChar(ch)] } else { Seq::empty() },
        _ => Seq::empty(),
    }
}

/// The digit a character stands for, from one to nine.
pub open spec fn digit_of(ch: char) -> Option<u8> {
    if '1' <= ch && ch <= '9' {
        Some(((ch as u32) - ('0' as u32)) as u8)
    } else {
        None
    }
}

/// The keys while waiting for a group: Esc cancels and a digit from one to nine assigns.
pub open spec fn group_actions(key: KeyInput) -> Seq<Action> {
    match key.code {
        Key::Esc => seq![Action::CancelInput],
        Key::Char(ch) => match digit_of(ch) {
            Some(d) => seq![Action::AssignGroup(d)],
            None => Seq::empty(),
        },
        _ => Seq::empty(),
    }
}

/// The keys with Control held: the side arrows expand or collapse all, Enter submits and
/// stays, and in the scope stage a digit saves a preset.
pub open spec fn ctrl_actions(app: AppState, key: KeyInput) -> Seq<Action> {
    match key.code {
        Key::Right => seq![Action::ExpandAll],
        Key::Left => seq![Action::CollapseAll],
        Key::Enter => seq![Action::Submit { stay: true }],
        Key::Char(ch) => match digit_of(ch) {
            Some(d) => if app.ui.stage == Stage::Scope { seq![Action::SavePreset(d)] } else { Seq::empty() },
            None => Seq::empty(),
        },
        _ => Seq::empty(),
    }
}

/// The Files list of the scope stage has focus.
pub open spec fn in_scope_files(app: AppState) -> bool {
    app.ui.stage == Stage::Scope && app.ui.scope_tab == ScopeTab::Files && app.ui.focus == FocusPane::ScopeFiles
}

/// What Enter does in the AI settings popup: the text fields start typing, the model list
/// chooses the model under its cursor, and the buttons act.
pub open spec fn ai_enter_action(app: AppState) -> Action {
    match app.ai.ai_settings.active_field {
        AiSettingsField::ModelList => Action::SelectAiModelByFilteredIndex(app.ai.ai_settings.model_list_cursor),
        AiSettingsField::Save => Action::SaveAiSettings,
        AiSettingsField::Discover => Action::DiscoverModels,
        f => Action::FocusAiSettingsField(f),
    }
}

/// The plain keys, after the keys tied to a pane: `q` quits, `?` shows help, `[`/`]` change
/// stage, Tab changes focus, Esc cancels, the arrows move, Enter commits (or acts in the AI
/// settings popup), Space toggles, `h` shows hidden files, `t`/`T` change tab, `e`, `g`,
/// `/` and `n` start typing, `a` applies a marketplace preset and a digit loads a preset.
pub open spec fn plain_actions(app: AppState, key: KeyInput) -> Seq<Action> {
    match key.code {
        Key::Char('q') => seq![Action::Quit],
        Key::Char('?') => seq![Action::ToggleHelp],
        Key::Char('[') => seq![Action::PrevStage],
        Key::Char(']') => seq![Action::NextStage],
        Key::Tab => seq![Action::NextFocus],
        Key::BackTab => seq![Action::PrevFocus],
        Key::Esc => seq![Action::CancelInput],
        Key::Up => seq![Action::MoveUp],
        Key::Down => seq![Action::MoveDown],
        Key::Left => seq![Action::MoveLeft],
        Key::Right => seq![Action::MoveRight],
        Key::Enter => if app.ai.ai_settings.popup_open && app.ui.stage == Stage::Naming {
            seq![ai_enter_action(app)]
        } else {
            seq![Action::CommitInput]
        },
        Key::Char(' ') => seq![Action::ToggleSelect],
        Key::Char('h') => seq![Action::ToggleShowHidden],
        Key::Char('t') => if app.ui.stage == Stage::Scope {
            seq![Action::NextScopeTab]
        } else if app.ui.stage == Stage::Naming {
            seq![Action::ToggleNamingTab]
        } else {
            Seq::empty()
        },
        Key::Char('T') => if app.ui.stage == Stage::Scope { seq![Action::PrevScopeTab] } else { Seq::empty() },
        Key::Char('e') => seq![Action::StartOverrideEdit],
        Key::Char('g') => seq![Action::StartGroupAssign],
        Key::Char('/') => seq![Action::StartCommandInput],
        Key::Char('n') => seq![Action::StartNewCategoryInput],
        Key::Char(ch) => if ch == 'a' && app.ui.stage == Stage::Scope && app.ui.scope_tab == ScopeTab::Marketplace {
            seq![Action::ApplyMarketplace(app.filters.marketplace_cursor)]
        } else {
            match digit_of(ch) {
                Some(d) => if app.ui.stage == Stage::Scope && app.ui.scope_tab == ScopeTab::Preset {
                    seq![Action::LoadPreset(d)]
                } else {
                    Seq::empty()
                },
                None => Seq::empty(),
            }
        },
        _ => Seq::empty(),
    }
}

/// The keys of the suggestions tab with the right pane focused: a digit (or its shifted
/// symbol) picks the default option, and with the settings popup open `d`, `s` and `c`
/// discover models, save and clear the key. `None` when the key is not one of them.
pub open spec fn suggestions_tab_action(app: AppState, code: Key) -> Option<Action> {
    match code {
        Key::Char('1') | Key::Char('!') => Some(Action::SetGlobalSuggestionOption(0)),
        Key::Char('2') | Key::Char('@') => Some(Action::SetGlobalSuggestionOption(1)),
        Key::Char('3') | Key::Char('#') => Some(Action::SetGlobalSuggestionOption(2)),
        Key::Char('d') | Key::Char('D') => if app.ai.ai_settings.popup_open { Some(Action::DiscoverModels) } else { None },
        Key::Char('s') | Key::Char('S') => if app.ai.ai_settings.popup_open { Some(Action::SaveAiSettings) } else { None },
        Key::Char('c') | Key::Char('C') => if app.ai.ai_settings.popup_open { Some(Action::ClearAiApiKey) } else { None },
        _ => None,
    }
}

/// The keys of the naming table: `1`-`3` pick the row's option and `0` clears it.
pub open spec fn naming_table_action(code: Key) -> Option<Action> {
    match code {
        Key::Char('1') => Some(Action::SetRowSuggestionOption(0)),
        Key::Char('2') => Some(Action::SetRowSuggestionOption(1)),
        Key::Char('3') => Some(Action::SetRowSuggestionOption(2)),
        Key::Char('0') => Some(Action::ClearRowSuggestionOption),
        _ => None,
    }
}

/// The keys in normal mode, the first rule that applies deciding: `L` opens the log; in
/// the naming stage with the settings popup open Tab moves between its fields; `m`, `r`
/// and `p` open the settings, refresh suggestions and open the prompt history in the naming
/// stage; the naming table and suggestions tab keys; `a`, `p` and `f` in the Files list
/// select all, open its settings and filter by category; `v` toggles the preview in the
/// Files list and the naming stage; then the Control keys, then the plain keys.
pub open spec fn normal_actions(app: AppState, key: KeyInput) -> Seq<Action> {
    let free = !commanded(key.modifiers);
    let c = key.code;
    let naming = app.ui.stage == Stage::Naming;
    if free && (c == Key::Char('L') || c == Key::Char('l')) {
        seq![Action::ToggleLogOverlay]
    } else if naming && app.ai.ai_settings.popup_open && c == Key::Tab {
        seq![Action::NextAiSettingsField]
    } else if naming && app.ai.ai_settings.popup_open && c == Key::BackTab {
        seq![Action::PrevAiSettingsField]
    } else if free && (c == Key::Char('m') || c == Key::Char('M')) && naming {
        seq![Action::ToggleNamingSuggestionsSettings]
    } else if free && (c == Key::Char('r') || c == Key::Char('R')) && naming {
        seq![Action::TriggerNamingSuggestionsRefresh]
    } else if free && naming && app.ui.focus == FocusPane::NamingTable && naming_table_action(c) is Some {
        seq![naming_table_action(c)->0]
    } else if free && naming && app.ui.focus == FocusPane::NamingRight && app.ui.naming_tab == NamingTab::Suggestions
        && suggestions_tab_action(app, c) is Some {
        seq![suggestions_tab_action(app, c)->0]
    } else if free && (c == Key::Char('a') || c == Key::Char('A')) && in_scope_files(app) {
        seq![Action::SelectAllVisibleFiles]
    } else if free && (c == Key::Char('p') || c == Key::Char('P')) && naming {
        seq![Action::TogglePromptHistoryOverlay]
    } else if free && (c == Key::Char('p') || c == Key::Char('P')) && in_scope_files(app) {
        seq![Action::ToggleFilesSettingsPopup]
    } else if free && (c == Key::Char('v') || c == Key::Char('V')) && (in_scope_files(app) || naming) {
        seq![Action::ToggleFilesPreview]
    } else if free && (c == Key::Char('f') || c == Key::Char('F')) && in_scope_files(app) {
        seq![Action::ToggleShowSelectedCategoriesOnly]
    } else if key.modifiers.control {
        ctrl_actions(app, key)
    } else {
        plain_actions(app, key)
    }
}

/// The actions of a key press: Control-C quits; the log overlay and the prompt history
/// picker take the keys while open; otherwise the input mode decides.
pub open spec fn key_actions(app: AppState, key: KeyInput) -> Seq<Action> {
    if key.modifiers.control && (key.code == Key::Char('c') || key.code == Key::Char('C')) {
        seq![Action::Quit]
    } else if app.log.show_log_overlay {
        log_overlay_actions(key)
    } else if app.history.show_prompt_history_overlay {
        prompt_history_actions(key)
    } else {
        match app.ui.mode {
            InputMode::AwaitGroup => group_actions(key),
            InputMode::Normal => normal_actions(app, key),
            m => text_input_actions(m, key),
        }
    }
}

/// The actions of a terminal event: key presses by `key_actions`, mouse events by
/// `mouse_actions`; releases, repeats, resizes and the rest give none.
pub open spec fn event_actions(app: AppState, event: InputEvent) -> Seq<Action> {
    match event {
        InputEvent::Key(k) => if k.press { key_actions(app, k) } else { Seq::empty() },
        InputEvent::Mouse { kind, column, row, shift } => mouse_actions(kind, column, row, shift),
        _ => Seq::empty(),
    }
}

/// The digit a character stands for, from one to nine.
fn digit(ch: char) -> (r: Option<u8>)
    ensures
        r == digit_of(ch),
{
    if '1' <= ch && ch <= '9' {
        Some(((ch as u32) - ('0' as u32)) as u8)
    } else {
        None
    }
}

fn is_commanded(m: Modifiers) -> (r: bool)
    ensures
        r == commanded(m),
{
    m.control || m.alt || m.super_key
}

fn map_mouse(kind: MouseKind, col: u16, row: u16, shift: bool) -> (r: Vec<Action>)
    ensures
        r@ == mouse_actions(kind, col, row, shift),
{
    match kind {
        MouseKind::LeftDown => vec![Action::MouseDown(col, row)],
        MouseKind::LeftDrag => vec![Action::MouseDrag(col, row)],
        MouseKind::LeftUp => vec![Action::MouseUp(col, row)],
        MouseKind::ScrollUp => if shift {
            vec![Action::MouseScrollLeft(col, row)]
        } else {
            vec![Action::MouseScrollUp(col, row)]
        },
        MouseKind::ScrollDown => if shift {
            vec![Action::MouseScrollRight(col, row)]
        } else {
            vec![Action::MouseScrollDown(col, row)]
        },
        MouseKind::ScrollLeft => vec![Action::MouseScrollLeft(col, row)],
        MouseKind::ScrollRight => vec![Action::MouseScrollRight(col, row)],
        MouseKind::Other => Vec::new(),
    }
}

fn map_log_overlay_keys(key: KeyInput) -> (r: Vec<Action>)
    ensures
        r@ == log_overlay_actions(key),
{
    if is_commanded(key.modifiers) {
        return Vec::new();
    }
    match key.code {
        Key::Char('L') | Key::Char('l') | Key::Esc => vec![Action::ToggleLogOverlay],
        Key::Left => if key.modifiers.shift { vec![Action::ScrollLogLeft] } else { Vec::new() },
        Key::Right => if key.modifiers.shift { vec![Action::ScrollLogRight] } else { Vec::new() },
        Key::Up | Key::Char('k') => vec![Action::ScrollLogUp],
        Key::Down | Key::Char('j') => vec![Action::ScrollLogDown],
        Key::PageUp => vec![Action::ScrollLogUp, Action::ScrollLogUp, Action::ScrollLogUp],
        Key::PageDown => vec![Action::ScrollLogDown, Action::ScrollLogDown, Action::ScrollLogDown],
        _ => Vec::new(),
    }
}

fn map_prompt_history_keys(key: KeyInput) -> (r: Vec<Action>)
    ensures
        r@ == prompt_history_actions(key),
{
    if is_commanded(key.modifiers) {
        return Vec::new();
    }
    match key.code {
        Key::Char('p') | Key::Char('P') | Key::Esc => vec![Action::TogglePromptHistoryOverlay],
        Key::Enter => vec![Action::SelectPromptHistoryEntry],
        Key::Up | Key::Char('k') => vec![Action::PromptHistoryUp],
        Key::Down | Key::Char('j') => vec![Action::PromptHistoryDown],
        Key::PageUp => vec![Action::PromptHistoryUp, Action::PromptHistoryUp, Action::PromptHistoryUp],
        Key::PageDown => vec![Action::PromptHistoryDown, Action::PromptHistoryDown, Action::PromptHistoryDown],
        _ => Vec::new(),
    }
}

fn map_text_input_keys(mode: InputMode, key: KeyInput) -> (r: Vec<Action>)
    ensures
        r@ == text_input_actions(mode, key),
{
    let ai_field = mode == InputMode::EditingAiApiKey || mode == InputMode::EditingAiModelSearch || mode
        == InputMode::EditingAiManualModel;
    match key.code {
        Key::Esc => vec![Action::CancelInput],
        Key::Enter => vec![Action::CommitInput],
        Key::Backspace => vec![Action::Backspace],
        Key::Up => if mode == InputMode::Command { vec![Action::CommandHistoryPrev] } else { Vec::new() },
        Key::Down => if mode == InputMode::Command { vec![Action::CommandHistoryNext] } else { Vec::new() },
        Key::Tab => if ai_field {
            vec![Action::NextAiSettingsField]
        } else if mode == InputMode::EditingOverride {
            vec![Action::Autocomplete]
        } else {
            Vec::new()
        },
        Key::BackTab => if ai_field { vec![Action::PrevAiSettingsField] } else { Vec::new() },
        Key::Char(ch) => if !key.modifiers.control { vec![Action::InputChar(ch)] } else { Vec::new() },
        _ => Vec::new(),
    }
}

fn map_group_keys(key: KeyInput) -> (r: Vec<Action>)
    ensures
        r@ == group_actions(key),
{
    match key.code {
        Key::Esc => vec![Action::CancelInput],
        Key::Char(ch) => match digit(ch) {
            Some(d) => vec![Action::AssignGroup(d)],
            None => Vec::new(),
        },
        _ => Vec::new(),
    }
}

fn map_ctrl_keys(app: &AppState, key: KeyInput) -> (r: Vec<Action>)
    ensures
        r@ == ctrl_actions(*app, key),
{
    match key.code {
        Key::Right => vec![Action::ExpandAll],
        Key::Left => vec![Action::CollapseAll],
        Key::Enter => vec![Action::Submit { stay: true }],
        Key::Char(ch) => match digit(ch) {
            Some(d) => if app.ui.stage == Stage::Scope { vec![Action::SavePreset(d)] } else { Vec::new() },
            None => Vec::new(),
        },
        _ => Vec::new(),
    }
}

fn map_plain_keys(app: &AppState, key: KeyInput) -> (r: Vec<Action>)
    ensures
        r@ == plain_actions(*app, key),
{
    match key.code {
        Key::Char('q') => vec![Action::Quit],
        Key::Char('?') => vec![Action::ToggleHelp],
        Key::Char('[') => vec![Action::PrevStage],
        Key::Char(']') => vec![Action::NextStage],
        Key::Tab => vec![Action::NextFocus],
        Key::BackTab => vec![Action::PrevFocus],
        Key::Esc => vec![Action::CancelInput],
        Key::Up => vec![Action::MoveUp],
        Key::Down => vec![Action::MoveDown],
        Key::Left => vec![Action::MoveLeft],
        Key::Right => vec![Action::MoveRight],
        Key::Enter => if app.ai.ai_settings.popup_open && app.ui.stage == Stage::Naming {
            let a = match app.ai.ai_settings.active_field {
                AiSettingsField::ModelList => Action::SelectAiModelByFilteredIndex(app.ai.ai_settings.model_list_cursor),
                AiSettingsField::Save => Action::SaveAiSettings,
                AiSettingsField::Discover => Action::DiscoverModels,
                f => Action::FocusAiSettingsField(f),
            };
            vec![a]
        } else {
            vec![Action::CommitInput]
        },
        Key::Char(' ') => vec![Action::ToggleSelect],
        Key::Char('h') => vec![Action::ToggleShowHidden],
        Key::Char('t') => if app.ui.stage == Stage::Scope {
            vec![Action::NextScopeTab]
        } else if app.ui.stage == Stage::Naming {
            vec![Action::ToggleNamingTab]
        } else {
            Vec::new()
        },
        Key::Char('T') => if app.ui.stage == Stage::Scope { vec![Action::PrevScopeTab] } else { Vec::new() },
        Key::Char('e') => vec![Action::StartOverrideEdit],
        Key::Char('g') => vec![Action::StartGroupAssign],
        Key::Char('/') => vec![Action::StartCommandInput],
        Key::Char('n') => vec![Action::StartNewCategoryInput],
        Key::Char(ch) => if ch == 'a' && app.ui.stage == Stage::Scope && app.ui.scope_tab == ScopeTab::Marketplace {
            vec![Action::ApplyMarketplace(app.filters.marketplace_cursor)]
        } else {
            match digit(ch) {
                Some(d) => if app.ui.stage == Stage::Scope && app.ui.scope_tab == ScopeTab::Preset {
                    vec![Action::LoadPreset(d)]
                } else {
                    Vec::new()
                },
                None => Vec::new(),
            }
        },
        _ => Vec::new(),
    }
}

fn suggestions_tab_key(app: &AppState, code: Key) -> (r: Option<Action>)
    ensures
        r == suggestions_tab_action(*app, code),
{
    let open = app.ai.ai_settings.popup_open;
    match code {
        Key::Char('1') | Key::Char('!') => Some(Action::SetGlobalSuggestionOption(0)),
        Key::Char('2') | Key::Char('@') => Some(Action::SetGlobalSuggestionOption(1)),
        Key::Char('3') | Key::Char('#') => Some(Action::SetGlobalSuggestionOption(2)),
        Key::Char('d') | Key::Char('D') => if open { Some(Action::DiscoverModels) } else { None },
        Key::Char('s') | Key::Char('S') => if open { Some(Action::SaveAiSettings) } else { None },
        Key::Char('c') | Key::Char('C') => if open { Some(Action::ClearAiApiKey) } else { None },
        _ => None,
    }
}

fn naming_table_key(code: Key) -> (r: Option<Action>)
    ensures
        r == naming_table_action(code),
{
    match code {
        Key::Char('1') => Some(Action::SetRowSuggestionOption(0)),
        Key::Char('2') => Some(Action::SetRowSuggestionOption(1)),
        Key::Char('3') => Some(Action::SetRowSuggestionOption(2)),
        Key::Char('0') => Some(Action::ClearRowSuggestionOption),
        _ => None,
    }
}

/// The actions of a key in normal mode, as `normal_actions` orders the rules.
pub fn map_normal_keys(app: &AppState, key: KeyInput) -> (r: Vec<Action>)
    ensures
        r@ == normal_actions(*app, key),
{
    let free = !is_commanded(key.modifiers);
    let c = key.code;
    let naming = app.ui.stage == Stage::Naming;
    let files = app.ui.stage == Stage::Scope && app.ui.scope_tab == ScopeTab::Files && app.ui.focus == FocusPane::ScopeFiles;
    if free && (c == Key::Char('L') || c == Key::Char('l')) {
        return vec![Action::ToggleLogOverlay];
    }
    if naming && app.ai.ai_settings.popup_open && c == Key::Tab {
        return vec![Action::NextAiSettingsField];
    }
    if naming && app.ai.ai_settings.popup_open && c == Key::BackTab {
        return vec![Action::PrevAiSettingsField];
    }
    if free && (c == Key::Char('m') || c == Key::Char('M')) && naming {
        return vec![Action::ToggleNamingSuggestionsSettings];
    }
    if free && (c == Key::Char('r') || c == Key::Char('R')) && naming {
        return vec![Action::TriggerNamingSuggestionsRefresh];
    }
    if free && naming && app.ui.focus == FocusPane::NamingTable {
        match naming_table_key(c) {
            Some(a) => return vec![a],
            None => {},
        }
    }
    if free && naming && app.ui.focus == FocusPane::NamingRight && app.ui.naming_tab == NamingTab::Suggestions {
        match suggestions_tab_key(app, c) {
            Some(a) => return vec![a],
            None => {},
        }
    }
    if free && (c == Key::Char('a') || c == Key::Char('A')) && files {
        return vec![Action::SelectAllVisibleFiles];
    }
    if free && (c == Key::Char('p') || c == Key::Char('P')) && naming {
        return vec![Action::TogglePromptHistoryOverlay];
    }
    if free && (c == Key::Char('p') || c == Key::Char('P')) && files {
        return vec![Action::ToggleFilesSettingsPopup];
    }
    if free && (c == Key::Char('v') || c == Key::Char('V')) && (files || naming) {
        return vec![Action::ToggleFilesPreview];
    }
    if free && (c == Key::Char('f') || c == Key::Char('F')) && files {
        return vec![Action::ToggleShowSelectedCategoriesOnly];
    }
    if key.modifiers.control {
        return map_ctrl_keys(app, key);
    }
    map_plain_keys(app, key)
}

/// The actions of a key press, as `key_actions` describes.
pub fn map_key(app: &AppState, key: KeyInput) -> (r: Vec<Action>)
    ensures
        r@ == key_actions(*app, key),
{
    if key.modifiers.control && (key.code == Key::Char('c') || key.code == Key::Char('C')) {
        return vec![Action::Quit];
    }
    if app.log.show_log_overlay {
        return map_log_overlay_keys(key);
    }
    if app.history.show_prompt_history_overlay {
        return map_prompt_history_keys(key);
    }
    match app.ui.mode {
        InputMode::AwaitGroup => map_group_keys(key),
        InputMode::Normal => map_normal_keys(app, key),
        m => map_text_input_keys(m, key),
    }
}

/// The actions of a terminal event, as `event_actions` describes.
pub fn map_event(app: &AppState, event: InputEvent) -> (r: Vec<Action>)
    ensures
        r@ == event_actions(*app, event),
{
    match event {
        InputEvent::Key(k) => if k.press { map_key(app, k) } else { Vec::new() },
        InputEvent::Mouse { kind, column, row, shift } => map_mouse(kind, column, row, shift),
        _ => Vec::new(),
    }
}

} // verus!
