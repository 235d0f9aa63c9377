//! The AI side of the naming stage: its settings popup, the requests sent to the AI worker,
//! and what the worker's answers change.
use vstd::prelude::*;
use crate::ai_text::MAX_FILES_PER_RUN;
use crate::config::{AppConfig, opt_string_view};
use crate::io::IoRequest;
use crate::logs::{concat, keep_last, log_line, logged, stamped, MAX_LOG_LINES};
use crate::model::{
    AiSettingsField, AiSettingsState, InputMode, ModelListItem, NamingAiStatus, RenameRow, SuggestionSet,
    ToastLevel, string_views,
};
use crate::naming_ops::proposals_redone;
use crate::rows::{index_at, options_at, options_cut_ok, find_options};
use crate::state::{AiState, AppState, LogState, NamingState, UiState};
use crate::strs::{trim, trim_str};
use crate::text::{spec_decimal, spec_lowercase, str_to_string, u64_to_decimal};
use crate::workers::{AiWorkerCommand, AiWorkerEvent, WorkerProgressStage};

verus! {

/// An optional text that is present and not blank.
pub open spec fn filled(o: Option<String>) -> bool {
    o matches Some(s) && trim(s@).len() > 0
}

/// Whether a key and a model are set, neither blank.
pub open spec fn has_minimum_config(a: AiSettingsState) -> bool {
    filled(a.api_key) && filled(a.selected_model)
}

/// The typing mode a settings field takes: the three text fields are typed into.
pub open spec fn field_mode(f: AiSettingsField) -> InputMode {
    match f {
        AiSettingsField::ApiKey => InputMode::EditingAiApiKey,
        AiSettingsField::ModelSearch => InputMode::EditingAiModelSearch,
        AiSettingsField::ManualModel => InputMode::EditingAiManualModel,
        _ => InputMode::Normal,
    }
}

/// The next settings field, in a ring.
pub open spec fn field_next(f: AiSettingsField) -> AiSettingsField {
    match f {
        AiSettingsField::ApiKey => AiSettingsField::ModelSearch,
        AiSettingsField::ModelSearch => AiSettingsField::ModelList,
        AiSettingsField::ModelList => AiSettingsField::ManualModel,
        AiSettingsField::ManualModel => AiSettingsField::Discover,
        AiSettingsField::Discover => AiSettingsField::Save,
        AiSettingsField::Save => AiSettingsField::ApiKey,
    }
}

/// The previous settings field, in a ring.
pub open spec fn field_prev(f: AiSettingsField) -> AiSettingsField {
    match f {
        AiSettingsField::ApiKey => AiSettingsField::Save,
        AiSettingsField::ModelSearch => AiSettingsField::ApiKey,
        AiSettingsField::ModelList => AiSettingsField::ModelSearch,
        AiSettingsField::ManualModel => AiSettingsField::ModelList,
        AiSettingsField::Discover => AiSettingsField::ManualModel,
        AiSettingsField::Save => AiSettingsField::Discover,
    }
}

/// Moving forward through the settings fields and back returns to the start.
pub proof fn lemma_field_ring(f: AiSettingsField)
    ensures
        field_prev(field_next(f)) == f,
        field_next(field_prev(f)) == f,
{
}

/// The settings after saving: a non-blank typed key or model, trimmed, replaces the saved one.
pub open spec fn settings_saved(a: AiSettingsState) -> AiSettingsState {
    AiSettingsState {
        api_key: if trim(a.api_key_input@).len() > 0 { Some(a.api_key_input) } else { a.api_key },
        selected_model: if trim(a.manual_model_input@).len() > 0 { Some(a.manual_model_input) } else { a.selected_model },
        ..a
    }
}

/// Whether an optional string holds non-blank text.
fn is_filled(o: &Option<String>) -> (r: bool)
    ensures
        r == filled(*o),
{
    match o {
        Some(s) => !trim_str(s.as_str()).as_str().is_empty(),
        None => false,
    }
}

/// What forgetting the key does to `pre`, giving `post`.
pub open spec fn ai_key_cleared(pre: AppState, post: AppState) -> bool {
    &&& (post.ai.ai_settings.api_key_input@.len() == 0)
    &&& (post.log.toasts@.last().level == ToastLevel::Info)
    &&& (post.log.toasts@.last().message@ == "Cleared OpenRouter API key"@)
    &&& (post == (AppState {
        ai: AiState {
            ai_settings: AiSettingsState {
                api_key: None,
                api_key_input: post.ai.ai_settings.api_key_input,
                ..pre.ai.ai_settings
            },
            naming_ai_status: NamingAiStatus::NeedsConfig,
            ..pre.ai
        },
        log: post.log,
        ..pre
    }))
}

/// What saving the typed key and model does to `pre`, giving `post`.
pub open spec fn ai_settings_saved(pre: AppState, post: AppState) -> bool {
    &&& ({
        let a = post.ai.ai_settings;
        let o = pre.ai.ai_settings;
        &&& opt_string_view(a.api_key) == (if trim(o.api_key_input@).len() > 0 {
            Some(trim(o.api_key_input@))
        } else {
            opt_string_view(o.api_key)
        })
        &&& opt_string_view(a.selected_model) == (if trim(o.manual_model_input@).len() > 0 {
            Some(trim(o.manual_model_input@))
        } else {
            opt_string_view(o.selected_model)
        })
        &&& a == (AiSettingsState { api_key: a.api_key, selected_model: a.selected_model, ..o })
        &&& post.ai.naming_ai_status == (if has_minimum_config(a) {
            NamingAiStatus::Idle
        } else {
            NamingAiStatus::NeedsConfig
        })
        &&& post.io_outbox@.drop_last() == pre.io_outbox@
        &&& post.io_outbox@.len() == pre.io_outbox@.len() + 1
        &&& (post.io_outbox@.last() matches IoRequest::SaveConfig(c) && c@ == (
            opt_string_view(a.api_key),
            opt_string_view(a.selected_model),
        ))
        &&& post == (AppState {
            ai: AiState { ai_settings: a, naming_ai_status: post.ai.naming_ai_status, ..pre.ai },
            io_outbox: post.io_outbox,
            ..pre
        })
    })
}

/// What moving to the next AI settings field does to `pre`, giving `post`.
pub open spec fn ai_field_advanced(pre: AppState, post: AppState) -> bool {
    &&& ({
        let f = field_next(pre.ai.ai_settings.active_field);
        post == (AppState {
            ui: UiState { mode: field_mode(f), ..pre.ui },
            ai: AiState { ai_settings: AiSettingsState { active_field: f, ..pre.ai.ai_settings }, ..pre.ai },
            ..pre
        })
    })
}

/// What moving to the previous AI settings field does to `pre`, giving `post`.
pub open spec fn ai_field_retreated(pre: AppState, post: AppState) -> bool {
    &&& ({
        let f = field_prev(pre.ai.ai_settings.active_field);
        post == (AppState {
            ui: UiState { mode: field_mode(f), ..pre.ui },
            ai: AiState { ai_settings: AiSettingsState { active_field: f, ..pre.ai.ai_settings }, ..pre.ai },
            ..pre
        })
    })
}

/// What opening or closing the AI settings does to `pre`, giving `post`.
pub open spec fn suggestions_settings_toggled(pre: AppState, post: AppState) -> bool {
    &&& (post.ai.ai_settings == (AiSettingsState {
        popup_open: !pre.ai.ai_settings.popup_open,
        ..pre.ai.ai_settings
    }))
    &&& (post.ui.mode == (if pre.ai.ai_settings.popup_open { InputMode::Normal } else { pre.ui.mode }))
    &&& (post == (AppState {
        ui: UiState { mode: post.ui.mode, ..pre.ui },
        ai: AiState { ai_settings: post.ai.ai_settings, ..pre.ai },
        ..pre
    }))
}

/// What asking for the model list does to `pre`, giving `post`.
pub open spec fn models_requested(pre: AppState, post: AppState) -> bool {
    &&& ({
        let id = pre.ai.ai_next_request_id;
        let next: u64 = if id < u64::MAX { (id + 1) as u64 } else { id };
        &&& pre.ai.ai_worker_available ==> post.ai == (AiState {
            ai_next_request_id: next,
            ai_active_request_id: Some(id),
            naming_ai_status: NamingAiStatus::DiscoveringModels,
            naming_ai_error: None,
            ai_outbox: post.ai.ai_outbox,
            ..pre.ai
        }) && post.ai.ai_outbox@ == pre.ai.ai_outbox@.push(
            AiWorkerCommand::DiscoverModels { request_id: id, api_key: pre.ai.ai_settings.api_key },
        )
        &&& !pre.ai.ai_worker_available ==> (post.ai.naming_ai_error matches Some(e)
            && e@ == "AI worker is not available"@ && post.ai == (AiState {
            ai_next_request_id: next,
            ai_active_request_id: Some(id),
            naming_ai_status: NamingAiStatus::Error,
            naming_ai_error: post.ai.naming_ai_error,
            ..pre.ai
        }))
        &&& post == (AppState { ai: post.ai, ..pre })
    })
}

impl AppState {
    /// Whether an OpenRouter key and model are both set, neither blank.
    pub fn ai_settings_has_minimum_config(&self) -> (r: bool)
        ensures
            r == has_minimum_config(self.ai.ai_settings),
    {
        is_filled(&self.ai.ai_settings.api_key) && is_filled(&self.ai.ai_settings.selected_model)
    }

    /// Hands out the next request number; the counter stops at the largest number.
    pub fn next_ai_request_id(&mut self) -> (id: u64)
        ensures
            id == old(self).ai.ai_next_request_id,
            *final(self) == (AppState {
                ai: AiState {
                    ai_next_request_id: if id < u64::MAX { (id + 1) as u64 } else { id },
                    ..old(self).ai
                },
                ..*old(self)
            }),
    {
        let id = self.ai.ai_next_request_id;
        self.ai.ai_next_request_id = if id < u64::MAX { id + 1 } else { id };
        id
    }

    /// Opens or closes the AI settings popup; closing it stops typing.
    pub fn toggle_naming_suggestions_settings(&mut self)
        ensures
            suggestions_settings_toggled(*old(self), *final(self)),
    {
        self.ai.ai_settings.popup_open = !self.ai.ai_settings.popup_open;
        if !self.ai.ai_settings.popup_open {
            self.ui.mode = InputMode::Normal;
        }
    }

    /// Moves to a settings field; the text fields start typing, the others stop it.
    pub fn focus_ai_settings_field(&mut self, field: AiSettingsField)
        ensures
            *final(self) == (AppState {
                ui: UiState { mode: field_mode(field), ..old(self).ui },
                ai: AiState { ai_settings: AiSettingsState { active_field: field, ..old(self).ai.ai_settings }, ..old(self).ai },
                ..*old(self)
            }),
    {
        self.ai.ai_settings.active_field = field;
        self.ui.mode = match field {
            AiSettingsField::ApiKey => InputMode::EditingAiApiKey,
            AiSettingsField::ModelSearch => InputMode::EditingAiModelSearch,
            AiSettingsField::ManualModel => InputMode::EditingAiManualModel,
            _ => InputMode::Normal,
        };
    }

    /// Moves to the next settings field, as `field_next` orders them.
    pub fn ai_settings_next_field(&mut self)
        ensures
            ai_field_advanced(*old(self), *final(self)),
    {
        let next = match self.ai.ai_settings.active_field {
            AiSettingsField::ApiKey => AiSettingsField::ModelSearch,
            AiSettingsField::ModelSearch => AiSettingsField::ModelList,
            AiSettingsField::ModelList => AiSettingsField::ManualModel,
            AiSettingsField::ManualModel => AiSettingsField::Discover,
            AiSettingsField::Discover => AiSettingsField::Save,
            AiSettingsField::Save => AiSettingsField::ApiKey,
        };
        self.focus_ai_settings_field(next);
    }

    /// Moves to the previous settings field, as `field_prev` orders them.
    pub fn ai_settings_prev_field(&mut self)
        ensures
            ai_field_retreated(*old(self), *final(self)),
    {
        let prev = match self.ai.ai_settings.active_field {
            AiSettingsField::ApiKey => AiSettingsField::Save,
            AiSettingsField::ModelSearch => AiSettingsField::ApiKey,
            AiSettingsField::ModelList => AiSettingsField::ModelSearch,
            AiSettingsField::ManualModel => AiSettingsField::ModelList,
            AiSettingsField::Discover => AiSettingsField::ManualModel,
            AiSettingsField::Save => AiSettingsField::Discover,
        };
        self.focus_ai_settings_field(prev);
    }

    /// Takes a non-blank typed key and model (trimmed) as the saved ones, sends the key and
    /// model to be written to the settings file, and sets the status by whether both are
    /// now set.
    pub fn save_ai_settings_to_disk(&mut self)
        ensures
            ai_settings_saved(*old(self), *final(self)),
    {
        let key = trim_str(self.ai.ai_settings.api_key_input.as_str());
        if !key.as_str().is_empty() {
            self.ai.ai_settings.api_key = Some(key);
        }
        let model = trim_str(self.ai.ai_settings.manual_model_input.as_str());
        if !model.as_str().is_empty() {
            self.ai.ai_settings.selected_model = Some(model);
        }
        let config = AppConfig {
            openrouter_api_key: self.ai.ai_settings.api_key.clone(),
            openrouter_model: self.ai.ai_settings.selected_model.clone(),
        };
        self.io_outbox.push(IoRequest::SaveConfig(config));
        assert(self.io_outbox@.drop_last() =~= old(self).io_outbox@);
        self.ai.naming_ai_status = if self.ai_settings_has_minimum_config() {
            NamingAiStatus::Idle
        } else {
            NamingAiStatus::NeedsConfig
        };
    }

    /// Forgets the OpenRouter key, typed and saved, and says so.
    pub fn clear_ai_api_key(&mut self)
        ensures
            ai_key_cleared(*old(self), *final(self)),
    {
        self.ai.ai_settings.api_key = None;
        self.ai.ai_settings.api_key_input = String::new();
        self.ai.naming_ai_status = NamingAiStatus::NeedsConfig;
        self.push_toast(ToastLevel::Info, str_to_string("Cleared OpenRouter API key"));
    }

    /// Asks the AI worker for the models OpenRouter offers, under a new request number;
    /// without a worker the status turns to an error.
    pub fn discover_openrouter_models(&mut self)
        ensures
            models_requested(*old(self), *final(self)),
    {
        let id = self.next_ai_request_id();
        self.ai.ai_active_request_id = Some(id);
        self.ai.naming_ai_status = NamingAiStatus::DiscoveringModels;
        self.ai.naming_ai_error = None;
        if self.ai.ai_worker_available {
            let key = self.ai.ai_settings.api_key.clone();
            self.ai.ai_outbox.push(AiWorkerCommand::DiscoverModels { request_id: id, api_key: key });
        } else {
            self.ai.naming_ai_status = NamingAiStatus::Error;
            self.ai.naming_ai_error = Some(str_to_string("AI worker is not available"));
        }
    }
}


/// `after` is `before` once suggestions were asked for if a key and model are set, as
/// `trigger_naming_suggestions_refresh_if_configured` does.
pub open spec fn refreshed_if_configured(before: AppState, after: AppState) -> bool {
    &&& !has_minimum_config(before.ai.ai_settings) ==> after == (AppState {
        ai: AiState { naming_ai_status: NamingAiStatus::NeedsConfig, naming_ai_error: None, ..before.ai },
        ..before
    })
    &&& has_minimum_config(before.ai.ai_settings) && before.naming.rename_rows@.len() == 0 ==> after == (AppState {
        ai: AiState { naming_ai_status: NamingAiStatus::Idle, ..before.ai },
        ..before
    })
    &&& has_minimum_config(before.ai.ai_settings) && before.naming.rename_rows@.len() > 0 ==> {
        &&& after.ai.ai_active_request_id == Some(before.ai.ai_next_request_id)
        &&& after.ai.naming_ai_status == (if before.ai.ai_worker_available {
            NamingAiStatus::AnalyzingFiles
        } else {
            NamingAiStatus::Error
        })
        &&& before.ai.ai_worker_available ==> (after.ai.ai_outbox@.last() matches AiWorkerCommand::GenerateSuggestions {
            request_id,
            paths,
            user_prompt: None,
            ..
        } && request_id == before.ai.ai_next_request_id && string_views(paths@) == row_paths(before.naming.rename_rows@))
        &&& after == (AppState { ai: after.ai, ..before })
    }
}

/// The paths of the rows, in order.
pub open spec fn row_paths(rows: Seq<RenameRow>) -> Seq<Seq<char>> {
    rows.map_values(|r: RenameRow| r.path@)
}

/// The paths of the rows.
fn paths_of_rows(rows: &Vec<RenameRow>) -> (r: Vec<String>)
    ensures
        string_views(r@) == row_paths(rows@),
{
    let mut out: Vec<String> = Vec::new();
    let mut i: usize = 0;
    while i < rows.len()
        invariant
            i <= rows@.len(),
            out@.len() == i,
            forall|j: int| 0 <= j < i ==> #[trigger] out@[j]@ == rows@[j].path@,
        decreases rows@.len() - i,
    {
        out.push(rows[i].path.clone());
        i += 1;
    }
    assert(string_views(out@) =~= row_paths(rows@));
    out
}

/// The warning asking for the settings.
pub open spec fn needs_config_message() -> Seq<char> {
    "Open Suggestions settings (m) and configure OpenRouter key + model"@
}

/// What asking for suggestions does to `pre`, giving `post`.
pub open spec fn suggestions_requested(pre: AppState, post: AppState) -> bool {
    &&& ({
        let o = pre.ai;
        let rows = pre.naming.rename_rows@;
        &&& !has_minimum_config(o.ai_settings) ==> post.ai.naming_ai_status == NamingAiStatus::NeedsConfig
            && post.log.toasts@.last().message@ == needs_config_message()
            && post == (AppState { ai: post.ai, log: post.log, ..pre })
        &&& has_minimum_config(o.ai_settings) && rows.len() == 0 ==> post == (AppState {
            ai: AiState { naming_ai_status: NamingAiStatus::Idle, ..o },
            ..pre
        })
        &&& has_minimum_config(o.ai_settings) && rows.len() > 0 && o.ai_worker_available ==> {
            &&& post.ai.naming_ai_status == NamingAiStatus::AnalyzingFiles
            &&& post.ai.ai_active_request_id == Some(o.ai_next_request_id)
            &&& (post.ai.ai_outbox@.last() matches AiWorkerCommand::GenerateSuggestions {
                request_id,
                paths,
                user_prompt: None,
                ..
            } && request_id == o.ai_next_request_id && string_views(paths@) == row_paths(rows))
            &&& post == (AppState { ai: post.ai, ..pre })
        }
        &&& has_minimum_config(o.ai_settings) && rows.len() > 0 && !o.ai_worker_available ==> post.ai.naming_ai_status
            == NamingAiStatus::Error && post == (AppState { ai: post.ai, ..pre })
    })
}

impl AppState {
    /// Asks the AI worker for three names for each row's file, with the typed instruction
    /// if any, under a new request number. Without a key and model a warning asks for
    /// them; with no rows the status is idle; without a worker the status turns to an error.
    pub fn trigger_naming_suggestions_refresh_with_prompt(&mut self, user_prompt: Option<String>)
        ensures
            ({
                let o = old(self).ai;
                let id = o.ai_next_request_id;
                let next: u64 = if id < u64::MAX { (id + 1) as u64 } else { id };
                let rows = old(self).naming.rename_rows@;
                &&& !has_minimum_config(o.ai_settings) ==> {
                    &&& final(self).log.toasts@.last().level == ToastLevel::Warning
                    &&& final(self).log.toasts@.last().message@ == needs_config_message()
                    &&& *final(self) == (AppState {
                        ai: AiState { naming_ai_status: NamingAiStatus::NeedsConfig, ..o },
                        log: final(self).log,
                        ..*old(self)
                    })
                }
                &&& has_minimum_config(o.ai_settings) && rows.len() == 0 ==> *final(self) == (AppState {
                    ai: AiState { naming_ai_status: NamingAiStatus::Idle, ..o },
                    ..*old(self)
                })
                &&& has_minimum_config(o.ai_settings) && rows.len() > 0 ==> {
                    &&& string_views(final(self).ai.ai_analyzing_paths@) == row_paths(rows)
                    &&& o.ai_worker_available ==> {
                        &&& final(self).ai == (AiState {
                            ai_next_request_id: next,
                            ai_active_request_id: Some(id),
                            naming_ai_status: NamingAiStatus::AnalyzingFiles,
                            naming_ai_error: None,
                            ai_analyzing_paths: final(self).ai.ai_analyzing_paths,
                            ai_outbox: final(self).ai.ai_outbox,
                            ..o
                        })
                        &&& final(self).ai.ai_outbox@.drop_last() == o.ai_outbox@
                        &&& final(self).ai.ai_outbox@.len() == o.ai_outbox@.len() + 1
                        &&& (final(self).ai.ai_outbox@.last() matches AiWorkerCommand::GenerateSuggestions {
                            request_id,
                            api_key,
                            model_id,
                            paths,
                            user_prompt: up,
                        } && request_id == id && Some(api_key) == o.ai_settings.api_key && Some(model_id)
                            == o.ai_settings.selected_model && string_views(paths@) == row_paths(rows) && up == user_prompt)
                    }
                    &&& !o.ai_worker_available ==> (final(self).ai.naming_ai_error matches Some(e)
                        && e@ == "AI worker is not available"@ && final(self).ai == (AiState {
                        ai_next_request_id: next,
                        ai_active_request_id: Some(id),
                        naming_ai_status: NamingAiStatus::Error,
                        naming_ai_error: final(self).ai.naming_ai_error,
                        ai_analyzing_paths: final(self).ai.ai_analyzing_paths,
                        ..o
                    }))
                    &&& *final(self) == (AppState { ai: final(self).ai, ..*old(self) })
                }
            }),
    {
        if !self.ai_settings_has_minimum_config() {
            self.ai.naming_ai_status = NamingAiStatus::NeedsConfig;
            self.push_toast(
                ToastLevel::Warning,
                str_to_string("Open Suggestions settings (m) and configure OpenRouter key + model"),
            );
            return;
        }
        if self.naming.rename_rows.len() == 0 {
            self.ai.naming_ai_status = NamingAiStatus::Idle;
            return;
        }
        let api_key = match &self.ai.ai_settings.api_key {
            Some(k) => k.clone(),
            None => {
                self.ai.naming_ai_status = NamingAiStatus::NeedsConfig;
                return;
            },
        };
        let model_id = match &self.ai.ai_settings.selected_model {
            Some(m) => m.clone(),
            None => {
                self.ai.naming_ai_status = NamingAiStatus::NeedsConfig;
                return;
            },
        };
        let id = self.next_ai_request_id();
        self.ai.ai_active_request_id = Some(id);
        self.ai.naming_ai_error = None;
        self.ai.naming_ai_status = NamingAiStatus::AnalyzingFiles;
        let paths = paths_of_rows(&self.naming.rename_rows);
        self.ai.ai_analyzing_paths = paths_of_rows(&self.naming.rename_rows);
        if self.ai.ai_worker_available {
            self.ai.ai_outbox.push(AiWorkerCommand::GenerateSuggestions { request_id: id, api_key, model_id, paths, user_prompt });
        } else {
            self.ai.naming_ai_status = NamingAiStatus::Error;
            self.ai.naming_ai_error = Some(str_to_string("AI worker is not available"));
        }
    }

    /// Asks for suggestions without an instruction.
    pub fn trigger_naming_suggestions_refresh(&mut self)
        ensures
            suggestions_requested(*old(self), *final(self)),
    {
        self.trigger_naming_suggestions_refresh_with_prompt(None);
    }

    /// Asks for suggestions when a key and model are set; otherwise the status says the
    /// settings are needed, without a warning.
    pub fn trigger_naming_suggestions_refresh_if_configured(&mut self)
        ensures
            refreshed_if_configured(*old(self), *final(self)),
            !has_minimum_config(old(self).ai.ai_settings) ==> *final(self) == (AppState {
                ai: AiState { naming_ai_status: NamingAiStatus::NeedsConfig, naming_ai_error: None, ..old(self).ai },
                ..*old(self)
            }),
            has_minimum_config(old(self).ai.ai_settings) && old(self).naming.rename_rows@.len() == 0 ==> *final(self) == (AppState {
                ai: AiState { naming_ai_status: NamingAiStatus::Idle, ..old(self).ai },
                ..*old(self)
            }),
            has_minimum_config(old(self).ai.ai_settings) && old(self).naming.rename_rows@.len() > 0 ==> {
                &&& final(self).ai.ai_active_request_id == Some(old(self).ai.ai_next_request_id)
                &&& final(self).ai.naming_ai_status == (if old(self).ai.ai_worker_available {
                    NamingAiStatus::AnalyzingFiles
                } else {
                    NamingAiStatus::Error
                })
                &&& old(self).ai.ai_worker_available ==> (final(self).ai.ai_outbox@.last() matches AiWorkerCommand::GenerateSuggestions {
                    request_id,
                    paths,
                    user_prompt: None,
                    ..
                } && request_id == old(self).ai.ai_next_request_id && string_views(paths@) == row_paths(old(self).naming.rename_rows@))
                &&& *final(self) == (AppState { ai: final(self).ai, ..*old(self) })
            },
    {
        if self.ai_settings_has_minimum_config() {
            self.trigger_naming_suggestions_refresh_with_prompt(None);
        } else {
            self.ai.naming_ai_status = NamingAiStatus::NeedsConfig;
            self.ai.naming_ai_error = None;
        }
    }
}


/// The text with every line break turned into a space.
pub open spec fn one_line(s: Seq<char>) -> Seq<char> {
    s.map_values(|c: char| if c == '\n' { ' ' } else { c })
}

/// Computes `one_line`.
fn one_line_str(s: &str) -> (r: String)
    ensures
        r@ == one_line(s@),
{
    let v = crate::text::chars_of(s);
    let mut out: Vec<char> = Vec::new();
    let mut i: usize = 0;
    while i < v.len()
        invariant
            i <= v@.len(),
            v@ == s@,
            out@ == one_line(v@.take(i as int)),
        decreases v@.len() - i,
    {
        let c = v[i];
        out.push(if c == '\n' { ' ' } else { c });
        assert(one_line(v@.take(i + 1)) =~= one_line(v@.take(i as int)).push(if c == '\n' { ' ' } else { c }));
        i += 1;
    }
    assert(v@.take(i as int) == v@);
    crate::text::string_from(&out)
}

/// The log line of the `i`-th (from zero) of `total` AI warnings.
pub open spec fn warning_line(i: int, total: int, w: Seq<char>) -> Seq<char> {
    "AI warning "@ + spec_decimal((i + 1) as u64) + "/"@ + spec_decimal(total as u64) + ": "@ + one_line(w)
}

/// The lines logged for the AI warnings, each under `WARN`.
pub open spec fn warning_lines(ws: Seq<String>) -> Seq<(Seq<char>, Seq<char>)> {
    Seq::new(ws.len(), |i: int| ("WARN"@, warning_line(i, ws.len() as int, ws[i]@)))
}

/// The lines an answer with suggestions logs: the toast about files over the cap, the
/// toast counting warnings, then each warning.
pub open spec fn suggestion_report(skipped: usize, ws: Seq<String>) -> Seq<(Seq<char>, Seq<char>)> {
    let cap: Seq<(Seq<char>, Seq<char>)> = if skipped > 0 {
        seq![("INFO"@, skipped_message(skipped))]
    } else {
        Seq::empty()
    };
    let warn: Seq<(Seq<char>, Seq<char>)> = if ws.len() > 0 {
        seq![("WARN"@, warnings_message(ws.len() as int))] + warning_lines(ws)
    } else {
        Seq::empty()
    };
    cap + warn
}

/// The toast about files left out by the cap.
pub open spec fn skipped_message(skipped: usize) -> Seq<char> {
    "AI analyzed first "@ + spec_decimal(MAX_FILES_PER_RUN as u64) + " files ("@ + spec_decimal(skipped as u64)
        + " skipped by cap)"@
}

/// The toast counting AI warnings.
pub open spec fn warnings_message(n: int) -> Seq<char> {
    "AI finished with "@ + spec_decimal(n as u64) + " warning(s)"@
}

/// The choices of `ovr` for files that have options in `opts`.
fn keep_known(ovr: &Vec<(String, usize)>, opts: &Vec<(String, [String; 3])>) -> (r: Vec<(String, usize)>)
    ensures
        forall|p: Seq<char>| #[trigger] index_at(r@, p) == (if options_at(opts@, p) is Some {
            index_at(ovr@, p)
        } else {
            None
        }),
{
    let mut out: Vec<(String, usize)> = Vec::new();
    let mut i: usize = 0;
    while i < ovr.len()
        invariant
            i <= ovr@.len(),
            forall|p: Seq<char>| #[trigger] index_at(out@, p) == (if options_at(opts@, p) is Some {
                index_at(ovr@.take(i as int), p)
            } else {
                None
            }),
        decreases ovr@.len() - i,
    {
        let ghost pre = out@;
        let ghost e = ovr@[i as int];
        assert(ovr@.take(i + 1) == ovr@.take(i as int).push(e));
        let known = find_options(opts, ovr[i].0.as_str()).is_some();
        if known {
            out.push((ovr[i].0.clone(), ovr[i].1));
        }
        proof {
            assert forall|p: Seq<char>| #[trigger] index_at(out@, p) == (if options_at(opts@, p) is Some {
                index_at(ovr@.take(i + 1), p)
            } else {
                None
            }) by {
                crate::naming_edit::lemma_index_at_push(ovr@.take(i as int), e, p);
                if known {
                    crate::naming_edit::lemma_index_at_push(pre, (e.0, e.1), p);
                }
            }
        }
        i += 1;
    }
    assert(ovr@.take(i as int) == ovr@);
    out
}

impl AppState {
    /// Logs each AI warning on one line, numbered.
    fn log_ai_warnings(&mut self, warnings: &Vec<String>)
        requires
            warnings@.len() > 0,
        ensures
            logged(string_views(old(self).log.logs@), string_views(final(self).log.logs@), warning_lines(warnings@)),
            *final(self) == (AppState {
                log: LogState {
                    logs: final(self).log.logs,
                    log_scroll: final(self).log.log_scroll,
                    log_col_scroll: final(self).log.log_col_scroll,
                    ..old(self).log
                },
                ..*old(self)
            }),
    {
        let total = warnings.len();
        let ghost before = string_views(self.log.logs@);
        let ghost wl = warning_lines(warnings@);
        let mut i: usize = 0;
        while i < total
            invariant
                i <= total == warnings@.len(),
                wl == warning_lines(warnings@),
                before == string_views(old(self).log.logs@),
                i > 0 ==> logged(before, string_views(self.log.logs@), wl.take(i as int)),
                i == 0 ==> *self == *old(self),
                *self == (AppState {
                    log: LogState {
                        logs: self.log.logs,
                        log_scroll: self.log.log_scroll,
                        log_col_scroll: self.log.log_col_scroll,
                        ..old(self).log
                    },
                    ..*old(self)
                }),
            decreases total - i,
        {
            let line = one_line_str(warnings[i].as_str());
            let msg = concat("AI warning ", u64_to_decimal((i + 1) as u64).as_str());
            let msg = concat(msg.as_str(), "/");
            let msg = concat(msg.as_str(), u64_to_decimal(total as u64).as_str());
            let msg = concat(msg.as_str(), ": ");
            let msg = concat(msg.as_str(), line.as_str());
            assert(msg@ == warning_line(i as int, total as int, warnings@[i as int]@));
            let ghost mid = string_views(self.log.logs@);
            proof {
                reveal_strlit("WARN");
            }
            self.append_log("WARN", msg.as_str());
            proof {
                let ts = choose|ts: u64|
                    string_views(self.log.logs@) == keep_last(
                        mid.push(#[trigger] log_line(ts, "WARN"@, msg@)),
                        MAX_LOG_LINES as int,
                    );
                assert(wl.take(i + 1) == wl.take(i as int).push(("WARN"@, msg@)));
                if i == 0 {
                    crate::logs::lemma_logged_first(before, string_views(self.log.logs@), ts, "WARN"@, msg@);
                    assert(wl.take(1) == seq![("WARN"@, msg@)]);
                } else {
                    crate::logs::lemma_logged_push(before, mid, string_views(self.log.logs@), wl.take(i as int), ts, "WARN"@, msg@);
                }
            }
            i += 1;
        }
        assert(wl.take(total as int) == wl);
    }
}


/// The status a progress report stands for.
pub open spec fn progress_status(stage: WorkerProgressStage) -> NamingAiStatus {
    match stage {
        WorkerProgressStage::DiscoveringModels => NamingAiStatus::DiscoveringModels,
        WorkerProgressStage::AnalyzingFiles => NamingAiStatus::AnalyzingFiles,
        WorkerProgressStage::Generating => NamingAiStatus::Generating,
    }
}

/// The choices kept from an earlier suggestion set.
pub open spec fn earlier_choices(set: Option<SuggestionSet>) -> Seq<(String, usize)> {
    match set {
        Some(s) => s.per_path_override_index@,
        None => Seq::empty(),
    }
}

impl AppState {
    /// Takes in an answer of the AI worker. Answers to a request other than the active one
    /// are dropped (an error with request number zero always counts). Progress sets the
    /// status; found models replace the list (and the first becomes the model when none is
    /// chosen); suggestions become the suggestion set, keeping the choices made for files
    /// that still have options, names are proposed afresh and the cap and warnings are
    /// reported; an error sets the status and shows the message.
    pub fn handle_ai_event(&mut self, event: AiWorkerEvent)
        requires
            old(self).wf(),
            event matches AiWorkerEvent::SuggestionsReady { per_path_options, .. } ==> options_cut_ok(per_path_options@),
        ensures
            final(self).wf(),
            ({
                let o = old(self).ai;
                match event {
                    AiWorkerEvent::ProgressUpdate { request_id, stage } => if Some(request_id) == o.ai_active_request_id {
                        *final(self) == (AppState { ai: AiState { naming_ai_status: progress_status(stage), ..o }, ..*old(self) })
                    } else {
                        *final(self) == *old(self)
                    },
                    AiWorkerEvent::ModelsDiscovered { request_id, models } => if Some(request_id) == o.ai_active_request_id {
                        let a = final(self).ai.ai_settings;
                        &&& a.discovered_models == models
                        &&& a.model_list_cursor == 0
                        &&& a.discovery_error is None
                        &&& o.ai_settings.selected_model is None && models@.len() > 0 ==> (a.selected_model matches Some(m)
                            && m@ == models@[0].id@ && a.manual_model_input@ == models@[0].id@)
                        &&& !(o.ai_settings.selected_model is None && models@.len() > 0) ==> a.selected_model
                            == o.ai_settings.selected_model && a.manual_model_input == o.ai_settings.manual_model_input
                        &&& a == (AiSettingsState {
                            discovered_models: a.discovered_models,
                            model_list_cursor: 0,
                            discovery_error: None,
                            selected_model: a.selected_model,
                            manual_model_input: a.manual_model_input,
                            ..o.ai_settings
                        })
                        &&& *final(self) == (AppState {
                            ai: AiState { ai_settings: a, naming_ai_status: NamingAiStatus::Ready, naming_ai_error: None, ..o },
                            ..*old(self)
                        })
                    } else {
                        *final(self) == *old(self)
                    },
                    AiWorkerEvent::SuggestionsReady { request_id, source_model, per_path_options, warnings, skipped_files } => if Some(
                        request_id,
                    ) == o.ai_active_request_id {
                        let c = old(self).naming.suggestion_cursor;
                        let set = final(self).naming.suggestion_set->0;
                        &&& final(self).naming.suggestion_set is Some
                        &&& set.request_id == request_id
                        &&& set.global_option_index == (if c < 2 { c } else { 2 })
                        &&& set.per_path_options == per_path_options
                        &&& set.source_model == source_model
                        &&& forall|p: Seq<char>| #[trigger] index_at(set.per_path_override_index@, p) == (if options_at(per_path_options@, p) is Some {
                            index_at(earlier_choices(old(self).naming.suggestion_set), p)
                        } else {
                            None
                        })
                        &&& proposals_redone(*final(self), old(self).naming.rename_rows@, final(self).naming.rename_rows@)
                        &&& (skipped_files > 0 || warnings@.len() > 0) ==> logged(
                            string_views(old(self).log.logs@),
                            string_views(final(self).log.logs@),
                            suggestion_report(skipped_files, warnings@),
                        )
                        &&& warnings@.len() > 0 ==> final(self).log.toasts@.last().level == ToastLevel::Warning
                            && final(self).log.toasts@.last().message@ == warnings_message(warnings@.len() as int)
                        &&& warnings@.len() == 0 && skipped_files > 0 ==> final(self).log.toasts@.last().level == ToastLevel::Info
                            && final(self).log.toasts@.last().message@ == skipped_message(skipped_files)
                        &&& warnings@.len() == 0 && skipped_files == 0 ==> final(self).log == old(self).log
                        &&& *final(self) == (AppState {
                            naming: NamingState {
                                suggestion_set: final(self).naming.suggestion_set,
                                rename_rows: final(self).naming.rename_rows,
                                ..old(self).naming
                            },
                            ai: AiState { naming_ai_status: NamingAiStatus::Ready, naming_ai_error: None, ..o },
                            log: final(self).log,
                            ..*old(self)
                        })
                    } else {
                        *final(self) == *old(self)
                    },
                    AiWorkerEvent::AiError { request_id, message } => if request_id == 0 || Some(request_id) == o.ai_active_request_id {
                        &&& (final(self).ai.naming_ai_error matches Some(e) && e@ == message@)
                        &&& final(self).log.toasts@.last().level == ToastLevel::Error
                        &&& final(self).log.toasts@.last().message@ == message@
                        &&& *final(self) == (AppState {
                            ai: AiState { naming_ai_status: NamingAiStatus::Error, naming_ai_error: final(self).ai.naming_ai_error, ..o },
                            log: final(self).log,
                            ..*old(self)
                        })
                    } else {
                        *final(self) == *old(self)
                    },
                }
            }),
    {
        match event {
            AiWorkerEvent::ProgressUpdate { request_id, stage } => {
                if self.ai.ai_active_request_id != Some(request_id) {
                    return;
                }
                self.ai.naming_ai_status = match stage {
                    WorkerProgressStage::DiscoveringModels => NamingAiStatus::DiscoveringModels,
                    WorkerProgressStage::AnalyzingFiles => NamingAiStatus::AnalyzingFiles,
                    WorkerProgressStage::Generating => NamingAiStatus::Generating,
                };
            },
            AiWorkerEvent::ModelsDiscovered { request_id, models } => {
                if self.ai.ai_active_request_id != Some(request_id) {
                    return;
                }
                let first = if models.len() > 0 { Some(models[0].id.clone()) } else { None };
                self.ai.ai_settings.discovered_models = models;
                self.ai.ai_settings.model_list_cursor = 0;
                self.ai.ai_settings.discovery_error = None;
                self.ai.naming_ai_status = NamingAiStatus::Ready;
                self.ai.naming_ai_error = None;
                if self.ai.ai_settings.selected_model.is_none() {
                    match first {
                        Some(id) => {
                            self.ai.ai_settings.selected_model = Some(id.clone());
                            self.ai.ai_settings.manual_model_input = id;
                        },
                        None => {},
                    }
                }
            },
            AiWorkerEvent::SuggestionsReady { request_id, source_model, per_path_options, warnings, skipped_files } => {
                if self.ai.ai_active_request_id != Some(request_id) {
                    return;
                }
                self.take_suggestions(request_id, source_model, per_path_options);
                self.report_suggestions(&warnings, skipped_files);
            },
            AiWorkerEvent::AiError { request_id, message } => {
                if request_id != 0 && self.ai.ai_active_request_id != Some(request_id) {
                    return;
                }
                self.ai.naming_ai_status = NamingAiStatus::Error;
                self.ai.naming_ai_error = Some(message.clone());
                self.push_toast(ToastLevel::Error, message);
            },
        }
    }

    /// Makes the answer the suggestion set, keeping the choices for files that still have
    /// options, and proposes names afresh.
    fn take_suggestions(&mut self, request_id: u64, source_model: String, per_path_options: Vec<(String, [String; 3])>)
        requires
            old(self).wf(),
            options_cut_ok(per_path_options@),
        ensures
            final(self).wf(),
            ({
                let c = old(self).naming.suggestion_cursor;
                let set = final(self).naming.suggestion_set->0;
                &&& final(self).naming.suggestion_set is Some
                &&& set.request_id == request_id
                &&& set.global_option_index == (if c < 2 { c } else { 2 })
                &&& set.per_path_options == per_path_options
                &&& set.source_model == source_model
                &&& forall|p: Seq<char>| #[trigger] index_at(set.per_path_override_index@, p) == (if options_at(per_path_options@, p) is Some {
                    index_at(earlier_choices(old(self).naming.suggestion_set), p)
                } else {
                    None
                })
                &&& proposals_redone(*final(self), old(self).naming.rename_rows@, final(self).naming.rename_rows@)
                &&& *final(self) == (AppState {
                    naming: NamingState {
                        suggestion_set: final(self).naming.suggestion_set,
                        rename_rows: final(self).naming.rename_rows,
                        ..old(self).naming
                    },
                    ai: AiState { naming_ai_status: NamingAiStatus::Ready, naming_ai_error: None, ..old(self).ai },
                    ..*old(self)
                })
            }),
    {
        let earlier = match &self.naming.suggestion_set {
            Some(s) => keep_known(&s.per_path_override_index, &per_path_options),
            None => keep_known(&Vec::new(), &per_path_options),
        };
        let c = self.naming.suggestion_cursor;
        let set = SuggestionSet {
            request_id,
            global_option_index: if c < 2 { c } else { 2 },
            per_path_options,
            per_path_override_index: earlier,
            source_model,
        };
        self.naming.suggestion_set = Some(set);
        self.ai.naming_ai_status = NamingAiStatus::Ready;
        self.ai.naming_ai_error = None;
        self.recompute_proposals();
    }

    /// Reports the files left out by the cap and the warnings of an answer.
    fn report_suggestions(&mut self, warnings: &Vec<String>, skipped_files: usize)
        ensures
            (skipped_files > 0 || warnings@.len() > 0) ==> logged(
                string_views(old(self).log.logs@),
                string_views(final(self).log.logs@),
                suggestion_report(skipped_files, warnings@),
            ),
            warnings@.len() > 0 ==> final(self).log.toasts@.last().level == ToastLevel::Warning
                && final(self).log.toasts@.last().message@ == warnings_message(warnings@.len() as int),
            warnings@.len() == 0 && skipped_files > 0 ==> final(self).log.toasts@.last().level == ToastLevel::Info
                && final(self).log.toasts@.last().message@ == skipped_message(skipped_files),
            warnings@.len() == 0 && skipped_files == 0 ==> final(self).log == old(self).log,
            *final(self) == (AppState { log: final(self).log, ..*old(self) }),
    {
        let ghost before = string_views(self.log.logs@);
        let ghost cap: Seq<(Seq<char>, Seq<char>)> = if skipped_files > 0 {
            seq![("INFO"@, skipped_message(skipped_files))]
        } else {
            Seq::empty()
        };
        proof {
            reveal_strlit("INFO");
            reveal_strlit("WARN");
        }
        if skipped_files > 0 {
            let msg = concat("AI analyzed first ", u64_to_decimal(MAX_FILES_PER_RUN as u64).as_str());
            let msg = concat(msg.as_str(), " files (");
            let msg = concat(msg.as_str(), u64_to_decimal(skipped_files as u64).as_str());
            let msg = concat(msg.as_str(), " skipped by cap)");
            let ghost mid = string_views(self.log.logs@);
            let ghost m = msg@;
            self.push_toast(ToastLevel::Info, msg);
            proof {
                let ts = choose|ts: u64|
                    string_views(self.log.logs@) == keep_last(
                        mid.push(#[trigger] log_line(ts, crate::logs::level_label(ToastLevel::Info), m)),
                        MAX_LOG_LINES as int,
                    );
                crate::logs::lemma_logged_first(before, string_views(self.log.logs@), ts, "INFO"@, m);
            }
        }
        if warnings.len() > 0 {
            let msg = concat("AI finished with ", u64_to_decimal(warnings.len() as u64).as_str());
            let msg = concat(msg.as_str(), " warning(s)");
            let ghost mid = string_views(self.log.logs@);
            let ghost m = msg@;
            self.push_toast(ToastLevel::Warning, msg);
            let ghost mid2 = string_views(self.log.logs@);
            let ghost toasts = self.log.toasts@;
            proof {
                let ts = choose|ts: u64|
                    mid2 == keep_last(
                        mid.push(#[trigger] log_line(ts, crate::logs::level_label(ToastLevel::Warning), m)),
                        MAX_LOG_LINES as int,
                    );
                if skipped_files > 0 {
                    crate::logs::lemma_logged_push(before, mid, mid2, cap, ts, "WARN"@, m);
                    assert(cap.push(("WARN"@, m)) == cap + seq![("WARN"@, m)]);
                } else {
                    crate::logs::lemma_logged_first(before, mid2, ts, "WARN"@, m);
                    assert(cap + seq![("WARN"@, m)] =~= seq![("WARN"@, m)]);
                }
            }
            self.log_ai_warnings(warnings);
            proof {
                lemma_logged_chain(before, mid2, string_views(self.log.logs@), cap + seq![("WARN"@, m)], warning_lines(warnings@));
                assert(cap + seq![("WARN"@, m)] + warning_lines(warnings@) =~= suggestion_report(skipped_files, warnings@));
            }
        } else {
            proof {
                assert(cap =~= suggestion_report(skipped_files, warnings@));
            }
        }
    }
}

/// Two appended runs make one.
proof fn lemma_logged_chain(
    a: Seq<Seq<char>>,
    b: Seq<Seq<char>>,
    c: Seq<Seq<char>>,
    l1: Seq<(Seq<char>, Seq<char>)>,
    l2: Seq<(Seq<char>, Seq<char>)>,
)
    requires
        logged(a, b, l1),
        logged(b, c, l2),
    ensures
        logged(a, c, l1 + l2),
    decreases l2.len(),
{
    if l2.len() == 0 {
        let s1 = choose|stamps: Seq<u64>|
            stamps.len() == l1.len() && b == keep_last(a + #[trigger] stamped(l1, stamps), MAX_LOG_LINES as int);
        let s2 = choose|stamps: Seq<u64>|
            stamps.len() == l2.len() && c == keep_last(b + #[trigger] stamped(l2, stamps), MAX_LOG_LINES as int);
        assert(b + stamped(l2, s2) =~= b);
        assert(l1 + l2 =~= l1);
        assert(keep_last(b, MAX_LOG_LINES as int) =~= b);
    } else {
        let s2 = choose|stamps: Seq<u64>|
            stamps.len() == l2.len() && c == keep_last(b + #[trigger] stamped(l2, stamps), MAX_LOG_LINES as int);
        let init = l2.drop_last();
        let st = s2.drop_last();
        let mid = keep_last(b + stamped(init, st), MAX_LOG_LINES as int);
        assert(logged(b, mid, init));
        lemma_logged_chain(a, b, mid, l1, init);
        let x = l2.last();
        assert(b + stamped(l2, s2) =~= (b + stamped(init, st)).push(log_line(s2.last(), x.0, x.1)));
        crate::logs::lemma_keep_last_push(b + stamped(init, st), log_line(s2.last(), x.0, x.1), MAX_LOG_LINES as int);
        crate::logs::lemma_logged_push(a, mid, c, l1 + init, s2.last(), x.0, x.1);
        assert((l1 + init).push(x) =~= l1 + l2);
    }
}


/// `q` occurs in `s`.
pub open spec fn contains_text(s: Seq<char>, q: Seq<char>) -> bool {
    exists|i: int| 0 <= i <= s.len() - q.len() && #[trigger] s.subrange(i, i + q.len()) == q
}

/// Whether `q` occurs in `s` at position `i`.
fn occurs_at(s: &Vec<char>, q: &Vec<char>, i: usize) -> (r: bool)
    requires
        i + q@.len() <= s@.len(),
    ensures
        r == (s@.subrange(i as int, i + q@.len()) == q@),
{
    let mut j: usize = 0;
    while j < q.len()
        invariant
            i + q@.len() <= s@.len(),
            q@.len() == q.len(),
            s@.len() == s.len(),
            j <= q@.len(),
            forall|m: int| 0 <= m < j ==> s@[i + m] == q@[m],
        decreases q@.len() - j,
    {
        let k: usize = i + j;
        if s[k] != q[j] {
            assert(s@.subrange(i as int, i + q@.len())[j as int] != q@[j as int]);
            return false;
        }
        j += 1;
    }
    assert(s@.subrange(i as int, i + q@.len()) =~= q@);
    true
}

/// Whether `q` occurs in `s`.
pub fn chars_contain(s: &Vec<char>, q: &Vec<char>) -> (r: bool)
    ensures
        r == contains_text(s@, q@),
{
    if q.len() > s.len() {
        return false;
    }
    let last = s.len() - q.len();
    let mut i: usize = 0;
    loop
        invariant
            last == s@.len() - q@.len(),
            i <= last,
            forall|k: int| 0 <= k < i ==> #[trigger] s@.subrange(k, k + q@.len()) != q@,
        decreases last - i,
    {
        if occurs_at(s, q, i) {
            return true;
        }
        if i == last {
            return false;
        }
        i += 1;
    }
}

/// Whether a model shows under the lowercase search `q`: any model when it is empty,
/// otherwise one whose id or name, lowercased, holds it.
pub open spec fn model_shown(m: ModelListItem, q: Seq<char>) -> bool {
    q.len() == 0 || contains_text(spec_lowercase(m.id@), q) || contains_text(spec_lowercase(m.name@), q)
}

/// The positions of the models shown under `q`, in order.
pub open spec fn shown_models(models: Seq<ModelListItem>, q: Seq<char>) -> Seq<int>
    decreases models.len(),
{
    if models.len() == 0 {
        Seq::empty()
    } else if model_shown(models.last(), q) {
        shown_models(models.drop_last(), q).push(models.len() - 1)
    } else {
        shown_models(models.drop_last(), q)
    }
}

/// A prefix's shown positions are the first ones of the whole, and lie in the prefix.
proof fn lemma_shown_models_bounds(models: Seq<ModelListItem>, q: Seq<char>)
    ensures
        forall|k: int| 0 <= k < shown_models(models, q).len() ==> 0 <= #[trigger] shown_models(models, q)[k] < models.len(),
    decreases models.len(),
{
    if models.len() > 0 {
        lemma_shown_models_bounds(models.drop_last(), q);
        let prev = shown_models(models.drop_last(), q);
        assert forall|k: int| 0 <= k < shown_models(models, q).len() implies 0 <= #[trigger] shown_models(models, q)[k] < models.len() by {
            if k < prev.len() {
                assert(shown_models(models, q)[k] == prev[k]);
            }
        }
    }
}

/// The search query as the model list reads it: trimmed and lowercased.
pub open spec fn model_query(a: AiSettingsState) -> Seq<char> {
    spec_lowercase(trim(a.model_search_query@))
}

/// What picking row `k` of the shown model list does to `pre`, giving `post`.
pub open spec fn model_picked(pre: AppState, post: AppState, k: usize) -> bool {
    &&& ({
        let a = pre.ai.ai_settings;
        let idx = shown_models(a.discovered_models@, model_query(a));
        &&& k >= idx.len() ==> post == pre
        &&& k < idx.len() ==> {
            let id = a.discovered_models@[idx[k as int]].id@;
            &&& (post.ai.ai_settings.selected_model matches Some(m) && m@ == id)
            &&& post.ai.ai_settings.manual_model_input@ == id
            &&& post == (AppState {
                ai: AiState {
                    ai_settings: AiSettingsState {
                        selected_model: post.ai.ai_settings.selected_model,
                        manual_model_input: post.ai.ai_settings.manual_model_input,
                        model_list_cursor: k,
                        ..a
                    },
                    ..pre.ai
                },
                ..pre
            })
        }
    })
}

impl AppState {
    /// The discovered models that match the search, with their positions in the list.
    pub fn filtered_ai_models(&self) -> (r: Vec<(usize, ModelListItem)>)
        ensures
            ({
                let models = self.ai.ai_settings.discovered_models@;
                let idx = shown_models(models, model_query(self.ai.ai_settings));
                &&& r@.len() == idx.len()
                &&& forall|k: int| 0 <= k < r@.len() ==> (#[trigger] r@[k]).0 == idx[k] && r@[k].1@ == models[idx[k]]@
            }),
    {
        let trimmed = trim_str(self.ai.ai_settings.model_search_query.as_str());
        let query = crate::text::str_to_lowercase(trimmed.as_str());
        let qc = crate::text::chars_of(query.as_str());
        let ghost q = qc@;
        let ghost models = self.ai.ai_settings.discovered_models@;
        let mut out: Vec<(usize, ModelListItem)> = Vec::new();
        let mut i: usize = 0;
        while i < self.ai.ai_settings.discovered_models.len()
            invariant
                i <= models.len(),
                models == self.ai.ai_settings.discovered_models@,
                q == model_query(self.ai.ai_settings),
                qc@ == q,
                out@.len() == shown_models(models.take(i as int), q).len(),
                forall|k: int|
                    0 <= k < out@.len() ==> (#[trigger] out@[k]).0 == shown_models(models.take(i as int), q)[k] && out@[k].1@
                        == models[shown_models(models.take(i as int), q)[k]]@,
            decreases models.len() - i,
        {
            let ghost pre = models.take(i as int);
            assert(models.take(i + 1).drop_last() == pre);
            assert(models.take(i + 1).last() == models[i as int]);
            let m = &self.ai.ai_settings.discovered_models[i];
            let shown = qc.len() == 0 || chars_contain(
                &crate::text::chars_of(crate::text::str_to_lowercase(m.id.as_str()).as_str()),
                &qc,
            ) || chars_contain(&crate::text::chars_of(crate::text::str_to_lowercase(m.name.as_str()).as_str()), &qc);
            if shown {
                out.push((i, m.copy()));
            }
            proof {
                lemma_shown_models_bounds(pre, q);
                assert forall|k: int| 0 <= k < out@.len() implies (#[trigger] out@[k]).0 == shown_models(models.take(i + 1), q)[k]
                    && out@[k].1@ == models[shown_models(models.take(i + 1), q)[k]]@ by {
                    if k < shown_models(pre, q).len() {
                        assert(shown_models(models.take(i + 1), q)[k] == shown_models(pre, q)[k]);
                        assert(models.take(i + 1)[shown_models(pre, q)[k]] == models[shown_models(pre, q)[k]]);
                    }
                }
            }
            i += 1;
        }
        assert(models.take(i as int) == models);
        out
    }

    /// Chooses the model at position `k` of the filtered list: it becomes the selected
    /// model and the typed model, and the list cursor moves there. Past the end nothing
    /// changes.
    pub fn select_ai_model_by_filtered_index(&mut self, k: usize)
        ensures
            model_picked(*old(self), *final(self), k),
    {
        let filtered = self.filtered_ai_models();
        if k >= filtered.len() {
            return;
        }
        let id = filtered[k].1.id.clone();
        self.ai.ai_settings.selected_model = Some(id.clone());
        self.ai.ai_settings.manual_model_input = id;
        self.ai.ai_settings.model_list_cursor = k;
    }
}

/// The AI settings read from the saved configuration: the key and model, also shown in
/// the typed fields; everything else at its start.
pub fn build_ai_settings_from_config(config: &AppConfig) -> (r: AiSettingsState)
    ensures
        opt_string_view(r.api_key) == opt_string_view(config.openrouter_api_key),
        opt_string_view(r.selected_model) == opt_string_view(config.openrouter_model),
        r.api_key_input@ == (match config.openrouter_api_key {
            Some(k) => k@,
            None => Seq::<char>::empty(),
        }),
        r.manual_model_input@ == (match config.openrouter_model {
            Some(m) => m@,
            None => Seq::<char>::empty(),
        }),
        r.model_search_query@.len() == 0,
        r.discovered_models@.len() == 0,
        r.model_list_cursor == 0,
        r.discovery_error is None,
        !r.popup_open,
        r.active_field == AiSettingsField::ApiKey,
        !r.reveal_api_key,
{
    let api_key = match &config.openrouter_api_key {
        Some(k) => Some(k.clone()),
        None => None,
    };
    let selected_model = match &config.openrouter_model {
        Some(m) => Some(m.clone()),
        None => None,
    };
    let api_key_input = match &api_key {
        Some(k) => k.clone(),
        None => String::new(),
    };
    let manual_model_input = match &selected_model {
        Some(m) => m.clone(),
        None => String::new(),
    };
    AiSettingsState {
        api_key,
        api_key_input,
        selected_model,
        manual_model_input,
        model_search_query: String::new(),
        discovered_models: Vec::new(),
        model_list_cursor: 0,
        discovery_error: None,
        popup_open: false,
        active_field: AiSettingsField::ApiKey,
        reveal_api_key: false,
    }
}


/// Whether model `a` is listed before model `b`: by lower-cased name.
pub open spec fn model_before(a: ModelListItem, b: ModelListItem) -> bool {
    crate::fs_scan::seq_lt(spec_lowercase(a.name@), spec_lowercase(b.name@))
}

/// No model is listed before the one before it.
pub open spec fn models_ordered(s: Seq<ModelListItem>) -> bool {
    forall|i: int| 0 <= i < s.len() - 1 ==> !model_before(#[trigger] s[i + 1], s[i])
}

fn model_precedes(a: &ModelListItem, b: &ModelListItem) -> (r: bool)
    ensures
        r == model_before(*a, *b),
{
    let la = crate::text::chars_of(crate::text::str_to_lowercase(a.name.as_str()).as_str());
    let lb = crate::text::chars_of(crate::text::str_to_lowercase(b.name.as_str()).as_str());
    crate::fs_scan::chars_lt(&la, &lb)
}

/// The models found, ordered by lower-cased name; models with the same name keep their
/// order.
pub fn sort_models(models: Vec<ModelListItem>) -> (out: Vec<ModelListItem>)
    ensures
        models_ordered(out@),
        out@.to_multiset() == models@.to_multiset(),
{
    let ghost orig = models@;
    let mut rest = models;
    let mut reversed: Vec<ModelListItem> = Vec::new();
    while rest.len() > 0
        invariant
            reversed@.len() + rest@.len() == orig.len(),
            forall|i: int| 0 <= i < reversed@.len() ==> reversed@[i] == orig[orig.len() - 1 - i],
            rest@ == orig.take(rest@.len() as int),
        decreases rest@.len(),
    {
        let e = rest.pop().unwrap();
        reversed.push(e);
    }
    let ghost n = orig.len();
    let mut out: Vec<ModelListItem> = Vec::new();
    assert(out@.to_multiset() =~= orig.take(0).to_multiset()) by {
        broadcast use vstd::seq_lib::group_to_multiset_ensures;
        assert(orig.take(0) =~= Seq::<ModelListItem>::empty());
    }
    while reversed.len() > 0
        invariant
            reversed@.len() <= n,
            n == orig.len(),
            forall|i: int| 0 <= i < reversed@.len() ==> reversed@[i] == orig[n - 1 - i],
            models_ordered(out@),
            out@.to_multiset() == orig.take(n - reversed@.len()).to_multiset(),
        decreases reversed@.len(),
    {
        let ghost done = n - reversed@.len();
        let e = reversed.pop().unwrap();
        assert(e == orig[done]);
        assert(orig.take(done + 1) == orig.take(done).push(e));
        let mut p: usize = 0;
        while p < out.len() && !model_precedes(&e, &out[p])
            invariant
                p <= out@.len(),
                forall|q: int| 0 <= q < p ==> !model_before(e, #[trigger] out@[q]),
            decreases out@.len() - p,
        {
            p += 1;
        }
        let ghost before = out@;
        proof {
            if p < out@.len() {
                crate::fs_scan::lemma_seq_lt_asymmetric(spec_lowercase(e.name@), spec_lowercase(out@[p as int].name@));
            }
        }
        out.insert(p, e);
        proof {
            assert forall|i: int| 0 <= i < out@.len() - 1 implies !model_before(#[trigger] out@[i + 1], out@[i]) by {
                if i + 1 < p {
                    assert(out@[i] == before[i] && out@[i + 1] == before[i + 1]);
                    assert(!model_before(before[i + 1], before[i]));
                } else if i + 1 == p {
                    assert(out@[i + 1] == e && out@[i] == before[i]);
                } else if i == p {
                    assert(out@[i] == e && out@[i + 1] == before[i]);
                } else {
                    assert(out@[i] == before[i - 1] && out@[i + 1] == before[i]);
                    assert(!model_before(before[(i - 1) + 1], before[i - 1]));
                }
            }
            vstd::seq_lib::to_multiset_insert(before, p as int, e);
            vstd::seq_lib::to_multiset_build(orig.take(done), e);
        }
    }
    assert(orig.take(n as int) == orig);
    out
}

} // verus!
