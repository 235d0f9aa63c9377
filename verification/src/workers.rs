//! The messages exchanged with the background workers that call OpenRouter and render
//! previews. The planner decides what to send and what an answer changes; the workers run
//! outside it.
use vstd::prelude::*;
use crate::model::ModelListItem;
use crate::preview::{PreviewBuildResult, PreviewSourceMeta};

verus! {

/// Work for the AI worker.
#[derive(Debug, Clone)]
#[allow(inconsistent_fields)]
pub enum AiWorkerCommand {
    /// Analyze the files and ask the model for three names for each.
    GenerateSuggestions {
        request_id: u64,
        api_key: String,
        model_id: String,
        paths: Vec<String>,
        user_prompt: Option<String>,
    },
    /// List the models OpenRouter offers.
    DiscoverModels { request_id: u64, api_key: Option<String> },
    /// Stop the worker.
    Shutdown,
}

/// How far a suggestion request has come.
#[derive(Debug, Clone, Copy, PartialEq, Eq, Structural)]
pub enum WorkerProgressStage {
    DiscoveringModels,
    AnalyzingFiles,
    Generating,
}

/// What the AI worker reports back.
#[derive(Debug, Clone)]
pub enum AiWorkerEvent {
    ProgressUpdate { request_id: u64, stage: WorkerProgressStage },
    ModelsDiscovered { request_id: u64, models: Vec<ModelListItem> },
    SuggestionsReady {
        request_id: u64,
        source_model: String,
        per_path_options: Vec<(String, [String; 3])>,
        warnings: Vec<String>,
        skipped_files: usize,
    },
    AiError { request_id: u64, message: String },
}

/// Work for the preview worker.
#[derive(Debug, Clone)]
pub enum PreviewWorkerCommand {
    GeneratePreview { request_id: u64, path: String },
    Shutdown,
}

/// What the preview worker reports back. A ready preview's image stays with the caller,
/// which draws it; the planner keeps its description.
#[derive(Debug, Clone)]
pub enum PreviewWorkerEvent {
    PreviewReady { request_id: u64, path: String, meta: PreviewSourceMeta },
    PreviewUnsupported { request_id: u64, path: String, reason: String },
    PreviewError { request_id: u64, path: String, message: String },
}


/// The answer to a model discovery: the models found, or the error.
pub fn models_event(request_id: u64, result: Result<Vec<ModelListItem>, String>) -> (e: AiWorkerEvent)
    ensures
        match result {
            Ok(models) => e == (AiWorkerEvent::ModelsDiscovered { request_id, models }),
            Err(message) => e == (AiWorkerEvent::AiError { request_id, message }),
        },
{
    match result {
        Ok(models) => AiWorkerEvent::ModelsDiscovered { request_id, models },
        Err(message) => AiWorkerEvent::AiError { request_id, message },
    }
}

/// The answer to a suggestion request: the names for each file with the model used, the
/// warnings and the files left out by the cap, or the error.
pub fn suggestions_event(
    request_id: u64,
    model_id: String,
    warnings: Vec<String>,
    skipped_files: usize,
    result: Result<Vec<(String, [String; 3])>, String>,
) -> (e: AiWorkerEvent)
    ensures
        match result {
            Ok(per_path_options) => e == (AiWorkerEvent::SuggestionsReady {
                request_id,
                source_model: model_id,
                per_path_options,
                warnings,
                skipped_files,
            }),
            Err(message) => e == (AiWorkerEvent::AiError { request_id, message }),
        },
{
    match result {
        Ok(per_path_options) => AiWorkerEvent::SuggestionsReady {
            request_id,
            source_model: model_id,
            per_path_options,
            warnings,
            skipped_files,
        },
        Err(message) => AiWorkerEvent::AiError { request_id, message },
    }
}

/// The answer to a preview request: ready, unsupported with the reason, or failed with the
/// message.
pub fn preview_event(request_id: u64, path: String, result: Result<PreviewBuildResult, String>) -> (e: PreviewWorkerEvent)
    ensures
        match result {
            Ok(PreviewBuildResult::Ready { meta }) => e == (PreviewWorkerEvent::PreviewReady { request_id, path, meta }),
            Ok(PreviewBuildResult::Unsupported { reason }) => e == (PreviewWorkerEvent::PreviewUnsupported { request_id, path, reason }),
            Err(message) => e == (PreviewWorkerEvent::PreviewError { request_id, path, message }),
        },
{
    match result {
        Ok(PreviewBuildResult::Ready { meta }) => PreviewWorkerEvent::PreviewReady { request_id, path, meta },
        Ok(PreviewBuildResult::Unsupported { reason }) => PreviewWorkerEvent::PreviewUnsupported { request_id, path, reason },
        Err(message) => PreviewWorkerEvent::PreviewError { request_id, path, message },
    }
}

/// One step of skipping to the newest queued preview request: a queued request replaces
/// the current one and the skipping goes on; a stop request, or an empty queue, ends it
/// (the stop request is used up). The request kept, and whether to look further.
pub fn drain_step(request_id: u64, path: String, next: Option<PreviewWorkerCommand>) -> (r: (u64, String, bool))
    ensures
        match next {
            Some(PreviewWorkerCommand::GeneratePreview { request_id: id, path: p }) => r == (id, p, true),
            _ => r == (request_id, path, false),
        },
{
    match next {
        Some(PreviewWorkerCommand::GeneratePreview { request_id: id, path: p }) => (id, p, true),
        _ => (request_id, path, false),
    }
}

} // verus!
