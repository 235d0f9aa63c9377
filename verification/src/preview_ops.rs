//! The preview pane: which file it shows, the requests sent to the preview worker, and
//! what the worker's answers change. The image itself is drawn by the caller.
use vstd::prelude::*;
use crate::logs::{concat, keep_last, log_line, MAX_LOG_LINES};
use crate::model::{FilesPreviewStatus, ScopeTab, Stage, string_views};
use crate::preview::{PreviewKind, PreviewSourceMeta};
use crate::scope::scope_rows;
use crate::scrollbar::min_int;
use crate::state::{AppState, LogState, PreviewState};
use crate::text::str_to_string;
use crate::io::same_text;
use crate::workers::{PreviewWorkerCommand, PreviewWorkerEvent};

verus! {

/// The pane with nothing requested: the given status, no target, error, description or
/// active request.
pub open spec fn preview_reset(p: PreviewState, status: FilesPreviewStatus) -> PreviewState {
    PreviewState { status, target: None, error: None, source_meta: None, active_request_id: None, ..p }
}

/// The description of a file that cannot be previewed.
pub open spec fn unsupported_meta() -> PreviewSourceMeta {
    PreviewSourceMeta { kind: PreviewKind::Unsupported, width: 0, height: 0, pdf_page: None }
}

/// Whether the pane already stands for `path`: it targets it and is loading or has an
/// outcome.
pub open spec fn preview_settled_on(p: PreviewState, path: Seq<char>) -> bool {
    &&& p.target matches Some(t) && t@ == path
    &&& (p.status == FilesPreviewStatus::Loading || p.status == FilesPreviewStatus::Ready
        || p.status == FilesPreviewStatus::Unsupported || p.status == FilesPreviewStatus::Error)
}

/// The pane after asking for a preview of `path` under request number `id`: loading it,
/// or an error when no worker runs; `sent` holds the request sent.
pub open spec fn preview_requested(p: PreviewState, path: Seq<char>, id: u64, after: PreviewState) -> bool {
    let next: u64 = if id < u64::MAX { (id + 1) as u64 } else { id };
    &&& id == p.next_request_id
    &&& after.target matches Some(t) && t@ == path
    &&& after.active_request_id == Some(id)
    &&& after.source_meta is None
    &&& p.worker_available ==> {
        &&& after.status == FilesPreviewStatus::Loading
        &&& after.error is None
        &&& after.outbox@.drop_last() == p.outbox@
        &&& after.outbox@.len() == p.outbox@.len() + 1
        &&& (after.outbox@.last() matches PreviewWorkerCommand::GeneratePreview { request_id, path: q } && request_id == id
            && q@ == path)
    }
    &&& !p.worker_available ==> {
        &&& after.status == FilesPreviewStatus::Error
        &&& (after.error matches Some(e) && e@ == "Preview worker is not available"@)
        &&& after.outbox == p.outbox
    }
    &&& after == (PreviewState {
        next_request_id: next,
        target: after.target,
        active_request_id: Some(id),
        status: after.status,
        error: after.error,
        source_meta: None,
        outbox: after.outbox,
        ..p
    })
}

/// The file the pane should show: in the Files tab the file under the cursor (`None` for
/// a folder is told apart by the caller), in the naming stage the row under the cursor (the
/// last row when it lies beyond), elsewhere nothing.
pub open spec fn naming_preview_path(app: AppState) -> Option<Seq<char>> {
    let rows = app.naming.rename_rows@;
    if rows.len() == 0 {
        None
    } else {
        Some(rows[min_int(app.naming.rename_cursor as int, rows.len() - 1)].path@)
    }
}

/// What showing or hiding the preview does to `pre`, giving `post`.
pub open spec fn preview_toggled(pre: AppState, post: AppState) -> bool {
    &&& (!pre.preview.visible ==> post == (AppState {
        preview: PreviewState {
            visible: true,
            status: FilesPreviewStatus::Empty,
            target: None,
            error: None,
            source_meta: None,
            ..pre.preview
        },
        ..pre
    }))
    &&& (pre.preview.visible ==> post == (AppState {
        preview: PreviewState { visible: false, ..preview_reset(pre.preview, FilesPreviewStatus::Hidden) },
        ..pre
    }))
}

impl AppState {
    /// Hands out the next preview request number; the counter stops at the largest number.
    pub fn next_files_preview_request_id(&mut self) -> (id: u64)
        ensures
            id == old(self).preview.next_request_id,
            *final(self) == (AppState {
                preview: PreviewState {
                    next_request_id: if id < u64::MAX { (id + 1) as u64 } else { id },
                    ..old(self).preview
                },
                ..*old(self)
            }),
    {
        let id = self.preview.next_request_id;
        self.preview.next_request_id = if id < u64::MAX { id + 1 } else { id };
        id
    }

    /// Shows or hides the preview pane; either way it starts empty, and hiding it drops
    /// the active request.
    pub fn toggle_files_preview(&mut self)
        ensures
            preview_toggled(*old(self), *final(self)),
    {
        self.preview.visible = !self.preview.visible;
        self.preview.target = None;
        self.preview.error = None;
        self.preview.source_meta = None;
        if self.preview.visible {
            self.preview.status = FilesPreviewStatus::Empty;
        } else {
            self.preview.status = FilesPreviewStatus::Hidden;
            self.preview.active_request_id = None;
        }
    }

    /// Asks the preview worker for a preview of `path` under a new request number; without
    /// a worker the pane shows an error.
    pub fn request_files_preview_for_path(&mut self, path: String)
        ensures
            preview_requested(old(self).preview, path@, old(self).preview.next_request_id, final(self).preview),
            *final(self) == (AppState { preview: final(self).preview, ..*old(self) }),
    {
        let id = self.next_files_preview_request_id();
        self.preview.target = Some(path.clone());
        self.preview.active_request_id = Some(id);
        self.preview.status = FilesPreviewStatus::Loading;
        self.preview.error = None;
        self.preview.source_meta = None;
        if self.preview.worker_available {
            let ghost before = self.preview.outbox@;
            self.preview.outbox.push(PreviewWorkerCommand::GeneratePreview { request_id: id, path });
            assert(self.preview.outbox@.drop_last() =~= before);
        } else {
            self.preview.status = FilesPreviewStatus::Error;
            self.preview.error = Some(str_to_string("Preview worker is not available"));
        }
    }

    /// Points the visible preview pane at what has focus: in the Files tab the entry under
    /// the cursor (a folder is reported as unsupported), in the naming stage the row under
    /// the cursor, elsewhere nothing. A file the pane already stands for is not asked for
    /// again. A hidden pane changes nothing.
    pub fn sync_files_preview_with_focus(&mut self)
        requires
            old(self).files.tree.wf(),
        ensures
            ({
                let o = old(self).preview;
                let rows = scope_rows(*old(self));
                let in_files = old(self).ui.stage == Stage::Scope && old(self).ui.scope_tab == ScopeTab::Files;
                &&& !o.visible ==> *final(self) == *old(self)
                &&& o.visible && in_files && rows.len() == 0 ==> final(self).preview == preview_reset(o, FilesPreviewStatus::Empty)
                &&& o.visible && in_files && rows.len() > 0 ==> {
                    let node = old(self).files.tree.nodes@[rows[min_int(old(self).files.tree.cursor as int, rows.len() - 1)].node_id as int];
                    &&& node.is_dir ==> {
                        &&& final(self).preview.target matches Some(t) && t@ == node.path@
                        &&& final(self).preview.error matches Some(e) && e@ == "Folder preview is not supported"@
                        &&& final(self).preview == (PreviewState {
                            status: FilesPreviewStatus::Unsupported,
                            target: final(self).preview.target,
                            error: final(self).preview.error,
                            source_meta: Some(unsupported_meta()),
                            active_request_id: None,
                            ..o
                        })
                    }
                    &&& !node.is_dir && preview_settled_on(o, node.path@) ==> final(self).preview == o
                    &&& !node.is_dir && !preview_settled_on(o, node.path@) ==> preview_requested(
                        o,
                        node.path@,
                        o.next_request_id,
                        final(self).preview,
                    )
                }
                &&& o.visible && !in_files && old(self).ui.stage == Stage::Naming ==> match naming_preview_path(*old(self)) {
                    None => final(self).preview == preview_reset(o, FilesPreviewStatus::Empty),
                    Some(p) => if preview_settled_on(o, p) {
                        final(self).preview == o
                    } else {
                        preview_requested(o, p, o.next_request_id, final(self).preview)
                    },
                }
                &&& o.visible && !in_files && old(self).ui.stage != Stage::Naming ==> final(self).preview == preview_reset(
                    o,
                    FilesPreviewStatus::Empty,
                )
                &&& *final(self) == (AppState { preview: final(self).preview, ..*old(self) })
            }),
    {
        if !self.preview.visible {
            return;
        }
        if self.ui.stage == Stage::Scope && self.ui.scope_tab == ScopeTab::Files {
            let node_id = match self.current_scope_file_node_id() {
                Some(n) => n,
                None => {
                    self.clear_preview(FilesPreviewStatus::Empty);
                    return;
                },
            };
            if self.files.tree.nodes[node_id].is_dir {
                self.preview.status = FilesPreviewStatus::Unsupported;
                self.preview.target = Some(self.files.tree.nodes[node_id].path.clone());
                self.preview.error = Some(str_to_string("Folder preview is not supported"));
                self.preview.source_meta = Some(PreviewSourceMeta { kind: PreviewKind::Unsupported, width: 0, height: 0, pdf_page: None });
                self.preview.active_request_id = None;
                return;
            }
            let path = self.files.tree.nodes[node_id].path.clone();
            if self.preview_settled(&path) {
                return;
            }
            self.request_files_preview_for_path(path);
            return;
        }
        if self.ui.stage == Stage::Naming {
            let n = self.naming.rename_rows.len();
            if n == 0 {
                self.clear_preview(FilesPreviewStatus::Empty);
                return;
            }
            let r = if self.naming.rename_cursor < n - 1 { self.naming.rename_cursor } else { n - 1 };
            let path = self.naming.rename_rows[r].path.clone();
            if self.preview_settled(&path) {
                return;
            }
            self.request_files_preview_for_path(path);
            return;
        }
        self.clear_preview(FilesPreviewStatus::Empty);
    }

    /// Empties the pane under the given status.
    fn clear_preview(&mut self, status: FilesPreviewStatus)
        ensures
            *final(self) == (AppState { preview: preview_reset(old(self).preview, status), ..*old(self) }),
    {
        self.preview.status = status;
        self.preview.target = None;
        self.preview.error = None;
        self.preview.source_meta = None;
        self.preview.active_request_id = None;
    }

    /// Whether the pane already stands for `path`.
    fn preview_settled(&self, path: &String) -> (r: bool)
        ensures
            r == preview_settled_on(self.preview, path@),
    {
        let same = match &self.preview.target {
            Some(t) => same_text(t, path),
            None => false,
        };
        same && (self.preview.status == FilesPreviewStatus::Loading || self.preview.status == FilesPreviewStatus::Ready
            || self.preview.status == FilesPreviewStatus::Unsupported || self.preview.status == FilesPreviewStatus::Error)
    }
}


/// Whether an answer is for the active request and the file the pane targets.
pub open spec fn answers_active(p: PreviewState, request_id: u64, path: Seq<char>) -> bool {
    p.active_request_id == Some(request_id) && (p.target matches Some(t) && t@ == path)
}

impl AppState {
    /// Takes in an answer of the preview worker; answers for another request or file are
    /// dropped. A ready preview is described and marked ready, and `true` tells the caller
    /// to draw its image; an unsupported file is reported with the reason; a failure is
    /// logged and shown.
    pub fn handle_files_preview_event(&mut self, event: PreviewWorkerEvent) -> (ready: bool)
        ensures
            ({
                let o = old(self).preview;
                match event {
                    PreviewWorkerEvent::PreviewReady { request_id, path, meta } => if answers_active(o, request_id, path@) {
                        &&& ready
                        &&& *final(self) == (AppState {
                            preview: PreviewState {
                                source_meta: Some(meta),
                                status: FilesPreviewStatus::Ready,
                                error: None,
                                ..o
                            },
                            ..*old(self)
                        })
                    } else {
                        !ready && *final(self) == *old(self)
                    },
                    PreviewWorkerEvent::PreviewUnsupported { request_id, path, reason } => if answers_active(o, request_id, path@) {
                        &&& !ready
                        &&& *final(self) == (AppState {
                            preview: PreviewState {
                                source_meta: Some(unsupported_meta()),
                                status: FilesPreviewStatus::Unsupported,
                                error: Some(reason),
                                ..o
                            },
                            ..*old(self)
                        })
                    } else {
                        !ready && *final(self) == *old(self)
                    },
                    PreviewWorkerEvent::PreviewError { request_id, path, message } => if answers_active(o, request_id, path@) {
                        &&& !ready
                        &&& exists|ts: u64|
                            string_views(final(self).log.logs@) == keep_last(
                                string_views(old(self).log.logs@).push(
                                    #[trigger] log_line(ts, "WARN"@, "Preview failed for "@ + path@ + ": "@ + message@),
                                ),
                                MAX_LOG_LINES as int,
                            )
                        &&& *final(self) == (AppState {
                            preview: PreviewState {
                                source_meta: None,
                                status: FilesPreviewStatus::Error,
                                error: Some(message),
                                ..o
                            },
                            log: final(self).log,
                            ..*old(self)
                        })
                    } else {
                        !ready && *final(self) == *old(self)
                    },
                }
            }),
    {
        match event {
            PreviewWorkerEvent::PreviewReady { request_id, path, meta } => {
                if !self.answers_active_request(request_id, &path) {
                    return false;
                }
                self.preview.source_meta = Some(meta);
                self.preview.status = FilesPreviewStatus::Ready;
                self.preview.error = None;
                true
            },
            PreviewWorkerEvent::PreviewUnsupported { request_id, path, reason } => {
                if !self.answers_active_request(request_id, &path) {
                    return false;
                }
                self.preview.source_meta = Some(PreviewSourceMeta { kind: PreviewKind::Unsupported, width: 0, height: 0, pdf_page: None });
                self.preview.status = FilesPreviewStatus::Unsupported;
                self.preview.error = Some(reason);
                false
            },
            PreviewWorkerEvent::PreviewError { request_id, path, message } => {
                if !self.answers_active_request(request_id, &path) {
                    return false;
                }
                let msg = concat("Preview failed for ", path.as_str());
                let msg = concat(msg.as_str(), ": ");
                let msg = concat(msg.as_str(), message.as_str());
                proof {
                    reveal_strlit("WARN");
                }
                self.append_log("WARN", msg.as_str());
                self.preview.source_meta = None;
                self.preview.status = FilesPreviewStatus::Error;
                self.preview.error = Some(message);
                false
            },
        }
    }

    /// Whether an answer is for the active request and the targeted file.
    fn answers_active_request(&self, request_id: u64, path: &String) -> (r: bool)
        ensures
            r == answers_active(self.preview, request_id, path@),
    {
        if self.preview.active_request_id != Some(request_id) {
            return false;
        }
        match &self.preview.target {
            Some(t) => same_text(t, path),
            None => false,
        }
    }

    /// The caller could not draw a ready preview: the pane shows an error.
    pub fn preview_display_failed(&mut self)
        ensures
            final(self).preview.error matches Some(e) && e@ == "Could not initialize terminal image preview"@,
            *final(self) == (AppState {
                preview: PreviewState { status: FilesPreviewStatus::Error, error: final(self).preview.error, ..old(self).preview },
                ..*old(self)
            }),
    {
        self.preview.status = FilesPreviewStatus::Error;
        self.preview.error = Some(str_to_string("Could not initialize terminal image preview"));
    }

    /// The preview worker stopped: a visible pane shows an error.
    pub fn preview_worker_disconnected(&mut self)
        ensures
            !old(self).preview.visible ==> *final(self) == *old(self),
            old(self).preview.visible ==> (final(self).preview.error matches Some(e) && e@ == "Preview worker disconnected"@)
                && *final(self) == (AppState {
                preview: PreviewState { status: FilesPreviewStatus::Error, error: final(self).preview.error, ..old(self).preview },
                ..*old(self)
            }),
    {
        if self.preview.visible {
            self.preview.status = FilesPreviewStatus::Error;
            self.preview.error = Some(str_to_string("Preview worker disconnected"));
        }
    }

    /// The AI worker stopped: the status turns to an error.
    pub fn ai_worker_disconnected(&mut self)
        ensures
            final(self).ai.naming_ai_error matches Some(e) && e@ == "AI worker disconnected"@,
            *final(self) == (AppState {
                ai: crate::state::AiState {
                    naming_ai_status: crate::model::NamingAiStatus::Error,
                    naming_ai_error: final(self).ai.naming_ai_error,
                    ..old(self).ai
                },
                ..*old(self)
            }),
    {
        self.ai.naming_ai_status = crate::model::NamingAiStatus::Error;
        self.ai.naming_ai_error = Some(str_to_string("AI worker disconnected"));
    }
}

} // verus!
