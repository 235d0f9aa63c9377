//! The history of submitted prompts: its picker overlay, recalling prompts into the
//! command line, and recording a new prompt.
use vstd::prelude::*;
use crate::io::IoRequest;
use crate::logs::{keep_last, sat_sub};
use crate::model::{FocusPane, InputMode, ToastLevel, string_views};
use crate::scrollbar::min_int;
use crate::state::{AppState, NamingState, PromptHistoryState, UiState};
use crate::strs::{trim, trim_str};
use crate::text::str_to_string;
use crate::io::same_text;
use crate::scope_ops::copy_strings;

verus! {

/// The most prompts kept.
pub const MAX_PROMPT_HISTORY_ENTRIES: usize = 200;

/// The picker's cursor and scroll once kept in range: the cursor on an entry, the scroll
/// showing the cursor and not past the last page.
pub open spec fn history_clamped(len: int, cursor: int, scroll: int, height: int) -> (int, int) {
    if len == 0 {
        (0, 0)
    } else {
        let c = min_int(cursor, len - 1);
        let vis = if height < 1 { 1 } else { height };
        let s = if c < scroll {
            c
        } else if c >= scroll + vis {
            c + 1 - vis
        } else {
            scroll
        };
        (c, min_int(s, sat_sub(len, vis)))
    }
}

/// `h` with its cursor and scroll clamped.
pub open spec fn history_in_range(h: PromptHistoryState, cursor: int) -> PromptHistoryState {
    let (c, s) = history_clamped(h.prompt_history@.len() as int, cursor, h.prompt_history_scroll as int, h.prompt_history_view_height as int);
    PromptHistoryState { prompt_history_cursor: c as usize, prompt_history_scroll: s as usize, ..h }
}

/// The prompt `offset` places back from the newest (the oldest one when it lies further).
pub open spec fn prompt_at_offset(h: Seq<String>, offset: int) -> Seq<char> {
    h[sat_sub(h.len() - 1, offset)]@
}

/// The texts of `s` other than `t`, in order.
pub open spec fn texts_without(s: Seq<Seq<char>>, t: Seq<char>) -> Seq<Seq<char>>
    decreases s.len(),
{
    if s.len() == 0 {
        Seq::empty()
    } else if s.last() == t {
        texts_without(s.drop_last(), t)
    } else {
        texts_without(s.drop_last(), t).push(s.last())
    }
}

/// The history after recording `p`: earlier copies of it dropped, it appended, and only the
/// newest entries kept.
pub open spec fn history_recorded(h: Seq<Seq<char>>, p: Seq<char>) -> Seq<Seq<char>> {
    keep_last(texts_without(h, p).push(p), MAX_PROMPT_HISTORY_ENTRIES as int)
}

/// The strings of `v` other than `t`.
fn strings_without(v: &Vec<String>, t: &String) -> (r: Vec<String>)
    ensures
        string_views(r@) == texts_without(string_views(v@), t@),
{
    let ghost sv = string_views(v@);
    let mut out: Vec<String> = Vec::new();
    let mut i: usize = 0;
    while i < v.len()
        invariant
            i <= v@.len(),
            sv == string_views(v@),
            string_views(out@) == texts_without(sv.take(i as int), t@),
        decreases v@.len() - i,
    {
        assert(sv.take(i + 1).drop_last() == sv.take(i as int));
        assert(sv.take(i + 1).last() == v@[i as int]@);
        if !same_text(&v[i], t) {
            let ghost pre = out@;
            out.push(v[i].clone());
            assert(string_views(out@) =~= string_views(pre).push(v@[i as int]@));
        }
        i += 1;
    }
    assert(sv.take(i as int) == sv);
    out
}

/// The last `n` strings of `v`, or all of them.
fn last_strings(v: Vec<String>, n: usize) -> (r: Vec<String>)
    ensures
        r@ == keep_last(v@, n as int),
{
    if v.len() <= n {
        return v;
    }
    let start = v.len() - n;
    let mut out: Vec<String> = Vec::new();
    let mut i: usize = start;
    while i < v.len()
        invariant
            start <= i <= v@.len(),
            start == v@.len() - n,
            out@ == v@.subrange(start as int, i as int),
        decreases v@.len() - i,
    {
        out.push(v[i].clone());
        assert(v@.subrange(start as int, i + 1) == v@.subrange(start as int, i as int).push(v@[i as int]));
        i += 1;
    }
    out
}

/// What opening or closing the prompt history does to `pre`, giving `post`.
pub open spec fn history_overlay_toggled(pre: AppState, post: AppState) -> bool {
    &&& (post.history.show_prompt_history_overlay == !pre.history.show_prompt_history_overlay)
    &&& (!pre.history.show_prompt_history_overlay ==> post == (AppState {
        ui: UiState { mode: InputMode::Normal, ..pre.ui },
        history: PromptHistoryState {
            show_prompt_history_overlay: true,
            prompt_history_cursor: 0,
            prompt_history_scroll: 0,
            ..pre.history
        },
        ..pre
    }))
    &&& (pre.history.show_prompt_history_overlay ==> post == (AppState {
        history: PromptHistoryState { show_prompt_history_overlay: false, ..pre.history },
        ..pre
    }))
}

/// What loading the prompt under the history cursor does to `pre`, giving `post`.
pub open spec fn history_entry_loaded(pre: AppState, post: AppState) -> bool {
    &&& ({
        let h = pre.history.prompt_history@;
        &&& h.len() == 0 ==> post.log.toasts@.last().level == ToastLevel::Warning
            && post.log.toasts@.last().message@ == "Prompt history is empty"@
            && post == (AppState { log: post.log, ..pre })
        &&& h.len() > 0 ==> {
            &&& post.naming.command_input@ == prompt_at_offset(h, pre.history.prompt_history_cursor as int)
            &&& !post.history.show_prompt_history_overlay
            &&& post.ui.focus == FocusPane::NamingCommand
            &&& post.ui.mode == InputMode::Command
            &&& post.naming.command_history_nav is None
            &&& post.naming.command_history_draft is None
            &&& post.log.toasts@.last().level == ToastLevel::Info
            &&& post.log.toasts@.last().message@ == "Loaded prompt from history"@
            &&& post == (AppState {
                ui: post.ui,
                naming: NamingState {
                    command_input: post.naming.command_input,
                    command_history_nav: None,
                    command_history_draft: None,
                    ..pre.naming
                },
                history: PromptHistoryState { show_prompt_history_overlay: false, ..pre.history },
                log: post.log,
                ..pre
            })
        }
    })
}

/// What moving the prompt history cursor up does to `pre`, giving `post`.
pub open spec fn history_cursor_up(pre: AppState, post: AppState) -> bool {
    &&& (post == (AppState {
        history: history_in_range(pre.history, sat_sub(pre.history.prompt_history_cursor as int, 1)),
        ..pre
    }))
}

/// What moving the prompt history cursor down does to `pre`, giving `post`.
pub open spec fn history_cursor_down(pre: AppState, post: AppState) -> bool {
    &&& (post == (AppState {
        history: history_in_range(pre.history, pre.history.prompt_history_cursor + 1),
        ..pre
    }))
}

/// What recalling the previous prompt into the command line does to `pre`, giving `post`.
pub open spec fn command_recalled_prev(pre: AppState, post: AppState) -> bool {
    &&& (pre.history.prompt_history@.len() == 0 ==> post == pre)
    &&& ({
        let h = pre.history.prompt_history@;
        let next: int = match pre.naming.command_history_nav {
            None => 0,
            Some(c) => min_int(c + 1, h.len() - 1),
        };
        h.len() > 0 ==> {
            &&& post.naming.command_history_nav == Some(next as usize)
            &&& post.naming.command_input@ == prompt_at_offset(h, next)
            &&& pre.naming.command_history_nav is None ==> post.naming.command_history_draft
                == Some(pre.naming.command_input)
            &&& pre.naming.command_history_nav is Some ==> post.naming.command_history_draft
                == pre.naming.command_history_draft
            &&& post == (AppState {
                naming: NamingState {
                    command_history_nav: post.naming.command_history_nav,
                    command_history_draft: post.naming.command_history_draft,
                    command_input: post.naming.command_input,
                    ..pre.naming
                },
                ..pre
            })
        }
    })
}

/// What recalling the next prompt into the command line does to `pre`, giving `post`.
pub open spec fn command_recalled_next(pre: AppState, post: AppState) -> bool {
    &&& ({
        let h = pre.history.prompt_history@;
        match pre.naming.command_history_nav {
            None => post == pre,
            Some(c) => if c == 0 {
                &&& post.naming.command_input@ == match pre.naming.command_history_draft {
                    Some(d) => d@,
                    None => Seq::<char>::empty(),
                }
                &&& post == (AppState {
                    naming: NamingState {
                        command_history_nav: None,
                        command_history_draft: None,
                        command_input: post.naming.command_input,
                        ..pre.naming
                    },
                    ..pre
                })
            } else {
                &&& h.len() > 0 ==> post.naming.command_input@ == prompt_at_offset(h, c - 1)
                &&& h.len() == 0 ==> post.naming.command_input == pre.naming.command_input
                &&& post == (AppState {
                    naming: NamingState {
                        command_history_nav: Some((c - 1) as usize),
                        command_input: post.naming.command_input,
                        ..pre.naming
                    },
                    ..pre
                })
            },
        }
    })
}

impl AppState {
    /// Keeps the picker's cursor and scroll in range, as `history_clamped` describes.
    fn clamp_prompt_history_scroll(&mut self)
        ensures
            *final(self) == (AppState {
                history: history_in_range(old(self).history, old(self).history.prompt_history_cursor as int),
                ..*old(self)
            }),
    {
        let len = self.history.prompt_history.len();
        if len == 0 {
            self.history.prompt_history_cursor = 0;
            self.history.prompt_history_scroll = 0;
            return;
        }
        let c = if self.history.prompt_history_cursor < len - 1 { self.history.prompt_history_cursor } else { len - 1 };
        self.history.prompt_history_cursor = c;
        let vis = if self.history.prompt_history_view_height < 1 { 1 } else { self.history.prompt_history_view_height };
        let max_start = if len > vis { len - vis } else { 0 };
        let scroll = self.history.prompt_history_scroll;
        let s = if c < scroll {
            c
        } else if c - scroll >= vis {
            c + 1 - vis
        } else {
            scroll
        };
        self.history.prompt_history_scroll = if s < max_start { s } else { max_start };
    }

    /// Shows or hides the prompt history picker; showing it stops typing and puts the
    /// cursor and scroll on the newest prompt.
    pub fn toggle_prompt_history_overlay(&mut self)
        ensures
            history_overlay_toggled(*old(self), *final(self)),
    {
        self.history.show_prompt_history_overlay = !self.history.show_prompt_history_overlay;
        if self.history.show_prompt_history_overlay {
            self.ui.mode = InputMode::Normal;
            self.history.prompt_history_cursor = 0;
            self.history.prompt_history_scroll = 0;
        }
    }

    /// Moves the picker's cursor one entry toward the newest prompt.
    pub fn prompt_history_move_up(&mut self)
        ensures
            history_cursor_up(*old(self), *final(self)),
    {
        if self.history.prompt_history_cursor > 0 {
            self.history.prompt_history_cursor = self.history.prompt_history_cursor - 1;
        }
        self.clamp_prompt_history_scroll();
    }

    /// Moves the picker's cursor one entry toward the oldest prompt, stopping at it.
    pub fn prompt_history_move_down(&mut self)
        ensures
            history_cursor_down(*old(self), *final(self)),
    {
        let len = self.history.prompt_history.len();
        if len == 0 {
            self.history.prompt_history_cursor = 0;
            self.history.prompt_history_scroll = 0;
            return;
        }
        if self.history.prompt_history_cursor < len - 1 {
            self.history.prompt_history_cursor = self.history.prompt_history_cursor + 1;
        } else {
            self.history.prompt_history_cursor = len - 1;
        }
        self.clamp_prompt_history_scroll();
    }

    /// Sets the picker's page height (at least one) and keeps the cursor in view.
    pub fn prompt_history_set_view_height(&mut self, height: usize)
        ensures
            ({
                let h = if height < 1 { 1 } else { height };
                *final(self) == (AppState {
                    history: history_in_range(
                        PromptHistoryState { prompt_history_view_height: h, ..old(self).history },
                        old(self).history.prompt_history_cursor as int,
                    ),
                    ..*old(self)
                })
            }),
    {
        self.history.prompt_history_view_height = if height < 1 { 1 } else { height };
        self.clamp_prompt_history_scroll();
    }

    /// Forgets where the command line stood in the history and the text typed before.
    pub fn reset_command_history_nav(&mut self)
        ensures
            *final(self) == (AppState {
                naming: NamingState { command_history_nav: None, command_history_draft: None, ..old(self).naming },
                ..*old(self)
            }),
    {
        self.naming.command_history_nav = None;
        self.naming.command_history_draft = None;
    }

    /// Recalls the next older prompt into the command line, keeping what was typed when
    /// the recall began. With no history nothing changes.
    pub fn command_history_prev(&mut self)
        ensures
            command_recalled_prev(*old(self), *final(self)),
    {
        let len = self.history.prompt_history.len();
        if len == 0 {
            return;
        }
        let max_offset = len - 1;
        let next = match self.naming.command_history_nav {
            None => {
                self.naming.command_history_draft = Some(self.naming.command_input.clone());
                0
            },
            Some(c) => if c < max_offset { c + 1 } else { max_offset },
        };
        self.naming.command_history_nav = Some(next);
        let idx = if max_offset > next { max_offset - next } else { 0 };
        self.naming.command_input = self.history.prompt_history[idx].clone();
    }

    /// Recalls the next newer prompt; past the newest, the text typed before the recall
    /// comes back. Without a recall in progress nothing changes.
    pub fn command_history_next(&mut self)
        ensures
            command_recalled_next(*old(self), *final(self)),
    {
        let c = match self.naming.command_history_nav {
            Some(c) => c,
            None => return,
        };
        if c == 0 {
            self.naming.command_history_nav = None;
            let draft = self.naming.command_history_draft.take();
            self.naming.command_input = match draft {
                Some(d) => d,
                None => String::new(),
            };
            return;
        }
        let next = c - 1;
        self.naming.command_history_nav = Some(next);
        let len = self.history.prompt_history.len();
        if len > 0 {
            let idx = if len - 1 > next { len - 1 - next } else { 0 };
            self.naming.command_input = self.history.prompt_history[idx].clone();
        }
    }

    /// Loads the prompt under the picker's cursor into the command line: the picker
    /// closes, the command line takes focus and typing, the recall is forgotten and a toast
    /// says so. With no history only a warning is shown.
    pub fn select_prompt_history_entry(&mut self)
        requires
            old(self).wf(),
        ensures
            final(self).wf(),
            history_entry_loaded(*old(self), *final(self)),
    {
        let len = self.history.prompt_history.len();
        if len == 0 {
            self.push_toast(ToastLevel::Warning, str_to_string("Prompt history is empty"));
            return;
        }
        let cur = self.history.prompt_history_cursor;
        let idx = if len - 1 > cur { len - 1 - cur } else { 0 };
        self.naming.command_input = self.history.prompt_history[idx].clone();
        self.history.show_prompt_history_overlay = false;
        self.set_focus(FocusPane::NamingCommand);
        self.ui.mode = InputMode::Command;
        self.reset_command_history_nav();
        self.push_toast(ToastLevel::Info, str_to_string("Loaded prompt from history"));
    }

    /// The picker's page: for each shown row its number from the newest prompt and the
    /// prompt, starting at the scroll (kept within the last page).
    pub fn visible_prompt_history_items(&self) -> (r: Vec<(usize, String)>)
        ensures
            ({
                let h = self.history.prompt_history@;
                let vis = if self.history.prompt_history_view_height < 1 { 1 } else { self.history.prompt_history_view_height as int };
                let start = min_int(self.history.prompt_history_scroll as int, sat_sub(h.len() as int, vis));
                let end = min_int(start + vis, h.len() as int);
                &&& r@.len() == end - start
                &&& forall|k: int|
                    0 <= k < r@.len() ==> (#[trigger] r@[k]).0 == start + k && r@[k].1@ == h[h.len() - 1 - (start + k)]@
            }),
    {
        let len = self.history.prompt_history.len();
        let vis = if self.history.prompt_history_view_height < 1 { 1 } else { self.history.prompt_history_view_height };
        let max_start = if len > vis { len - vis } else { 0 };
        let start = if self.history.prompt_history_scroll < max_start { self.history.prompt_history_scroll } else { max_start };
        let end = if vis >= len - start { len } else { start + vis };
        let mut out: Vec<(usize, String)> = Vec::new();
        let mut d: usize = start;
        while d < end
            invariant
                start <= d <= end <= len,
                len == self.history.prompt_history@.len(),
                out@.len() == d - start,
                forall|k: int|
                    0 <= k < out@.len() ==> (#[trigger] out@[k]).0 == start + k
                        && out@[k].1@ == self.history.prompt_history@[len - 1 - (start + k)]@,
            decreases end - d,
        {
            out.push((d, self.history.prompt_history[len - 1 - d].clone()));
            d += 1;
        }
        out
    }

    /// Records a submitted prompt: trimmed, earlier copies dropped, appended as the newest,
    /// only the newest two hundred kept; the history is sent to be written and the picker
    /// kept in range. An empty prompt changes nothing.
    pub fn push_prompt_history(&mut self, prompt: &str)
        ensures
            trim(prompt@).len() == 0 ==> *final(self) == *old(self),
            trim(prompt@).len() > 0 ==> {
                let h = history_recorded(string_views(old(self).history.prompt_history@), trim(prompt@));
                &&& string_views(final(self).history.prompt_history@) == h
                &&& final(self).io_outbox@.len() == old(self).io_outbox@.len() + 1
                &&& final(self).io_outbox@.drop_last() == old(self).io_outbox@
                &&& final(self).io_outbox@.last() matches IoRequest::SavePromptHistory(v) && string_views(v@) == h
                &&& *final(self) == (AppState {
                    history: history_in_range(
                        PromptHistoryState { prompt_history: final(self).history.prompt_history, ..old(self).history },
                        old(self).history.prompt_history_cursor as int,
                    ),
                    io_outbox: final(self).io_outbox,
                    ..*old(self)
                })
            },
    {
        let p = trim_str(prompt);
        if p.as_str().is_empty() {
            return;
        }
        let mut kept = strings_without(&self.history.prompt_history, &p);
        let ghost without = kept@;
        kept.push(p);
        proof {
            assert(string_views(kept@) =~= string_views(without).push(trim(prompt@)));
        }
        let kept = last_strings(kept, MAX_PROMPT_HISTORY_ENTRIES);
        proof {
            let ghost sv = string_views(kept@);
            assert(sv =~= history_recorded(string_views(old(self).history.prompt_history@), trim(prompt@)));
        }
        self.history.prompt_history = kept;
        self.io_outbox.push(IoRequest::SavePromptHistory(copy_strings(&self.history.prompt_history)));
        self.clamp_prompt_history_scroll();
    }
}

impl AppState {
    /// Submits the typed instruction: typing stops, the command line and its recall are
    /// cleared, the trimmed instruction is recorded in the history and suggestions are
    /// asked for with it. An empty instruction only brings a warning.
    pub fn apply_command_input(&mut self)
        ensures
            ({
                let cmd = trim(old(self).naming.command_input@);
                &&& final(self).ui.mode == InputMode::Normal
                &&& final(self).naming.command_input@.len() == 0
                &&& final(self).naming.command_history_nav is None
                &&& final(self).naming.command_history_draft is None
                &&& cmd.len() == 0 ==> final(self).log.toasts@.last().level == ToastLevel::Warning
                    && final(self).log.toasts@.last().message@ == "Prompt is empty. Enter a naming instruction and submit."@
                    && *final(self) == (AppState {
                    ui: UiState { mode: InputMode::Normal, ..old(self).ui },
                    naming: NamingState {
                        command_input: final(self).naming.command_input,
                        command_history_nav: None,
                        command_history_draft: None,
                        ..old(self).naming
                    },
                    log: final(self).log,
                    ..*old(self)
                })
                &&& cmd.len() > 0 ==> {
                    &&& string_views(final(self).history.prompt_history@) == history_recorded(
                        string_views(old(self).history.prompt_history@),
                        cmd,
                    )
                    &&& (final(self).io_outbox@.last() matches IoRequest::SavePromptHistory(v) && string_views(v@)
                        == string_views(final(self).history.prompt_history@))
                    &&& crate::ai_ops::has_minimum_config(old(self).ai.ai_settings) && old(self).naming.rename_rows@.len() > 0
                        && old(self).ai.ai_worker_available ==> (final(self).ai.ai_outbox@.last() matches crate::workers::AiWorkerCommand::GenerateSuggestions {
                        request_id,
                        user_prompt: Some(p),
                        ..
                    } && request_id == old(self).ai.ai_next_request_id && p@ == cmd)
                    &&& final(self).naming.rename_rows == old(self).naming.rename_rows
                }
                &&& final(self).naming == (NamingState {
                    command_input: final(self).naming.command_input,
                    command_history_nav: None,
                    command_history_draft: None,
                    ..old(self).naming
                })
                &&& *final(self) == (AppState {
                    ui: UiState { mode: InputMode::Normal, ..old(self).ui },
                    naming: final(self).naming,
                    history: final(self).history,
                    log: final(self).log,
                    ai: final(self).ai,
                    io_outbox: final(self).io_outbox,
                    ..*old(self)
                })
            }),
    {
        let command = trim_str(self.naming.command_input.as_str());
        self.reset_command_history_nav();
        self.naming.command_input = String::new();
        self.ui.mode = InputMode::Normal;
        if command.as_str().is_empty() {
            self.push_toast(ToastLevel::Warning, str_to_string("Prompt is empty. Enter a naming instruction and submit."));
            return;
        }
        self.push_prompt_history(command.as_str());
        proof {
            crate::strs::lemma_trim_idempotent(old(self).naming.command_input@);
        }
        self.trigger_naming_suggestions_refresh_with_prompt(Some(command));
    }
}

/// The prompts of a loaded history: each trimmed, the empty ones dropped.
pub open spec fn cleaned_prompts(entries: Seq<Seq<char>>) -> Seq<Seq<char>>
    decreases entries.len(),
{
    if entries.len() == 0 {
        Seq::empty()
    } else if trim(entries.last()).len() > 0 {
        cleaned_prompts(entries.drop_last()).push(trim(entries.last()))
    } else {
        cleaned_prompts(entries.drop_last())
    }
}

/// Trims every loaded prompt and drops the empty ones.
pub fn clean_prompt_history(entries: &Vec<String>) -> (r: Vec<String>)
    ensures
        string_views(r@) == cleaned_prompts(string_views(entries@)),
{
    let ghost sv = string_views(entries@);
    let mut out: Vec<String> = Vec::new();
    let mut i: usize = 0;
    while i < entries.len()
        invariant
            i <= entries@.len(),
            sv == string_views(entries@),
            string_views(out@) == cleaned_prompts(sv.take(i as int)),
        decreases entries@.len() - i,
    {
        assert(sv.take(i + 1).drop_last() == sv.take(i as int));
        assert(sv.take(i + 1).last() == entries@[i as int]@);
        let t = trim_str(entries[i].as_str());
        if !t.as_str().is_empty() {
            let ghost pre = out@;
            out.push(t);
            assert(string_views(out@) =~= string_views(pre).push(trim(entries@[i as int]@)));
        }
        i += 1;
    }
    assert(sv.take(i as int) == sv);
    out
}


/// What `serde_json::from_str::<Vec<String>>` gives for a text: the strings of a JSON
/// array of strings, or the error's message.
pub uninterp spec fn json_string_list(raw: Seq<char>) -> Result<Seq<Seq<char>>, Seq<char>>;

/// Wraps `serde_json::from_str::<Vec<String>>`: the strings, or the error's message; the
/// result is named by `json_string_list` and nothing more is claimed.
#[verifier::external_body]
fn parse_json_string_list(raw: &str) -> (r: Result<Vec<String>, String>)
    ensures
        (match r {
            Ok(v) => Ok(string_views(v@)),
            Err(e) => Err(e@),
        }) == json_string_list(raw@),
{
    serde_json::from_str::<Vec<String>>(raw).map_err(|e| e.to_string())
}

/// The prompt history read from the text of its file (at `path`): the prompts, each
/// trimmed and the empty ones dropped, or a message naming the file when the text is not a
/// JSON array of strings.
pub fn prompt_history_from_json(raw: &str, path: &str) -> (r: Result<Vec<String>, String>)
    ensures
        match json_string_list(raw@) {
            Ok(v) => r matches Ok(h) && string_views(h@) == cleaned_prompts(v),
            Err(e) => r matches Err(m) && m@ == "Could not parse prompt history "@ + path@ + ": "@ + e,
        },
{
    match parse_json_string_list(raw) {
        Ok(v) => Ok(clean_prompt_history(&v)),
        Err(e) => {
            let m = crate::logs::concat("Could not parse prompt history ", path);
            let m = crate::logs::concat(m.as_str(), ": ");
            let m = crate::logs::concat(m.as_str(), e.as_str());
            Err(m)
        },
    }
}

} // verus!
