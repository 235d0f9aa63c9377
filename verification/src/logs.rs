//! Notifications, the log, and the log overlay's scrolling.
use vstd::prelude::*;
use crate::clock::now_unix_seconds;
use crate::io::IoRequest;
use crate::model::{Toast, ToastLevel, string_views};
use crate::scrollbar::min_int;
use crate::state::{AppState, LogState};
use crate::text::{char_count, push_str, spec_decimal, str_to_string, u64_to_decimal};

verus! {

/// The most log lines kept.
pub const MAX_LOG_LINES: usize = 1000;

/// The most toasts kept.
pub const MAX_TOASTS: usize = 4;

/// How many ticks a new toast stays.
pub const TOAST_TICKS: u16 = 45;

/// Text made of two pieces.
pub fn concat(a: &str, b: &str) -> (r: String)
    ensures
        r@ == a@ + b@,
{
    let mut s = str_to_string(a);
    push_str(&mut s, b);
    s
}

/// The last `n` elements of a sequence (all of it when it is shorter).
pub open spec fn keep_last<T>(s: Seq<T>, n: int) -> Seq<T> {
    if s.len() > n {
        s.subrange(s.len() - n, s.len() as int)
    } else {
        s
    }
}

/// A log line: the Unix time in brackets, the level and the message.
pub open spec fn log_line(ts: u64, level: Seq<char>, message: Seq<char>) -> Seq<char> {
    "["@ + spec_decimal(ts) + "] "@ + level + ": "@ + message
}

/// Each (level, message) pair of `lines` as a log line with the time of the same position
/// in `stamps`.
pub open spec fn stamped(lines: Seq<(Seq<char>, Seq<char>)>, stamps: Seq<u64>) -> Seq<Seq<char>> {
    Seq::new(lines.len(), |i: int| log_line(stamps[i], lines[i].0, lines[i].1))
}

/// `after` is the log `before` with `lines` appended in order, each at some time, and only
/// the last thousand lines kept.
pub open spec fn logged(before: Seq<Seq<char>>, after: Seq<Seq<char>>, lines: Seq<(Seq<char>, Seq<char>)>) -> bool {
    exists|stamps: Seq<u64>|
        stamps.len() == lines.len() && after == keep_last(before + #[trigger] stamped(lines, stamps), MAX_LOG_LINES as int)
}

/// Keeping the last `n` twice is keeping the last `n` once.
pub proof fn lemma_keep_last_push<T>(s: Seq<T>, x: T, n: int)
    requires
        n >= 1,
    ensures
        keep_last(keep_last(s, n).push(x), n) == keep_last(s.push(x), n),
{
    assert(keep_last(keep_last(s, n).push(x), n) =~= keep_last(s.push(x), n));
}

/// A first appended line starts the account of what was appended.
pub proof fn lemma_logged_first(before: Seq<Seq<char>>, after: Seq<Seq<char>>, ts: u64, level: Seq<char>, message: Seq<char>)
    requires
        after == keep_last(before.push(log_line(ts, level, message)), MAX_LOG_LINES as int),
    ensures
        logged(before, after, seq![(level, message)]),
{
    let st = seq![ts];
    assert(before + stamped(seq![(level, message)], st) =~= before.push(log_line(ts, level, message)));
}

/// Appending one more line extends the account of what was appended.
pub proof fn lemma_logged_push(
    before: Seq<Seq<char>>,
    mid: Seq<Seq<char>>,
    after: Seq<Seq<char>>,
    lines: Seq<(Seq<char>, Seq<char>)>,
    ts: u64,
    level: Seq<char>,
    message: Seq<char>,
)
    requires
        logged(before, mid, lines),
        after == keep_last(mid.push(log_line(ts, level, message)), MAX_LOG_LINES as int),
    ensures
        logged(before, after, lines.push((level, message))),
{
    let stamps = choose|stamps: Seq<u64>|
        stamps.len() == lines.len() && mid == keep_last(before + #[trigger] stamped(lines, stamps), MAX_LOG_LINES as int);
    let st = stamps.push(ts);
    let l2 = lines.push((level, message));
    assert(before + stamped(l2, st) =~= (before + stamped(lines, stamps)).push(log_line(ts, level, message)));
    lemma_keep_last_push(before + stamped(lines, stamps), log_line(ts, level, message), MAX_LOG_LINES as int);
    assert(after == keep_last(before + stamped(l2, st), MAX_LOG_LINES as int));
}

/// The label a toast level is logged under.
pub open spec fn level_label(level: ToastLevel) -> Seq<char> {
    match level {
        ToastLevel::Info => "INFO"@,
        ToastLevel::Success => "SUCCESS"@,
        ToastLevel::Warning => "WARN"@,
        ToastLevel::Error => "ERROR"@,
    }
}

/// The longest line's length in characters.
pub open spec fn longest_line(lines: Seq<String>) -> int
    decreases lines.len(),
{
    if lines.len() == 0 {
        0
    } else {
        let rest = longest_line(lines.drop_last());
        let l = lines.last()@.len() as int;
        if l > rest {
            l
        } else {
            rest
        }
    }
}

/// At least one.
pub open spec fn at_least_one(n: int) -> int {
    if n < 1 {
        1
    } else {
        n
    }
}

/// `a - b`, or zero when `b` is larger.
pub open spec fn sat_sub(a: int, b: int) -> int {
    if a > b {
        a - b
    } else {
        0
    }
}

/// The first log row that the bottom of the overlay can show.
pub open spec fn max_log_row(l: LogState) -> int {
    sat_sub(l.logs@.len() as int, at_least_one(l.log_view_height as int))
}

/// The furthest the overlay can scroll right.
pub open spec fn max_log_col(l: LogState) -> int {
    sat_sub(longest_line(l.logs@), at_least_one(l.log_view_width as int))
}

/// The log state with both scroll positions pulled back inside their ranges.
pub open spec fn clamped_log(l: LogState) -> LogState {
    LogState {
        log_scroll: min_int(l.log_scroll as int, max_log_row(l)) as usize,
        log_col_scroll: min_int(l.log_col_scroll as int, max_log_col(l)) as usize,
        ..l
    }
}

/// The toasts after one tick: each loses a tick, and those with none left go.
pub open spec fn toasts_after_tick(t: Seq<Toast>) -> Seq<Toast>
    decreases t.len(),
{
    if t.len() == 0 {
        seq![]
    } else {
        let rest = toasts_after_tick(t.drop_last());
        let last = t.last();
        if last.ttl_ticks > 1 {
            rest.push(Toast { ttl_ticks: (last.ttl_ticks - 1) as u16, ..last })
        } else {
            rest
        }
    }
}

impl AppState {
    fn max_log_row_start(&self) -> (r: usize)
        ensures
            r == max_log_row(self.log),
    {
        let h = if self.log.log_view_height < 1 {
            1
        } else {
            self.log.log_view_height
        };
        if self.log.logs.len() > h {
            self.log.logs.len() - h
        } else {
            0
        }
    }

    fn max_log_col_start(&self) -> (r: usize)
        ensures
            r == max_log_col(self.log),
    {
        let mut longest: usize = 0;
        let mut i: usize = 0;
        while i < self.log.logs.len()
            invariant
                i <= self.log.logs@.len(),
                longest == longest_line(self.log.logs@.take(i as int)),
            decreases self.log.logs@.len() - i,
        {
            let n = char_count(self.log.logs[i].as_str());
            assert(self.log.logs@.take(i + 1).drop_last() == self.log.logs@.take(i as int));
            if n > longest {
                longest = n;
            }
            i += 1;
        }
        assert(self.log.logs@.take(i as int) == self.log.logs@);
        let w = if self.log.log_view_width < 1 {
            1
        } else {
            self.log.log_view_width
        };
        if longest > w {
            longest - w
        } else {
            0
        }
    }

    fn clamp_log_scroll_bounds(&mut self)
        ensures
            *final(self) == (AppState { log: clamped_log(old(self).log), ..*old(self) }),
    {
        let row = self.max_log_row_start();
        let col = self.max_log_col_start();
        if self.log.log_scroll > row {
            self.log.log_scroll = row;
        }
        if self.log.log_col_scroll > col {
            self.log.log_col_scroll = col;
        }
    }

    fn scroll_logs_to_bottom(&mut self)
        ensures
            *final(self) == (AppState {
                log: LogState { log_scroll: max_log_row(old(self).log) as usize, ..old(self).log },
                ..*old(self)
            }),
    {
        self.log.log_scroll = self.max_log_row_start();
    }

    /// Appends a line `[time] level: message` to the log, keeping the last thousand lines,
    /// and scrolls the overlay to the bottom.
    pub fn append_log(&mut self, level: &str, message: &str)
        ensures
            exists|ts: u64|
                string_views(final(self).log.logs@) == keep_last(
                    string_views(old(self).log.logs@).push(#[trigger] log_line(ts, level@, message@)),
                    MAX_LOG_LINES as int,
                ),
            final(self).log.logs@.len() <= MAX_LOG_LINES,
            final(self).log.log_scroll == max_log_row(final(self).log),
            final(self).log.log_col_scroll == min_int(old(self).log.log_col_scroll as int, max_log_col(final(self).log)),
            *final(self) == (AppState {
                log: LogState {
                    logs: final(self).log.logs,
                    log_scroll: final(self).log.log_scroll,
                    log_col_scroll: final(self).log.log_col_scroll,
                    ..old(self).log
                },
                ..*old(self)
            }),
    {
        let ts = now_unix_seconds();
        let mut line = str_to_string("[");
        let digits = u64_to_decimal(ts);
        push_str(&mut line, digits.as_str());
        push_str(&mut line, "] ");
        push_str(&mut line, level);
        push_str(&mut line, ": ");
        push_str(&mut line, message);
        let ghost before = string_views(self.log.logs@);
        self.log.logs.push(line);
        assert(string_views(self.log.logs@) =~= before.push(log_line(ts, level@, message@)));
        let ghost full = self.log.logs@;
        while self.log.logs.len() > MAX_LOG_LINES
            invariant
                self.log.logs@.len() <= full.len(),
                self.log.logs@ == full.subrange(full.len() - self.log.logs@.len(), full.len() as int),
                full.len() > MAX_LOG_LINES ==> self.log.logs@.len() >= MAX_LOG_LINES,
                full.len() <= MAX_LOG_LINES ==> self.log.logs@.len() == full.len(),
                *self == (AppState { log: LogState { logs: self.log.logs, ..old(self).log }, ..*old(self) }),
            decreases self.log.logs@.len(),
        {
            self.log.logs.remove(0);
        }
        assert(string_views(self.log.logs@) =~= keep_last(string_views(full), MAX_LOG_LINES as int));
        self.clamp_log_scroll_bounds();
        self.scroll_logs_to_bottom();
    }

    /// Logs the message under the level's label and shows it as a toast for 45 ticks,
    /// keeping the four newest toasts.
    pub fn push_toast(&mut self, level: ToastLevel, message: String)
        ensures
            exists|ts: u64|
                string_views(final(self).log.logs@) == keep_last(
                    string_views(old(self).log.logs@).push(#[trigger] log_line(ts, level_label(level), message@)),
                    MAX_LOG_LINES as int,
                ),
            final(self).log.toasts@ == keep_last(
                old(self).log.toasts@.push(Toast { level, message, ttl_ticks: TOAST_TICKS }),
                MAX_TOASTS as int,
            ),
            final(self).log.log_scroll == max_log_row(final(self).log),
            final(self).log.log_col_scroll == min_int(old(self).log.log_col_scroll as int, max_log_col(final(self).log)),
            *final(self) == (AppState {
                log: LogState {
                    logs: final(self).log.logs,
                    toasts: final(self).log.toasts,
                    log_scroll: final(self).log.log_scroll,
                    log_col_scroll: final(self).log.log_col_scroll,
                    ..old(self).log
                },
                ..*old(self)
            }),
    {
        let label = match level {
            ToastLevel::Info => "INFO",
            ToastLevel::Success => "SUCCESS",
            ToastLevel::Warning => "WARN",
            ToastLevel::Error => "ERROR",
        };
        proof {
            reveal_strlit("INFO");
            reveal_strlit("SUCCESS");
            reveal_strlit("WARN");
            reveal_strlit("ERROR");
        }
        assert(label@ == level_label(level));
        self.append_log(label, message.as_str());
        let ghost st = *self;
        let ghost mid = self.log.toasts@;
        let ghost msg = message;
        self.log.toasts.push(Toast { level, message, ttl_ticks: TOAST_TICKS });
        let ghost full = self.log.toasts@;
        assert(full == mid.push(Toast { level, message: msg, ttl_ticks: TOAST_TICKS }));
        while self.log.toasts.len() > MAX_TOASTS
            invariant
                self.log.toasts@.len() <= full.len(),
                self.log.toasts@ == full.subrange(full.len() - self.log.toasts@.len(), full.len() as int),
                full.len() > MAX_TOASTS ==> self.log.toasts@.len() >= MAX_TOASTS,
                full.len() <= MAX_TOASTS ==> self.log.toasts@.len() == full.len(),
                *self == (AppState { log: LogState { toasts: self.log.toasts, ..st.log }, ..st }),
            decreases self.log.toasts@.len(),
        {
            self.log.toasts.remove(0);
        }
        assert(self.log.toasts@ =~= keep_last(full, MAX_TOASTS as int));
    }

    /// A tick: the counter advances (stopping at its largest value) and each toast loses a
    /// tick, those with none left going.
    pub fn tick(&mut self)
        ensures
            final(self).ui.ticks == (if old(self).ui.ticks == u64::MAX {
                u64::MAX
            } else {
                (old(self).ui.ticks + 1) as u64
            }),
            final(self).log.toasts@ == toasts_after_tick(old(self).log.toasts@),
            *final(self) == (AppState {
                ui: crate::state::UiState { ticks: final(self).ui.ticks, ..old(self).ui },
                log: LogState { toasts: final(self).log.toasts, ..old(self).log },
                ..*old(self)
            }),
    {
        self.ui.ticks = self.ui.ticks.saturating_add(1);
        let mut kept: Vec<Toast> = Vec::new();
        let mut i: usize = 0;
        while i < self.log.toasts.len()
            invariant
                i <= self.log.toasts@.len(),
                kept@ == toasts_after_tick(self.log.toasts@.take(i as int)),
            decreases self.log.toasts@.len() - i,
        {
            let t = &self.log.toasts[i];
            assert(self.log.toasts@.take(i + 1).drop_last() == self.log.toasts@.take(i as int));
            if t.ttl_ticks > 1 {
                kept.push(Toast { level: t.level, message: t.message.clone(), ttl_ticks: t.ttl_ticks - 1 });
            }
            i += 1;
        }
        assert(self.log.toasts@.take(i as int) == self.log.toasts@);
        self.log.toasts = kept;
    }

    /// Opens or closes the log overlay; opening scrolls it to the bottom and to the left edge.
    pub fn toggle_log_overlay(&mut self)
        ensures
            *final(self) == (AppState {
                log: if !old(self).log.show_log_overlay {
                    LogState {
                        show_log_overlay: true,
                        log_col_scroll: 0,
                        log_scroll: max_log_row(old(self).log) as usize,
                        ..old(self).log
                    }
                } else {
                    LogState { show_log_overlay: false, ..old(self).log }
                },
                ..*old(self)
            }),
    {
        self.log.show_log_overlay = !self.log.show_log_overlay;
        if self.log.show_log_overlay {
            self.log.log_col_scroll = 0;
            self.scroll_logs_to_bottom();
        }
    }

    /// Records the overlay's size and pulls the scroll positions back inside their ranges.
    pub fn update_log_viewport(&mut self, height: usize, width: usize)
        ensures
            *final(self) == (AppState {
                log: clamped_log(LogState { log_view_height: height, log_view_width: width, ..old(self).log }),
                ..*old(self)
            }),
    {
        self.log.log_view_height = height;
        self.log.log_view_width = width;
        self.clamp_log_scroll_bounds();
    }

    /// Scrolls the log overlay up a line.
    pub fn scroll_log_up(&mut self)
        ensures
            *final(self) == (AppState {
                log: LogState {
                    log_scroll: sat_sub(min_int(old(self).log.log_scroll as int, max_log_row(old(self).log)), 1) as usize,
                    ..old(self).log
                },
                ..*old(self)
            }),
    {
        let max_start = self.max_log_row_start();
        let s = if self.log.log_scroll < max_start {
            self.log.log_scroll
        } else {
            max_start
        };
        self.log.log_scroll = s.saturating_sub(1);
    }

    /// Scrolls the log overlay down a line, stopping at the last page.
    pub fn scroll_log_down(&mut self)
        ensures
            *final(self) == (AppState {
                log: LogState {
                    log_scroll: min_int(old(self).log.log_scroll as int + 1, max_log_row(old(self).log)) as usize,
                    ..old(self).log
                },
                ..*old(self)
            }),
    {
        let max_start = self.max_log_row_start();
        let s = self.log.log_scroll.saturating_add(1);
        self.log.log_scroll = if s < max_start {
            s
        } else {
            max_start
        };
    }

    /// Scrolls the log overlay a column to the left.
    pub fn scroll_log_left(&mut self)
        ensures
            *final(self) == (AppState {
                log: LogState { log_col_scroll: sat_sub(old(self).log.log_col_scroll as int, 1) as usize, ..old(self).log },
                ..*old(self)
            }),
    {
        self.log.log_col_scroll = self.log.log_col_scroll.saturating_sub(1);
    }

    /// Scrolls the log overlay a column to the right, stopping where the longest line ends.
    pub fn scroll_log_right(&mut self)
        ensures
            *final(self) == (AppState {
                log: LogState {
                    log_col_scroll: min_int(old(self).log.log_col_scroll as int + 1, max_log_col(old(self).log)) as usize,
                    ..old(self).log
                },
                ..*old(self)
            }),
    {
        let max_start = self.max_log_col_start();
        let s = self.log.log_col_scroll.saturating_add(1);
        self.log.log_col_scroll = if s < max_start {
            s
        } else {
            max_start
        };
    }

    /// Asks for a log line to be copied to the clipboard; an index past the end does nothing.
    pub fn copy_log_line(&mut self, index: usize)
        ensures
            index < old(self).log.logs@.len() ==> *final(self) == (AppState { io_outbox: final(self).io_outbox, ..*old(self) })
                && final(self).io_outbox@ == old(self).io_outbox@.push(
                IoRequest::CopyText(old(self).log.logs@[index as int]),
            ),
            index >= old(self).log.logs@.len() ==> *final(self) == *old(self),
    {
        if index >= self.log.logs.len() {
            return;
        }
        let line = self.log.logs[index].clone();
        self.io_outbox.push(IoRequest::CopyText(line));
    }

    /// Takes in the outcome of a write or a copy that was asked for: a failed history write
    /// is logged, a settings write and a copy are reported in a toast.
    pub fn report_io_result(&mut self, request: &IoRequest, result: Result<String, String>)
        ensures
            request is SavePromptHistory && result is Ok ==> *final(self) == *old(self),
            request is ListDir ==> *final(self) == *old(self),
            request is SavePromptHistory ==> match result {
                Err(e) => exists|ts: u64|
                    string_views(final(self).log.logs@) == keep_last(
                        string_views(old(self).log.logs@).push(
                            #[trigger] log_line(ts, "WARN"@, "Prompt history save failed: "@ + e@),
                        ),
                        MAX_LOG_LINES as int,
                    ),
                Ok(_) => true,
            },
            request is SaveConfig ==> match result {
                Ok(p) => final(self).log.toasts@.last().level == ToastLevel::Success
                    && final(self).log.toasts@.last().message@ == "Saved AI settings to "@ + p@,
                Err(e) => final(self).log.toasts@.last() == (Toast { level: ToastLevel::Error, message: e, ttl_ticks: TOAST_TICKS }),
            },
            request is CopyText ==> match result {
                Ok(_) => final(self).log.toasts@.last().level == ToastLevel::Success
                    && final(self).log.toasts@.last().message@ == "Copied log line"@,
                Err(e) => final(self).log.toasts@.last().level == ToastLevel::Error
                    && final(self).log.toasts@.last().message@ == "Failed to copy log line: "@ + e@,
            },
            *final(self) == (AppState { log: final(self).log, ..*old(self) }),
    {
        match request {
            IoRequest::ListDir { .. } => {},
            IoRequest::SavePromptHistory(_) => {
                if let Err(e) = result {
                    let msg = concat("Prompt history save failed: ", e.as_str());
                    self.append_log("WARN", msg.as_str());
                }
            },
            IoRequest::SaveConfig(_) => match result {
                Ok(p) => {
                    let msg = concat("Saved AI settings to ", p.as_str());
                    self.push_toast(ToastLevel::Success, msg);
                },
                Err(e) => self.push_toast(ToastLevel::Error, e),
            },
            IoRequest::CopyText(_) => match result {
                Ok(_) => self.push_toast(ToastLevel::Success, str_to_string("Copied log line")),
                Err(e) => {
                    let msg = concat("Failed to copy log line: ", e.as_str());
                    self.push_toast(ToastLevel::Error, msg);
                },
            },
        }
    }
}

} // verus!
