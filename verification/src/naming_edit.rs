//! Editing the rename rows by hand: selecting rows, typing overrides, changing the style,
//! assigning groups, choosing suggestions, and the simulated apply.
use vstd::prelude::*;
use crate::clock::now_unix_seconds;
use crate::logs::concat;
use crate::model::{
    Capitalization, InputMode, NameLength, RenameRow, Separator, SessionUndoEntry, StyleOptions,
    ToastLevel, capitalization_next, capitalization_prev, name_length_next, name_length_prev,
    separator_next, separator_prev, string_views,
};
use crate::naming_ops::{conflicts_marked, proposals_redone};
use crate::rows::index_at;
use crate::scope::has_text;
use crate::state::{AppState, ApplyState, NamingState, UiState};
use crate::io::same_text;
use crate::model::SuggestionSet;
use crate::strs::{rsplit_dot, rsplit_dot_str, trim, trim_str};
use crate::text::{chars_of, spec_decimal, spec_lowercase, str_to_lowercase, str_to_string, u64_to_decimal};
use crate::vocab::{completion, find_completion, sorted_insert, sorted_texts};
use crate::fs_scan::opt_view;

verus! {

/// The text an override edit of `row` starts from: its override, or else its current name
/// without the last extension.
pub open spec fn override_start(row: RenameRow) -> Seq<char> {
    match row.override_name {
        Some(o) => o@,
        None => match rsplit_dot(row.current_name@) {
            Some((stem, _)) => stem,
            None => row.current_name@,
        },
    }
}

/// `rows` with the override of row `i` set to `o`.
pub open spec fn with_override(rows: Seq<RenameRow>, i: int, o: Option<String>) -> Seq<RenameRow> {
    rows.update(i, RenameRow { override_name: o, ..rows[i] })
}

/// The style after moving the setting at `cursor` by `delta`: the length, casing and
/// separator step forward for a positive delta and back otherwise; the two switches flip.
pub open spec fn style_moved(s: StyleOptions, cursor: usize, delta: i8) -> StyleOptions {
    if cursor == 0 {
        StyleOptions { length: if delta > 0 { name_length_next(s.length) } else { name_length_prev(s.length) }, ..s }
    } else if cursor == 1 {
        StyleOptions {
            capitalization: if delta > 0 { capitalization_next(s.capitalization) } else { capitalization_prev(s.capitalization) },
            ..s
        }
    } else if cursor == 2 {
        StyleOptions { separator: if delta > 0 { separator_next(s.separator) } else { separator_prev(s.separator) }, ..s }
    } else if cursor == 3 {
        StyleOptions { keep_extension: !s.keep_extension, ..s }
    } else if cursor == 4 {
        StyleOptions { strip_colons: !s.strip_colons, ..s }
    } else {
        s
    }
}

/// Ends the override edit of row `r`: the trimmed typed text becomes its override (empty
/// text clears it) and joins the vocabulary; the typed text is cleared.
fn take_override(naming: &mut NamingState, r: usize)
    requires
        r < old(naming).rename_rows@.len(),
    ensures
        ({
            let value = trim(old(naming).override_input@);
            &&& exists|o: Option<String>|
                opt_view(o) == (if value.len() == 0 { None } else { Some(value) })
                    && final(naming).rename_rows@ == #[trigger] with_override(old(naming).rename_rows@, r as int, o)
            &&& forall|x: Seq<char>|
                has_text(final(naming).override_vocab@, x) <==> has_text(old(naming).override_vocab@, x)
                    || (x == value && value.len() > 0)
            &&& sorted_texts(old(naming).override_vocab@) ==> sorted_texts(final(naming).override_vocab@)
        }),
        final(naming).override_input@.len() == 0,
        *final(naming) == (NamingState {
            rename_rows: final(naming).rename_rows,
            override_vocab: final(naming).override_vocab,
            editing_row: None,
            override_input: final(naming).override_input,
            ..*old(naming)
        }),
{
    let ghost rows = naming.rename_rows@;
    let value = trim_str(naming.override_input.as_str());
    if value.as_str().is_empty() {
        naming.rename_rows[r].override_name = None;
    } else {
        sorted_insert(&mut naming.override_vocab, value.clone());
        naming.rename_rows[r].override_name = Some(value);
    }
    let ghost o = naming.rename_rows@[r as int].override_name;
    assert(naming.rename_rows@ == with_override(rows, r as int, o));
    naming.editing_row = None;
    naming.override_input = String::new();
}

/// What starting to edit the override of the row under the cursor does to `pre`, giving `post`.
pub open spec fn override_edit_begun(pre: AppState, post: AppState) -> bool {
    &&& (pre.naming.rename_rows@.len() == 0 ==> post == pre)
    &&& (pre.naming.rename_rows@.len() > 0 ==> {
        &&& post.ui.mode == InputMode::EditingOverride
        &&& post.naming.editing_row == Some(pre.naming.rename_cursor)
        &&& post.naming.override_input@ == override_start(
            pre.naming.rename_rows@[pre.naming.rename_cursor as int],
        )
    })
    &&& (post == (AppState {
        ui: UiState { mode: post.ui.mode, ..pre.ui },
        naming: NamingState {
            editing_row: post.naming.editing_row,
            override_input: post.naming.override_input,
            ..pre.naming
        },
        ..pre
    }))
}

/// What dropping the override being edited does to `pre`, giving `post`.
pub open spec fn override_edit_cancelled(pre: AppState, post: AppState) -> bool {
    &&& (post.naming.override_input@.len() == 0)
    &&& (post == (AppState {
        ui: UiState { mode: InputMode::Normal, ..pre.ui },
        naming: NamingState {
            editing_row: None,
            override_input: post.naming.override_input,
            ..pre.naming
        },
        ..pre
    }))
}

impl AppState {
    /// Flips the selection of the row under the cursor and marks collisions afresh. With no
    /// row under the cursor nothing changes.
    pub fn toggle_current_naming_row(&mut self)
        ensures
            ({
                let rows = old(self).naming.rename_rows@;
                let c = old(self).naming.rename_cursor as int;
                c < rows.len() ==> conflicts_marked(
                    rows.update(c, (RenameRow { selected: !rows[c].selected, ..rows[c] })),
                    final(self).naming.rename_rows@,
                )
            }),
            old(self).naming.rename_cursor >= old(self).naming.rename_rows@.len() ==> *final(self) == *old(self),
            *final(self) == (AppState {
                naming: NamingState { rename_rows: final(self).naming.rename_rows, ..old(self).naming },
                ..*old(self)
            }),
    {
        let c = self.naming.rename_cursor;
        if c >= self.naming.rename_rows.len() {
            return;
        }
        let flipped = !self.naming.rename_rows[c].selected;
        self.naming.rename_rows[c].selected = flipped;
        self.recompute_conflicts();
    }

    /// Starts typing an override for the row under the cursor, from its override or its
    /// current name without the extension. With no rows nothing changes.
    pub fn begin_override_edit(&mut self)
        requires
            old(self).naming.rename_rows@.len() > 0 ==> old(self).naming.rename_cursor < old(self).naming.rename_rows@.len(),
        ensures
            override_edit_begun(*old(self), *final(self)),
    {
        if self.naming.rename_rows.len() == 0 {
            return;
        }
        let c = self.naming.rename_cursor;
        let start = match &self.naming.rename_rows[c].override_name {
            Some(o) => o.clone(),
            None => match rsplit_dot_str(self.naming.rename_rows[c].current_name.as_str()) {
                Some((stem, _)) => stem,
                None => self.naming.rename_rows[c].current_name.clone(),
            },
        };
        self.ui.mode = InputMode::EditingOverride;
        self.naming.editing_row = Some(c);
        self.naming.override_input = start;
    }

    /// Ends an override edit: the typed text, trimmed, becomes the row's override (empty
    /// text clears it) and joins the vocabulary; typing stops, names are proposed afresh
    /// and a toast says so. Without an edit on an existing row nothing changes.
    pub fn commit_override_edit(&mut self)
        requires
            old(self).wf(),
        ensures
            final(self).wf(),
            ({
                let rows = old(self).naming.rename_rows@;
                let value = trim(old(self).naming.override_input@);
                match old(self).naming.editing_row {
                    Some(r) if r < rows.len() => {
                        &&& exists|o: Option<String>|
                            opt_view(o) == (if value.len() == 0 { None } else { Some(value) })
                                && proposals_redone(*old(self), #[trigger] with_override(rows, r as int, o), final(self).naming.rename_rows@)
                        &&& forall|x: Seq<char>|
                            has_text(final(self).naming.override_vocab@, x) <==> has_text(old(self).naming.override_vocab@, x)
                                || (x == value && value.len() > 0)
                        &&& sorted_texts(old(self).naming.override_vocab@) ==> sorted_texts(final(self).naming.override_vocab@)
                        &&& final(self).ui.mode == InputMode::Normal
                        &&& final(self).naming.editing_row is None
                        &&& final(self).naming.override_input@.len() == 0
                        &&& final(self).log.toasts@.last().level == ToastLevel::Success
                        &&& final(self).log.toasts@.last().message@ == "Override updated"@
                        &&& *final(self) == (AppState {
                            ui: UiState { mode: InputMode::Normal, ..old(self).ui },
                            naming: NamingState {
                                rename_rows: final(self).naming.rename_rows,
                                override_vocab: final(self).naming.override_vocab,
                                editing_row: None,
                                override_input: final(self).naming.override_input,
                                ..old(self).naming
                            },
                            log: final(self).log,
                            ..*old(self)
                        })
                    },
                    _ => *final(self) == *old(self),
                }
            }),
    {
        let r = match self.naming.editing_row {
            Some(r) => r,
            None => return,
        };
        if r >= self.naming.rename_rows.len() {
            return;
        }
        take_override(&mut self.naming, r);
        self.ui.mode = InputMode::Normal;
        self.recompute_proposals();
        self.push_toast(ToastLevel::Success, str_to_string("Override updated"));
    }

    /// Abandons an override edit: typing stops and the typed text is cleared.
    pub fn cancel_override_edit(&mut self)
        ensures
            override_edit_cancelled(*old(self), *final(self)),
    {
        self.ui.mode = InputMode::Normal;
        self.naming.editing_row = None;
        self.naming.override_input = String::new();
    }

    /// Completes the typed override from the vocabulary: the first entry whose lowercase
    /// begins with the trimmed, lowercased input and is longer than it replaces the input.
    /// Empty input, or no such entry, changes nothing.
    pub fn autocomplete_override(&mut self)
        ensures
            ({
                let prefix = spec_lowercase(trim(old(self).naming.override_input@));
                match completion(old(self).naming.override_vocab@, prefix) {
                    Some(c) if prefix.len() > 0 => final(self).naming.override_input@ == c,
                    _ => final(self).naming.override_input == old(self).naming.override_input,
                }
            }),
            *final(self) == (AppState {
                naming: NamingState { override_input: final(self).naming.override_input, ..old(self).naming },
                ..*old(self)
            }),
    {
        let trimmed = trim_str(self.naming.override_input.as_str());
        let prefix = str_to_lowercase(trimmed.as_str());
        if prefix.as_str().is_empty() {
            return;
        }
        let pc = chars_of(prefix.as_str());
        match find_completion(&self.naming.override_vocab, &pc) {
            Some(c) => {
                self.naming.override_input = c;
            },
            None => {},
        }
    }

    /// Moves the style setting under the style cursor by `delta`, as `style_moved`
    /// describes, and proposes names afresh.
    pub fn apply_style_cursor_delta(&mut self, delta: i8)
        requires
            old(self).wf(),
        ensures
            final(self).wf(),
            final(self).naming.style == style_moved(old(self).naming.style, old(self).naming.style_cursor, delta),
            proposals_redone(
                (AppState { naming: NamingState { style: final(self).naming.style, ..old(self).naming }, ..*old(self) }),
                old(self).naming.rename_rows@,
                final(self).naming.rename_rows@,
            ),
            *final(self) == (AppState {
                naming: NamingState {
                    style: final(self).naming.style,
                    rename_rows: final(self).naming.rename_rows,
                    ..old(self).naming
                },
                ..*old(self)
            }),
    {
        let c = self.naming.style_cursor;
        if c == 0 {
            self.naming.style.length = if delta > 0 { self.naming.style.length.next() } else { self.naming.style.length.prev() };
        } else if c == 1 {
            self.naming.style.capitalization = if delta > 0 {
                self.naming.style.capitalization.next()
            } else {
                self.naming.style.capitalization.prev()
            };
        } else if c == 2 {
            self.naming.style.separator = if delta > 0 { self.naming.style.separator.next() } else { self.naming.style.separator.prev() };
        } else if c == 3 {
            self.naming.style.keep_extension = !self.naming.style.keep_extension;
        } else if c == 4 {
            self.naming.style.strip_colons = !self.naming.style.strip_colons;
        }
        self.recompute_proposals();
    }
}


/// The rows of `rows` that are selected, in order.
pub open spec fn selected_rows(rows: Seq<RenameRow>) -> Seq<RenameRow>
    decreases rows.len(),
{
    if rows.len() == 0 {
        Seq::empty()
    } else if rows.last().selected {
        selected_rows(rows.drop_last()).push(rows.last())
    } else {
        selected_rows(rows.drop_last())
    }
}

/// `rows` with every selected row put in group `g`.
pub open spec fn selected_grouped(rows: Seq<RenameRow>, g: u8) -> Seq<RenameRow> {
    rows.map_values(|r: RenameRow| if r.selected { RenameRow { group_id: g, ..r } } else { r })
}

/// The message of a group assignment.
pub open spec fn group_message(g: u8, n: int) -> Seq<char> {
    "Assigned group "@ + spec_decimal(g as u64) + " to "@ + spec_decimal(n as u64) + " row(s)"@
}

/// Puts every selected row in group `g` and counts them.
fn group_selected(rows: &mut Vec<RenameRow>, g: u8) -> (n: usize)
    ensures
        final(rows)@ == selected_grouped(old(rows)@, g),
        n == selected_rows(old(rows)@).len(),
{
    let ghost before = rows@;
    let mut n: usize = 0;
    let mut i: usize = 0;
    while i < rows.len()
        invariant
            i <= rows@.len() == before.len(),
            n == selected_rows(before.take(i as int)).len(),
            n <= i,
            forall|j: int| 0 <= j < i ==> #[trigger] rows@[j] == selected_grouped(before, g)[j],
            forall|j: int| i <= j < rows@.len() ==> #[trigger] rows@[j] == before[j],
        decreases rows@.len() - i,
    {
        assert(before.take(i + 1).drop_last() == before.take(i as int));
        assert(before.take(i + 1).last() == before[i as int]);
        if rows[i].selected {
            rows[i].group_id = g;
            n += 1;
        }
        i += 1;
    }
    assert(before.take(i as int) == before);
    assert(rows@ =~= selected_grouped(before, g));
    n
}

/// What assigning group `g` does to `pre`, giving `post`.
pub open spec fn group_assigned(pre: AppState, post: AppState, g: u8) -> bool {
    &&& (!(1 <= g <= 9) ==> post == pre)
    &&& ({
        let rows = pre.naming.rename_rows@;
        let n = selected_rows(rows).len();
        let c = pre.naming.rename_cursor as int;
        let changed: int = if n > 0 { n as int } else if c < rows.len() { 1 } else { 0 };
        1 <= g <= 9 ==> {
            &&& n > 0 ==> post.naming.rename_rows@ == selected_grouped(rows, g)
            &&& n == 0 && c < rows.len() ==> post.naming.rename_rows@ == rows.update(
                c,
                (RenameRow { group_id: g, ..rows[c] }),
            )
            &&& n == 0 && c >= rows.len() ==> post.naming.rename_rows@ == rows
            &&& post.log.toasts@.last().level == ToastLevel::Info
            &&& post.log.toasts@.last().message@ == group_message(g, changed)
            &&& post == (AppState {
                ui: UiState { mode: InputMode::Normal, ..pre.ui },
                naming: NamingState { rename_rows: post.naming.rename_rows, ..pre.naming },
                log: post.log,
                ..pre
            })
        }
    })
}

impl AppState {
    /// Puts the selected rows in group `g` (one to nine), or the row under the cursor when
    /// none is selected; typing returns to normal and a toast counts the rows. Other
    /// groups change nothing.
    pub fn assign_group(&mut self, g: u8)
        ensures
            group_assigned(*old(self), *final(self), g),
    {
        if g < 1 || g > 9 {
            return;
        }
        let ghost rows = self.naming.rename_rows@;
        let mut changed = group_selected(&mut self.naming.rename_rows, g);
        if changed == 0 {
            proof {
                assert forall|j: int| 0 <= j < rows.len() implies self.naming.rename_rows@[j] == rows[j] by {
                    lemma_none_selected(rows, j);
                }
                assert(self.naming.rename_rows@ =~= rows);
            }
            let c = self.naming.rename_cursor;
            if c < self.naming.rename_rows.len() {
                self.naming.rename_rows[c].group_id = g;
                changed = 1;
            }
        }
        self.ui.mode = InputMode::Normal;
        let msg = concat("Assigned group ", u64_to_decimal(g as u64).as_str());
        let msg = concat(msg.as_str(), " to ");
        let msg = concat(msg.as_str(), u64_to_decimal(changed as u64).as_str());
        let msg = concat(msg.as_str(), " row(s)");
        self.push_toast(ToastLevel::Info, msg);
    }
}

/// With no row selected, no row is.
proof fn lemma_none_selected(rows: Seq<RenameRow>, j: int)
    requires
        selected_rows(rows).len() == 0,
        0 <= j < rows.len(),
    ensures
        !rows[j].selected,
    decreases rows.len(),
{
    if j < rows.len() - 1 {
        lemma_none_selected(rows.drop_last(), j);
    }
}


/// The most simulated applies kept.
pub const MAX_UNDO_ENTRIES: usize = 20;

/// The first `n` elements of `s`, or all of them.
pub open spec fn keep_first<T>(s: Seq<T>, n: int) -> Seq<T> {
    if s.len() > n {
        s.take(n)
    } else {
        s
    }
}

/// The paths, current names and proposed names of the selected rows, in order.
fn selected_names(rows: &Vec<RenameRow>) -> (r: (Vec<String>, Vec<String>, Vec<String>))
    ensures
        string_views(r.0@) == selected_rows(rows@).map_values(|x: RenameRow| x.path@),
        string_views(r.1@) == selected_rows(rows@).map_values(|x: RenameRow| x.current_name@),
        string_views(r.2@) == selected_rows(rows@).map_values(|x: RenameRow| x.proposed_name@),
{
    let mut paths: Vec<String> = Vec::new();
    let mut names: Vec<String> = Vec::new();
    let mut news: Vec<String> = Vec::new();
    let mut i: usize = 0;
    while i < rows.len()
        invariant
            i <= rows@.len(),
            paths@.len() == selected_rows(rows@.take(i as int)).len(),
            names@.len() == paths@.len(),
            news@.len() == paths@.len(),
            forall|j: int| 0 <= j < paths@.len() ==> {
                let x = #[trigger] selected_rows(rows@.take(i as int))[j];
                &&& paths@[j]@ == x.path@
                &&& names@[j]@ == x.current_name@
                &&& news@[j]@ == x.proposed_name@
            },
        decreases rows@.len() - i,
    {
        let ghost pre = rows@.take(i as int);
        assert(rows@.take(i + 1).drop_last() == pre);
        assert(rows@.take(i + 1).last() == rows@[i as int]);
        if rows[i].selected {
            paths.push(rows[i].path.clone());
            names.push(rows[i].current_name.clone());
            news.push(rows[i].proposed_name.clone());
        }
        proof {
            let ghost post = selected_rows(rows@.take(i + 1));
            assert forall|j: int| 0 <= j < paths@.len() implies {
                let x = #[trigger] post[j];
                &&& paths@[j]@ == x.path@
                &&& names@[j]@ == x.current_name@
                &&& news@[j]@ == x.proposed_name@
            } by {
                if j < selected_rows(pre).len() {
                    assert(post[j] == selected_rows(pre)[j]);
                }
            }
        }
        i += 1;
    }
    assert(rows@.take(i as int) == rows@);
    assert(string_views(paths@) =~= selected_rows(rows@).map_values(|x: RenameRow| x.path@));
    assert(string_views(names@) =~= selected_rows(rows@).map_values(|x: RenameRow| x.current_name@));
    assert(string_views(news@) =~= selected_rows(rows@).map_values(|x: RenameRow| x.proposed_name@));
    (paths, names, news)
}

/// What a simulated apply does to `o`, giving `f`: the selected rows go into the undo
/// history as one entry, a toast says how many, and the planner quits unless `stay`.
pub open spec fn submitted(o: AppState, f: AppState, stay: bool) -> bool {
    let sel = selected_rows(o.naming.rename_rows@);
    &&& f.log.toasts@.len() > 0
    &&& sel.len() == 0 ==> f.log.toasts@.last().level == ToastLevel::Warning
        && f.log.toasts@.last().message@ == "No selected rows to apply"@
        && f == (AppState { log: f.log, ..o })
    &&& sel.len() > 0 ==> {
        let e = f.apply.undo_history@[0];
        &&& f.apply.undo_history@ == keep_first(
            seq![e].add(o.apply.undo_history@),
            MAX_UNDO_ENTRIES as int,
        )
        &&& exists|t: u64| e.timestamp@ == spec_decimal(t)
        &&& string_views(e.affected_paths@) == sel.map_values(|x: RenameRow| x.path@)
        &&& string_views(e.previous_names@) == sel.map_values(|x: RenameRow| x.current_name@)
        &&& string_views(e.simulated_new_names@) == sel.map_values(|x: RenameRow| x.proposed_name@)
        &&& f.log.toasts@.last().level == ToastLevel::Success
        &&& f.log.toasts@.last().message@ == "Simulated apply for "@ + spec_decimal(sel.len() as u64)
            + " file(s)"@
        &&& f == (AppState {
            ui: UiState { should_quit: o.ui.should_quit || !stay, ..o.ui },
            apply: ApplyState { undo_history: f.apply.undo_history, ..o.apply },
            log: f.log,
            ..o
        })
    }
}

impl AppState {
    /// Records a simulated apply of the selected rows: a new first undo entry with the
    /// time, their paths, current and proposed names, keeping the twenty newest; a toast
    /// counts the files, and the planner quits unless `stay`. With no row selected only a
    /// warning is shown.
    pub fn submit_simulated(&mut self, stay: bool)
        ensures
            submitted(*old(self), *final(self), stay),
    {
        let (paths, names, news) = selected_names(&self.naming.rename_rows);
        assert(string_views(paths@).len() == paths@.len());
        if paths.len() == 0 {
            self.push_toast(ToastLevel::Warning, str_to_string("No selected rows to apply"));
            return;
        }
        let n = paths.len();
        let t = now_unix_seconds();
        let entry = SessionUndoEntry {
            timestamp: u64_to_decimal(t),
            affected_paths: paths,
            previous_names: names,
            simulated_new_names: news,
        };
        let ghost old_hist = self.apply.undo_history@;
        self.apply.undo_history.insert(0, entry);
        if self.apply.undo_history.len() > MAX_UNDO_ENTRIES {
            self.apply.undo_history.truncate(MAX_UNDO_ENTRIES);
        }
        proof {
            assert(old_hist.insert(0, entry) =~= seq![entry].add(old_hist));
        }
        let msg = concat("Simulated apply for ", u64_to_decimal(n as u64).as_str());
        let msg = concat(msg.as_str(), " file(s)");
        self.push_toast(ToastLevel::Success, msg);
        if !stay {
            self.ui.should_quit = true;
        }
    }
}


/// Appending an entry changes the choice only of a path that had none.
pub proof fn lemma_index_at_push(s: Seq<(String, usize)>, e: (String, usize), p: Seq<char>)
    ensures
        index_at(s.push(e), p) == (if index_at(s, p) is Some {
            index_at(s, p)
        } else if e.0@ == p {
            Some(e.1)
        } else {
            None
        }),
    decreases s.len(),
{
    if s.len() == 0 {
        assert(s.push(e).drop_first() =~= Seq::<(String, usize)>::empty());
        assert(s.push(e)[0] == e);
        assert(index_at(Seq::<(String, usize)>::empty(), p) is None);
    } else {
        assert(s.push(e)[0] == s[0]);
        assert(s.push(e).drop_first() =~= s.drop_first().push(e));
        lemma_index_at_push(s.drop_first(), e, p);
    }
}

/// Takes every choice for `path` out.
fn remove_index(v: &mut Vec<(String, usize)>, path: &String)
    ensures
        forall|p: Seq<char>| #[trigger] index_at(final(v)@, p) == (if p == path@ { None } else { index_at(old(v)@, p) }),
{
    let ghost before = v@;
    let mut out: Vec<(String, usize)> = Vec::new();
    let mut i: usize = 0;
    while i < v.len()
        invariant
            i <= v@.len(),
            v@ == before,
            forall|p: Seq<char>| #[trigger] index_at(out@, p) == (if p == path@ { None } else { index_at(before.take(i as int), p) }),
        decreases v@.len() - i,
    {
        let ghost pre = out@;
        assert(before.take(i + 1) == before.take(i as int).push(before[i as int]));
        let keep = !same_text(&v[i].0, path);
        if keep {
            out.push((v[i].0.clone(), v[i].1));
        }
        proof {
            assert forall|p: Seq<char>| #[trigger] index_at(out@, p) == (if p == path@ { None } else { index_at(before.take(i + 1), p) }) by {
                lemma_index_at_push(before.take(i as int), before[i as int], p);
                if keep {
                    lemma_index_at_push(pre, (v@[i as int].0, v@[i as int].1), p);
                }
            }
        }
        i += 1;
    }
    assert(before.take(i as int) == before);
    *v = out;
}

/// Makes `k` the choice for `path`.
fn set_index(v: &mut Vec<(String, usize)>, path: &String, k: usize)
    ensures
        forall|p: Seq<char>| #[trigger] index_at(final(v)@, p) == (if p == path@ { Some(k) } else { index_at(old(v)@, p) }),
{
    remove_index(v, path);
    let ghost mid = v@;
    let e = (path.clone(), k);
    v.push(e);
    proof {
        assert forall|p: Seq<char>| #[trigger] index_at(v@, p) == (if p == path@ { Some(k) } else { index_at(old(v)@, p) }) by {
            lemma_index_at_push(mid, e, p);
        }
    }
}

/// What choosing option `k` for every row does to `pre`, giving `post`.
pub open spec fn global_option_set(pre: AppState, post: AppState, k: usize) -> bool {
    &&& ({
        let g = if k < 2 { k } else { 2 };
        &&& post.naming.suggestion_cursor == g
        &&& match pre.naming.suggestion_set {
            Some(set) => post.naming.suggestion_set == Some(SuggestionSet { global_option_index: g, ..set })
                && proposals_redone(post, pre.naming.rename_rows@, post.naming.rename_rows@),
            None => post.naming.rename_rows == pre.naming.rename_rows
                && post.naming.suggestion_set is None,
        }
    })
    &&& (post == (AppState {
        naming: NamingState {
            suggestion_cursor: post.naming.suggestion_cursor,
            suggestion_set: post.naming.suggestion_set,
            rename_rows: post.naming.rename_rows,
            ..pre.naming
        },
        ..pre
    }))
}

/// What choosing option `k` for the row under the cursor does to `pre`, giving `post`.
pub open spec fn row_option_set(pre: AppState, post: AppState, k: usize) -> bool {
    &&& ({
        let rows = pre.naming.rename_rows@;
        let g = if k < 2 { k } else { 2 };
        let r = if pre.naming.rename_cursor < rows.len() { pre.naming.rename_cursor as int } else { rows.len() - 1 };
        match pre.naming.suggestion_set {
            Some(set) if rows.len() > 0 => {
                let ns = post.naming.suggestion_set->0;
                &&& post.naming.suggestion_set is Some
                &&& ns == (SuggestionSet { per_path_override_index: ns.per_path_override_index, ..set })
                &&& forall|p: Seq<char>| #[trigger] index_at(ns.per_path_override_index@, p) == (if p == rows[r].path@ {
                    Some(g)
                } else {
                    index_at(set.per_path_override_index@, p)
                })
                &&& proposals_redone(post, rows, post.naming.rename_rows@)
                &&& post == (AppState {
                    naming: NamingState {
                        suggestion_set: post.naming.suggestion_set,
                        rename_rows: post.naming.rename_rows,
                        ..pre.naming
                    },
                    ..pre
                })
            },
            _ => post == pre,
        }
    })
}

/// What dropping the option choice of the row under the cursor does to `pre`, giving `post`.
pub open spec fn row_option_cleared(pre: AppState, post: AppState) -> bool {
    &&& ({
        let rows = pre.naming.rename_rows@;
        let r = if pre.naming.rename_cursor < rows.len() { pre.naming.rename_cursor as int } else { rows.len() - 1 };
        match pre.naming.suggestion_set {
            Some(set) if rows.len() > 0 => {
                let ns = post.naming.suggestion_set->0;
                &&& post.naming.suggestion_set is Some
                &&& ns == (SuggestionSet { per_path_override_index: ns.per_path_override_index, ..set })
                &&& forall|p: Seq<char>| #[trigger] index_at(ns.per_path_override_index@, p) == (if p == rows[r].path@ {
                    None
                } else {
                    index_at(set.per_path_override_index@, p)
                })
                &&& proposals_redone(post, rows, post.naming.rename_rows@)
                &&& post == (AppState {
                    naming: NamingState {
                        suggestion_set: post.naming.suggestion_set,
                        rename_rows: post.naming.rename_rows,
                        ..pre.naming
                    },
                    ..pre
                })
            },
            _ => post == pre,
        }
    })
}

impl AppState {
    /// Uses the suggestion under the suggestion cursor (at most the third) as every file's
    /// default option, proposes names afresh and says which. Without that suggestion or
    /// without a suggestion set nothing changes.
    pub fn apply_suggestion(&mut self)
        requires
            old(self).wf(),
        ensures
            final(self).wf(),
            ({
                let c = old(self).naming.suggestion_cursor;
                match old(self).naming.suggestion_set {
                    Some(set) if c < old(self).naming.suggestions@.len() => {
                        let g = if c < 2 { c } else { 2 };
                        &&& final(self).naming.suggestion_set == Some(SuggestionSet { global_option_index: g, ..set })
                        &&& proposals_redone(
                            (AppState { naming: NamingState { suggestion_set: final(self).naming.suggestion_set, ..old(self).naming }, ..*old(self) }),
                            old(self).naming.rename_rows@,
                            final(self).naming.rename_rows@,
                        )
                        &&& final(self).log.toasts@.last().level == ToastLevel::Success
                        &&& final(self).log.toasts@.last().message@ == "Applied suggestion: "@ + old(self).naming.suggestions@[c as int]@
                        &&& *final(self) == (AppState {
                            naming: NamingState {
                                suggestion_set: final(self).naming.suggestion_set,
                                rename_rows: final(self).naming.rename_rows,
                                ..old(self).naming
                            },
                            log: final(self).log,
                            ..*old(self)
                        })
                    },
                    _ => *final(self) == *old(self),
                }
            }),
    {
        let c = self.naming.suggestion_cursor;
        if c >= self.naming.suggestions.len() {
            return;
        }
        let g = if c < 2 { c } else { 2 };
        match &mut self.naming.suggestion_set {
            Some(set) => {
                set.global_option_index = g;
            },
            None => {
                return;
            },
        }
        self.recompute_proposals();
        let msg = concat("Applied suggestion: ", self.naming.suggestions[c].as_str());
        self.push_toast(ToastLevel::Success, msg);
    }

    /// Moves the suggestion cursor to option `k` (at most the third) and, with a suggestion
    /// set, makes it every file's default and proposes names afresh.
    pub fn set_global_suggestion_option(&mut self, k: usize)
        requires
            old(self).wf(),
        ensures
            final(self).wf(),
            global_option_set(*old(self), *final(self), k),
    {
        let g = if k < 2 { k } else { 2 };
        self.naming.suggestion_cursor = g;
        let has = match &mut self.naming.suggestion_set {
            Some(set) => {
                set.global_option_index = g;
                true
            },
            None => false,
        };
        if has {
            self.recompute_proposals();
        }
    }

    /// Makes option `k` (at most the third) the choice of the row under the cursor (the
    /// last row when the cursor lies beyond) and proposes names afresh. Without rows or
    /// without a suggestion set nothing changes.
    pub fn set_row_suggestion_option(&mut self, k: usize)
        requires
            old(self).wf(),
        ensures
            final(self).wf(),
            row_option_set(*old(self), *final(self), k),
    {
        let g = if k < 2 { k } else { 2 };
        let n = self.naming.rename_rows.len();
        if n == 0 {
            return;
        }
        let r = if self.naming.rename_cursor < n { self.naming.rename_cursor } else { n - 1 };
        let path = self.naming.rename_rows[r].path.clone();
        let has = match &mut self.naming.suggestion_set {
            Some(set) => {
                set_index(&mut set.per_path_override_index, &path, g);
                true
            },
            None => false,
        };
        if has {
            self.recompute_proposals();
        }
    }

    /// Takes back the option chosen for the row under the cursor (the last row when the
    /// cursor lies beyond), so it follows the default again, and proposes names afresh.
    /// Without rows or without a suggestion set nothing changes.
    pub fn clear_row_suggestion_option(&mut self)
        requires
            old(self).wf(),
        ensures
            final(self).wf(),
            row_option_cleared(*old(self), *final(self)),
    {
        let n = self.naming.rename_rows.len();
        if n == 0 {
            return;
        }
        let r = if self.naming.rename_cursor < n { self.naming.rename_cursor } else { n - 1 };
        let path = self.naming.rename_rows[r].path.clone();
        let has = match &mut self.naming.suggestion_set {
            Some(set) => {
                remove_index(&mut set.per_path_override_index, &path);
                true
            },
            None => false,
        };
        if has {
            self.recompute_proposals();
        }
    }
}

} // verus!
