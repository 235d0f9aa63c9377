//! Where panes, popups and tab strips sit on the screen, as rectangles of cells.
use vstd::prelude::*;
use crate::interact::{Rect, clamp_extent, rect_wf};
use crate::model::{ClickTarget, FileTree};
use crate::state::{AppState, FilesState, NamingState, tree_backed};

verus! {

/// `a * b`, stopping at the largest `u16`.
pub open spec fn mul_sat16(a: u16, b: u16) -> u16 {
    if a * b > u16::MAX { u16::MAX } else { (a * b) as u16 }
}

/// The rectangle that `Rect::new` builds from these corner and extent values.
pub open spec fn rect_of(x: u16, y: u16, width: u16, height: u16) -> Rect {
    Rect { x, y, width: clamp_extent(x, width), height: clamp_extent(y, height) }
}

/// The inside of a bordered pane: one cell in from each edge.
pub open spec fn inner_of(area: Rect) -> Rect {
    rect_of(
        area.x.saturating_add(1),
        area.y.saturating_add(1),
        area.width.saturating_sub(2),
        area.height.saturating_sub(2),
    )
}

/// Computes `inner_of`.
pub fn inner_rect(area: Rect) -> (r: Rect)
    ensures
        r == inner_of(area),
        rect_wf(r),
{
    Rect::new(
        area.x.saturating_add(1),
        area.y.saturating_add(1),
        area.width.saturating_sub(2),
        area.height.saturating_sub(2),
    )
}

/// A popup of `width_pct` and `height_pct` percent of `area`, centered in it, at least one
/// cell wide and high.
pub open spec fn centered_of(area: Rect, width_pct: u16, height_pct: u16) -> Rect {
    let width = (mul_sat16(area.width, width_pct) / 100) as u16;
    let height = (mul_sat16(area.height, height_pct) / 100) as u16;
    let x = (area.x + area.width.saturating_sub(width) / 2) as u16;
    let y = (area.y + area.height.saturating_sub(height) / 2) as u16;
    rect_of(x, y, if width >= 1 { width } else { 1 }, if height >= 1 { height } else { 1 })
}

fn mul_sat(a: u16, b: u16) -> (r: u16)
    ensures
        r == mul_sat16(a, b),
{
    assert((a as int) * (b as int) <= 65535 * 65535) by (nonlinear_arith)
        requires
            a <= 65535,
            b <= 65535,
    ;
    let p = (a as u32) * (b as u32);
    if p > 65535 { 65535 } else { p as u16 }
}

/// Computes `centered_of` for an area whose edges fit in `u16`.
pub fn center(area: Rect, width_pct: u16, height_pct: u16) -> (r: Rect)
    requires
        rect_wf(area),
    ensures
        r == centered_of(area, width_pct, height_pct),
        rect_wf(r),
{
    let width = mul_sat(area.width, width_pct) / 100;
    let height = mul_sat(area.height, height_pct) / 100;
    let x = area.x + area.width.saturating_sub(width) / 2;
    let y = area.y + area.height.saturating_sub(height) / 2;
    Rect::new(x, y, if width >= 1 { width } else { 1 }, if height >= 1 { height } else { 1 })
}

/// The width of each of `count` equal segments of `width` cells, at least one.
pub open spec fn chunk_width(width: u16, count: int) -> int {
    if width as int / count >= 1 { width as int / count } else { 1 }
}

/// Segment `idx` of `count` side by side across `area`: each `chunk_width` wide, the last
/// one taking what is left up to the right edge.
pub open spec fn segment_of(area: Rect, count: int, idx: int) -> Rect {
    let chunk = chunk_width(area.width, count);
    let x = area.x + idx * chunk;
    let width = if idx == count - 1 { area.x + area.width - x } else { chunk };
    rect_of(x as u16, area.y, width as u16, if area.height >= 1 { area.height } else { 1 })
}

/// Splits `area` into `count` segments side by side, as `segment_of` places them; `count`
/// is at most one more than the width, so every segment starts inside the area or at its
/// right edge.
pub fn segment_rects(area: Rect, count: usize) -> (r: Vec<Rect>)
    requires
        rect_wf(area),
        count <= area.width + 1,
        count <= u16::MAX,
    ensures
        r@.len() == count,
        forall|i: int| 0 <= i < count ==> #[trigger] r@[i] == segment_of(area, count as int, i),
{
    let mut out: Vec<Rect> = Vec::new();
    if count == 0 {
        return out;
    }
    let c = count as u16;
    assert(c == count);
    let q = area.width / c;
    let chunk: u16 = if q >= 1 { q } else { 1 };
    assert(chunk == chunk_width(area.width, count as int));
    proof {
        let w = area.width as int;
        let n = count as int;
        assert((n - 1) * chunk <= w) by (nonlinear_arith)
            requires
                n >= 1,
                n <= w + 1,
                chunk == (if w / n >= 1 { w / n } else { 1 }),
        {
            if w / n >= 1 {
                assert((n - 1) * (w / n) <= n * (w / n));
                assert(n * (w / n) <= w);
            }
        }
    }
    let mut idx: usize = 0;
    while idx < count
        invariant
            rect_wf(area),
            1 <= count <= area.width + 1,
            chunk == chunk_width(area.width, count as int),
            (count - 1) * chunk <= area.width,
            idx <= count,
            out@.len() == idx,
            forall|i: int| 0 <= i < idx ==> #[trigger] out@[i] == segment_of(area, count as int, i),
        decreases count - idx,
    {
        assert(idx * chunk <= (count - 1) * chunk) by (nonlinear_arith)
            requires
                idx <= count - 1,
                chunk >= 1,
        ;
        let x = area.x + (idx as u16) * chunk;
        let width = if idx == count - 1 { area.x + area.width - x } else { chunk };
        let h = if area.height >= 1 { area.height } else { 1 };
        let rect = Rect::new(x, area.y, width, h);
        out.push(rect);
        idx += 1;
    }
    out
}

/// The first row shown of a list `height` rows high, moved as little as needed so that the
/// cursor's row is shown.
pub open spec fn scrolled_into_view(cursor: int, scroll: int, height: int) -> int {
    if cursor < scroll {
        cursor
    } else if height > 0 && cursor >= scroll + height {
        cursor + 1 - height
    } else {
        scroll
    }
}

/// Computes `scrolled_into_view`.
pub fn scroll_into_view(cursor: usize, scroll: usize, height: usize) -> (r: usize)
    ensures
        r == scrolled_into_view(cursor as int, scroll as int, height as int),
{
    if cursor < scroll {
        cursor
    } else if height > 0 && cursor - scroll >= height {
        cursor - (height - 1)
    } else {
        scroll
    }
}

impl AppState {
    /// Scrolls the Files list, `height` rows high, so the cursor's row is shown; with no
    /// rows to show, cursor and scroll go to the top.
    pub fn keep_files_cursor_in_view(&mut self, row_count: usize, height: usize)
        requires
            old(self).wf(),
        ensures
            final(self).wf(),
            *final(self) == (AppState {
                files: FilesState {
                    tree: FileTree {
                        cursor: if row_count == 0 { 0 } else { old(self).files.tree.cursor },
                        scroll: if row_count == 0 {
                            0
                        } else {
                            scrolled_into_view(old(self).files.tree.cursor as int, old(self).files.tree.scroll as int, height as int) as usize
                        },
                        ..old(self).files.tree
                    },
                    ..old(self).files
                },
                ..*old(self)
            }),
    {
        let ghost before = *self;
        if row_count == 0 {
            self.files.tree.cursor = 0;
            self.files.tree.scroll = 0;
        } else {
            self.files.tree.scroll = scroll_into_view(self.files.tree.cursor, self.files.tree.scroll, height);
        }
        proof {
            assert(self.files.tree.nodes == before.files.tree.nodes && self.files.tree.root == before.files.tree.root);
            assert(tree_backed(self.files.tree, self.io_log, self.files.show_hidden));
        }
    }

    /// Scrolls the rename table, `height` rows high, so the cursor's row is shown.
    pub fn keep_rename_cursor_in_view(&mut self, height: usize)
        ensures
            *final(self) == (AppState {
                naming: NamingState {
                    rename_scroll: scrolled_into_view(
                        old(self).naming.rename_cursor as int,
                        old(self).naming.rename_scroll as int,
                        height as int,
                    ) as usize,
                    ..old(self).naming
                },
                ..*old(self)
            }),
    {
        self.naming.rename_scroll = scroll_into_view(self.naming.rename_cursor, self.naming.rename_scroll, height);
    }
}

/// The click regions of the Files row `idx`, drawn on line `y` of `area` after `indent`
/// cells of indentation: the indentation and the text after the checkbox pick the row, the
/// checkbox's four cells (fewer at the right edge) toggle it.
pub open spec fn file_row_regions_of(area: Rect, y: u16, indent: u16, idx: usize) -> Seq<(Rect, ClickTarget)> {
    let w = area.width;
    let start = if indent < w { indent } else { w };
    let check = if start < w { if w - start < 4 { (w - start) as u16 } else { 4u16 } } else { 0u16 };
    let after = (start + check) as u16;
    let lead = if start > 0 { seq![(rect_of(area.x, y, start, 1), ClickTarget::ScopeFileRow(idx))] } else { seq![] };
    let boxed = if check > 0 {
        seq![(rect_of((area.x + start) as u16, y, check, 1), ClickTarget::ScopeFileCheckbox(idx))]
    } else {
        seq![]
    };
    let rest = if after < w {
        seq![(rect_of((area.x + after) as u16, y, (w - after) as u16, 1), ClickTarget::ScopeFileRow(idx))]
    } else {
        seq![]
    };
    lead + boxed + rest
}

/// Computes `file_row_regions_of` for an area whose edges fit in `u16`.
pub fn file_row_regions(area: Rect, y: u16, indent: u16, idx: usize) -> (r: Vec<(Rect, ClickTarget)>)
    requires
        rect_wf(area),
    ensures
        r@ == file_row_regions_of(area, y, indent, idx),
{
    let w = area.width;
    let start = if indent < w { indent } else { w };
    let check: u16 = if start < w { if w - start < 4 { w - start } else { 4 } } else { 0 };
    let after = start + check;
    let mut out: Vec<(Rect, ClickTarget)> = Vec::new();
    if start > 0 {
        out.push((Rect::new(area.x, y, start, 1), ClickTarget::ScopeFileRow(idx)));
    }
    if check > 0 {
        out.push((Rect::new(area.x + start, y, check, 1), ClickTarget::ScopeFileCheckbox(idx)));
    }
    if after < w {
        out.push((Rect::new(area.x + after, y, w - after, 1), ClickTarget::ScopeFileRow(idx)));
    }
    assert(out@ =~= file_row_regions_of(area, y, indent, idx));
    out
}

/// The click regions of the rename row `idx` on line `y` of `area`: the whole line picks
/// the row; when the line is at least fourteen cells wide, three four-cell buttons starting
/// fourteen cells from its right edge pick the row's first, second and third option.
pub open spec fn naming_row_regions_of(area: Rect, y: u16, idx: usize) -> Seq<(Rect, ClickTarget)> {
    let row = seq![(rect_of(area.x, y, area.width, 1), ClickTarget::NamingRow(idx))];
    if area.width >= 14 {
        let start = (area.x + area.width - 14) as u16;
        row + Seq::new(3, |k: int| (
            rect_of((start + 4 * k) as u16, y, 4, 1),
            ClickTarget::NamingRowSuggestionOption { row_index: idx, option_index: k as usize },
        ))
    } else {
        row
    }
}

/// Computes `naming_row_regions_of` for an area whose edges fit in `u16`.
pub fn naming_row_regions(area: Rect, y: u16, idx: usize) -> (r: Vec<(Rect, ClickTarget)>)
    requires
        rect_wf(area),
    ensures
        r@ == naming_row_regions_of(area, y, idx),
{
    let mut out: Vec<(Rect, ClickTarget)> = Vec::new();
    out.push((Rect::new(area.x, y, area.width, 1), ClickTarget::NamingRow(idx)));
    if area.width >= 14 {
        let start = area.x + (area.width - 14);
        let mut k: usize = 0;
        while k < 3
            invariant
                rect_wf(area),
                area.width >= 14,
                start == area.x + area.width - 14,
                k <= 3,
                out@.len() == k + 1,
                out@[0] == (rect_of(area.x, y, area.width, 1), ClickTarget::NamingRow(idx)),
                forall|j: int| 0 <= j < k ==> #[trigger] out@[j + 1] == (
                    rect_of((start + 4 * j) as u16, y, 4, 1),
                    ClickTarget::NamingRowSuggestionOption { row_index: idx, option_index: j as usize },
                ),
            decreases 3 - k,
        {
            let x = start + 4 * (k as u16);
            out.push((Rect::new(x, y, 4, 1), ClickTarget::NamingRowSuggestionOption { row_index: idx, option_index: k }));
            k += 1;
        }
        let ghost want = naming_row_regions_of(area, y, idx);
        assert(want.len() == 4);
        assert forall|j: int| 0 <= j < 4 implies out@[j] == want[j] by {
            if j > 0 {
                let i = j - 1;
                assert(out@[i + 1] == (
                    rect_of((start + 4 * i) as u16, y, 4, 1),
                    ClickTarget::NamingRowSuggestionOption { row_index: idx, option_index: i as usize },
                ));
            }
        }
        assert(out@ =~= want);
    }
    out
}

/// How the Files list fills `area` for `row_count` rows: the last line is left free, so a
/// page is one line shorter than the area; when the rows do not fit and there is room, the
/// rightmost column holds a scrollbar. `None` when no row fits.
pub open spec fn files_list_of(area: Rect, row_count: int) -> Option<(Rect, int, bool)> {
    let page = area.height - 1;
    if page <= 0 || area.width == 0 {
        None
    } else {
        let bar = row_count > page && area.width > 1;
        let rows = if bar { Rect { width: (area.width - 1) as u16, ..area } } else { area };
        Some((rows, page, bar))
    }
}

/// Computes `files_list_of`: the rows' area, the page height and whether a scrollbar shows.
pub fn files_list_layout(area: Rect, row_count: usize) -> (r: Option<(Rect, usize, bool)>)
    ensures
        match r {
            Some((rows, page, bar)) => files_list_of(area, row_count as int) == Some((rows, page as int, bar)),
            None => files_list_of(area, row_count as int) is None,
        },
{
    if area.height <= 1 || area.width == 0 {
        return None;
    }
    let page = (area.height - 1) as usize;
    let bar = row_count > page && area.width > 1;
    let rows = if bar { Rect { width: area.width - 1, ..area } } else { area };
    Some((rows, page, bar))
}

/// The two columns of the category table on a line `width` cells wide (at least eight):
/// the name column takes 36 percent, held between eight cells and the whole line; the
/// extensions column gets what is left after a two-cell gap.
pub open spec fn category_columns_of(width: int) -> (int, int) {
    let pct = width * 36 / 100;
    let left = if pct < 8 { 8 } else if pct > width { width } else { pct };
    let right = if width - left - 2 > 0 { width - left - 2 } else { 0 };
    (left, right)
}

/// Computes `category_columns_of`.
pub fn category_columns(width: u16) -> (r: (usize, usize))
    requires
        width >= 8,
    ensures
        (r.0 as int, r.1 as int) == category_columns_of(width as int),
{
    let w = width as usize;
    let pct = w * 36 / 100;
    let left = if pct < 8 { 8 } else if pct > w { w } else { pct };
    let right = if w >= left + 2 { w - left - 2 } else { 0 };
    (left, right)
}

} // verus!
