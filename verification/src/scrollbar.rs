//! The scrollbar of the Files list: where its thumb sits for a scroll position, and which
//! scroll position a click or drag on it asks for.
use vstd::prelude::*;
use crate::interact::{Rect, clamp_extent, rect_wf};

verus! {

/// The smaller of two integers.
pub open spec fn min_int(a: int, b: int) -> int {
    if a <= b {
        a
    } else {
        b
    }
}

/// A product that stops at `usize::MAX`.
pub open spec fn sat_mul(a: int, b: int) -> int {
    min_int(a * b, usize::MAX as int)
}

/// `usize::saturating_mul`, written out.
pub fn saturating_mul(a: usize, b: usize) -> (r: usize)
    ensures
        r == sat_mul(a as int, b as int),
{
    if b != 0 && a > usize::MAX / b {
        proof {
            assert(a * b > usize::MAX) by (nonlinear_arith)
                requires
                    b != 0,
                    a > usize::MAX / b,
            {
                assert(a >= usize::MAX / b + 1);
                assert(a * b >= (usize::MAX / b + 1) * b);
                assert((usize::MAX / b) * b + usize::MAX % b == usize::MAX);
            }
        }
        usize::MAX
    } else {
        proof {
            if b != 0 {
                assert(a * b <= usize::MAX) by (nonlinear_arith)
                    requires
                        b != 0,
                        a <= usize::MAX / b,
                {
                    assert(a * b <= (usize::MAX / b) * b);
                    assert((usize::MAX / b) * b + usize::MAX % b == usize::MAX);
                }
            }
        }
        a * b
    }
}

/// The scrollbar as last drawn: its track, its thumb, and the list lengths it stands for.
#[derive(Debug, Clone, Copy, PartialEq, Eq, Structural)]
pub struct ScopeFilesScrollbarGeometry {
    pub track_area: Rect,
    pub thumb_area: Rect,
    pub content_len: usize,
    pub viewport_len: usize,
    pub max_scroll: usize,
}

/// The thumb's height: the visible share of the track, at least one row and at most the
/// whole track.
pub open spec fn thumb_height_for(content_len: int, viewport_len: int, track_height: int) -> int {
    let raw = sat_mul(viewport_len, track_height) / content_len;
    min_int(if raw < 1 {
        1
    } else {
        raw
    }, track_height)
}

/// The thumb's offset from the top of the track for a scroll position: the position's
/// share of the largest scroll, rounded to the nearest row.
pub open spec fn thumb_top_for(scroll: int, max_scroll: int, max_thumb_top: int) -> int {
    if max_scroll == 0 || max_thumb_top == 0 {
        0
    } else {
        min_int(sat_mul(scroll, max_thumb_top) + max_scroll / 2, usize::MAX as int) / max_scroll
    }
}

/// The scrollbar for a list of `content_len` rows showing `viewport_len` at a time in the
/// track `track`, scrolled to `scroll` (pulled back to the largest scroll first), with that
/// scroll position; `None` when nothing needs scrolling or there is no room to draw.
pub open spec fn scrollbar_for(track: Rect, content_len: int, viewport_len: int, scroll: int) -> (
    Option<ScopeFilesScrollbarGeometry>,
    int,
) {
    if track.width == 0 || track.height == 0 || viewport_len == 0 || content_len == 0 {
        (None, scroll)
    } else {
        let viewport = min_int(viewport_len, content_len);
        if content_len <= viewport {
            (None, scroll)
        } else {
            let max_scroll = content_len - viewport;
            let s = min_int(scroll, max_scroll);
            let th = thumb_height_for(content_len, viewport, track.height as int);
            let top = thumb_top_for(s, max_scroll, track.height - th);
            (
                Some(
                    ScopeFilesScrollbarGeometry {
                        track_area: track,
                        thumb_area: Rect {
                            x: track.x,
                            y: (track.y + top) as u16,
                            width: track.width,
                            height: clamp_extent((track.y + top) as u16, th as u16),
                        },
                        content_len: content_len as usize,
                        viewport_len: viewport as usize,
                        max_scroll: max_scroll as usize,
                    },
                ),
                s,
            )
        }
    }
}

/// A laid-out scrollbar keeps the track it was laid out on.
pub proof fn lemma_scrollbar_track(track: Rect, content_len: int, viewport_len: int, scroll: int)
    ensures
        scrollbar_for(track, content_len, viewport_len, scroll).0 matches Some(g) ==> g.track_area == track,
{
}

/// Computes `scrollbar_for`.
pub fn compute_scrollbar(track: Rect, content_len: usize, viewport_len: usize, scroll: usize) -> (r: (
    Option<ScopeFilesScrollbarGeometry>,
    usize,
))
    requires
        rect_wf(track),
    ensures
        (r.0, r.1 as int) == scrollbar_for(track, content_len as int, viewport_len as int, scroll as int),
        r.0 matches Some(g) ==> rect_wf(g.thumb_area) && g.thumb_area.y + g.thumb_area.height <= track.y
            + track.height && g.max_scroll > 0,
{
    if track.width == 0 || track.height == 0 || viewport_len == 0 || content_len == 0 {
        return (None, scroll);
    }
    let viewport = if viewport_len < content_len {
        viewport_len
    } else {
        content_len
    };
    if content_len <= viewport {
        return (None, scroll);
    }
    let track_height = track.height as usize;
    let max_scroll = content_len - viewport;
    let s = if scroll < max_scroll {
        scroll
    } else {
        max_scroll
    };
    let raw = saturating_mul(viewport, track_height) / content_len;
    let mut th = if raw < 1 {
        1
    } else {
        raw
    };
    if th > track_height {
        th = track_height;
    }
    let max_thumb_top = track_height - th;
    let top = if max_scroll == 0 || max_thumb_top == 0 {
        0
    } else {
        let prod = saturating_mul(s, max_thumb_top);
        let num = if prod > usize::MAX - max_scroll / 2 {
            usize::MAX
        } else {
            prod + max_scroll / 2
        };
        proof {
            assert(num / max_scroll <= max_thumb_top) by (nonlinear_arith)
                requires
                    num <= s * max_thumb_top + max_scroll / 2,
                    s <= max_scroll,
                    max_scroll > 0,
                    max_thumb_top >= 0,
            {
                assert(s * max_thumb_top <= max_scroll * max_thumb_top);
                assert(num < max_scroll * max_thumb_top + max_scroll);
                assert(num < max_scroll * (max_thumb_top + 1));
                if num / max_scroll > max_thumb_top {
                    assert(num / max_scroll >= max_thumb_top + 1);
                    assert((num / max_scroll) * max_scroll >= (max_thumb_top + 1) * max_scroll);
                    assert((num / max_scroll) * max_scroll <= num);
                }
            }
        }
        num / max_scroll
    };
    assert(top + th <= track_height);
    let thumb_area = Rect::new(track.x, track.y + top as u16, track.width, th as u16);
    (
        Some(
            ScopeFilesScrollbarGeometry {
                track_area: track,
                thumb_area,
                content_len,
                viewport_len: viewport,
                max_scroll,
            },
        ),
        s,
    )
}

/// The scroll position that puts the thumb's top at `top_row`: the offset into the track,
/// held inside the range the thumb can move in, as a share of that range, rounded to the
/// nearest scroll position.
pub open spec fn scroll_for_top(g: ScopeFilesScrollbarGeometry, top_row: int) -> int {
    let max_thumb_top = g.track_area.height - g.thumb_area.height;
    if max_thumb_top <= 0 {
        0
    } else {
        let offset = if top_row <= g.track_area.y {
            0
        } else {
            min_int(top_row - g.track_area.y, max_thumb_top)
        };
        min_int((offset * g.max_scroll + max_thumb_top / 2) / max_thumb_top, g.max_scroll as int)
    }
}

impl ScopeFilesScrollbarGeometry {
    /// The scroll position for a thumb whose top row is `top_row`.
    pub fn scroll_for_thumb_top_row(&self, top_row: u16) -> (r: usize)
        ensures
            r == scroll_for_top(*self, top_row as int),
    {
        if self.thumb_area.height >= self.track_area.height {
            return 0;
        }
        let max_thumb_top = (self.track_area.height - self.thumb_area.height) as u64;
        let offset: u64 = if top_row <= self.track_area.y {
            0
        } else {
            let d = (top_row - self.track_area.y) as u64;
            if d < max_thumb_top {
                d
            } else {
                max_thumb_top
            }
        };
        let max_scroll = self.max_scroll as u128;
        assert(offset as u128 * max_scroll <= 0xFFFFu128 * 0xFFFF_FFFF_FFFF_FFFFu128) by (nonlinear_arith)
            requires
                offset <= 0xFFFF,
                max_scroll <= 0xFFFF_FFFF_FFFF_FFFF,
        ;
        let num: u128 = offset as u128 * max_scroll + (max_thumb_top / 2) as u128;
        let q: u128 = num / max_thumb_top as u128;
        if q < max_scroll {
            q as usize
        } else {
            self.max_scroll
        }
    }

    /// The scroll position for a click on track row `row`: the one that centres the thumb on
    /// the row, as far as the track allows.
    pub fn scroll_for_track_row_centered(&self, row: u16) -> (r: usize)
        ensures
            r == scroll_for_top(
                *self,
                if row < self.thumb_area.height / 2 {
                    0
                } else {
                    row - self.thumb_area.height / 2
                },
            ),
    {
        let half = self.thumb_area.height / 2;
        let top = if row < half {
            0
        } else {
            row - half
        };
        self.scroll_for_thumb_top_row(top)
    }
}

/// A click above the track scrolls to the top, one below it to the bottom.
pub proof fn lemma_track_ends(g: ScopeFilesScrollbarGeometry, top_row: int)
    requires
        g.thumb_area.height < g.track_area.height,
    ensures
        top_row <= g.track_area.y ==> scroll_for_top(g, top_row) == 0,
        top_row >= g.track_area.y + g.track_area.height - g.thumb_area.height ==> scroll_for_top(g, top_row)
            == g.max_scroll,
{
    let m = g.track_area.height - g.thumb_area.height;
    assert(((0 * g.max_scroll) + m / 2) / m == 0) by (nonlinear_arith)
        requires
            m > 0,
    ;
    if top_row >= g.track_area.y + m && top_row > g.track_area.y {
        assert((m * g.max_scroll + m / 2) / m >= g.max_scroll) by (nonlinear_arith)
            requires
                m > 0,
                g.max_scroll >= 0,
        {
            assert(m * g.max_scroll + m / 2 >= g.max_scroll * m);
        }
    }
}

} // verus!
