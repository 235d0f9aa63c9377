//! Screen rectangles, and the focus ring and click map that ratatui-interact keeps for the
//! planner.
use vstd::prelude::*;
use ratatui_interact::state::FocusManager;
use ratatui_interact::traits::ClickRegionRegistry;
use std::hash::Hash;
use crate::model::{ClickTarget, FocusPane};

verus! {

/// A rectangle of terminal cells. Built with `new`, its right and bottom edges fit in `u16`.
#[derive(Debug, Clone, Copy, PartialEq, Eq, Structural)]
pub struct Rect {
    pub x: u16,
    pub y: u16,
    pub width: u16,
    pub height: u16,
}

/// The right and bottom edges fit in `u16`.
pub open spec fn rect_wf(r: Rect) -> bool {
    r.x + r.width <= u16::MAX && r.y + r.height <= u16::MAX
}

/// Whether the cell at column `col`, row `row` lies inside `r`.
pub open spec fn rect_contains(r: Rect, col: u16, row: u16) -> bool {
    r.x <= col < r.x + r.width && r.y <= row < r.y + r.height
}

/// The width and height, shrunk where needed so that the edges fit in `u16`.
pub open spec fn clamp_extent(start: u16, extent: u16) -> u16 {
    if start + extent > u16::MAX {
        (u16::MAX - start) as u16
    } else {
        extent
    }
}

impl Rect {
    /// A rectangle at `(x, y)`; a width or height that would run past the last cell is
    /// shortened to end there.
    pub fn new(x: u16, y: u16, width: u16, height: u16) -> (r: Rect)
        ensures
            r == (Rect { x, y, width: clamp_extent(x, width), height: clamp_extent(y, height) }),
            rect_wf(r),
    {
        let w = if width > u16::MAX - x { u16::MAX - x } else { width };
        let h = if height > u16::MAX - y { u16::MAX - y } else { height };
        Rect { x, y, width: w, height: h }
    }
}

#[verifier::external_type_specification]
#[verifier::external_body]
#[verifier::reject_recursive_types(T)]
pub struct ExFocusManager<T: Clone + Eq + Hash>(FocusManager<T>);

#[verifier::external_type_specification]
#[verifier::external_body]
#[verifier::reject_recursive_types(T)]
pub struct ExClickRegionRegistry<T: Clone>(ClickRegionRegistry<T>);

/// `FocusManager`'s derived `clone`, which copies its fields; nothing is stated of the copy,
/// since the element type is generic.
pub assume_specification<T: Clone + Eq + Hash>[<FocusManager<T> as Clone>::clone](m: &FocusManager<T>) -> FocusManager<T>
    where
        T: Clone,
;

/// `ClickRegionRegistry`'s derived `clone`, which copies its list of regions; nothing is
/// stated of the copy, since the target type is generic.
pub assume_specification<T: Clone>[<ClickRegionRegistry<T> as Clone>::clone](r: &ClickRegionRegistry<T>) -> ClickRegionRegistry<T>
    where
        T: Clone,
;

/// The panes a focus ring holds, in registration order.
pub uninterp spec fn focus_elements(m: FocusManager<FocusPane>) -> Seq<FocusPane>;

/// The position of the focused pane in the ring, if any.
pub uninterp spec fn focus_index(m: FocusManager<FocusPane>) -> Option<usize>;

/// The pane a focus ring has focused.
pub open spec fn focus_current(m: FocusManager<FocusPane>) -> Option<FocusPane> {
    match focus_index(m) {
        Some(i) => if i < focus_elements(m).len() {
            Some(focus_elements(m)[i as int])
        } else {
            None
        },
        None => None,
    }
}

/// The regions a click map holds, in registration order, each as its rectangle and target.
pub uninterp spec fn click_regions_of(r: ClickRegionRegistry<ClickTarget>) -> Seq<(Rect, ClickTarget)>;

/// Wraps `FocusManager::new`: an empty ring with nothing focused.
#[verifier::external_body]
pub(crate) fn focus_new() -> (m: FocusManager<FocusPane>)
    ensures
        focus_elements(m) == Seq::<FocusPane>::empty(),
        focus_index(m) is None,
{
    FocusManager::new()
}

/// Wraps `FocusManager::clear`: the ring is emptied and nothing is focused.
#[verifier::external_body]
pub(crate) fn focus_clear(m: &mut FocusManager<FocusPane>)
    ensures
        focus_elements(*final(m)) == Seq::<FocusPane>::empty(),
        focus_index(*final(m)) is None,
{
    m.clear()
}

/// Wraps `FocusManager::register`: a pane not yet in the ring is appended, and focused when
/// nothing was; a pane already there changes nothing.
#[verifier::external_body]
pub(crate) fn focus_register(m: &mut FocusManager<FocusPane>, e: FocusPane)
    ensures
        focus_elements(*old(m)).contains(e) ==> *final(m) == *old(m),
        !focus_elements(*old(m)).contains(e) ==> focus_elements(*final(m)) == focus_elements(*old(m)).push(e)
            && focus_index(*final(m)) == (if focus_index(*old(m)) is None {
            Some(0usize)
        } else {
            focus_index(*old(m))
        }),
{
    m.register(e)
}

/// Wraps `FocusManager::set`: focuses the first position holding `e`; without one, nothing
/// changes.
#[verifier::external_body]
pub(crate) fn focus_set(m: &mut FocusManager<FocusPane>, e: FocusPane)
    ensures
        focus_elements(*final(m)) == focus_elements(*old(m)),
        focus_elements(*old(m)).contains(e) ==> (focus_index(*final(m)) matches Some(i) && i < focus_elements(
            *old(m),
        ).len() && focus_elements(*old(m))[i as int] == e && forall|j: int|
            0 <= j < i ==> focus_elements(*old(m))[j] != e),
        !focus_elements(*old(m)).contains(e) ==> focus_index(*final(m)) == focus_index(*old(m)),
{
    m.set(e)
}

/// Wraps `FocusManager::next`: with panes in the ring, focus moves one position on and wraps
/// from the last to the first (or goes to the first when nothing was focused); an empty ring
/// is left as it is.
#[verifier::external_body]
pub(crate) fn focus_next(m: &mut FocusManager<FocusPane>)
    requires
        focus_index(*old(m)) matches Some(i) ==> i < usize::MAX,
    ensures
        focus_elements(*final(m)) == focus_elements(*old(m)),
        focus_elements(*old(m)).len() == 0 ==> focus_index(*final(m)) == focus_index(*old(m)),
        focus_elements(*old(m)).len() > 0 ==> focus_index(*final(m)) == Some(
            match focus_index(*old(m)) {
                Some(i) => ((i + 1) % (focus_elements(*old(m)).len() as int)) as usize,
                None => 0usize,
            },
        ),
{
    m.next()
}

/// Wraps `FocusManager::prev`: with panes in the ring, focus moves one position back and
/// wraps from the first to the last (or goes to the first when nothing was focused); an
/// empty ring is left as it is.
#[verifier::external_body]
pub(crate) fn focus_prev(m: &mut FocusManager<FocusPane>)
    ensures
        focus_elements(*final(m)) == focus_elements(*old(m)),
        focus_elements(*old(m)).len() == 0 ==> focus_index(*final(m)) == focus_index(*old(m)),
        focus_elements(*old(m)).len() > 0 ==> focus_index(*final(m)) == Some(
            match focus_index(*old(m)) {
                Some(i) => if i == 0 {
                    (focus_elements(*old(m)).len() - 1) as usize
                } else {
                    (i - 1) as usize
                },
                None => 0usize,
            },
        ),
{
    m.prev()
}

/// Wraps `FocusManager::current`: the pane at the focused position, if it is in range.
#[verifier::external_body]
pub(crate) fn focus_current_of(m: &FocusManager<FocusPane>) -> (r: Option<FocusPane>)
    ensures
        r == focus_current(*m),
{
    m.current().copied()
}

/// Wraps `ClickRegionRegistry::new`: an empty map.
#[verifier::external_body]
pub(crate) fn clicks_new() -> (r: ClickRegionRegistry<ClickTarget>)
    ensures
        click_regions_of(r) == Seq::<(Rect, ClickTarget)>::empty(),
{
    ClickRegionRegistry::new()
}

/// Wraps `ClickRegionRegistry::clear`: every region is dropped.
#[verifier::external_body]
pub(crate) fn clicks_clear(r: &mut ClickRegionRegistry<ClickTarget>)
    ensures
        click_regions_of(*final(r)) == Seq::<(Rect, ClickTarget)>::empty(),
{
    r.clear()
}

/// Wraps `ClickRegionRegistry::register`: the region is appended. The rectangle is handed
/// over as the `Rect` of ratatui with the same cells.
#[verifier::external_body]
pub(crate) fn clicks_register(r: &mut ClickRegionRegistry<ClickTarget>, area: Rect, target: ClickTarget)
    requires
        rect_wf(area),
    ensures
        click_regions_of(*final(r)) == click_regions_of(*old(r)).push((area, target)),
{
    r.register(ratatui::layout::Rect::new(area.x, area.y, area.width, area.height), target)
}

/// Wraps `ClickRegionRegistry::handle_click`: the target of the first region, in
/// registration order, that holds the cell.
#[verifier::external_body]
pub(crate) fn clicks_handle(r: &ClickRegionRegistry<ClickTarget>, col: u16, row: u16) -> (t: Option<ClickTarget>)
    requires
        forall|i: int| 0 <= i < click_regions_of(*r).len() ==> rect_wf(#[trigger] click_regions_of(*r)[i].0),
    ensures
        t is None ==> forall|i: int|
            0 <= i < click_regions_of(*r).len() ==> !rect_contains(#[trigger] click_regions_of(*r)[i].0, col, row),
        t matches Some(x) ==> exists|i: int|
            0 <= i < click_regions_of(*r).len() && rect_contains(#[trigger] click_regions_of(*r)[i].0, col, row)
                && click_regions_of(*r)[i].1 == x && forall|j: int|
                0 <= j < i ==> !rect_contains(#[trigger] click_regions_of(*r)[j].0, col, row),
{
    r.handle_click(col, row).copied()
}

/// Wraps `ClickRegionRegistry::regions`: every region as its rectangle and target, in
/// registration order.
#[verifier::external_body]
pub(crate) fn clicks_regions(r: &ClickRegionRegistry<ClickTarget>) -> (v: Vec<(Rect, ClickTarget)>)
    ensures
        v@ == click_regions_of(*r),
{
    r.regions().iter().map(|g| (Rect { x: g.area.x, y: g.area.y, width: g.area.width, height: g.area.height }, g.data)).collect()
}

} // verus!
