//! The calls into ratatui's layout geometry. Nothing here is proved: each
//! contract restates what the called function computes.

use crate::grid::{Area, Position};
use ratatui::layout::{Margin, Rect};
use vstd::prelude::*;

verus! {

/// `ratatui::style::Color`, carried from the caller to the renderer unread.
#[verifier::external_type_specification]
#[verifier::external_body]
pub struct ExColor(ratatui::style::Color);

/// Calls `Rect::inner`. It gives the empty rectangle at the origin where a
/// doubled margin exceeds the extent, and otherwise moves the corner in by a
/// margin and takes the doubled margin off the extent; sums stop at `u16::MAX`.
#[verifier::external_body]
pub(crate) fn inner(area: Area, horizontal: u16, vertical: u16) -> (shrunk: Area)
    ensures
        shrunk == area.inner(horizontal, vertical),
{
    let rect = Rect { x: area.x, y: area.y, width: area.width, height: area.height };
    let rect = rect.inner(Margin { horizontal, vertical });
    Area { x: rect.x, y: rect.y, width: rect.width, height: rect.height }
}

/// Calls `Rect::contains`. It holds for the cells from the corner up to, and
/// without, the right and bottom edges, which stop at `u16::MAX`.
#[verifier::external_body]
pub(crate) fn contains(area: Area, cell: Position) -> (inside: bool)
    ensures
        inside == area.contains(cell),
{
    let rect = Rect { x: area.x, y: area.y, width: area.width, height: area.height };
    rect.contains(ratatui::layout::Position { x: cell.x, y: cell.y })
}

/// Calls `Rect::positions` and collects what it yields: the cells in row-major
/// order. Left out are a rectangle without columns, for which the iterator
/// still yields one cell per row, and one whose edges pass `u16::MAX`, on
/// which its counters overflow.
#[verifier::external_body]
pub(crate) fn positions(area: Area) -> (cells: Vec<Position>)
    requires
        area.width > 0,
        area.x + area.width <= u16::MAX,
        area.y + area.height <= u16::MAX,
    ensures
        cells@ == area.cells(),
{
    let rect = Rect { x: area.x, y: area.y, width: area.width, height: area.height };
    rect.positions().map(|cell| Position { x: cell.x, y: cell.y }).collect()
}

} // verus!
