//! Placement of the popup next to the cursor.
use vstd::prelude::*;

verus! {

/// Cursor position in physical pixels. Off Windows the cursor cannot be
/// read, so a fixed point stands for it.
pub fn get_position() -> (r: (i32, i32))
    ensures
        r == (100i32, 100i32),
{
    (100, 100)
}

/// `(left, top, right, bottom)` of the monitor holding `cursor`. Off Windows,
/// a single 1920×1080 monitor stands for it.
pub fn get_monitor_rect(cursor: (i32, i32)) -> (r: (i32, i32, i32, i32))
    ensures
        r == (0i32, 0i32, 1920i32, 1080i32),
{
    (0, 0, 1920, 1080)
}

/// One axis of the placement: after the cursor by `offset`, or before it if
/// the popup would cross the far edge, then never before the near edge.
pub open spec fn place_axis(c: int, near: int, far: int, size: int, offset: int) -> int {
    let after = c + offset;
    let v = if after + size > far { c - size - offset } else { after };
    if v < near { near } else { v }
}

/// The arithmetic of one axis stays within `i32`.
pub open spec fn axis_fits(c: int, far: int, size: int, offset: int) -> bool {
    &&& i32::MIN <= c + offset <= i32::MAX
    &&& i32::MIN <= c + offset + size <= i32::MAX
    &&& c + offset + size > far ==> {
        &&& i32::MIN <= c - size <= i32::MAX
        &&& i32::MIN <= c - size - offset <= i32::MAX
    }
}

fn place(c: i32, near: i32, far: i32, size: i32, offset: i32) -> (r: i32)
    requires
        axis_fits(c as int, far as int, size as int, offset as int),
    ensures
        r == place_axis(c as int, near as int, far as int, size as int, offset as int),
{
    let mut v = c + offset;
    if v + size > far {
        v = c - size - offset;
    }
    if v < near { near } else { v }
}

/// Top-left corner of the popup so that it stays on the monitor holding the
/// cursor: `offset` after the cursor, flipped before it on an axis where it
/// would cross the right or bottom edge, and never left of or above the
/// monitor.
pub fn clamp_popup(
    cursor: (i32, i32),
    monitor: (i32, i32, i32, i32),
    size: (i32, i32),
    offset: (i32, i32),
) -> (r: (i32, i32))
    requires
        axis_fits(cursor.0 as int, monitor.2 as int, size.0 as int, offset.0 as int),
        axis_fits(cursor.1 as int, monitor.3 as int, size.1 as int, offset.1 as int),
    ensures
        r.0 == place_axis(
            cursor.0 as int,
            monitor.0 as int,
            monitor.2 as int,
            size.0 as int,
            offset.0 as int,
        ),
        r.1 == place_axis(
            cursor.1 as int,
            monitor.1 as int,
            monitor.3 as int,
            size.1 as int,
            offset.1 as int,
        ),
        r.0 >= monitor.0,
        r.1 >= monitor.1,
{
    let (cx, cy) = cursor;
    let (ml, mt, mr, mb) = monitor;
    let (pw, ph) = size;
    let (ox, oy) = offset;
    (place(cx, ml, mr, pw, ox), place(cy, mt, mb, ph, oy))
}

/// When the popup fits after the cursor and that spot is on the monitor, it
/// goes exactly there; when it does not fit but fits before the cursor, it
/// goes before, its far edge `offset` short of the cursor.
pub proof fn lemma_placement(c: int, near: int, far: int, size: int, offset: int)
    ensures
        c + offset + size <= far && c + offset >= near ==> place_axis(c, near, far, size, offset)
            == c + offset,
        c + offset + size > far && c - size - offset >= near ==> place_axis(
            c,
            near,
            far,
            size,
            offset,
        ) + size + offset == c,
        place_axis(c, near, far, size, offset) >= near,
{
}

} // verus!
