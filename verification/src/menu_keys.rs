//! The keys a menu reads in one frame, and how a cursor follows them.
use vstd::prelude::*;

verus! {

/// The menu keys that went down this frame.
#[derive(Debug, Clone, Copy, PartialEq, Eq, Default)]
pub struct KeyPresses {
    pub up: bool,
    pub down: bool,
    pub left: bool,
    pub right: bool,
    pub confirm: bool,
    pub cancel: bool,
    /// The key that opens the field menu.
    pub menu: bool,
}

/// A cursor over `count` entries that stops at both ends: up first, then
/// down.
pub open spec fn clamped_cursor(cursor: usize, count: int, up: bool, down: bool) -> usize {
    let c1: usize = if up && cursor > 0 { (cursor - 1) as usize } else { cursor };
    if down && c1 < count - 1 { (c1 + 1) as usize } else { c1 }
}

/// A cursor over `count` entries that wraps around at both ends: back
/// first, then forward.
pub open spec fn wrapped_cursor(cursor: usize, count: int, back: bool, forward: bool) -> usize {
    let c1: usize = if back {
        if cursor > 0 { (cursor - 1) as usize } else { (count - 1) as usize }
    } else {
        cursor
    };
    if forward {
        if c1 < count - 1 { (c1 + 1) as usize } else { 0 }
    } else {
        c1
    }
}

/// Moves a cursor that stops at both ends.
pub fn move_clamped(cursor: usize, count: usize, up: bool, down: bool) -> (r: usize)
    requires
        count > 0,
        cursor < count,
    ensures
        r == clamped_cursor(cursor, count as int, up, down),
        r < count,
{
    let mut c = cursor;
    if up && c > 0 {
        c = c - 1;
    }
    if down && c < count - 1 {
        c = c + 1;
    }
    c
}

/// Moves a cursor that wraps around at both ends.
pub fn move_wrapped(cursor: usize, count: usize, back: bool, forward: bool) -> (r: usize)
    requires
        count > 0,
        cursor < count,
    ensures
        r == wrapped_cursor(cursor, count as int, back, forward),
        r < count,
{
    let mut c = cursor;
    if back {
        c = if c > 0 { c - 1 } else { count - 1 };
    }
    if forward {
        c = if c < count - 1 { c + 1 } else { 0 };
    }
    c
}

} // verus!
