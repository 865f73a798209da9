//! Input-to-intent mapping.
//!
//! Held directional keys become a movement intent by summing unit
//! contributions per axis, without renormalizing: holding two diagonal
//! keys yields a vector of magnitude sqrt 2, as the simulation expects.

use vstd::prelude::*;

verus! {

/// A per-tick movement intent in the plane, one unit per held key.
#[derive(Clone, Copy, Debug, PartialEq, Eq, Structural)]
pub struct MoveIntent {
    pub x: i64,
    pub y: i64,
}

/// Sums the unit contribution of each held directional key:
/// left is `-x`, right `+x`, up `+y`, down `-y`.
pub fn movement_intent(left: bool, right: bool, up: bool, down: bool) -> (v: MoveIntent)
    ensures
        v.x == (if right { 1int } else { 0int }) - (if left { 1int } else { 0int }),
        v.y == (if up { 1int } else { 0int }) - (if down { 1int } else { 0int }),
{
    let mut x: i64 = 0;
    let mut y: i64 = 0;
    if left {
        x = x - 1;
    }
    if right {
        x = x + 1;
    }
    if up {
        y = y + 1;
    }
    if down {
        y = y - 1;
    }
    MoveIntent { x, y }
}

} // verus!
