//! Distance tracker: turns successive absolute cursor positions into
//! incremental squared Euclidean distances.
//!
//! The tracker keeps the last seen position and, for every move event,
//! reports the exact squared pixel distance to the new position. Taking the
//! square root and accumulating the (floating-point) travel distance is left
//! to the caller, as is the pixel-to-meter conversion at report time.
//!
//! The initial previous position is the origin, so the very first move
//! yields the distance from the origin to the real cursor position. This
//! cold-start artifact is deliberate, documented behaviour.

use vstd::prelude::*;

verus! {

/// Squared Euclidean distance between two points, as exact integers.
pub open spec fn squared_distance(x0: int, y0: int, x1: int, y1: int) -> int {
    (x1 - x0) * (x1 - x0) + (y1 - y0) * (y1 - y0)
}

/// Last-known absolute cursor position, owned by the movement listener.
/// It is not shared with the reporters and is never reset by a report.
pub struct CursorTracker {
    last_x: i32,
    last_y: i32,
}

impl CursorTracker {
    /// The x coordinate of the last recorded position.
    pub closed spec fn last_x(&self) -> int {
        self.last_x as int
    }

    /// The y coordinate of the last recorded position.
    pub closed spec fn last_y(&self) -> int {
        self.last_y as int
    }

    /// A fresh tracker assumes the cursor starts at the origin.
    pub fn new() -> (t: CursorTracker)
        ensures
            t.last_x() == 0,
            t.last_y() == 0,
    {
        CursorTracker { last_x: 0, last_y: 0 }
    }

    /// Record a move to the absolute position `(x, y)`: returns the exact
    /// squared pixel distance from the previously recorded position and
    /// makes `(x, y)` the new previous position.
    pub fn step(&mut self, x: i32, y: i32) -> (sq: u128)
        ensures
            sq == squared_distance(old(self).last_x(), old(self).last_y(), x as int, y as int),
            final(self).last_x() == x as int,
            final(self).last_y() == y as int,
    {
        let dx: i128 = x as i128 - self.last_x as i128;
        let dy: i128 = y as i128 - self.last_y as i128;
        proof {
            lemma_square_bound(dx as int);
            lemma_square_bound(dy as int);
        }
        let sq: i128 = dx * dx + dy * dy;
        self.last_x = x;
        self.last_y = y;
        sq as u128
    }
}

/// For a difference of two 32-bit coordinates, the square is non-negative
/// and comfortably below the 128-bit limits.
proof fn lemma_square_bound(d: int)
    requires
        -0x1_0000_0000 <= d <= 0x1_0000_0000,
    ensures
        0 <= d * d <= 0x1_0000_0000_0000_0000,
{
    assert(0 <= d * d <= 0x1_0000_0000 * 0x1_0000_0000) by (nonlinear_arith)
        requires
            -0x1_0000_0000 <= d <= 0x1_0000_0000,
    ;
}

} // verus!
