//! The event model: the closed set of normalized input and geometry events
//! that the foreground sends to the simulation host.

use vstd::prelude::*;

verus! {

/// A point or a displacement in whole surface units, `(x, y)`.
pub type Point = (i32, i32);

/// One normalized event.
///
/// The two components of a wheel delta are binary64 numbers. They are carried
/// through the library untouched, as their IEEE 754 bit patterns
/// (`f64::to_bits` and `f64::from_bits` convert).
#[derive(Clone, Copy, Debug, PartialEq, Eq)]
#[allow(inconsistent_fields)]
pub enum Event {
    /// The logical size of the surface changed.
    Resize { width: u32, height: u32 },
    /// The pointer entered the tracked surface.
    CursorEntered,
    /// The pointer left the tracked surface.
    CursorLeft,
    /// The pointer moved within the surface. `delta` is absent on the first
    /// sample that the surface tracker has seen.
    CursorMoved { delta: Option<Point>, position: Point },
    /// Raw pointer motion, tracked over the whole document.
    MouseMotion { delta: Point },
    /// Scroll input. `unit` is 0 for pixels and 1 for lines.
    MouseWheel { delta: (u64, u64), unit: u32 },
    /// A button went down (`pressed`) or up.
    MouseButton { pressed: bool, button: i16 },
}

/// The displacement from `from` to `to` on one axis, reduced into the range
/// of `i32` where the exact difference does not fit.
pub open spec fn axis_delta(from: i32, to: i32) -> i32 {
    let d = to - from;
    if d > i32::MAX {
        (d - 0x1_0000_0000) as i32
    } else if d < i32::MIN {
        (d + 0x1_0000_0000) as i32
    } else {
        d as i32
    }
}

/// The displacement from `from` to `to`, axis by axis.
pub open spec fn delta_between(from: Point, to: Point) -> Point {
    (axis_delta(from.0, to.0), axis_delta(from.1, to.1))
}

/// Whether the exact displacement from `from` to `to` fits in a `Point`.
pub open spec fn delta_is_exact(from: Point, to: Point) -> bool {
    &&& i32::MIN <= to.0 - from.0 <= i32::MAX
    &&& i32::MIN <= to.1 - from.1 <= i32::MAX
}

/// Where the exact displacement fits, `delta_between` is that displacement.
pub proof fn lemma_delta_exact(from: Point, to: Point)
    requires
        delta_is_exact(from, to),
    ensures
        delta_between(from, to).0 == to.0 - from.0,
        delta_between(from, to).1 == to.1 - from.1,
{
}

/// Computes the displacement from `from` to `to`.
pub fn displacement(from: Point, to: Point) -> (delta: Point)
    ensures
        delta == delta_between(from, to),
{
    (to.0.wrapping_sub(from.0), to.1.wrapping_sub(from.1))
}

} // verus!
