//! Overlap of axis-aligned boxes that are anchored at the centre of their
//! bottom edge.

use vstd::prelude::*;

verus! {

/// A box: `x` is the centre of its bottom edge and `y` the height of that
/// edge, so the box spans `[x - half_width, x + half_width]` by
/// `[y, y + height]`.
#[derive(Clone, Copy, Debug, PartialEq, Eq, Structural)]
pub struct Bounds {
    pub x: i64,
    pub y: i64,
    pub half_width: u32,
    pub height: u32,
}

impl Bounds {
    /// The left edge.
    pub open spec fn left(self) -> int {
        self.x - self.half_width
    }

    /// The right edge.
    pub open spec fn right(self) -> int {
        self.x + self.half_width
    }

    /// The bottom edge.
    pub open spec fn bottom(self) -> int {
        self.y as int
    }

    /// The top edge.
    pub open spec fn top(self) -> int {
        self.y + self.height
    }

    /// The point `(px, py)`, given in halves of a micro-pixel, lies inside
    /// the box and not on its border.
    pub open spec fn holds_inside(self, px: int, py: int) -> bool {
        2 * self.left() < px < 2 * self.right() && 2 * self.bottom() < py < 2 * self.top()
    }
}

/// Two boxes overlap when each begins before the other ends, on both axes.
/// Boxes that only touch along an edge or at a corner do not overlap.
pub open spec fn overlap(a: Bounds, b: Bounds) -> bool {
    &&& a.left() < b.right()
    &&& a.right() > b.left()
    &&& a.bottom() < b.top()
    &&& a.top() > b.bottom()
}

/// Whether the boxes `a` and `b` overlap.
pub fn overlaps(a: &Bounds, b: &Bounds) -> (hit: bool)
    ensures
        hit == overlap(*a, *b),
{
    let a_left: i128 = a.x as i128 - a.half_width as i128;
    let a_right: i128 = a.x as i128 + a.half_width as i128;
    let a_top: i128 = a.y as i128 + a.height as i128;
    let b_left: i128 = b.x as i128 - b.half_width as i128;
    let b_right: i128 = b.x as i128 + b.half_width as i128;
    let b_top: i128 = b.y as i128 + b.height as i128;
    a_left < b_right && a_right > b_left && (a.y as i128) < b_top && a_top > b.y as i128
}

/// Overlap does not depend on the order of the two boxes.
pub proof fn lemma_overlap_symmetric(a: Bounds, b: Bounds)
    ensures
        overlap(a, b) == overlap(b, a),
{
}

/// Two boxes of positive width and height overlap exactly when some point
/// lies inside both: any common inner point counts, however small the
/// intersection, and a common border alone does not.
pub proof fn lemma_overlap_is_shared_inside(a: Bounds, b: Bounds)
    requires
        a.half_width > 0 && a.height > 0,
        b.half_width > 0 && b.height > 0,
    ensures
        overlap(a, b) <==> exists|px: int, py: int|
            #[trigger] a.holds_inside(px, py) && b.holds_inside(px, py),
{
    if overlap(a, b) {
        let px = if a.left() < b.left() {
            2 * b.left() + 1
        } else {
            2 * a.left() + 1
        };
        let py = if a.bottom() < b.bottom() {
            2 * b.bottom() + 1
        } else {
            2 * a.bottom() + 1
        };
        assert(a.holds_inside(px, py) && b.holds_inside(px, py));
    }
}

} // verus!
