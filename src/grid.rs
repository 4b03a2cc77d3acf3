//! Integer boxes on the horizontal grid that indexes the scene.
use vstd::prelude::*;

verus! {

/// An axis-aligned box given by its edges: `min_x..=max_x` by `min_y..=max_y`.
#[derive(Clone, Copy, Debug, PartialEq, Eq, Structural)]
pub struct GridBox {
    pub min_x: i32,
    pub min_y: i32,
    pub max_x: i32,
    pub max_y: i32,
}

/// A region given by its left and top edge and its extent.
#[derive(Clone, Copy, Debug, PartialEq, Eq, Structural)]
pub struct GridRect {
    pub left: i32,
    pub top: i32,
    pub width: i32,
    pub height: i32,
}

pub open spec fn min_int(a: int, b: int) -> int {
    if a <= b { a } else { b }
}

pub open spec fn max_int(a: int, b: int) -> int {
    if a >= b { a } else { b }
}

/// The smallest box that holds both `a` and `b`.
pub open spec fn union_spec(a: GridBox, b: GridBox) -> GridBox {
    GridBox {
        min_x: min_int(a.min_x as int, b.min_x as int) as i32,
        min_y: min_int(a.min_y as int, b.min_y as int) as i32,
        max_x: max_int(a.max_x as int, b.max_x as int) as i32,
        max_y: max_int(a.max_y as int, b.max_y as int) as i32,
    }
}

/// `inner` lies within `outer`.
pub open spec fn encloses(outer: GridBox, inner: GridBox) -> bool {
    &&& outer.min_x <= inner.min_x
    &&& outer.min_y <= inner.min_y
    &&& inner.max_x <= outer.max_x
    &&& inner.max_y <= outer.max_y
}

/// `hull` is the smallest box that holds every box of `boxes`: it holds them
/// all, and each of its four edges is the edge of one of them.
pub open spec fn is_hull(hull: GridBox, boxes: Seq<GridBox>) -> bool {
    &&& forall|i: int| 0 <= i < boxes.len() ==> encloses(hull, #[trigger] boxes[i])
    &&& exists|i: int| 0 <= i < boxes.len() && (#[trigger] boxes[i]).min_x == hull.min_x
    &&& exists|i: int| 0 <= i < boxes.len() && (#[trigger] boxes[i]).min_y == hull.min_y
    &&& exists|i: int| 0 <= i < boxes.len() && (#[trigger] boxes[i]).max_x == hull.max_x
    &&& exists|i: int| 0 <= i < boxes.len() && (#[trigger] boxes[i]).max_y == hull.max_y
}

/// The floor of the midpoint of `lo` and `hi`.
pub open spec fn midpoint(lo: int, hi: int) -> int {
    (lo + hi) / 2
}

/// The sums that locate the center of `b` fit in an `i32`.
pub open spec fn center_fits(b: GridBox) -> bool {
    &&& i32::MIN <= b.min_x + b.max_x <= i32::MAX
    &&& i32::MIN <= b.min_y + b.max_y <= i32::MAX
}

/// Neither pair of edges of `b` is inverted.
pub open spec fn ordered(b: GridBox) -> bool {
    &&& b.min_x <= b.max_x
    &&& b.min_y <= b.max_y
}

impl GridBox {
    /// The smallest box that holds both `self` and `other`.
    pub fn union(self, other: GridBox) -> (r: GridBox)
        ensures
            r == union_spec(self, other),
            encloses(r, self),
            encloses(r, other),
    {
        GridBox {
            min_x: if self.min_x <= other.min_x { self.min_x } else { other.min_x },
            min_y: if self.min_y <= other.min_y { self.min_y } else { other.min_y },
            max_x: if self.max_x >= other.max_x { self.max_x } else { other.max_x },
            max_y: if self.max_y >= other.max_y { self.max_y } else { other.max_y },
        }
    }
}

impl GridRect {
    /// The region's right and bottom edges fit in an `i32` and its extent is not negative.
    pub open spec fn wf(self) -> bool {
        &&& 0 <= self.width
        &&& 0 <= self.height
        &&& self.left + self.width <= i32::MAX
        &&& self.top + self.height <= i32::MAX
    }

    /// The center of `b`, rounded down, lies in the region, edges included.
    pub open spec fn holds_center_of(self, b: GridBox) -> bool {
        let mx = midpoint(b.min_x as int, b.max_x as int);
        let my = midpoint(b.min_y as int, b.max_y as int);
        &&& self.left <= mx <= self.left + self.width
        &&& self.top <= my <= self.top + self.height
    }
}

} // verus!
