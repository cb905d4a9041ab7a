//! How much two rectangles, both anchored at the same corner, fail to overlap.

use vstd::prelude::*;
use crate::vector2::Vector2;

verus! {

/// The smaller of two integers.
pub open spec fn min_int(a: int, b: int) -> int {
    if a <= b {
        a
    } else {
        b
    }
}

/// The area of the overlap of two rectangles of sizes `a` and `b` that share a corner.
pub open spec fn overlap_area(ax: int, ay: int, bx: int, by: int) -> int {
    min_int(ax, bx) * min_int(ay, by)
}

/// The area of the symmetric difference of two rectangles of sizes `a` and `b` that share a
/// corner: what lies in exactly one of them.
pub open spec fn symmetric_area(ax: int, ay: int, bx: int, by: int) -> int {
    ax * ay + bx * by - 2 * overlap_area(ax, ay, bx, by)
}

/// The two parts of a set difference: what lies in `self` but not in `other`, and what lies in
/// `other` but not in `self`.
pub trait SetDifference: Sized {
    type Output;

    /// When `set_difference` can be computed without overflow.
    spec fn set_difference_req(self, other: Self) -> bool;

    /// The value `set_difference` returns.
    spec fn spec_set_difference(self, other: Self) -> (Self::Output, Self::Output);

    fn set_difference(self, other: Self) -> (r: (Self::Output, Self::Output))
        requires
            self.set_difference_req(other),
        ensures
            r == self.spec_set_difference(other),
    ;
}

/// The size of a symmetric difference: what lies in exactly one of `self` and `other`.
pub trait SymmetricDifference: SetDifference {
    /// When `symmetric_difference` can be computed without overflow.
    spec fn symmetric_difference_req(self, other: Self) -> bool;

    /// The value `symmetric_difference` returns.
    spec fn spec_symmetric_difference(self, other: Self) -> Self::Output;

    fn symmetric_difference(self, other: Self) -> (r: Self::Output)
        requires
            self.symmetric_difference_req(other),
        ensures
            r == self.spec_symmetric_difference(other),
    ;
}

proof fn lemma_overlap_bounds(ax: int, ay: int, bx: int, by: int)
    requires
        0 <= ax,
        0 <= ay,
        0 <= bx,
        0 <= by,
    ensures
        0 <= overlap_area(ax, ay, bx, by) <= ax * ay,
        overlap_area(ax, ay, bx, by) <= bx * by,
{
    let mx = min_int(ax, bx);
    let my = min_int(ay, by);
    assert(0 <= mx * my <= ax * ay) by (nonlinear_arith)
        requires
            0 <= mx <= ax,
            0 <= my <= ay,
    ;
    assert(mx * my <= bx * by) by (nonlinear_arith)
        requires
            0 <= mx <= bx,
            0 <= my <= by,
    ;
}

/// Rectangle sizes: the set difference of `self` and `other` is the area of `self` outside
/// `other`, then the area of `other` outside `self`.
impl SetDifference for Vector2<u32> {
    type Output = u32;

    open spec fn set_difference_req(self, other: Self) -> bool {
        self.x * self.y <= u32::MAX && other.x * other.y <= u32::MAX
    }

    open spec fn spec_set_difference(self, other: Self) -> (u32, u32) {
        (
            (self.x * self.y - overlap_area(self.x as int, self.y as int, other.x as int, other.y as int)) as u32,
            (other.x * other.y - overlap_area(self.x as int, self.y as int, other.x as int, other.y as int)) as u32,
        )
    }

    fn set_difference(self, other: Self) -> (r: (u32, u32)) {
        proof {
            lemma_overlap_bounds(self.x as int, self.y as int, other.x as int, other.y as int);
        }
        let mul = |a: u32, b: u32| -> (p: u32)
            requires
                a * b <= u32::MAX,
            ensures
                p == a * b,
            { a * b };
        let min = |a: u32, b: u32| -> (m: u32)
            ensures
                m == min_int(a as int, b as int),
            { if a <= b { a } else { b } };
        let smaller = self.apply_two(other, min);
        let overlap = smaller.fold(mul);
        (self.fold(mul) - overlap, other.fold(mul) - overlap)
    }
}

/// Rectangle sizes: the area that lies in exactly one of the two rectangles.
impl SymmetricDifference for Vector2<u32> {
    open spec fn symmetric_difference_req(self, other: Self) -> bool {
        &&& self.set_difference_req(other)
        &&& symmetric_area(self.x as int, self.y as int, other.x as int, other.y as int) <= u32::MAX
    }

    open spec fn spec_symmetric_difference(self, other: Self) -> u32 {
        symmetric_area(self.x as int, self.y as int, other.x as int, other.y as int) as u32
    }

    fn symmetric_difference(self, other: Self) -> (r: u32) {
        proof {
            lemma_overlap_bounds(self.x as int, self.y as int, other.x as int, other.y as int);
        }
        let (a, b) = self.set_difference(other);
        a + b
    }
}

/// The symmetric difference does not depend on the order of the two rectangles, and the two
/// parts of the set difference trade places when they are swapped.
pub proof fn lemma_difference_swaps(a: Vector2<u32>, b: Vector2<u32>)
    ensures
        a.set_difference_req(b) == b.set_difference_req(a),
        a.spec_set_difference(b).0 == b.spec_set_difference(a).1,
        a.spec_set_difference(b).1 == b.spec_set_difference(a).0,
        a.symmetric_difference_req(b) == b.symmetric_difference_req(a),
        a.spec_symmetric_difference(b) == b.spec_symmetric_difference(a),
{
    let ax = a.x as int;
    let ay = a.y as int;
    let bx = b.x as int;
    let by = b.y as int;
    assert(overlap_area(ax, ay, bx, by) == overlap_area(bx, by, ax, ay));
}

/// A rectangle has no symmetric difference with itself.
pub proof fn lemma_difference_with_itself(a: Vector2<u32>)
    ensures
        symmetric_area(a.x as int, a.y as int, a.x as int, a.y as int) == 0,
{
}

} // verus!
