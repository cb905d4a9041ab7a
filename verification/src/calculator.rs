//! Sizes for GoldSrc sprays: the aspect ratios a game allows, and the fitting of an image to
//! the nearest allowed size.

use vstd::prelude::*;
use core::ops::AddAssign;
use crate::vector2::{Vector2, swapped};
use crate::difference::{min_int, overlap_area, symmetric_area};
use crate::gcd::{
    gcd, spec_gcd, lemma_gcd_positive, lemma_gcd_divides_both, lemma_divisor_le, lemma_gcd_commutative,
    lemma_gcd_of_quotients,
};
use vstd::arithmetic::div_mod::lemma_fundamental_div_mod;

verus! {

/// Sprays in GoldSrc games have sides that are multiples of this.
pub const GOLDSRC_MULTIPLE: u32 = 16;

/// The largest spray area in Sven Co-op, in squares of [`GOLDSRC_MULTIPLE`].
pub const SVEN_COOP_RELATIVE_SIZE: u32 = 56;

/// The largest spray area in Half-Life, in squares of [`GOLDSRC_MULTIPLE`].
pub const HALF_LIFE_RELATIVE_SIZE: u32 = 42;

/// The mismatch between an image of size `o` and the `k`-th multiple of the step `(sx, sy)`:
/// the area of their symmetric difference.
pub open spec fn miss(o: Vector2<u32>, sx: int, sy: int, k: int) -> int {
    symmetric_area(o.x as int, o.y as int, k * sx, k * sy)
}

/// The mismatch grows from the `k`-th multiple of the step to the next one.
pub open spec fn rises(o: Vector2<u32>, sx: int, sy: int, k: int) -> bool {
    miss(o, sx, sy, k + 1) > miss(o, sx, sy, k)
}

/// `k` is the first multiple of the step, counting from one, after which the mismatch grows.
pub open spec fn is_best_multiple(o: Vector2<u32>, sx: int, sy: int, k: int) -> bool {
    &&& k >= 1
    &&& rises(o, sx, sy, k)
    &&& forall|j: int| 1 <= j < k ==> !#[trigger] rises(o, sx, sy, j)
}

/// The first multiple of the step after which the mismatch grows.
pub open spec fn best_multiple(o: Vector2<u32>, sx: int, sy: int) -> int {
    choose|k: int| is_best_multiple(o, sx, sy, k)
}

/// There is only one first multiple after which the mismatch grows.
pub proof fn lemma_best_multiple_unique(o: Vector2<u32>, sx: int, sy: int, k: int)
    requires
        is_best_multiple(o, sx, sy, k),
    ensures
        best_multiple(o, sx, sy) == k,
{
    let c = best_multiple(o, sx, sy);
    assert(is_best_multiple(o, sx, sy, c));
    if c < k {
        assert(!rises(o, sx, sy, c));
    } else if k < c {
        assert(!rises(o, sx, sy, k));
    }
}

/// Once a multiple of the step reaches the image in one direction, every further multiple
/// mismatches more.
proof fn lemma_rises_after_reach(o: Vector2<u32>, sx: int, sy: int, k: int)
    requires
        o.x >= 1,
        o.y >= 1,
        sx >= 1,
        sy >= 1,
        k >= 1,
        k * sx >= o.x || k * sy >= o.y,
    ensures
        rises(o, sx, sy, k),
{
    let ox = o.x as int;
    let oy = o.y as int;
    let ax = k * sx;
    let ay = k * sy;
    let bx = (k + 1) * sx;
    let by = (k + 1) * sy;
    assert(bx == ax + sx && by == ay + sy) by (nonlinear_arith)
        requires
            ax == k * sx,
            ay == k * sy,
            bx == (k + 1) * sx,
            by == (k + 1) * sy,
    ;
    assert(bx * by - ax * ay == (2 * k + 1) * (sx * sy)) by (nonlinear_arith)
        requires
            ax == k * sx,
            ay == k * sy,
            bx == ax + sx,
            by == ay + sy,
    ;
    if ax >= ox {
        let lo = min_int(oy, ay);
        let hi = min_int(oy, by);
        assert(0 <= hi - lo <= sy);
        assert(overlap_area(ox, oy, ax, ay) == ox * lo);
        assert(overlap_area(ox, oy, bx, by) == ox * hi);
        assert(ox * hi - ox * lo <= k * (sx * sy)) by (nonlinear_arith)
            requires
                0 <= ox <= k * sx,
                0 <= hi - lo <= sy,
                k >= 1,
                sx >= 1,
        ;
        assert(2 * (ox * hi - ox * lo) < (2 * k + 1) * (sx * sy)) by (nonlinear_arith)
            requires
                ox * hi - ox * lo <= k * (sx * sy),
                sx >= 1,
                sy >= 1,
        ;
    } else {
        let lo = min_int(ox, ax);
        let hi = min_int(ox, bx);
        assert(0 <= hi - lo <= sx);
        assert(overlap_area(ox, oy, ax, ay) == lo * oy);
        assert(overlap_area(ox, oy, bx, by) == hi * oy);
        assert(hi * oy - lo * oy <= k * (sx * sy)) by (nonlinear_arith)
            requires
                0 <= oy <= k * sy,
                0 <= hi - lo <= sx,
                k >= 1,
                sy >= 1,
        ;
        assert(2 * (hi * oy - lo * oy) < (2 * k + 1) * (sx * sy)) by (nonlinear_arith)
            requires
                hi * oy - lo * oy <= k * (sx * sy),
                sx >= 1,
                sy >= 1,
        ;
    }
}

/// The mismatch between an image of size `o` and a size `(bx, by)`, computed wide enough
/// not to overflow.
fn mismatch(o: Vector2<u32>, bx: u64, by: u64) -> (r: u128)
    requires
        bx < 0x100_0000_0000,
        by < 0x100_0000_0000,
    ensures
        r == symmetric_area(o.x as int, o.y as int, bx as int, by as int),
{
    let ox = o.x as u128;
    let oy = o.y as u128;
    let wx = bx as u128;
    let wy = by as u128;
    let mx = if ox <= wx { ox } else { wx };
    let my = if oy <= wy { oy } else { wy };
    assert(ox * oy < 0x1_0000_0000_0000_0000) by (nonlinear_arith)
        requires
            ox < 0x1_0000_0000,
            oy < 0x1_0000_0000,
    ;
    assert(wx * wy < 0x1_0000_0000_0000_0000_0000) by (nonlinear_arith)
        requires
            wx < 0x100_0000_0000,
            wy < 0x100_0000_0000,
    ;
    assert(mx * my <= ox * oy && mx * my <= wx * wy) by (nonlinear_arith)
        requires
            mx <= ox,
            mx <= wx,
            my <= oy,
            my <= wy,
    ;
    let overlap = mx * my;
    (ox * oy - overlap) + (wx * wy - overlap)
}

/// The first multiple after which the mismatch grows fits in a `u32`, in both directions.
proof fn lemma_best_fits(o: Vector2<u32>, sx: int, sy: int, k: int)
    requires
        o.x >= 1,
        o.y >= 1,
        o.x * o.y <= u32::MAX,
        1 <= sx <= 0x2_0000,
        1 <= sy <= 0x2_0000,
        k >= 1,
        k <= 1 || ((k - 1) * sx < o.x && (k - 1) * sy < o.y),
    ensures
        k * sx <= u32::MAX,
        k * sy <= u32::MAX,
{
    let ox = o.x as int;
    let oy = o.y as int;
    if k >= 2 {
        assert(k * sx == (k - 1) * sx + sx && k * sy == (k - 1) * sy + sy) by (nonlinear_arith);
        assert((k - 1) * sx >= sx && (k - 1) * sy >= sy) by (nonlinear_arith)
            requires
                k >= 2,
                sx >= 1,
                sy >= 1,
        ;
        // Both sides of the image exceed the step, so neither side is more than half the
        // largest area.
        assert(2 * ox <= ox * oy && 2 * oy <= ox * oy) by (nonlinear_arith)
            requires
                ox >= 2,
                oy >= 2,
        ;
    }
}

/// The size, among the multiples of `step`, whose mismatch with `o` is the first one after
/// which the mismatch grows.
fn best_size_for_step(o: Vector2<u32>, step: Vector2<u64>) -> (best: Vector2<u32>)
    requires
        o.x >= 1,
        o.y >= 1,
        o.x * o.y <= u32::MAX,
        1 <= step.x <= 0x2_0000,
        1 <= step.y <= 0x2_0000,
    ensures
        best.x == best_multiple(o, step.x as int, step.y as int) * step.x,
        best.y == best_multiple(o, step.x as int, step.y as int) * step.y,
{
    let ghost sx = step.x as int;
    let ghost sy = step.y as int;
    let mut new_size = step;
    let mut last_size = Vector2 { x: 0u64, y: 0u64 };
    let ghost mut k: int = 0;

    while last_size.x == 0 && last_size.y == 0
        || mismatch(o, new_size.x, new_size.y) <= mismatch(o, last_size.x, last_size.y)
        invariant
            sx == step.x,
            sy == step.y,
            1 <= sx <= 0x2_0000,
            1 <= sy <= 0x2_0000,
            o.x >= 1,
            o.y >= 1,
            o.x * o.y <= u32::MAX,
            k >= 0,
            last_size.x == k * sx,
            last_size.y == k * sy,
            new_size.x == (k + 1) * sx,
            new_size.y == (k + 1) * sy,
            k <= 1 || ((k - 1) * sx < o.x && (k - 1) * sy < o.y),
            new_size.x < 0x1_0004_0000,
            new_size.y < 0x1_0004_0000,
            last_size.x < 0x1_0004_0000,
            last_size.y < 0x1_0004_0000,
            forall|j: int| 1 <= j < k ==> !#[trigger] rises(o, sx, sy, j),
        decreases o.x + sx - k * sx,
    {
        proof {
            if k >= 1 {
                assert(k * sx >= 1) by (nonlinear_arith)
                    requires
                        k >= 1,
                        sx >= 1,
                ;
                assert(!rises(o, sx, sy, k));
                if k * sx >= o.x || k * sy >= o.y {
                    lemma_rises_after_reach(o, sx, sy, k);
                }
            }
            // Here `k * step` has not reached the image in either direction.
            assert(k * sx < o.x && k * sy < o.y);
            assert((k + 2) * sx == k * sx + 2 * sx && (k + 2) * sy == k * sy + 2 * sy) by (nonlinear_arith);
            assert((k + 1) * sx == k * sx + sx && (k + 1) * sy == k * sy + sy) by (nonlinear_arith);
        }
        last_size = new_size;
        new_size.add_assign(step);
        proof {
            k = k + 1;
        }
    }
    proof {
        assert(k >= 1);
        assert(is_best_multiple(o, sx, sy, k));
        lemma_best_multiple_unique(o, sx, sy, k);
        lemma_best_fits(o, sx, sy, k);
    }
    let best = if mismatch(o, last_size.x, last_size.y) < mismatch(o, new_size.x, new_size.y) {
        last_size
    } else {
        new_size
    };
    Vector2 { x: best.x as u32, y: best.y as u32 }
}

/// The sizes offered for a step: its multiples `n * step` for `n = 1, 2, ...`, as long as
/// their area stays within `bound`.
pub open spec fn is_size_list(sizes: Seq<Vector2<u32>>, sx: int, sy: int, bound: int) -> bool {
    &&& forall|i: int| 0 <= i < sizes.len() ==> #[trigger] sizes[i].x == (i + 1) * sx && sizes[i].y == (i + 1) * sy
    &&& sizes.len() * sizes.len() * (sx * sy) <= bound
    &&& (sizes.len() + 1) * (sizes.len() + 1) * (sx * sy) > bound
}

/// The multiples of `step`, smallest first, whose area is at most `bound`.
fn sizes_for_step(step: Vector2<u64>, bound: u64) -> (sizes: Vec<Vector2<u32>>)
    requires
        1 <= step.x <= 0x2_0000,
        1 <= step.y <= 0x2_0000,
        bound <= u32::MAX,
    ensures
        is_size_list(sizes@, step.x as int, step.y as int, bound as int),
{
    let ghost sx = step.x as int;
    let ghost sy = step.y as int;
    let mut sizes: Vec<Vector2<u32>> = Vec::new();
    let mut n: u64 = 1;
    assert((1 - 1) * (1 - 1) * (sx * sy) == 0) by (nonlinear_arith);
    loop
        invariant_except_break
            1 <= n <= 0x1_0001,
            sx == step.x,
            sy == step.y,
            1 <= sx <= 0x2_0000,
            1 <= sy <= 0x2_0000,
            bound <= u32::MAX,
            sizes@.len() == n - 1,
            forall|i: int| 0 <= i < sizes@.len() ==> #[trigger] sizes@[i].x == (i + 1) * sx && sizes@[i].y == (i + 1) * sy,
            (n - 1) * (n - 1) * (sx * sy) <= bound,
        ensures
            is_size_list(sizes@, sx, sy, bound as int),
        decreases 0x1_0001 - n,
    {
        assert(n * step.x <= 0x1_0001 * 0x2_0000 && n * step.y <= 0x1_0001 * 0x2_0000) by (nonlinear_arith)
            requires
                1 <= n <= 0x1_0001,
                1 <= step.x <= 0x2_0000,
                1 <= step.y <= 0x2_0000,
        ;
        let next_x = n * step.x;
        let next_y = n * step.y;
        assert(next_x * next_y <= 0x1_0001 * 0x2_0000 * (0x1_0001 * 0x2_0000)) by (nonlinear_arith)
            requires
                next_x <= 0x1_0001 * 0x2_0000,
                next_y <= 0x1_0001 * 0x2_0000,
        ;
        let area = (next_x as u128) * (next_y as u128);
        assert(area == n * n * (sx * sy)) by (nonlinear_arith)
            requires
                next_x == n * sx,
                next_y == n * sy,
                area == next_x * next_y,
        ;
        if area > bound as u128 {
            assert(sizes@.len() + 1 == n);
            assert((sizes@.len() + 1) * (sizes@.len() + 1) * (sx * sy) > bound);
            break;
        }
        proof {
            assert(n <= 0x1_0000) by (nonlinear_arith)
                requires
                    n * n * (sx * sy) <= bound,
                    bound <= u32::MAX,
                    sx >= 1,
                    sy >= 1,
                    n >= 1,
            ;
            assert(next_x <= n * n * (sx * sy) && next_y <= n * n * (sx * sy)) by (nonlinear_arith)
                requires
                    next_x == n * sx,
                    next_y == n * sy,
                    n >= 1,
                    sx >= 1,
                    sy >= 1,
            ;
        }
        sizes.push(Vector2 { x: next_x as u32, y: next_y as u32 });
        n += 1;
    }
    sizes
}

/// Every side of a ratio is at most the ceiling of the square root of `n`, and at least one:
/// `x` is at most that ceiling exactly when `(x - 1)^2 < n`.
pub open spec fn within_root(x: int, n: int) -> bool {
    (x - 1) * (x - 1) < n
}

/// A ratio both of whose sides are positive and at most the ceiling of the square root of `n`.
pub open spec fn valid_ratio(r: Vector2<u32>, n: int) -> bool {
    &&& r.x >= 1
    &&& r.y >= 1
    &&& within_root(r.x as int, n)
    &&& within_root(r.y as int, n)
}

/// A side at most the ceiling of the square root of `n`, scaled by a multiple `m` with
/// `m * m * n` within a `u32`, is at most `2^17`.
proof fn lemma_side_bound(r: int, m: int, n: int)
    requires
        r >= 1,
        m >= 1,
        within_root(r, n),
        m * m * n <= u32::MAX,
    ensures
        r * m <= 0x2_0000,
{
    assert(r * r <= 4 * n) by (nonlinear_arith)
        requires
            r >= 1,
            (r - 1) * (r - 1) < n,
    ;
    assert((r * m) * (r * m) <= 4 * (m * m * n)) by (nonlinear_arith)
        requires
            r * r <= 4 * n,
            m >= 1,
    ;
    assert(r * m <= 0x2_0000) by (nonlinear_arith)
        requires
            (r * m) * (r * m) <= 4 * (m * m * n),
            m * m * n <= u32::MAX,
            r * m >= 0,
    ;
}

/// The ceiling of the square root of `n`: the least `s` with `s * s >= n`.
fn ceil_sqrt(n: u32) -> (s: u32)
    ensures
        s * s >= n,
        s == 0 || (s - 1) * (s - 1) < n,
        s <= 0x1_0000,
{
    let mut s: u64 = 0;
    while s * s < n as u64
        invariant
            s <= 0x1_0000,
            s * s <= 0x1_0000_0000,
            s == 0 || (s - 1) * (s - 1) < n,
        decreases 0x1_0000 - s,
    {
        assert(s < 0x1_0000) by (nonlinear_arith)
            requires
                s * s < n,
                n <= u32::MAX,
        ;
        assert((s + 1) * (s + 1) <= 0x1_0000_0000) by (nonlinear_arith)
            requires
                s < 0x1_0000,
        ;
        s = s + 1;
    }
    s as u32
}

/// Below the ceiling of the square root of `n`, and only there, `x` is within the root of `n`.
proof fn lemma_within_root_iff_below_ceiling(x: int, s: int, n: int)
    requires
        x >= 1,
        s >= 1,
        s * s >= n,
        (s - 1) * (s - 1) < n,
    ensures
        within_root(x, n) <==> x <= s,
{
    if x <= s {
        assert((x - 1) * (x - 1) <= (s - 1) * (s - 1)) by (nonlinear_arith)
            requires
                1 <= x <= s,
        ;
    } else {
        assert((x - 1) * (x - 1) >= s * s) by (nonlinear_arith)
            requires
                x - 1 >= s,
                s >= 1,
        ;
    }
}

/// The ratio `x:y` in lowest terms.
pub open spec fn lowest_terms(x: u32, y: u32) -> Vector2<u32> {
    Vector2 {
        x: (x as nat / spec_gcd(x as nat, y as nat)) as u32,
        y: (y as nat / spec_gcd(x as nat, y as nat)) as u32,
    }
}

/// `v` is `x:y` in lowest terms, where `x` and `y` are positive and within the root of `n`,
/// and, when `whole_area` holds, `x * y == n`.
pub open spec fn is_ratio_from(v: Vector2<u32>, n: int, whole_area: bool, x: u32, y: u32) -> bool {
    &&& x >= 1
    &&& y >= 1
    &&& within_root(x as int, n)
    &&& within_root(y as int, n)
    &&& (whole_area ==> x * y == n)
    &&& v == lowest_terms(x, y)
}

/// `v` is `x:y` in lowest terms for some `x` and `y` as [`is_ratio_from`] describes.
pub open spec fn is_ratio_of(v: Vector2<u32>, n: int, whole_area: bool) -> bool {
    exists|x: u32, y: u32| #[trigger] is_ratio_from(v, n, whole_area, x, y)
}

/// Of the pairs `(x, y)`, those that come before `(cx, cy)` when `x` runs over the outer loop
/// and `y` over the inner one.
pub open spec fn comes_before(x: u32, y: u32, cx: u32, cy: u32) -> bool {
    x < cx || (x == cx && y < cy)
}

/// `v` is a ratio from some pair that comes before `(cx, cy)`.
spec fn is_ratio_before(v: Vector2<u32>, n: int, whole_area: bool, cx: u32, cy: u32) -> bool {
    exists|x: u32, y: u32| #[trigger] is_ratio_from(v, n, whole_area, x, y) && comes_before(x, y, cx, cy)
}

/// A ratio in lowest terms of two sides within the root of `n` is valid.
proof fn lemma_lowest_terms_valid(x: u32, y: u32, n: int)
    requires
        x >= 1,
        y >= 1,
        within_root(x as int, n),
        within_root(y as int, n),
    ensures
        valid_ratio(lowest_terms(x, y), n),
{
    let g = spec_gcd(x as nat, y as nat);
    lemma_gcd_positive(x as nat, y as nat);
    lemma_gcd_divides_both(x as nat, y as nat);
    lemma_divisor_le(g, x as nat);
    lemma_divisor_le(g, y as nat);
    let rx = x as int / g as int;
    let ry = y as int / g as int;
    lemma_fundamental_div_mod(x as int, g as int);
    lemma_fundamental_div_mod(y as int, g as int);
    assert(1 <= rx <= x) by (nonlinear_arith)
        requires
            x == g * rx,
            x >= 1,
            g >= 1,
    ;
    assert(1 <= ry <= y) by (nonlinear_arith)
        requires
            y == g * ry,
            y >= 1,
            g >= 1,
    ;
    assert((rx - 1) * (rx - 1) <= (x - 1) * (x - 1)) by (nonlinear_arith)
        requires
            1 <= rx <= x,
    ;
    assert((ry - 1) * (ry - 1) <= (y - 1) * (y - 1)) by (nonlinear_arith)
        requires
            1 <= ry <= y,
    ;
}

/// Whether `v` is in `set`.
fn contains_ratio(set: &Vec<Vector2<u32>>, v: Vector2<u32>) -> (found: bool)
    ensures
        found == set@.contains(v),
{
    let mut i: usize = 0;
    while i < set.len()
        invariant
            i <= set@.len(),
            forall|j: int| 0 <= j < i ==> set@[j] != v,
        decreases set@.len() - i,
    {
        if set[i].x == v.x && set[i].y == v.y {
            assert(set@[i as int] == v);
            return true;
        }
        i += 1;
    }
    false
}

/// The distinct ratios `x:y` in lowest terms for positive `x` and `y` no greater than the
/// ceiling of the square root of `n`, and, when `whole_area` holds, with `x * y == n`.
fn collect_ratios(n: u32, whole_area: bool) -> (set: Vec<Vector2<u32>>)
    requires
        n > 0,
    ensures
        set@.no_duplicates(),
        forall|i: int| 0 <= i < set@.len() ==> valid_ratio(#[trigger] set@[i], n as int),
        forall|v: Vector2<u32>| #[trigger] set@.contains(v) <==> is_ratio_of(v, n as int, whole_area),
{
    let size_sqrt = ceil_sqrt(n);
    assert(size_sqrt >= 1) by (nonlinear_arith)
        requires
            size_sqrt * size_sqrt >= n,
            n > 0,
    ;
    let mut set: Vec<Vector2<u32>> = Vec::new();
    let mut x: u32 = 1;
    while x <= size_sqrt
        invariant
            n > 0,
            1 <= size_sqrt <= 0x1_0000,
            size_sqrt * size_sqrt >= n,
            (size_sqrt - 1) * (size_sqrt - 1) < n,
            1 <= x <= size_sqrt + 1,
            set@.no_duplicates(),
            forall|i: int| 0 <= i < set@.len() ==> valid_ratio(#[trigger] set@[i], n as int),
            forall|v: Vector2<u32>| #[trigger] set@.contains(v) <==> is_ratio_before(v, n as int, whole_area, x, 1),
        decreases size_sqrt + 1 - x,
    {
        let mut y: u32 = 1;
        while y <= size_sqrt
            invariant
                n > 0,
                1 <= size_sqrt <= 0x1_0000,
                size_sqrt * size_sqrt >= n,
                (size_sqrt - 1) * (size_sqrt - 1) < n,
                1 <= x <= size_sqrt,
                1 <= y <= size_sqrt + 1,
                set@.no_duplicates(),
                forall|i: int| 0 <= i < set@.len() ==> valid_ratio(#[trigger] set@[i], n as int),
                forall|v: Vector2<u32>| #[trigger] set@.contains(v) <==> is_ratio_before(v, n as int, whole_area, x, y),
            decreases size_sqrt + 1 - y,
        {
            proof {
                lemma_within_root_iff_below_ceiling(x as int, size_sqrt as int, n as int);
                lemma_within_root_iff_below_ceiling(y as int, size_sqrt as int, n as int);
            }
            let ghost before = set@;
            assert((x as u64) * (y as u64) <= 0x1_0000 * 0x1_0000) by (nonlinear_arith)
                requires
                    x <= 0x1_0000,
                    y <= 0x1_0000,
            ;
            if !whole_area || (x as u64) * (y as u64) == n as u64 {
                let g = gcd(x, y);
                proof {
                    lemma_gcd_positive(x as nat, y as nat);
                }
                let vec = Vector2 { x: x / g, y: y / g };
                assert(vec == lowest_terms(x, y));
                proof {
                    lemma_lowest_terms_valid(x, y, n as int);
                }
                if !contains_ratio(&set, vec) {
                    set.push(vec);
                    assert(set@.last() == vec);
                }
                assert(set@.contains(vec));
                assert forall|w: Vector2<u32>| before.contains(w) implies #[trigger] set@.contains(w) by {
                    let i = choose|i: int| 0 <= i < before.len() && before[i] == w;
                    assert(set@[i] == w);
                }
                assert forall|w: Vector2<u32>| #[trigger] set@.contains(w) implies before.contains(w) || w == vec by {
                    let i = choose|i: int| 0 <= i < set@.len() && set@[i] == w;
                    if i < before.len() {
                        assert(before[i] == w);
                    }
                }
                assert forall|v: Vector2<u32>| #[trigger] set@.contains(v) <==> is_ratio_before(v, n as int, whole_area, x, (y + 1) as u32) by {
                    if set@.contains(v) {
                        if v != vec {
                            assert(before.contains(v));
                            assert(is_ratio_before(v, n as int, whole_area, x, y));
                            let (a, b) = choose|a: u32, b: u32| #[trigger] is_ratio_from(v, n as int, whole_area, a, b) && comes_before(a, b, x, y);
                            assert(is_ratio_from(v, n as int, whole_area, a, b) && comes_before(a, b, x, (y + 1) as u32));
                        } else {
                            assert(is_ratio_from(v, n as int, whole_area, x, y) && comes_before(x, y, x, (y + 1) as u32));
                        }
                    }
                    if is_ratio_before(v, n as int, whole_area, x, (y + 1) as u32) {
                        let (a, b) = choose|a: u32, b: u32| #[trigger] is_ratio_from(v, n as int, whole_area, a, b) && comes_before(a, b, x, (y + 1) as u32);
                        if a == x && b == y {
                            assert(v == vec);
                        } else {
                            assert(is_ratio_from(v, n as int, whole_area, a, b) && comes_before(a, b, x, y));
                            assert(before.contains(v));
                        }
                    }
                }
            } else {
                assert forall|v: Vector2<u32>| #[trigger] set@.contains(v) <==> is_ratio_before(v, n as int, whole_area, x, (y + 1) as u32) by {
                    if set@.contains(v) {
                        let (a, b) = choose|a: u32, b: u32| #[trigger] is_ratio_from(v, n as int, whole_area, a, b) && comes_before(a, b, x, y);
                        assert(is_ratio_from(v, n as int, whole_area, a, b) && comes_before(a, b, x, (y + 1) as u32));
                    }
                    if is_ratio_before(v, n as int, whole_area, x, (y + 1) as u32) {
                        let (a, b) = choose|a: u32, b: u32| #[trigger] is_ratio_from(v, n as int, whole_area, a, b) && comes_before(a, b, x, (y + 1) as u32);
                        assert(is_ratio_from(v, n as int, whole_area, a, b) && comes_before(a, b, x, y));
                    }
                }
            }
            y += 1;
        }
        assert forall|v: Vector2<u32>| #[trigger] set@.contains(v) <==> is_ratio_before(v, n as int, whole_area, (x + 1) as u32, 1) by {
            if set@.contains(v) {
                let (a, b) = choose|a: u32, b: u32| #[trigger] is_ratio_from(v, n as int, whole_area, a, b) && comes_before(a, b, x, y);
                assert(is_ratio_from(v, n as int, whole_area, a, b) && comes_before(a, b, (x + 1) as u32, 1));
            }
            if is_ratio_before(v, n as int, whole_area, (x + 1) as u32, 1) {
                let (a, b) = choose|a: u32, b: u32| #[trigger] is_ratio_from(v, n as int, whole_area, a, b) && comes_before(a, b, (x + 1) as u32, 1);
                lemma_within_root_iff_below_ceiling(b as int, size_sqrt as int, n as int);
                assert(is_ratio_from(v, n as int, whole_area, a, b) && comes_before(a, b, x, y));
            }
        }
        x += 1;
    }
    assert forall|v: Vector2<u32>| #[trigger] set@.contains(v) <==> is_ratio_of(v, n as int, whole_area) by {
        if set@.contains(v) {
            let (a, b) = choose|a: u32, b: u32| #[trigger] is_ratio_from(v, n as int, whole_area, a, b) && comes_before(a, b, x, 1);
            assert(is_ratio_from(v, n as int, whole_area, a, b));
        }
        if is_ratio_of(v, n as int, whole_area) {
            let (a, b) = choose|a: u32, b: u32| #[trigger] is_ratio_from(v, n as int, whole_area, a, b);
            lemma_within_root_iff_below_ceiling(a as int, size_sqrt as int, n as int);
            assert(is_ratio_from(v, n as int, whole_area, a, b) && comes_before(a, b, x, 1));
        }
    }
    set
}

/// The outcome of fitting an image to one ratio: the ratio, the allowed size nearest to the
/// image, and every size that the game allows for the ratio, smallest first.
#[derive(Debug, Clone)]
pub struct RatioFittingResult {
    ratio: Vector2<u32>,
    as_is: Vector2<u32>,
    resized: Vec<Vector2<u32>>,
}

impl RatioFittingResult {
    /// The ratio of the fit.
    pub closed spec fn spec_ratio(self) -> Vector2<u32> {
        self.ratio
    }

    /// The size the image is recanvased to, with no scaling.
    pub closed spec fn spec_as_is(self) -> Vector2<u32> {
        self.as_is
    }

    /// The spray sizes that the ratio allows, smallest first.
    pub closed spec fn spec_resized(self) -> Seq<Vector2<u32>> {
        self.resized@
    }

    fn new(ratio: Vector2<u32>, as_is: Vector2<u32>, resized: Vec<Vector2<u32>>) -> (r: Self)
        ensures
            r.spec_ratio() == ratio,
            r.spec_as_is() == as_is,
            r.spec_resized() == resized@,
    {
        Self { ratio, as_is, resized }
    }

    /// The ratio of the fit.
    pub fn ratio(&self) -> (r: Vector2<u32>)
        ensures
            r == self.spec_ratio(),
    {
        self.ratio
    }

    /// The size the image is recanvased to, with no scaling.
    pub fn as_is(&self) -> (r: Vector2<u32>)
        ensures
            r == self.spec_as_is(),
    {
        self.as_is
    }

    /// The spray sizes that the ratio allows, smallest first.
    pub fn resized(&self) -> (r: &[Vector2<u32>])
        ensures
            r@ == self.spec_resized(),
    {
        self.resized.as_slice()
    }
}

/// What a game allows for sprays: sides in multiples of `multiple`, an area of at most
/// `max_relative_size` squares of `multiple`, and the ratios that sprays may have.
#[derive(Debug, Clone)]
pub struct GameData {
    multiple: u32,
    ratios: Vec<Vector2<u32>>,
    max_relative_size: u32,
}

/// The mismatch with the image `o` of the best size for ratio `r` and multiple `m`.
pub open spec fn fit_miss(o: Vector2<u32>, r: Vector2<u32>, m: u32) -> int {
    miss(o, r.x * m, r.y * m, best_multiple(o, r.x * m, r.y * m))
}

impl GameData {
    /// The multiple and the largest area are positive, and the ratios are distinct valid ratios.
    pub closed spec fn well_formed(self) -> bool {
        &&& self.multiple > 0
        &&& self.max_relative_size > 0
        &&& self.ratios@.no_duplicates()
        &&& forall|i: int| 0 <= i < self.ratios@.len() ==> valid_ratio(#[trigger] self.ratios@[i], self.max_relative_size as int)
    }

    /// Sides of sprays are multiples of this.
    pub closed spec fn spec_multiple(self) -> u32 {
        self.multiple
    }

    /// The ratios that sprays may have, each once.
    pub closed spec fn spec_ratios(self) -> Seq<Vector2<u32>> {
        self.ratios@
    }

    /// The largest spray area, in squares of the multiple.
    pub closed spec fn spec_max_relative_size(self) -> u32 {
        self.max_relative_size
    }

    /// The ratios that sprays may have, each once.
    pub fn ratios(&self) -> (r: &[Vector2<u32>])
        ensures
            r@ == self.spec_ratios(),
    {
        self.ratios.as_slice()
    }

    /// The ratios hold exactly the ratios `x:y` in lowest terms with `x` and `y` positive and
    /// at most the ceiling of the square root of `n`, and, when `whole_area` holds, `x * y == n`.
    pub open spec fn has_ratios_of(self, n: int, whole_area: bool) -> bool {
        &&& self.spec_ratios().no_duplicates()
        &&& forall|v: Vector2<u32>| #[trigger] self.spec_ratios().contains(v) <==> is_ratio_of(v, n, whole_area)
    }

    /// Game data with the given multiple and largest area, allowing every ratio `x:y` with
    /// `x` and `y` positive and at most the ceiling of the square root of the largest area.
    pub fn new(multiple: u32, max_relative_size: u32) -> (r: Self)
        requires
            multiple > 0,
            max_relative_size > 0,
        ensures
            r.well_formed(),
            r.spec_multiple() == multiple,
            r.spec_max_relative_size() == max_relative_size,
            r.has_ratios_of(max_relative_size as int, false),
    {
        let result = Self { multiple, ratios: Vec::new(), max_relative_size };
        assert(result.ratios@.len() == 0);
        result.all_ratios()
    }

    /// The same game data, allowing every ratio `x:y` with `x` and `y` positive and at most
    /// the ceiling of the square root of the largest area.
    pub fn all_ratios(self) -> (r: Self)
        requires
            self.well_formed(),
        ensures
            r.well_formed(),
            r.spec_multiple() == self.spec_multiple(),
            r.spec_max_relative_size() == self.spec_max_relative_size(),
            r.has_ratios_of(self.spec_max_relative_size() as int, false),
    {
        let set = collect_ratios(self.max_relative_size, false);
        Self { multiple: self.multiple, ratios: set, max_relative_size: self.max_relative_size }
    }

    /// The same game data, allowing only the ratios `x:y` of the largest area: `x * y` equal to
    /// it, with `x` and `y` at most the ceiling of its square root.
    pub fn biggest_ratios(self) -> (r: Self)
        requires
            self.well_formed(),
        ensures
            r.well_formed(),
            r.spec_multiple() == self.spec_multiple(),
            r.spec_max_relative_size() == self.spec_max_relative_size(),
            r.has_ratios_of(self.spec_max_relative_size() as int, true),
    {
        let set = collect_ratios(self.max_relative_size, true);
        Self { multiple: self.multiple, ratios: set, max_relative_size: self.max_relative_size }
    }

    /// The same game data with another multiple.
    pub fn multiple(self, new_multiple: u32) -> (r: Self)
        requires
            self.well_formed(),
            new_multiple > 0,
        ensures
            r.well_formed(),
            r.spec_multiple() == new_multiple,
            r.spec_max_relative_size() == self.spec_max_relative_size(),
            r.spec_ratios() == self.spec_ratios(),
    {
        Self { multiple: new_multiple, ratios: self.ratios, max_relative_size: self.max_relative_size }
    }

    /// The same game data with another largest area, allowing every ratio for it as
    /// [`GameData::all_ratios`] does.
    pub fn max_relative_size(self, new_size: u32) -> (r: Self)
        requires
            self.well_formed(),
            new_size > 0,
        ensures
            r.well_formed(),
            r.spec_multiple() == self.spec_multiple(),
            r.spec_max_relative_size() == new_size,
            r.has_ratios_of(new_size as int, false),
    {
        let result = Self { multiple: self.multiple, ratios: Vec::new(), max_relative_size: new_size };
        assert(result.ratios@.len() == 0);
        result.all_ratios()
    }

    /// The conditions under which an image of size `o` can be fitted: its sides are positive
    /// and its area, like the largest spray area in pixels, fits in a `u32`; and there is a
    /// ratio to fit to.
    pub open spec fn fit_size_req(self, o: Vector2<u32>) -> bool {
        &&& o.x >= 1
        &&& o.y >= 1
        &&& o.x * o.y <= u32::MAX
        &&& self.spec_multiple() * self.spec_multiple() * self.spec_max_relative_size() <= u32::MAX
        &&& self.spec_ratios().len() > 0
    }

    /// Whether an image of size `o` can be fitted.
    pub fn can_fit(&self, o: Vector2<u32>) -> (r: bool)
        ensures
            r == self.fit_size_req(o),
    {
        let m = self.multiple as u64;
        if o.x == 0 || o.y == 0 || self.ratios.len() == 0 {
            return false;
        }
        assert(m * m <= u32::MAX * u32::MAX) by (nonlinear_arith)
            requires
                m <= u32::MAX,
        ;
        let mm = (m * m) as u128;
        assert((o.x as u64) * (o.y as u64) <= u32::MAX * u32::MAX) by (nonlinear_arith)
            requires
                o.x <= u32::MAX,
                o.y <= u32::MAX,
        ;
        let area = (o.x as u64) * (o.y as u64);
        assert(mm * self.max_relative_size <= u32::MAX * u32::MAX * u32::MAX) by (nonlinear_arith)
            requires
                mm <= u32::MAX * u32::MAX,
                self.max_relative_size <= u32::MAX,
        ;
        area <= u32::MAX as u64 && mm * (self.max_relative_size as u128) <= u32::MAX as u128
    }

    /// Result `res` is the fit to ratio number `i`: that ratio, its best size for the image `o`,
    /// its spray sizes; the best size of no ratio mismatches the image less, and that of no
    /// earlier ratio as little.
    pub open spec fn is_fit_choice(self, o: Vector2<u32>, i: int, res: RatioFittingResult) -> bool {
        let m = self.spec_multiple();
        let r = self.spec_ratios()[i];
        let k = best_multiple(o, r.x * m, r.y * m);
        &&& 0 <= i < self.spec_ratios().len()
        &&& res.spec_ratio() == r
        &&& res.spec_as_is().x == k * (r.x * m)
        &&& res.spec_as_is().y == k * (r.y * m)
        &&& is_size_list(res.spec_resized(), r.x * m, r.y * m, m * m * self.spec_max_relative_size())
        &&& forall|j: int| 0 <= j < self.spec_ratios().len() ==> #[trigger] fit_miss(o, self.spec_ratios()[j], m) >= fit_miss(o, r, m)
        &&& forall|j: int| 0 <= j < i ==> #[trigger] fit_miss(o, self.spec_ratios()[j], m) > fit_miss(o, r, m)
    }

    /// Fits an image of size `original_size`: for each ratio, the multiple of the ratio's
    /// step after which the mismatch with the image grows is its best size; the result is the
    /// ratio whose best size mismatches the image least, the first such one in the order of
    /// the ratios.
    pub fn fit_size(&self, original_size: Vector2<u32>) -> (result: RatioFittingResult)
        requires
            self.well_formed(),
            self.fit_size_req(original_size),
        ensures
            exists|i: int| self.is_fit_choice(original_size, i, result),
    {
        let o = original_size;
        let m = self.multiple as u64;
        let max = self.max_relative_size as u64;
        assert(m * m <= u32::MAX) by (nonlinear_arith)
            requires
                m * m * max <= u32::MAX,
                max >= 1,
        ;
        assert(m * m * max <= u32::MAX);
        let bound = m * m * max;
        let mut final_result: Option<RatioFittingResult> = None;
        let ghost mut chosen: int = 0;
        let n = self.ratios.len();

        for i in 0..n
            invariant
                n == self.ratios@.len(),
                n > 0,
                m == self.multiple,
                bound == m * m * self.max_relative_size,
                bound <= u32::MAX,
                m >= 1,
                o.x >= 1,
                o.y >= 1,
                o.x * o.y <= u32::MAX,
                forall|j: int| 0 <= j < self.ratios@.len() ==> valid_ratio(#[trigger] self.ratios@[j], self.max_relative_size as int),
                (i == 0) <==> final_result is None,
                final_result matches Some(res) ==> {
                    &&& 0 <= chosen < i
                    &&& res.spec_ratio() == self.ratios@[chosen]
                    &&& res.spec_as_is().x == best_multiple(o, self.ratios@[chosen].x * m, self.ratios@[chosen].y * m) * (self.ratios@[chosen].x * m)
                    &&& res.spec_as_is().y == best_multiple(o, self.ratios@[chosen].x * m, self.ratios@[chosen].y * m) * (self.ratios@[chosen].y * m)
                    &&& is_size_list(res.spec_resized(), self.ratios@[chosen].x * m, self.ratios@[chosen].y * m, bound as int)
                    &&& forall|j: int| 0 <= j < i ==> #[trigger] fit_miss(o, self.ratios@[j], self.multiple) >= fit_miss(o, self.ratios@[chosen], self.multiple)
                    &&& forall|j: int| 0 <= j < chosen ==> #[trigger] fit_miss(o, self.ratios@[j], self.multiple) > fit_miss(o, self.ratios@[chosen], self.multiple)
                },
        {
            let ratio = self.ratios[i];
            assert(valid_ratio(self.ratios@[i as int], self.max_relative_size as int));
            assert(ratio.x as u64 * m >= 1 && ratio.y as u64 * m >= 1) by (nonlinear_arith)
                requires
                    ratio.x >= 1,
                    ratio.y >= 1,
                    m >= 1,
            ;
            proof {
                lemma_side_bound(ratio.x as int, m as int, self.max_relative_size as int);
                lemma_side_bound(ratio.y as int, m as int, self.max_relative_size as int);
            }
            let step = Vector2 { x: ratio.x as u64 * m, y: ratio.y as u64 * m };
            let best_for_ratio = best_size_for_step(o, step);
            let resized = sizes_for_step(step, bound);
            let cycle_result = RatioFittingResult::new(ratio, best_for_ratio, resized);
            let cycle_miss = mismatch(o, best_for_ratio.x as u64, best_for_ratio.y as u64);
            assert(cycle_miss == fit_miss(o, self.ratios@[i as int], self.multiple));

            match final_result {
                Some(result) => {
                    let result_miss = mismatch(o, result.as_is.x as u64, result.as_is.y as u64);
                    assert(result_miss == fit_miss(o, self.ratios@[chosen], self.multiple));
                    if cycle_miss < result_miss {
                        final_result = Some(cycle_result);
                        proof { chosen = i as int; }
                    } else {
                        final_result = Some(result);
                    }
                },
                None => {
                    final_result = Some(cycle_result);
                    proof { chosen = i as int; }
                },
            }
        }
        let result = final_result.unwrap();
        assert(self.is_fit_choice(o, chosen, result));
        result
    }
}

/// Every ratio a game allows is in lowest terms.
pub proof fn lemma_ratio_in_lowest_terms(v: Vector2<u32>, n: int, whole_area: bool)
    requires
        is_ratio_of(v, n, whole_area),
    ensures
        spec_gcd(v.x as nat, v.y as nat) == 1,
{
    let (x, y) = choose|x: u32, y: u32| #[trigger] is_ratio_from(v, n, whole_area, x, y);
    let g = spec_gcd(x as nat, y as nat);
    lemma_gcd_positive(x as nat, y as nat);
    lemma_gcd_divides_both(x as nat, y as nat);
    lemma_fundamental_div_mod(x as int, g as int);
    lemma_fundamental_div_mod(y as int, g as int);
    assert(x as nat / g <= x && y as nat / g <= y) by (nonlinear_arith)
        requires
            x == g * (x as nat / g),
            y == g * (y as nat / g),
            g >= 1,
            x >= 1,
            y >= 1,
    ;
    assert(v.x == x as nat / g && v.y == y as nat / g);
    lemma_gcd_of_quotients(x as nat, y as nat);
}

/// A game that allows the ratio `x:y` also allows `y:x`.
pub proof fn lemma_ratio_reciprocal(v: Vector2<u32>, n: int, whole_area: bool)
    requires
        is_ratio_of(v, n, whole_area),
    ensures
        is_ratio_of(Vector2 { x: v.y, y: v.x }, n, whole_area),
{
    let (x, y) = choose|x: u32, y: u32| #[trigger] is_ratio_from(v, n, whole_area, x, y);
    lemma_gcd_commutative(x as nat, y as nat);
    assert(x * y == y * x) by (nonlinear_arith);
    assert(is_ratio_from(Vector2 { x: v.y, y: v.x }, n, whole_area, y, x));
}

/// The ratios of the largest area are among all the ratios.
pub proof fn lemma_biggest_ratios_among_all(v: Vector2<u32>, n: int)
    requires
        is_ratio_of(v, n, true),
    ensures
        is_ratio_of(v, n, false),
{
    let (x, y) = choose|x: u32, y: u32| #[trigger] is_ratio_from(v, n, true, x, y);
    assert(is_ratio_from(v, n, false, x, y));
}

/// A positive largest area always allows the square ratio `1:1`.
pub proof fn lemma_square_ratio_allowed(n: int)
    requires
        n >= 1,
    ensures
        is_ratio_of(Vector2 { x: 1, y: 1 }, n, false),
{
    assert(spec_gcd(1, 1) == 1) by {
        assert(spec_gcd(1, 1) == spec_gcd(1, 0));
    }
    assert(is_ratio_from(Vector2 { x: 1, y: 1 }, n, false, 1, 1));
}

/// Every spray size offered for a ratio is a multiple of its step and stays within the area
/// bound.
pub proof fn lemma_sizes_within_bound(sizes: Seq<Vector2<u32>>, sx: int, sy: int, bound: int, i: int)
    requires
        is_size_list(sizes, sx, sy, bound),
        sx >= 1,
        sy >= 1,
        0 <= i < sizes.len(),
    ensures
        sizes[i].x * sizes[i].y <= bound,
        sizes[i].x == (i + 1) * sx,
        sizes[i].y == (i + 1) * sy,
{
    let len = sizes.len() as int;
    assert(sizes[i].x == (i + 1) * sx && sizes[i].y == (i + 1) * sy);
    assert((i + 1) * sx * ((i + 1) * sy) <= len * len * (sx * sy)) by (nonlinear_arith)
        requires
            0 <= i < len,
            sx >= 1,
            sy >= 1,
    ;
}

/// The size an image is fitted to has the chosen ratio, and its sides are multiples of the
/// game's multiple.
pub proof fn lemma_fit_has_ratio(data: GameData, o: Vector2<u32>, i: int, res: RatioFittingResult)
    requires
        data.well_formed(),
        data.is_fit_choice(o, i, res),
    ensures
        res.spec_as_is().x * res.spec_ratio().y == res.spec_as_is().y * res.spec_ratio().x,
        (res.spec_as_is().x as int) % (data.spec_multiple() as int) == 0,
        (res.spec_as_is().y as int) % (data.spec_multiple() as int) == 0,
{
    let m = data.spec_multiple() as int;
    let r = res.spec_ratio();
    let k = best_multiple(o, r.x * m, r.y * m);
    assert(k * (r.x * m) * r.y == k * (r.y * m) * r.x) by (nonlinear_arith);
    assert(m > 0);
    {
        assert(k * (r.x * m) == (k * r.x) * m && k * (r.y * m) == (k * r.y) * m) by (nonlinear_arith);
        vstd::arithmetic::div_mod::lemma_mod_multiples_basic(k * r.x, m);
        vstd::arithmetic::div_mod::lemma_mod_multiples_basic(k * r.y, m);
    }
}

/// While the next multiple of the step stays inside the image in both directions, the
/// mismatch falls.
proof fn lemma_below_falls(o: Vector2<u32>, sx: int, sy: int, k: int)
    requires
        sx >= 1,
        sy >= 1,
        k >= 0,
        (k + 1) * sx < o.x,
        (k + 1) * sy < o.y,
    ensures
        miss(o, sx, sy, k + 1) < miss(o, sx, sy, k),
{
    let ox = o.x as int;
    let oy = o.y as int;
    assert(k * sx <= (k + 1) * sx && k * sy <= (k + 1) * sy) by (nonlinear_arith)
        requires
            k >= 0,
            sx >= 1,
            sy >= 1,
    ;
    assert(overlap_area(ox, oy, k * sx, k * sy) == (k * sx) * (k * sy));
    assert(overlap_area(ox, oy, (k + 1) * sx, (k + 1) * sy) == ((k + 1) * sx) * ((k + 1) * sy));
    assert(((k + 1) * sx) * ((k + 1) * sy) > (k * sx) * (k * sy)) by (nonlinear_arith)
        requires
            k >= 0,
            sx >= 1,
            sy >= 1,
    ;
}

/// From a multiple that reaches the image in one direction on, the mismatch only grows.
proof fn lemma_rises_from(o: Vector2<u32>, sx: int, sy: int, k: int, j: int)
    requires
        o.x >= 1,
        o.y >= 1,
        sx >= 1,
        sy >= 1,
        k >= 1,
        k * sx >= o.x || k * sy >= o.y,
        j >= k,
    ensures
        miss(o, sx, sy, j) >= miss(o, sx, sy, k),
        j > k ==> miss(o, sx, sy, j) > miss(o, sx, sy, k),
    decreases j - k,
{
    if j > k {
        lemma_rises_from(o, sx, sy, k, j - 1);
        assert((j - 1) * sx >= k * sx && (j - 1) * sy >= k * sy) by (nonlinear_arith)
            requires
                j - 1 >= k,
                sx >= 1,
                sy >= 1,
        ;
        lemma_rises_after_reach(o, sx, sy, j - 1);
    }
}

/// Up to a multiple before which the mismatch never grew, it only fell or stayed.
proof fn lemma_falls_to(o: Vector2<u32>, sx: int, sy: int, k: int, j: int)
    requires
        1 <= j <= k,
        forall|i: int| 1 <= i < k ==> !#[trigger] rises(o, sx, sy, i),
    ensures
        miss(o, sx, sy, k) <= miss(o, sx, sy, j),
    decreases k - j,
{
    if j < k {
        lemma_falls_to(o, sx, sy, k, j + 1);
        assert(!rises(o, sx, sy, j));
    }
}

/// If the mismatch grows after some multiple, there is a first multiple after which it grows.
proof fn lemma_first_rise(o: Vector2<u32>, sx: int, sy: int, k: int)
    requires
        k >= 1,
        rises(o, sx, sy, k),
    ensures
        is_best_multiple(o, sx, sy, best_multiple(o, sx, sy)),
    decreases k,
{
    if forall|j: int| 1 <= j < k ==> !#[trigger] rises(o, sx, sy, j) {
        assert(is_best_multiple(o, sx, sy, k));
    } else {
        let j = choose|j: int| 1 <= j < k && #[trigger] rises(o, sx, sy, j);
        lemma_first_rise(o, sx, sy, j);
    }
}

/// For an image with sides and a step with sides, there always is a best multiple.
pub proof fn lemma_best_multiple_exists(o: Vector2<u32>, sx: int, sy: int)
    requires
        o.x >= 1,
        o.y >= 1,
        sx >= 1,
        sy >= 1,
    ensures
        is_best_multiple(o, sx, sy, best_multiple(o, sx, sy)),
{
    let k = o.x as int;
    assert(k * sx >= o.x) by (nonlinear_arith)
        requires
            k == o.x,
            sx >= 1,
            k >= 1,
    ;
    lemma_rises_after_reach(o, sx, sy, k);
    lemma_first_rise(o, sx, sy, k);
}

/// The best multiple of a step mismatches the image least of all its multiples, and every
/// larger multiple mismatches it more.
pub proof fn lemma_best_multiple_is_minimum(o: Vector2<u32>, sx: int, sy: int, n: int)
    requires
        o.x >= 1,
        o.y >= 1,
        sx >= 1,
        sy >= 1,
        n >= 1,
    ensures
        miss(o, sx, sy, n) >= miss(o, sx, sy, best_multiple(o, sx, sy)),
        n > best_multiple(o, sx, sy) ==> miss(o, sx, sy, n) > miss(o, sx, sy, best_multiple(o, sx, sy)),
{
    lemma_best_multiple_exists(o, sx, sy);
    let k = best_multiple(o, sx, sy);
    if n <= k {
        lemma_falls_to(o, sx, sy, k, n);
    } else {
        if !((k + 1) * sx >= o.x || (k + 1) * sy >= o.y) {
            lemma_below_falls(o, sx, sy, k);
        }
        lemma_rises_from(o, sx, sy, k + 1, n);
    }
}

/// The size an image is fitted to mismatches it no more than any multiple, by any count, of the
/// step of any ratio the game allows: the fit is a global minimum among all offered sizes.
pub proof fn lemma_fit_is_global_minimum(
    data: GameData,
    o: Vector2<u32>,
    i: int,
    res: RatioFittingResult,
    j: int,
    n: int,
)
    requires
        data.well_formed(),
        data.fit_size_req(o),
        data.is_fit_choice(o, i, res),
        0 <= j < data.spec_ratios().len(),
        n >= 1,
    ensures
        miss(o, data.spec_ratios()[j].x * data.spec_multiple(), data.spec_ratios()[j].y * data.spec_multiple(), n)
            >= symmetric_area(o.x as int, o.y as int, res.spec_as_is().x as int, res.spec_as_is().y as int),
{
    let m = data.spec_multiple();
    let rj = data.spec_ratios()[j];
    assert(valid_ratio(data.ratios@[j], data.max_relative_size as int));
    assert(rj.x * m >= 1 && rj.y * m >= 1) by (nonlinear_arith)
        requires
            rj.x >= 1,
            rj.y >= 1,
            m >= 1,
    ;
    lemma_best_multiple_is_minimum(o, rj.x * m, rj.y * m, n);
    assert(fit_miss(o, data.spec_ratios()[j], m) >= fit_miss(o, res.spec_ratio(), m));
}

/// The mismatch of two rectangles does not change when both are turned a quarter.
pub proof fn lemma_symmetric_area_turned(ax: int, ay: int, bx: int, by: int)
    ensures
        symmetric_area(ax, ay, bx, by) == symmetric_area(ay, ax, by, bx),
{
    assert(ax * ay == ay * ax && bx * by == by * bx) by (nonlinear_arith);
    assert(min_int(ax, bx) * min_int(ay, by) == min_int(ay, by) * min_int(ax, bx)) by (nonlinear_arith);
}

/// With ratios that come in reciprocal pairs, as those of [`GameData::all_ratios`] and
/// [`GameData::biggest_ratios`] do, swapping the width and height of an image does not change
/// how little its fit mismatches it.
pub proof fn lemma_fit_mismatch_ignores_turning(
    data: GameData,
    o: Vector2<u32>,
    i: int,
    res: RatioFittingResult,
    i2: int,
    res2: RatioFittingResult,
)
    requires
        data.well_formed(),
        data.fit_size_req(o),
        forall|v: Vector2<u32>| #[trigger] data.spec_ratios().contains(v) ==> data.spec_ratios().contains(swapped(v)),
        data.is_fit_choice(o, i, res),
        data.is_fit_choice(swapped(o), i2, res2),
    ensures
        symmetric_area(o.y as int, o.x as int, res2.spec_as_is().x as int, res2.spec_as_is().y as int)
            == symmetric_area(o.x as int, o.y as int, res.spec_as_is().x as int, res.spec_as_is().y as int),
{
    let m = data.spec_multiple();
    let t = swapped(o);
    assert(o.x * o.y == o.y * o.x) by (nonlinear_arith);
    assert(data.fit_size_req(t));
    let rs = data.spec_ratios();
    // The fit of the turned image, turned back, is a candidate for the image.
    let r2 = rs[i2];
    assert(rs.contains(r2));
    assert(rs.contains(swapped(r2)));
    let j = choose|j: int| 0 <= j < rs.len() && rs[j] == swapped(r2);
    assert(valid_ratio(data.ratios@[i2], data.max_relative_size as int));
    assert(r2.x * m >= 1 && r2.y * m >= 1) by (nonlinear_arith)
        requires
            r2.x >= 1,
            r2.y >= 1,
            m >= 1,
    ;
    lemma_best_multiple_exists(t, r2.x * m, r2.y * m);
    let k2 = best_multiple(t, r2.x * m, r2.y * m);
    lemma_fit_is_global_minimum(data, o, i, res, j, k2);
    lemma_symmetric_area_turned(o.x as int, o.y as int, k2 * (r2.y * m), k2 * (r2.x * m));
    // The fit of the image, turned, is a candidate for the turned image.
    let r = rs[i];
    assert(rs.contains(r));
    assert(rs.contains(swapped(r)));
    let j2 = choose|j2: int| 0 <= j2 < rs.len() && rs[j2] == swapped(r);
    assert(valid_ratio(data.ratios@[i], data.max_relative_size as int));
    assert(r.x * m >= 1 && r.y * m >= 1) by (nonlinear_arith)
        requires
            r.x >= 1,
            r.y >= 1,
            m >= 1,
    ;
    lemma_best_multiple_exists(o, r.x * m, r.y * m);
    let k = best_multiple(o, r.x * m, r.y * m);
    lemma_fit_is_global_minimum(data, t, i2, res2, j2, k);
    lemma_symmetric_area_turned(o.x as int, o.y as int, k * (r.x * m), k * (r.y * m));
}

/// The ratios of a game come in reciprocal pairs.
pub proof fn lemma_game_ratios_in_pairs(data: GameData, n: int, whole_area: bool, v: Vector2<u32>)
    requires
        data.has_ratios_of(n, whole_area),
        data.spec_ratios().contains(v),
    ensures
        data.spec_ratios().contains(swapped(v)),
{
    lemma_ratio_reciprocal(v, n, whole_area);
}

/// Well-formed game data has a positive multiple and largest area, and every ratio has
/// positive sides, each at most the ceiling of the square root of the largest area; no ratio
/// occurs twice.
pub proof fn lemma_well_formed_positive(data: GameData)
    requires
        data.well_formed(),
    ensures
        data.spec_multiple() >= 1,
        data.spec_max_relative_size() >= 1,
        data.spec_ratios().no_duplicates(),
        forall|i: int| 0 <= i < data.spec_ratios().len() ==> valid_ratio(#[trigger] data.spec_ratios()[i], data.spec_max_relative_size() as int),
{
}

/// Every size a fit gives is positive: its ratio, the size the image is recanvased to, and
/// each spray size.
pub proof fn lemma_fit_positive(data: GameData, o: Vector2<u32>, i: int, res: RatioFittingResult)
    requires
        data.well_formed(),
        data.fit_size_req(o),
        data.is_fit_choice(o, i, res),
    ensures
        res.spec_ratio().x >= 1,
        res.spec_ratio().y >= 1,
        res.spec_as_is().x >= 1,
        res.spec_as_is().y >= 1,
        forall|k: int| 0 <= k < res.spec_resized().len() ==> #[trigger] res.spec_resized()[k].x >= 1 && res.spec_resized()[k].y >= 1,
{
    let m = data.spec_multiple();
    let r = res.spec_ratio();
    assert(valid_ratio(data.ratios@[i], data.max_relative_size as int));
    let sx = r.x * m;
    let sy = r.y * m;
    assert(sx >= 1 && sy >= 1) by (nonlinear_arith)
        requires
            r.x >= 1,
            r.y >= 1,
            m >= 1,
            sx == r.x * m,
            sy == r.y * m,
    ;
    lemma_best_multiple_exists(o, sx, sy);
    let b = best_multiple(o, sx, sy);
    assert(b * sx >= 1 && b * sy >= 1) by (nonlinear_arith)
        requires
            b >= 1,
            sx >= 1,
            sy >= 1,
    ;
    assert forall|k: int| 0 <= k < res.spec_resized().len() implies #[trigger] res.spec_resized()[k].x >= 1 && res.spec_resized()[k].y >= 1 by {
        assert(res.spec_resized()[k].x == (k + 1) * sx && res.spec_resized()[k].y == (k + 1) * sy);
        assert((k + 1) * sx >= 1 && (k + 1) * sy >= 1) by (nonlinear_arith)
            requires
                k >= 0,
                sx >= 1,
                sy >= 1,
        ;
    }
}

} // verus!
