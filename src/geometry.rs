//! Integer plane geometry: positions, exact distance comparisons, and the
//! "advance or snap" movement rule shared by every mobile entity.

use vstd::prelude::*;

verus! {

/// Sub-units per world unit. Positions are stored in thousandths of a unit,
/// so a speed in sub-units per millisecond reads as units per second.
pub const UNIT: i64 = 1000;

/// Largest coordinate magnitude, in sub-units (one million world units).
pub const WORLD_LIMIT: i64 = 1_000_000_000;

/// A point of the shared world plane, in sub-units.
#[derive(Debug, Clone, Copy, PartialEq, Eq, Structural)]
pub struct Pos {
    pub x: i64,
    pub y: i64,
}

impl Pos {
    /// Both coordinates lie inside the playable square.
    pub open spec fn in_world(self) -> bool {
        &&& -WORLD_LIMIT <= self.x <= WORLD_LIMIT
        &&& -WORLD_LIMIT <= self.y <= WORLD_LIMIT
    }

    pub fn new(x: i64, y: i64) -> (p: Pos)
        ensures
            p.x == x,
            p.y == y,
    {
        Pos { x, y }
    }

    /// The beacon's point, the origin of the world.
    pub fn origin() -> (p: Pos)
        ensures
            p == origin(),
    {
        Pos { x: 0, y: 0 }
    }

    pub fn is_in_world(&self) -> (r: bool)
        ensures
            r == self.in_world(),
    {
        -WORLD_LIMIT <= self.x && self.x <= WORLD_LIMIT && -WORLD_LIMIT <= self.y && self.y
            <= WORLD_LIMIT
    }
}

pub open spec fn origin() -> Pos {
    Pos { x: 0, y: 0 }
}

/// Squared Euclidean distance.
pub open spec fn dist_sq(a: Pos, b: Pos) -> int {
    (a.x - b.x) * (a.x - b.x) + (a.y - b.y) * (a.y - b.y)
}

/// The distance from `a` to `b` is strictly less than `r`.
pub open spec fn within(a: Pos, b: Pos, r: int) -> bool {
    dist_sq(a, b) < r * r
}

/// `r` is the integer square root of `n`.
pub open spec fn is_root(n: int, r: int) -> bool {
    0 <= r && r * r <= n < (r + 1) * (r + 1)
}

/// The integer square root of `n`: the largest `r` with `r * r <= n`.
pub open spec fn root(n: int) -> int {
    choose|r: int| is_root(n, r)
}

/// `delta * step / d`, truncated toward zero.
pub open spec fn scaled(delta: int, step: int, d: int) -> int {
    if delta >= 0 {
        delta * step / d
    } else {
        -((-delta) * step / d)
    }
}

/// Where a point at `pos` ends after moving `step` sub-units straight toward
/// `target`: exactly on `target` when the step would reach or overshoot it,
/// else along the direction by `step` (each component truncated toward zero).
pub open spec fn toward(pos: Pos, target: Pos, step: int) -> Pos {
    let d2 = dist_sq(pos, target);
    if d2 <= step * step {
        target
    } else {
        let d = root(d2);
        Pos {
            x: (pos.x + scaled(target.x - pos.x, step, d)) as i64,
            y: (pos.y + scaled(target.y - pos.y, step, d)) as i64,
        }
    }
}

proof fn lemma_root_unique(n: int, r: int, s: int)
    requires
        is_root(n, r),
        is_root(n, s),
    ensures
        r == s,
{
    if r < s {
        assert((r + 1) * (r + 1) <= s * s) by (nonlinear_arith)
            requires
                0 <= r < s,
        ;
    } else if s < r {
        assert((s + 1) * (s + 1) <= r * r) by (nonlinear_arith)
            requires
                0 <= s < r,
        ;
    }
}

proof fn lemma_root_of(n: int, r: int)
    requires
        is_root(n, r),
    ensures
        root(n) == r,
{
    assert(is_root(n, root(n)));
    lemma_root_unique(n, r, root(n));
}

proof fn lemma_square_bound(a: int, b: int)
    requires
        -2 * WORLD_LIMIT <= a <= 2 * WORLD_LIMIT,
        -2 * WORLD_LIMIT <= b <= 2 * WORLD_LIMIT,
    ensures
        0 <= a * a <= 4 * WORLD_LIMIT * WORLD_LIMIT,
        0 <= a * a + b * b <= 8 * WORLD_LIMIT * WORLD_LIMIT,
{
    assert(0 <= a * a <= 4 * WORLD_LIMIT * WORLD_LIMIT) by (nonlinear_arith)
        requires
            -2 * WORLD_LIMIT <= a <= 2 * WORLD_LIMIT,
    ;
    assert(0 <= b * b <= 4 * WORLD_LIMIT * WORLD_LIMIT) by (nonlinear_arith)
        requires
            -2 * WORLD_LIMIT <= b <= 2 * WORLD_LIMIT,
    ;
}

/// Squared distance between two points of the world; it always fits a `u64`.
pub fn distance_squared(a: Pos, b: Pos) -> (r: u64)
    requires
        a.in_world(),
        b.in_world(),
    ensures
        r == dist_sq(a, b),
        r <= 8 * WORLD_LIMIT * WORLD_LIMIT,
{
    let dx: i64 = a.x - b.x;
    let dy: i64 = a.y - b.y;
    proof {
        lemma_square_bound(dx as int, dy as int);
    }
    (dx * dx + dy * dy) as u64
}

/// Whether `a` lies strictly closer than `r` to `b`.
pub fn is_within(a: Pos, b: Pos, r: i64) -> (res: bool)
    requires
        a.in_world(),
        b.in_world(),
        0 <= r <= 2 * WORLD_LIMIT,
    ensures
        res == within(a, b, r as int),
{
    let d2 = distance_squared(a, b);
    assert(r * r <= 4 * WORLD_LIMIT * WORLD_LIMIT) by (nonlinear_arith)
        requires
            0 <= r <= 2 * WORLD_LIMIT,
    ;
    d2 < (r * r) as u64
}

/// The integer square root, by bisection.
pub fn isqrt(n: u64) -> (r: u64)
    ensures
        is_root(n as int, r as int),
        r == root(n as int),
{
    let mut lo: u64 = 0;
    let mut hi: u64 = 0x1_0000_0000;
    assert(n < 0x1_0000_0000 * 0x1_0000_0000);
    while hi - lo > 1
        invariant
            lo < hi <= 0x1_0000_0000,
            lo * lo <= n,
            n < hi * hi,
        decreases hi - lo,
    {
        let mid: u64 = lo + (hi - lo) / 2;
        assert(mid * mid < 0x1_0000_0000 * 0x1_0000_0000) by (nonlinear_arith)
            requires
                mid < 0x1_0000_0000,
        ;
        if mid * mid <= n {
            lo = mid;
        } else {
            hi = mid;
        }
    }
    assert(hi == lo + 1);
    proof {
        lemma_root_of(n as int, lo as int);
    }
    lo
}

proof fn lemma_scaled_bound(delta: int, step: int, d: int)
    requires
        0 <= step <= d,
        0 < d,
    ensures
        delta >= 0 ==> 0 <= scaled(delta, step, d) <= delta,
        delta < 0 ==> delta <= scaled(delta, step, d) <= 0,
{
    let a = if delta >= 0 {
        delta
    } else {
        -delta
    };
    assert(0 <= a * step / d <= a) by (nonlinear_arith)
        requires
            0 <= a,
            0 <= step <= d,
            0 < d,
    ;
}

/// The magnitude of `delta` scaled by `step / d`, with the sign of `delta`.
fn scale_component(delta: i64, step: u64, d: u64) -> (r: i64)
    requires
        -2 * WORLD_LIMIT <= delta <= 2 * WORLD_LIMIT,
        0 < d <= 3 * WORLD_LIMIT,
        step <= d,
    ensures
        r == scaled(delta as int, step as int, d as int),
{
    let a: u64 = if delta >= 0 {
        delta as u64
    } else {
        (-delta) as u64
    };
    assert(a * step <= 6_000_000_000_000_000_000) by (nonlinear_arith)
        requires
            a <= 2_000_000_000,
            step <= d <= 3_000_000_000,
    ;
    let m: u64 = a * step / d;
    proof {
        lemma_scaled_bound(delta as int, step as int, d as int);
    }
    if delta >= 0 {
        m as i64
    } else {
        -(m as i64)
    }
}

/// Whether `b` lies no farther than `step` from `a`.
pub fn reachable(a: Pos, b: Pos, step: u64) -> (r: bool)
    requires
        a.in_world(),
        b.in_world(),
    ensures
        r == (dist_sq(a, b) <= step * step),
{
    let d2 = distance_squared(a, b);
    if step >= 0x1_0000_0000 {
        assert(d2 <= step * step) by (nonlinear_arith)
            requires
                d2 <= 8 * WORLD_LIMIT * WORLD_LIMIT,
                step >= 0x1_0000_0000,
        ;
        return true;
    }
    assert(step * step < 0x1_0000_0000 * 0x1_0000_0000) by (nonlinear_arith)
        requires
            step < 0x1_0000_0000,
    ;
    d2 <= step * step
}

/// One movement step of `step` sub-units from `pos` toward `target`.
pub fn step_toward(pos: Pos, target: Pos, step: u64) -> (r: Pos)
    requires
        pos.in_world(),
        target.in_world(),
    ensures
        r == toward(pos, target, step as int),
        r.in_world(),
{
    let d2 = distance_squared(pos, target);
    if step >= 0x1_0000_0000 {
        assert(d2 <= step * step) by (nonlinear_arith)
            requires
                d2 <= 8 * WORLD_LIMIT * WORLD_LIMIT,
                step >= 0x1_0000_0000,
        ;
        return target;
    }
    assert(step * step < 0x1_0000_0000 * 0x1_0000_0000) by (nonlinear_arith)
        requires
            step < 0x1_0000_0000,
    ;
    if d2 <= step * step {
        return target;
    }
    let d = isqrt(d2);
    assert(step <= d) by (nonlinear_arith)
        requires
            d2 > step * step,
            d2 < (d + 1) * (d + 1),
    ;
    assert(d <= 3 * WORLD_LIMIT) by (nonlinear_arith)
        requires
            d * d <= d2,
            d2 <= 8 * WORLD_LIMIT * WORLD_LIMIT,
    ;
    assert(d > 0) by (nonlinear_arith)
        requires
            d2 > step * step,
            d2 < (d + 1) * (d + 1),
            step >= 0,
    ;
    let ox = scale_component(target.x - pos.x, step, d);
    let oy = scale_component(target.y - pos.y, step, d);
    proof {
        lemma_scaled_bound((target.x - pos.x) as int, step as int, d as int);
        lemma_scaled_bound((target.y - pos.y) as int, step as int, d as int);
    }
    Pos { x: pos.x + ox, y: pos.y + oy }
}

/// An axis-aligned rectangle, edges included, in sub-units.
#[derive(Debug, Clone, Copy, PartialEq, Eq, Structural)]
pub struct Rect {
    pub min: Pos,
    pub max: Pos,
}

impl Rect {
    /// Coordinates small enough that sums of two never overflow.
    pub open spec fn bounded(self) -> bool {
        &&& -2 * WORLD_LIMIT <= self.min.x <= 2 * WORLD_LIMIT
        &&& -2 * WORLD_LIMIT <= self.min.y <= 2 * WORLD_LIMIT
        &&& -2 * WORLD_LIMIT <= self.max.x <= 2 * WORLD_LIMIT
        &&& -2 * WORLD_LIMIT <= self.max.y <= 2 * WORLD_LIMIT
    }

    pub open spec fn spec_contains(self, p: Pos) -> bool {
        &&& self.min.x <= p.x <= self.max.x
        &&& self.min.y <= p.y <= self.max.y
    }

    pub open spec fn spec_intersects(self, other: Rect) -> bool {
        &&& self.min.x <= other.max.x
        &&& other.min.x <= self.max.x
        &&& self.min.y <= other.max.y
        &&& other.min.y <= self.max.y
    }

    /// The rectangle spanned by two corners given in any order.
    pub open spec fn spanned(a: Pos, b: Pos) -> Rect {
        Rect {
            min: Pos {
                x: if a.x <= b.x { a.x } else { b.x },
                y: if a.y <= b.y { a.y } else { b.y },
            },
            max: Pos {
                x: if a.x <= b.x { b.x } else { a.x },
                y: if a.y <= b.y { b.y } else { a.y },
            },
        }
    }

    /// A square of side `size` centred on `center` (half of `size` each way).
    pub fn from_center_size(center: Pos, size: i64) -> (r: Rect)
        requires
            center.in_world(),
            0 <= size <= 2 * WORLD_LIMIT,
        ensures
            r.min == (Pos { x: (center.x - size / 2) as i64, y: (center.y - size / 2) as i64 }),
            r.max == (Pos { x: (center.x + size / 2) as i64, y: (center.y + size / 2) as i64 }),
            r.bounded(),
    {
        let h = size / 2;
        Rect {
            min: Pos { x: center.x - h, y: center.y - h },
            max: Pos { x: center.x + h, y: center.y + h },
        }
    }

    pub fn from_corners(a: Pos, b: Pos) -> (r: Rect)
        ensures
            r == Rect::spanned(a, b),
    {
        let min = Pos {
            x: if a.x <= b.x { a.x } else { b.x },
            y: if a.y <= b.y { a.y } else { b.y },
        };
        let max = Pos {
            x: if a.x <= b.x { b.x } else { a.x },
            y: if a.y <= b.y { b.y } else { a.y },
        };
        Rect { min, max }
    }

    pub fn contains(&self, p: Pos) -> (r: bool)
        ensures
            r == self.spec_contains(p),
    {
        self.min.x <= p.x && p.x <= self.max.x && self.min.y <= p.y && p.y <= self.max.y
    }

    pub fn intersects(&self, other: &Rect) -> (r: bool)
        ensures
            r == self.spec_intersects(*other),
    {
        self.min.x <= other.max.x && other.min.x <= self.max.x && self.min.y <= other.max.y
            && other.min.y <= self.max.y
    }
}

} // verus!
