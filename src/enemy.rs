//! Hostile actors: they pursue the beacon at a speed set by their size, and
//! appear at random around it.

use vstd::prelude::*;
use rand::Rng;
use crate::geometry::{Pos, UNIT, dist_sq, toward, step_toward, reachable, isqrt, origin, root,
    scaled};

verus! {

/// An actor this close to its target no longer moves.
pub const ENEMY_ARRIVAL_EPSILON: i64 = 2 * UNIT;
/// Farthest a spawn lands from the beacon: the heading's integer length can
/// stretch the drawn distance by at most a five hundredth.
pub const SPAWN_REACH: i64 = 1510 * UNIT;
/// Spawn distance from the beacon, in sub-units: at least this much...
pub const SPAWN_DISTANCE_MIN: i64 = 1000 * UNIT;
/// ...and less than this.
pub const SPAWN_DISTANCE_MAX: i64 = 1500 * UNIT;
/// Milliseconds between spawns: at least this much...
pub const SPAWN_INTERVAL_MIN: u32 = 8000;
/// ...and less than this.
pub const SPAWN_INTERVAL_MAX: u32 = 15000;
/// A size roll is drawn uniformly below this.
pub const SIZE_ROLLS: i64 = 10;
/// Resolution of the random heading: a point of the disc of this radius.
pub const HEADING_SCALE: i64 = 1000;
/// Draws of a heading before falling back to due east.
pub const HEADING_TRIES: u32 = 16;

/// Radii of the size classes, in sub-units.
pub const SMALL_RADIUS: i64 = 10 * UNIT;
pub const MEDIUM_RADIUS: i64 = 25 * UNIT;
pub const LARGE_RADIUS: i64 = 50 * UNIT;

#[derive(Debug, Clone, Copy, PartialEq, Eq, Structural)]
pub enum EnemySize {
    Small,
    Medium,
    Large,
}

impl EnemySize {
    pub open spec fn spec_radius(self) -> i64 {
        match self {
            EnemySize::Small => SMALL_RADIUS,
            EnemySize::Medium => MEDIUM_RADIUS,
            EnemySize::Large => LARGE_RADIUS,
        }
    }

    pub open spec fn spec_health(self) -> u32 {
        match self {
            EnemySize::Small => 10,
            EnemySize::Medium => 40,
            EnemySize::Large => 100,
        }
    }

    /// Sub-units per millisecond: the larger, the slower.
    pub open spec fn spec_speed(self) -> u64 {
        match self {
            EnemySize::Small => 20,
            EnemySize::Medium => 15,
            EnemySize::Large => 10,
        }
    }

    /// Radius in sub-units.
    pub fn radius(&self) -> (r: i64)
        ensures
            r == self.spec_radius(),
    {
        match self {
            EnemySize::Small => SMALL_RADIUS,
            EnemySize::Medium => MEDIUM_RADIUS,
            EnemySize::Large => LARGE_RADIUS,
        }
    }

    pub fn health(&self) -> (r: u32)
        ensures
            r == self.spec_health(),
    {
        match self {
            EnemySize::Small => 10,
            EnemySize::Medium => 40,
            EnemySize::Large => 100,
        }
    }

    pub fn speed(&self) -> (r: u64)
        ensures
            r == self.spec_speed(),
    {
        match self {
            EnemySize::Small => 20,
            EnemySize::Medium => 15,
            EnemySize::Large => 10,
        }
    }
}

#[derive(Debug, Clone, Copy, PartialEq, Eq, Structural)]
pub enum EnemyBehavior {
    Wandering,
    Fleeing,
    Attacking,
}

#[derive(Debug, Clone, Copy)]
pub struct Enemy {
    pub id: usize,
    pub position: Pos,
    pub size: EnemySize,
    pub health: u32,
    pub max_health: u32,
    pub target: Option<Pos>,
    /// Milliseconds until a wandering actor picks a new target.
    pub wander_timer: u32,
    pub behavior: EnemyBehavior,
    pub being_shot_at: bool,
}

impl Enemy {
    pub open spec fn wf(self) -> bool {
        &&& self.position.in_world()
        &&& self.target matches Some(t) ==> t.in_world()
        &&& self.max_health == self.size.spec_health()
        &&& self.health <= self.max_health
    }

    /// The actor after `update(dt, beacon)`: its target is the beacon, and
    /// unless already there it moves toward it at its size's speed.
    pub open spec fn pursued(self, dt: u32, beacon: Pos) -> Enemy {
        let d2 = dist_sq(self.position, beacon);
        Enemy {
            target: Some(beacon),
            position: if d2 > ENEMY_ARRIVAL_EPSILON * ENEMY_ARRIVAL_EPSILON {
                toward(self.position, beacon, self.size.spec_speed() * dt)
            } else {
                self.position
            },
            ..self
        }
    }

    /// A new actor at full health with no target.
    pub open spec fn fresh(id: usize, position: Pos, size: EnemySize) -> Enemy {
        Enemy {
            id,
            position,
            size,
            health: size.spec_health(),
            max_health: size.spec_health(),
            target: None,
            wander_timer: 0,
            behavior: EnemyBehavior::Wandering,
            being_shot_at: false,
        }
    }

    pub fn new(id: usize, position: Pos, size: EnemySize) -> (e: Enemy)
        requires
            position.in_world(),
        ensures
            e == Enemy::fresh(id, position, size),
            e.wf(),
    {
        let max_health = size.health();
        Enemy {
            id,
            position,
            size,
            health: max_health,
            max_health,
            target: None,
            wander_timer: 0,
            behavior: EnemyBehavior::Wandering,
            being_shot_at: false,
        }
    }

    /// Heads for the beacon and moves toward it for `delta_time` milliseconds.
    pub fn update(&mut self, delta_time: u32, beacon_pos: Pos)
        requires
            old(self).wf(),
            beacon_pos.in_world(),
        ensures
            *final(self) == old(self).pursued(delta_time, beacon_pos),
            final(self).wf(),
    {
        self.target = Some(beacon_pos);
        if !reachable(self.position, beacon_pos, ENEMY_ARRIVAL_EPSILON as u64) {
            let speed = self.size.speed();
            assert(speed * delta_time <= 20 * 0xffff_ffff) by (nonlinear_arith)
                requires
                    speed <= 20,
                    delta_time <= 0xffff_ffff,
            ;
            let step: u64 = speed * delta_time as u64;
            self.position = step_toward(self.position, beacon_pos, step);
        }
    }

    pub fn radius(&self) -> (r: i64)
        ensures
            r == self.size.spec_radius(),
    {
        self.size.radius()
    }
}

/// Size class of a roll below [`SIZE_ROLLS`]: seven in ten small, two medium,
/// one large.
pub open spec fn size_for_roll(roll: i64) -> EnemySize {
    if roll <= 6 {
        EnemySize::Small
    } else if roll <= 8 {
        EnemySize::Medium
    } else {
        EnemySize::Large
    }
}

pub fn size_from_roll(roll: i64) -> (s: EnemySize)
    ensures
        s == size_for_roll(roll),
{
    if roll <= 6 {
        EnemySize::Small
    } else if roll <= 8 {
        EnemySize::Medium
    } else {
        EnemySize::Large
    }
}

/// A heading is usable: a point of the ring between half the heading scale
/// and the full scale, so that its rounded length stays close to its true one.
pub open spec fn heading_ok(hx: int, hy: int) -> bool {
    &&& -HEADING_SCALE <= hx <= HEADING_SCALE
    &&& -HEADING_SCALE <= hy <= HEADING_SCALE
    &&& (HEADING_SCALE / 2) * (HEADING_SCALE / 2) <= hx * hx + hy * hy
    &&& hx * hx + hy * hy <= HEADING_SCALE * HEADING_SCALE
}

/// The point `distance` sub-units from the beacon along heading `(hx, hy)`:
/// each component is the heading's scaled by `distance` over the heading's
/// integer length, truncated toward zero.
pub open spec fn offset_for(hx: int, hy: int, distance: int) -> Pos {
    let len = root(hx * hx + hy * hy);
    Pos { x: scaled(hx, distance, len) as i64, y: scaled(hy, distance, len) as i64 }
}

/// What a spawn needs from chance: where the actor appears relative to the
/// beacon, its size, and the wait until the next spawn.
#[derive(Debug, Clone, Copy)]
pub struct SpawnRoll {
    pub offset: Pos,
    pub size: EnemySize,
    pub next_interval: u32,
}

impl SpawnRoll {
    /// The offset lies in the spawn band around the beacon (less two
    /// sub-units of rounding below, and within [`SPAWN_REACH`] above), and
    /// the wait lies in the spawn interval.
    pub open spec fn valid(self) -> bool {
        &&& (SPAWN_DISTANCE_MIN - 2) * (SPAWN_DISTANCE_MIN - 2) <= dist_sq(self.offset, origin())
        &&& dist_sq(self.offset, origin()) <= SPAWN_REACH * SPAWN_REACH
        &&& -SPAWN_REACH <= self.offset.x <= SPAWN_REACH
        &&& -SPAWN_REACH <= self.offset.y <= SPAWN_REACH
        &&& SPAWN_INTERVAL_MIN <= self.next_interval < SPAWN_INTERVAL_MAX
    }

    /// The spawn that a drawn heading, distance, size roll and wait make.
    pub fn from_draws(hx: i64, hy: i64, distance: i64, size_roll: i64, wait: u32) -> (r: SpawnRoll)
        requires
            heading_ok(hx as int, hy as int),
            SPAWN_DISTANCE_MIN <= distance < SPAWN_DISTANCE_MAX,
            SPAWN_INTERVAL_MIN <= wait < SPAWN_INTERVAL_MAX,
        ensures
            r.offset == offset_for(hx as int, hy as int, distance as int),
            r.size == size_for_roll(size_roll),
            r.next_interval == wait,
            r.valid(),
    {
        assert(0 <= hx * hx <= HEADING_SCALE * HEADING_SCALE) by (nonlinear_arith)
            requires
                -HEADING_SCALE <= hx <= HEADING_SCALE,
        ;
        assert(0 <= hy * hy <= HEADING_SCALE * HEADING_SCALE) by (nonlinear_arith)
            requires
                -HEADING_SCALE <= hy <= HEADING_SCALE,
        ;
        let n: u64 = (hx * hx + hy * hy) as u64;
        let root = isqrt(n);
        assert(500 <= root <= HEADING_SCALE) by (nonlinear_arith)
            requires
                root * root <= n < (root + 1) * (root + 1),
                250_000 <= n <= 1_000_000,
                root >= 0,
        ;
        let len = root as i64;
        assert(-len <= hx <= len && -len <= hy <= len) by (nonlinear_arith)
            requires
                hx * hx + hy * hy < (len + 1) * (len + 1),
                len >= 0,
        ;
        let ox = along(hx, distance, len);
        let oy = along(hy, distance, len);
        proof {
            let d = distance as int;
            let ax: int = if hx >= 0 { hx as int } else { -hx };
            let ay: int = if hy >= 0 { hy as int } else { -hy };
            let x = ax * d / len as int;
            let y = ay * d / len as int;
            lemma_div_bracket(ax * d, len as int);
            lemma_div_bracket(ay * d, len as int);
            assert(ax * ax == hx * hx && ay * ay == hy * hy) by (nonlinear_arith)
                requires
                    ax == hx || ax == -hx,
                    ay == hy || ay == -hy,
            ;
            assert(ox == x || ox == -x);
            assert(oy == y || oy == -y);
            assert(ox * ox == x * x && oy * oy == y * y) by (nonlinear_arith)
                requires
                    ox == x || ox == -x,
                    oy == y || oy == -y,
            ;
            lemma_offset_bounds(ax, ay, len as int, d, x, y);
            assert((SPAWN_DISTANCE_MIN - 2) * (SPAWN_DISTANCE_MIN - 2) <= (d - 2) * (d - 2))
                by (nonlinear_arith)
                requires
                    SPAWN_DISTANCE_MIN <= d,
            ;
            assert(x * x + y * y <= SPAWN_REACH * SPAWN_REACH) by (nonlinear_arith)
                requires
                    500 * 500 * (x * x + y * y) < 501 * 501 * (d * d),
                    0 <= d < SPAWN_DISTANCE_MAX,
            ;
        }
        SpawnRoll { offset: Pos::new(ox, oy), size: size_from_roll(size_roll), next_interval: wait }
    }

    /// Draws a spawn: a uniformly random heading (a point drawn uniformly in
    /// a square, redrawn while it falls outside the usable ring), a distance
    /// in the spawn band, a weighted size and the next wait.
    pub fn draw() -> (r: SpawnRoll)
        ensures
            r.valid(),
    {
        let mut hx: i64 = HEADING_SCALE;
        let mut hy: i64 = 0;
        let mut tries: u32 = 0;
        while tries < HEADING_TRIES
            invariant
                heading_ok(hx as int, hy as int),
            decreases HEADING_TRIES - tries,
        {
            let cx = random_in(-HEADING_SCALE, HEADING_SCALE + 1);
            let cy = random_in(-HEADING_SCALE, HEADING_SCALE + 1);
            assert(0 <= cx * cx <= HEADING_SCALE * HEADING_SCALE) by (nonlinear_arith)
                requires
                    -HEADING_SCALE <= cx <= HEADING_SCALE,
            ;
            assert(0 <= cy * cy <= HEADING_SCALE * HEADING_SCALE) by (nonlinear_arith)
                requires
                    -HEADING_SCALE <= cy <= HEADING_SCALE,
            ;
            let n = cx * cx + cy * cy;
            if (HEADING_SCALE / 2) * (HEADING_SCALE / 2) <= n && n <= HEADING_SCALE * HEADING_SCALE {
                hx = cx;
                hy = cy;
                break;
            }
            tries = tries + 1;
        }
        let distance = random_in(SPAWN_DISTANCE_MIN, SPAWN_DISTANCE_MAX);
        let roll = random_in(0, SIZE_ROLLS);
        let wait = random_in(SPAWN_INTERVAL_MIN as i64, SPAWN_INTERVAL_MAX as i64);
        SpawnRoll::from_draws(hx, hy, distance, roll, wait as u32)
    }
}

/// `n / d` brackets `n` between two consecutive multiples of `d`.
proof fn lemma_div_bracket(n: int, d: int)
    requires
        0 <= n,
        0 < d,
    ensures
        0 <= n / d,
        d * (n / d) <= n < d * (n / d + 1),
{
    vstd::arithmetic::div_mod::lemma_fundamental_div_mod(n, d);
    vstd::arithmetic::div_mod::lemma_div_pos_is_pos(n, d);
    vstd::arithmetic::div_mod::lemma_mod_pos_bound(n, d);
    let q = n / d;
    assert(d * (q + 1) == d * q + d) by (nonlinear_arith);
}

/// Scaling a heading `(a, b)` of integer length `len` by `d` and truncating
/// each component lands within two sub-units below `d`, and at most a five
/// hundredth above it.
proof fn lemma_offset_bounds(a: int, b: int, len: int, d: int, x: int, y: int)
    requires
        500 <= len,
        0 <= a,
        0 <= b,
        2 <= d,
        0 <= x,
        0 <= y,
        len * len <= a * a + b * b < (len + 1) * (len + 1),
        len * x <= a * d < len * (x + 1),
        len * y <= b * d < len * (y + 1),
    ensures
        (d - 2) * (d - 2) <= x * x + y * y,
        500 * 500 * (x * x + y * y) < 501 * 501 * (d * d),
{
    let n = a * a + b * b;
    let s = x * x + y * y;
    assert(len * len * (x * x) <= a * a * (d * d)) by (nonlinear_arith)
        requires
            0 <= len * x <= a * d,
    ;
    assert(len * len * (y * y) <= b * b * (d * d)) by (nonlinear_arith)
        requires
            0 <= len * y <= b * d,
    ;
    assert(a * a * (d * d) < len * len * ((x + 1) * (x + 1))) by (nonlinear_arith)
        requires
            0 <= a * d < len * (x + 1),
    ;
    assert(b * b * (d * d) < len * len * ((y + 1) * (y + 1))) by (nonlinear_arith)
        requires
            0 <= b * d < len * (y + 1),
    ;
    assert(len * len * (d * d) <= n * (d * d)) by (nonlinear_arith)
        requires
            len * len <= n,
    ;
    assert(n * (d * d) == a * a * (d * d) + b * b * (d * d)) by (nonlinear_arith)
        requires
            n == a * a + b * b,
    ;
    assert(len * len * (d * d) < len * len * ((x + 1) * (x + 1) + (y + 1) * (y + 1)))
        by (nonlinear_arith)
        requires
            len * len * (d * d) <= a * a * (d * d) + b * b * (d * d),
            a * a * (d * d) < len * len * ((x + 1) * (x + 1)),
            b * b * (d * d) < len * len * ((y + 1) * (y + 1)),
    ;
    assert(d * d < (x + 1) * (x + 1) + (y + 1) * (y + 1)) by (nonlinear_arith)
        requires
            len * len * (d * d) < len * len * ((x + 1) * (x + 1) + (y + 1) * (y + 1)),
            len > 0,
    ;
    if s < (d - 2) * (d - 2) {
        assert((x + y) * (x + y) <= 2 * s) by (nonlinear_arith)
            requires
                s == x * x + y * y,
        ;
        assert(2 * (x + y) < 3 * (d - 2)) by (nonlinear_arith)
            requires
                (x + y) * (x + y) <= 2 * s,
                s < (d - 2) * (d - 2),
                x + y >= 0,
                d >= 2,
        ;
        assert(false) by (nonlinear_arith)
            requires
                d * d < (x + 1) * (x + 1) + (y + 1) * (y + 1),
                s == x * x + y * y,
                s < (d - 2) * (d - 2),
                2 * (x + y) < 3 * (d - 2),
                d >= 2,
        ;
    }
    assert(len * len * s <= n * (d * d)) by (nonlinear_arith)
        requires
            s == x * x + y * y,
            len * len * (x * x) <= a * a * (d * d),
            len * len * (y * y) <= b * b * (d * d),
            n * (d * d) == a * a * (d * d) + b * b * (d * d),
    ;
    assert(n * (d * d) < (len + 1) * (len + 1) * (d * d)) by (nonlinear_arith)
        requires
            n < (len + 1) * (len + 1),
            d >= 2,
    ;
    assert(500 * (len + 1) <= 501 * len);
    assert(500 * 500 * ((len + 1) * (len + 1)) <= 501 * 501 * (len * len)) by (nonlinear_arith)
        requires
            0 <= 500 * (len + 1) <= 501 * len,
    ;
    assert(500 * 500 * s < 501 * 501 * (d * d)) by (nonlinear_arith)
        requires
            len * len * s < (len + 1) * (len + 1) * (d * d),
            500 * 500 * ((len + 1) * (len + 1)) <= 501 * 501 * (len * len),
            len > 0,
            s >= 0,
    ;
}

/// `h * distance / len`, truncated toward zero, for a heading component `h`
/// no longer than `len`.
pub fn along(h: i64, distance: i64, len: i64) -> (r: i64)
    requires
        0 < len <= HEADING_SCALE,
        -len <= h <= len,
        0 <= distance < SPAWN_DISTANCE_MAX,
    ensures
        r == scaled(h as int, distance as int, len as int),
        -distance <= r <= distance,
{
    let a: i64 = if h >= 0 {
        h
    } else {
        -h
    };
    assert(0 <= a * distance <= HEADING_SCALE * SPAWN_DISTANCE_MAX) by (nonlinear_arith)
        requires
            0 <= a <= len <= HEADING_SCALE,
            0 <= distance < SPAWN_DISTANCE_MAX,
    ;
    let m = a * distance / len;
    assert(m <= distance) by (nonlinear_arith)
        requires
            0 <= a <= len,
            0 < len,
            0 <= distance,
            m == (a * distance) as int / (len as int),
    ;
    if h >= 0 {
        m
    } else {
        -m
    }
}

/// Relies on rand::Rng::gen_range over rand::thread_rng (rand 0.8): a value
/// drawn from `lo..hi`, which must not be empty.
#[verifier::external_body]
fn random_in(lo: i64, hi: i64) -> (r: i64)
    requires
        lo < hi,
    ensures
        lo <= r < hi,
{
    rand::thread_rng().gen_range(lo..hi)
}

/// The larger the actor, the slower it moves and the more health and
/// radius it has.
pub proof fn lemma_size_order()
    ensures
        EnemySize::Small.spec_speed() > EnemySize::Medium.spec_speed() > EnemySize::Large.spec_speed(),
        EnemySize::Small.spec_health() < EnemySize::Medium.spec_health()
            < EnemySize::Large.spec_health(),
        EnemySize::Small.spec_radius() < EnemySize::Medium.spec_radius()
            < EnemySize::Large.spec_radius(),
{
}

} // verus!
