//! The world: every entity collection, the economy counters, and the
//! per-frame step that advances them in a fixed order, plus the commands the
//! presentation layer issues between frames.

use vstd::prelude::*;
use crate::building::{Building, BuildingType, BuildingView, ProductionType, placeable, is_placeable};
use crate::enemy::{Enemy, SpawnRoll};
use crate::geometry::{Pos, Rect, UNIT, origin};
use crate::resource::{OrePatch, ResourceType, PATCH_RADIUS, PATCH_AMOUNT};
use crate::truck::{Truck, TruckState, patches_wf, supplies, resupplied, drawn_on};

verus! {

/// Milliseconds before the first actor appears.
pub const FIRST_SPAWN_DELAY: u32 = 10_000;

#[derive(Debug, Clone, Copy, PartialEq, Eq, Structural)]
pub enum BuildMode {
    Inactive,
    PlacingGarage,
    PlacingFactory,
}

/// The world's state, with every collection as a sequence.
pub struct WorldView {
    pub trucks: Seq<Truck>,
    pub ore_patches: Seq<OrePatch>,
    pub buildings: Seq<BuildingView>,
    pub enemies: Seq<Enemy>,
    pub next_truck_id: usize,
    pub next_enemy_id: usize,
    pub iron: u32,
    pub coal: u32,
    pub guns: u32,
    pub bullets: u32,
    pub build_mode: BuildMode,
    pub selected_building: Option<usize>,
    pub enemy_spawn_timer: u32,
}

pub open spec fn building_views(bs: Seq<Building>) -> Seq<BuildingView> {
    bs.map_values(|b: Building| b@)
}

pub struct GameApp {
    pub trucks: Vec<Truck>,
    pub ore_patches: Vec<OrePatch>,
    pub buildings: Vec<Building>,
    pub enemies: Vec<Enemy>,
    pub next_truck_id: usize,
    pub next_enemy_id: usize,
    pub iron: u32,
    pub coal: u32,
    pub guns: u32,
    pub bullets: u32,
    pub build_mode: BuildMode,
    pub selected_building: Option<usize>,
    /// Milliseconds until the next actor appears.
    pub enemy_spawn_timer: u32,
}

impl View for GameApp {
    type V = WorldView;

    open spec fn view(&self) -> WorldView {
        WorldView {
            trucks: self.trucks@,
            ore_patches: self.ore_patches@,
            buildings: building_views(self.buildings@),
            enemies: self.enemies@,
            next_truck_id: self.next_truck_id,
            next_enemy_id: self.next_enemy_id,
            iron: self.iron,
            coal: self.coal,
            guns: self.guns,
            bullets: self.bullets,
            build_mode: self.build_mode,
            selected_building: self.selected_building,
            enemy_spawn_timer: self.enemy_spawn_timer,
        }
    }
}

pub open spec fn trucks_wf(ts: Seq<Truck>) -> bool {
    forall|i: int| 0 <= i < ts.len() ==> #[trigger] ts[i].wf()
}

pub open spec fn buildings_wf(bs: Seq<BuildingView>) -> bool {
    forall|j: int| 0 <= j < bs.len() ==> #[trigger] bs[j].wf()
}

pub open spec fn enemies_wf(es: Seq<Enemy>) -> bool {
    forall|k: int| 0 <= k < es.len() ==> #[trigger] es[k].wf()
}

/// The actor after its tick: it pursues the beacon, and its "being targeted"
/// flag starts the frame cleared.
pub open spec fn enemy_ticked(e: Enemy, dt: u32) -> Enemy {
    Enemy { being_shot_at: false, ..e.pursued(dt, origin()) }
}

/// The truck after drawing, in order, on the first `j` buildings.
pub open spec fn served(t: Truck, bs: Seq<BuildingView>, j: int) -> Truck
    decreases j,
{
    if j <= 0 {
        t
    } else {
        let u = served(t, bs, j - 1);
        if supplies(bs[j - 1], u) {
            resupplied(u, bs[j - 1])
        } else {
            u
        }
    }
}

/// The buildings after the truck drew, in order, on the first `j` of them.
pub open spec fn stocked(t: Truck, bs: Seq<BuildingView>, j: int) -> Seq<BuildingView>
    decreases j,
{
    if j <= 0 {
        bs
    } else {
        let u = served(t, bs, j - 1);
        let prev = stocked(t, bs, j - 1);
        if supplies(bs[j - 1], u) {
            prev.update(j - 1, drawn_on(bs[j - 1], u))
        } else {
            prev
        }
    }
}

/// The truck as it comes out of the per-truck pass: it moves or mines,
/// unloads at the beacon, heads back to its mining spot if idle and empty
/// there, draws on every factory in range, and starts mining if it stands
/// idle on a patch.
pub open spec fn turned(t0: Truck, dt: u32, bs: Seq<BuildingView>, patches: Seq<OrePatch>) -> Truck {
    let t = t0.updated(dt).unloaded().redeployed();
    served(t, bs, bs.len() as int).mining_checked(patches)
}

/// The buildings as they come out of one truck's turn.
pub open spec fn turn_stock(t0: Truck, dt: u32, bs: Seq<BuildingView>) -> Seq<BuildingView> {
    let t = t0.updated(dt).unloaded().redeployed();
    stocked(t, bs, bs.len() as int)
}

/// The world after the first `n` trucks took their turns, in order.
pub open spec fn trucks_pass(w: WorldView, dt: u32, n: int) -> WorldView
    decreases n,
{
    if n <= 0 {
        w
    } else {
        let p = trucks_pass(w, dt, n - 1);
        let t0 = w.trucks[n - 1];
        let d = t0.updated(dt).delivery();
        WorldView {
            trucks: p.trucks.update(n - 1, turned(t0, dt, p.buildings, p.ore_patches)),
            iron: p.iron.saturating_add(d.0),
            coal: p.coal.saturating_add(d.1),
            buildings: turn_stock(t0, dt, p.buildings),
            ..p
        }
    }
}

proof fn lemma_stocked(t: Truck, bs: Seq<BuildingView>, j: int)
    requires
        0 <= j <= bs.len(),
    ensures
        stocked(t, bs, j).len() == bs.len(),
        forall|m: int| j <= m < bs.len() ==> stocked(t, bs, j)[m] == bs[m],
    decreases j,
{
    if j > 0 {
        lemma_stocked(t, bs, j - 1);
    }
}

proof fn lemma_trucks_pass(w: WorldView, dt: u32, n: int)
    requires
        0 <= n <= w.trucks.len(),
    ensures
        trucks_pass(w, dt, n).trucks.len() == w.trucks.len(),
        trucks_pass(w, dt, n).buildings.len() == w.buildings.len(),
        forall|m: int| n <= m < w.trucks.len() ==> trucks_pass(w, dt, n).trucks[m] == w.trucks[m],
        trucks_pass(w, dt, n) == (WorldView {
            trucks: trucks_pass(w, dt, n).trucks,
            iron: trucks_pass(w, dt, n).iron,
            coal: trucks_pass(w, dt, n).coal,
            buildings: trucks_pass(w, dt, n).buildings,
            ..w
        }),
    decreases n,
{
    if n > 0 {
        lemma_trucks_pass(w, dt, n - 1);
        let p = trucks_pass(w, dt, n - 1);
        let t0 = w.trucks[n - 1];
        let t = t0.updated(dt).unloaded().redeployed();
        lemma_stocked(t, p.buildings, p.buildings.len() as int);
    }
}

/// Where a garage at `at` puts the truck numbered `id`: 60 units below it,
/// shifted left, not at all, or right by 30 units as `id` runs through its
/// residues mod 3, so that trucks built one after another do not overlap.
pub open spec fn spawn_point(at: Pos, id: usize) -> Pos {
    Pos { x: (at.x + ((id % 3) as int * 30 - 30) * UNIT) as i64, y: (at.y + 60 * UNIT) as i64 }
}

pub fn spawn_point_for(at: Pos, id: usize) -> (p: Pos)
    requires
        placeable(at),
    ensures
        p == spawn_point(at, id),
        p.in_world(),
{
    let col: i64 = (id % 3) as i64;
    Pos::new(at.x + (col * 30 - 30) * UNIT, at.y + 60 * UNIT)
}

/// The world after the first `n` buildings ran their production tick, in
/// order; each truck completed joins the fleet with the next id.
pub open spec fn production_pass(w: WorldView, dt: u32, n: int) -> WorldView
    decreases n,
{
    if n <= 0 {
        w
    } else {
        let p = production_pass(w, dt, n - 1);
        let b = w.buildings[n - 1];
        let q = WorldView { buildings: p.buildings.update(n - 1, b.ticked(dt)), ..p };
        if b.completed(dt) == Some(ProductionType::Truck) {
            WorldView {
                trucks: q.trucks.push(
                    Truck::fresh(q.next_truck_id, spawn_point(b.position, q.next_truck_id)),
                ),
                next_truck_id: q.next_truck_id.saturating_add(1),
                ..q
            }
        } else {
            q
        }
    }
}

proof fn lemma_production_pass(w: WorldView, dt: u32, n: int)
    requires
        0 <= n <= w.buildings.len(),
    ensures
        production_pass(w, dt, n).buildings.len() == w.buildings.len(),
        forall|m: int|
            n <= m < w.buildings.len() ==> production_pass(w, dt, n).buildings[m]
                == w.buildings[m],
    decreases n,
{
    if n > 0 {
        lemma_production_pass(w, dt, n - 1);
    }
}

/// Index of the first building, from `i` on, whose footprint covers `p`.
pub open spec fn building_at(bs: Seq<BuildingView>, p: Pos, i: int) -> Option<usize>
    decreases bs.len() - i,
{
    if i < 0 || i >= bs.len() {
        None
    } else if covers(bs[i], p) {
        Some(i as usize)
    } else {
        building_at(bs, p, i + 1)
    }
}

/// The point lies strictly inside the building's square footprint.
pub open spec fn covers(b: BuildingView, p: Pos) -> bool {
    &&& -b.size < p.x - b.position.x < b.size
    &&& -b.size < p.y - b.position.y < b.size
}

/// Index of the first truck, from `i` on, whose body holds `p`.
pub open spec fn truck_at(ts: Seq<Truck>, p: Pos, i: int) -> Option<usize>
    decreases ts.len() - i,
{
    if i < 0 || i >= ts.len() {
        None
    } else if ts[i].spec_bounds().spec_contains(p) {
        Some(i as usize)
    } else {
        truck_at(ts, p, i + 1)
    }
}

/// Every truck with its selection flag set to `f(i)`.
pub open spec fn with_selection(ts: Seq<Truck>, f: spec_fn(int) -> bool) -> Seq<Truck> {
    Seq::new(ts.len(), |i: int| Truck { selected: f(i), ..ts[i] })
}

/// The placement mode that buys a building of `kind`.
pub open spec fn kind_of_mode(mode: BuildMode) -> BuildingType {
    match mode {
        BuildMode::PlacingFactory => BuildingType::Factory,
        _ => BuildingType::Garage,
    }
}

/// Guns stored in the factories among the first `n` buildings.
pub open spec fn factory_guns(bs: Seq<BuildingView>, n: int) -> int
    decreases n,
{
    if n <= 0 {
        0
    } else {
        factory_guns(bs, n - 1) + if bs[n - 1].building_type == BuildingType::Factory {
            bs[n - 1].stored_guns as int
        } else {
            0
        }
    }
}

/// Bullet boxes stored in the factories among the first `n` buildings.
pub open spec fn factory_boxes(bs: Seq<BuildingView>, n: int) -> int
    decreases n,
{
    if n <= 0 {
        0
    } else {
        factory_boxes(bs, n - 1) + if bs[n - 1].building_type == BuildingType::Factory {
            bs[n - 1].stored_bullet_boxes as int
        } else {
            0
        }
    }
}

/// Trucks among the first `n` that are selected.
pub open spec fn selected_among(ts: Seq<Truck>, n: int) -> int
    decreases n,
{
    if n <= 0 {
        0
    } else {
        selected_among(ts, n - 1) + if ts[n - 1].selected {
            1int
        } else {
            0
        }
    }
}

/// Trucks among the first `n` that are mining.
pub open spec fn mining_among(ts: Seq<Truck>, n: int) -> int
    decreases n,
{
    if n <= 0 {
        0
    } else {
        mining_among(ts, n - 1) + if ts[n - 1].state == TruckState::Mining {
            1int
        } else {
            0
        }
    }
}

proof fn lemma_truck_at_bound(ts: Seq<Truck>, p: Pos, i: int)
    requires
        ts.len() <= usize::MAX,
    ensures
        truck_at(ts, p, i) matches Some(k) ==> i <= k < ts.len(),
    decreases ts.len() - i,
{
    if 0 <= i < ts.len() {
        lemma_truck_at_bound(ts, p, i + 1);
    }
}

proof fn lemma_building_at_bound(bs: Seq<BuildingView>, p: Pos, i: int)
    requires
        bs.len() <= usize::MAX,
    ensures
        building_at(bs, p, i) matches Some(k) ==> i <= k < bs.len(),
    decreases bs.len() - i,
{
    if 0 <= i < bs.len() {
        lemma_building_at_bound(bs, p, i + 1);
    }
}

proof fn lemma_no_building_outside(bs: Seq<BuildingView>, p: Pos, i: int)
    requires
        buildings_wf(bs),
        !p.in_world(),
        0 <= i,
    ensures
        building_at(bs, p, i) == None::<usize>,
    decreases bs.len() - i,
{
    if i < bs.len() {
        assert(bs[i].wf());
        lemma_no_building_outside(bs, p, i + 1);
    }
}

/// The starting world: three idle trucks with ids 0 to 2 near the beacon,
/// an iron patch and a coal patch, the beacon alone at the origin, no
/// actors, empty counters, and the first spawn ten seconds away.
pub open spec fn starting_world() -> WorldView {
    WorldView {
        trucks: seq![
            Truck::fresh(0, Pos { x: 50000, y: 50000 }),
            Truck::fresh(1, Pos { x: 100000, y: 50000 }),
            Truck::fresh(2, Pos { x: 75000, y: 100000 }),
        ],
        ore_patches: seq![
            OrePatch {
                position: Pos { x: -150000i64, y: 100000 },
                size: PATCH_RADIUS,
                resource_type: ResourceType::Iron,
                amount: PATCH_AMOUNT,
            },
            OrePatch {
                position: Pos { x: 150000, y: 100000 },
                size: PATCH_RADIUS,
                resource_type: ResourceType::Coal,
                amount: PATCH_AMOUNT,
            },
        ],
        buildings: seq![BuildingView::fresh(origin(), BuildingType::Beacon)],
        enemies: Seq::empty(),
        next_truck_id: 3,
        next_enemy_id: 0,
        iron: 0,
        coal: 0,
        guns: 0,
        bullets: 0,
        build_mode: BuildMode::Inactive,
        selected_building: None,
        enemy_spawn_timer: FIRST_SPAWN_DELAY,
    }
}

/// In the starting world every truck is empty and unarmed, the truck ids are
/// distinct and below the next id, and the only building is the beacon, at
/// the origin.
pub proof fn lemma_starting_world()
    ensures
        starting_world().wf(),
        forall|i: int|
            0 <= i < starting_world().trucks.len() ==> {
                let t = #[trigger] starting_world().trucks[i];
                &&& t.cargo_amount == 0
                &&& t.cargo.is_none()
                &&& !t.has_gun
                &&& t.bullets == 0
                &&& t.id < starting_world().next_truck_id
            },
        forall|i: int, j: int|
            0 <= i < j < starting_world().trucks.len() ==> starting_world().trucks[i].id
                != starting_world().trucks[j].id,
        starting_world().buildings.len() == 1,
        starting_world().buildings[0].building_type == BuildingType::Beacon,
        starting_world().buildings[0].position == origin(),
{
    let w = starting_world();
    assert(w.trucks[0].id == 0 && w.trucks[1].id == 1 && w.trucks[2].id == 2);
    assert(w.ore_patches[0].wf() && w.ore_patches[1].wf());
    assert(w.buildings[0].wf());
}

impl WorldView {
    /// The economy covers a cost.
    pub open spec fn affords(self, cost: (u32, u32)) -> bool {
        self.iron >= cost.0 && self.coal >= cost.1
    }

    /// An enqueue at building `idx` is accepted: the building exists, can make
    /// `kind`, and the economy covers its cost.
    pub open spec fn can_enqueue(self, idx: int, kind: ProductionType) -> bool {
        &&& 0 <= idx < self.buildings.len()
        &&& self.buildings[idx].building_type.produces(kind)
        &&& self.affords(kind.spec_cost())
    }

    /// The world after an accepted enqueue: the cost is paid at once and the
    /// item joins the end of the queue.
    pub open spec fn enqueued(self, idx: int, kind: ProductionType) -> WorldView {
        WorldView {
            iron: (self.iron - kind.spec_cost().0) as u32,
            coal: (self.coal - kind.spec_cost().1) as u32,
            buildings: self.buildings.update(idx, self.buildings[idx].enqueued(kind)),
            ..self
        }
    }

    /// A purchase of a building of `kind` at `at` is accepted: it is a garage
    /// or a factory, the spot is one where buildings may stand, and the
    /// economy covers its cost.
    pub open spec fn can_place(self, kind: BuildingType, at: Pos) -> bool {
        &&& kind != BuildingType::Beacon
        &&& placeable(at)
        &&& self.affords(kind.spec_cost())
    }

    /// The world after an accepted purchase: the cost is paid and the
    /// building stands at `at`.
    pub open spec fn placed(self, kind: BuildingType, at: Pos) -> WorldView {
        WorldView {
            iron: (self.iron - kind.spec_cost().0) as u32,
            coal: (self.coal - kind.spec_cost().1) as u32,
            buildings: self.buildings.push(BuildingView::fresh(at, kind)),
            ..self
        }
    }

    /// Every selected truck is sent toward `target` (trucks returning to
    /// base ignore it).
    pub open spec fn selection_sent(self, target: Pos) -> WorldView {
        WorldView {
            trucks: Seq::new(
                self.trucks.len(),
                |i: int|
                    if self.trucks[i].selected {
                        self.trucks[i].sent_to(target)
                    } else {
                        self.trucks[i]
                    },
            ),
            ..self
        }
    }

    /// A click at `p`: a building under it becomes the selected building;
    /// otherwise no building is selected, and the first truck under it is
    /// toggled (with `additive`) or becomes the only selected truck; a click
    /// on empty ground clears the truck selection unless `additive`.
    pub open spec fn clicked(self, p: Pos, additive: bool) -> WorldView {
        match building_at(self.buildings, p, 0) {
            Some(i) => WorldView { selected_building: Some(i), ..self },
            None => {
                let w = WorldView { selected_building: None, ..self };
                match truck_at(self.trucks, p, 0) {
                    Some(i) => if additive {
                        WorldView {
                            trucks: self.trucks.update(
                                i as int,
                                Truck { selected: !self.trucks[i as int].selected, ..self.trucks[i as int] },
                            ),
                            ..w
                        }
                    } else {
                        WorldView { trucks: with_selection(self.trucks, |m: int| m == i), ..w }
                    },
                    None => if additive {
                        w
                    } else {
                        WorldView { trucks: with_selection(self.trucks, |m: int| false), ..w }
                    },
                }
            },
        }
    }

    /// A drag from `a` to `b` selects exactly the trucks whose bodies meet the
    /// rectangle spanned by the two corners.
    pub open spec fn box_selected(self, a: Pos, b: Pos) -> WorldView {
        WorldView {
            trucks: with_selection(
                self.trucks,
                |i: int| Rect::spanned(a, b).spec_intersects(self.trucks[i].spec_bounds()),
            ),
            ..self
        }
    }

    /// Every entity is well formed.
    pub open spec fn wf(self) -> bool {
        &&& trucks_wf(self.trucks)
        &&& patches_wf(self.ore_patches)
        &&& buildings_wf(self.buildings)
        &&& enemies_wf(self.enemies)
    }

    /// The spawn check: the timer runs down by `dt`; when it runs out, an
    /// actor of the roll's size appears at the roll's offset from the beacon
    /// (at the origin) and the timer restarts at the roll's interval.
    pub open spec fn spawned(self, dt: u32, roll: SpawnRoll) -> WorldView {
        if dt >= self.enemy_spawn_timer {
            WorldView {
                enemies: self.enemies.push(Enemy::fresh(self.next_enemy_id, roll.offset, roll.size)),
                next_enemy_id: self.next_enemy_id.saturating_add(1),
                enemy_spawn_timer: roll.next_interval,
                ..self
            }
        } else {
            WorldView { enemy_spawn_timer: (self.enemy_spawn_timer - dt) as u32, ..self }
        }
    }

    /// One whole frame of `dt` milliseconds, with `roll` as the outcome of
    /// chance: the spawn check, then every actor, then every truck in turn,
    /// then every building's production.
    pub open spec fn stepped(self, dt: u32, roll: SpawnRoll) -> WorldView {
        let a = self.spawned(dt, roll);
        let b = a.enemies_advanced(dt);
        let c = trucks_pass(b, dt, b.trucks.len() as int);
        production_pass(c, dt, c.buildings.len() as int)
    }

    /// Every actor takes its tick.
    pub open spec fn enemies_advanced(self, dt: u32) -> WorldView {
        WorldView {
            enemies: Seq::new(self.enemies.len(), |k: int| enemy_ticked(self.enemies[k], dt)),
            ..self
        }
    }
}

impl GameApp {
    /// The starting world: three trucks near the beacon, an iron and a coal
    /// patch, the beacon at the origin, no resources.
    pub fn new() -> (g: GameApp)
        ensures
            g@ == starting_world(),
            g@.wf(),
    {
        let mut trucks: Vec<Truck> = Vec::new();
        trucks.push(Truck::new(0, Pos::new(50 * UNIT, 50 * UNIT)));
        trucks.push(Truck::new(1, Pos::new(100 * UNIT, 50 * UNIT)));
        trucks.push(Truck::new(2, Pos::new(75 * UNIT, 100 * UNIT)));
        let mut ore_patches: Vec<OrePatch> = Vec::new();
        ore_patches.push(OrePatch::new(Pos::new(-150 * UNIT, 100 * UNIT), ResourceType::Iron));
        ore_patches.push(OrePatch::new(Pos::new(150 * UNIT, 100 * UNIT), ResourceType::Coal));
        let mut buildings: Vec<Building> = Vec::new();
        buildings.push(Building::new(Pos::origin(), BuildingType::Beacon));
        let g = GameApp {
            trucks,
            ore_patches,
            buildings,
            enemies: Vec::new(),
            next_truck_id: 3,
            next_enemy_id: 0,
            iron: 0,
            coal: 0,
            guns: 0,
            bullets: 0,
            build_mode: BuildMode::Inactive,
            selected_building: None,
            enemy_spawn_timer: FIRST_SPAWN_DELAY,
        };
        assert(g@.trucks =~= starting_world().trucks);
        assert(g@.ore_patches =~= starting_world().ore_patches);
        assert(g@.buildings =~= starting_world().buildings);
        assert(g@.enemies =~= starting_world().enemies);
        g
    }

    /// Advances the world by one frame of `delta_time` milliseconds, drawing
    /// what chance decides (where and how large a new actor is, and the wait
    /// before the next one).
    pub fn update(&mut self, delta_time: u32)
        requires
            old(self)@.wf(),
        ensures
            final(self)@.wf(),
            exists|roll: SpawnRoll|
                roll.valid() && final(self)@ == #[trigger] old(self)@.stepped(delta_time, roll),
    {
        let roll = SpawnRoll::draw();
        self.update_with(delta_time, &roll);
    }

    /// Advances the world by one frame of `delta_time` milliseconds, with
    /// `roll` as the outcome of chance.
    pub fn update_with(&mut self, delta_time: u32, roll: &SpawnRoll)
        requires
            old(self)@.wf(),
            roll.valid(),
        ensures
            final(self)@ == old(self)@.stepped(delta_time, *roll),
            final(self)@.wf(),
    {
        self.spawn_phase(delta_time, roll);
        self.enemy_phase(delta_time);
        self.truck_phase(delta_time);
        self.production_phase(delta_time);
    }

    /// Queues `kind` at building `building_idx`, paying its cost at once.
    /// Rejected, with nothing changed, when there is no such building, it
    /// cannot make `kind`, or iron or coal falls short.
    pub fn enqueue_production(&mut self, building_idx: usize, kind: ProductionType) -> (accepted: bool)
        requires
            old(self)@.wf(),
        ensures
            accepted == old(self)@.can_enqueue(building_idx as int, kind),
            accepted ==> final(self)@ == old(self)@.enqueued(building_idx as int, kind),
            !accepted ==> final(self)@ == old(self)@,
            final(self)@.wf(),
    {
        if building_idx >= self.buildings.len() {
            return false;
        }
        let (fe, co) = kind.cost();
        if !self.buildings[building_idx].can_produce(kind) || self.iron < fe || self.coal < co {
            return false;
        }
        proof {
            assert(self@.buildings[building_idx as int].wf());
        }
        self.iron = self.iron - fe;
        self.coal = self.coal - co;
        self.buildings[building_idx].production_queue.push(kind);
        proof {
            assert(self@.buildings =~= old(self)@.enqueued(building_idx as int, kind).buildings);
            assert(self@.buildings[building_idx as int].wf());
        }
        true
    }

    /// Buys a garage or a factory and places it at `at`, paying its cost.
    /// Rejected, with nothing changed, for a beacon, for a spot where
    /// buildings may not stand, or when iron or coal falls short.
    pub fn place_building(&mut self, kind: BuildingType, at: Pos) -> (accepted: bool)
        requires
            old(self)@.wf(),
        ensures
            accepted == old(self)@.can_place(kind, at),
            accepted ==> final(self)@ == old(self)@.placed(kind, at),
            !accepted ==> final(self)@ == old(self)@,
            final(self)@.wf(),
    {
        let (fe, co) = kind.cost();
        if kind == BuildingType::Beacon || !is_placeable(at) || self.iron < fe || self.coal < co {
            return false;
        }
        self.iron = self.iron - fe;
        self.coal = self.coal - co;
        self.buildings.push(Building::new(at, kind));
        proof {
            assert(self@.buildings =~= old(self)@.placed(kind, at).buildings);
        }
        true
    }

    /// Enters placement mode for a garage or a factory; accepted only when
    /// no placement is under way and the economy covers the building.
    pub fn begin_placement(&mut self, mode: BuildMode) -> (accepted: bool)
        requires
            old(self)@.wf(),
        ensures
            accepted == (mode != BuildMode::Inactive && old(self).build_mode == BuildMode::Inactive
                && old(self)@.affords(kind_of_mode(mode).spec_cost())),
            accepted ==> final(self)@ == (WorldView { build_mode: mode, ..old(self)@ }),
            !accepted ==> final(self)@ == old(self)@,
            final(self)@.wf(),
    {
        let kind = if let BuildMode::PlacingFactory = mode {
            BuildingType::Factory
        } else {
            BuildingType::Garage
        };
        let (fe, co) = kind.cost();
        if mode == BuildMode::Inactive || self.build_mode != BuildMode::Inactive || self.iron < fe
            || self.coal < co {
            return false;
        }
        self.build_mode = mode;
        true
    }

    /// Leaves placement mode.
    pub fn cancel_placement(&mut self)
        requires
            old(self)@.wf(),
        ensures
            final(self)@ == (WorldView { build_mode: BuildMode::Inactive, ..old(self)@ }),
            final(self)@.wf(),
    {
        self.build_mode = BuildMode::Inactive;
    }

    /// Sends every selected truck toward `target`. A target outside the
    /// world is ignored.
    pub fn move_selected(&mut self, target: Pos)
        requires
            old(self)@.wf(),
        ensures
            target.in_world() ==> final(self)@ == old(self)@.selection_sent(target),
            !target.in_world() ==> final(self)@ == old(self)@,
            final(self)@.wf(),
    {
        if !target.is_in_world() {
            return;
        }
        let ghost w0 = self@;
        let mut i: usize = 0;
        while i < self.trucks.len()
            invariant
                i <= self.trucks@.len() == w0.trucks.len(),
                target.in_world(),
                self@.wf(),
                self@ == (WorldView { trucks: self@.trucks, ..w0 }),
                forall|m: int| 0 <= m < i ==> self@.trucks[m] == w0.selection_sent(target).trucks[m],
                forall|m: int| i <= m < w0.trucks.len() ==> self@.trucks[m] == w0.trucks[m],
            decreases w0.trucks.len() - i,
        {
            let mut t = self.trucks[i];
            assert(self@.trucks[i as int].wf());
            if t.selected {
                t.start_moving(target);
            }
            self.trucks.set(i, t);
            i = i + 1;
        }
        assert(self@.trucks =~= w0.selection_sent(target).trucks);
    }

    /// A secondary click at `target`: while placing, buys the building there
    /// and leaves placement mode if the purchase went through; otherwise
    /// sends the selected trucks there.
    pub fn right_click(&mut self, target: Pos)
        requires
            old(self)@.wf(),
        ensures
            old(self).build_mode != BuildMode::Inactive ==> {
                let kind = kind_of_mode(old(self).build_mode);
                if old(self)@.can_place(kind, target) {
                    final(self)@ == (WorldView {
                        build_mode: BuildMode::Inactive,
                        ..old(self)@.placed(kind, target)
                    })
                } else {
                    final(self)@ == old(self)@
                }
            },
            old(self).build_mode == BuildMode::Inactive && target.in_world() ==> final(self)@
                == old(self)@.selection_sent(target),
            old(self).build_mode == BuildMode::Inactive && !target.in_world() ==> final(self)@
                == old(self)@,
            final(self)@.wf(),
    {
        match self.build_mode {
            BuildMode::PlacingGarage => {
                if self.place_building(BuildingType::Garage, target) {
                    self.build_mode = BuildMode::Inactive;
                }
            },
            BuildMode::PlacingFactory => {
                if self.place_building(BuildingType::Factory, target) {
                    self.build_mode = BuildMode::Inactive;
                }
            },
            BuildMode::Inactive => {
                self.move_selected(target);
            },
        }
    }

    /// A click at `point` in the world: see [`WorldView::clicked`].
    pub fn click(&mut self, point: Pos, additive: bool)
        requires
            old(self)@.wf(),
        ensures
            final(self)@ == old(self)@.clicked(point, additive),
            final(self)@.wf(),
    {
        if let Some(i) = self.find_building(point) {
            self.selected_building = Some(i);
            return;
        }
        self.selected_building = None;
        match self.find_truck(point) {
            Some(i) => {
                if additive {
                    let mut t = self.trucks[i];
                    assert(self@.trucks[i as int].wf());
                    t.selected = !t.selected;
                    self.trucks.set(i, t);
                    assert(self@.trucks =~= old(self)@.clicked(point, additive).trucks);
                } else {
                    self.select_only(Some(i));
                    let ghost goal = old(self)@.clicked(point, additive).trucks;
                    assert(goal == with_selection(old(self)@.trucks, |m: int| m == i));
                    assert(old(self).trucks.len() == old(self).trucks@.len());
                    assert forall|m: int| 0 <= m < goal.len() implies self@.trucks[m] == goal[m] by {
                        assert((Some(i) == Some(m as usize)) == (m == i));
                    }
                    assert(self@.trucks =~= goal);
                }
            },
            None => {
                if !additive {
                    self.select_only(None);
                    assert(self@.trucks =~= old(self)@.clicked(point, additive).trucks);
                }
            },
        }
    }

    /// Guns stored over all factories.
    pub fn total_guns(&self) -> (r: u128)
        ensures
            r == factory_guns(self@.buildings, self@.buildings.len() as int),
    {
        let mut sum: u128 = 0;
        let mut j: usize = 0;
        while j < self.buildings.len()
            invariant
                j <= self.buildings@.len(),
                sum == factory_guns(self@.buildings, j as int),
                sum <= j * 0xffff_ffff,
            decreases self.buildings@.len() - j,
        {
            if self.buildings[j].building_type == BuildingType::Factory {
                sum = sum + self.buildings[j].stored_guns as u128;
            }
            j = j + 1;
        }
        sum
    }

    /// Bullet boxes stored over all factories.
    pub fn total_bullet_boxes(&self) -> (r: u128)
        ensures
            r == factory_boxes(self@.buildings, self@.buildings.len() as int),
    {
        let mut sum: u128 = 0;
        let mut j: usize = 0;
        while j < self.buildings.len()
            invariant
                j <= self.buildings@.len(),
                sum == factory_boxes(self@.buildings, j as int),
                sum <= j * 0xffff_ffff,
            decreases self.buildings@.len() - j,
        {
            if self.buildings[j].building_type == BuildingType::Factory {
                sum = sum + self.buildings[j].stored_bullet_boxes as u128;
            }
            j = j + 1;
        }
        sum
    }

    /// How many trucks are selected.
    pub fn selected_count(&self) -> (r: usize)
        ensures
            r == selected_among(self@.trucks, self@.trucks.len() as int),
    {
        let mut count: usize = 0;
        let mut i: usize = 0;
        while i < self.trucks.len()
            invariant
                i <= self.trucks@.len(),
                count == selected_among(self@.trucks, i as int),
                count <= i,
            decreases self.trucks@.len() - i,
        {
            if self.trucks[i].selected {
                count = count + 1;
            }
            i = i + 1;
        }
        count
    }

    /// How many trucks are mining.
    pub fn mining_count(&self) -> (r: usize)
        ensures
            r == mining_among(self@.trucks, self@.trucks.len() as int),
    {
        let mut count: usize = 0;
        let mut i: usize = 0;
        while i < self.trucks.len()
            invariant
                i <= self.trucks@.len(),
                count == mining_among(self@.trucks, i as int),
                count <= i,
            decreases self.trucks@.len() - i,
        {
            if self.trucks[i].state == TruckState::Mining {
                count = count + 1;
            }
            i = i + 1;
        }
        count
    }

    /// Index of the first building whose footprint covers `point`.
    pub fn find_building(&self, point: Pos) -> (r: Option<usize>)
        requires
            self@.wf(),
        ensures
            r == building_at(self@.buildings, point, 0),
            r matches Some(k) ==> k < self@.buildings.len(),
    {
        proof {
            assert(self@.buildings.len() == self.buildings.len());
            lemma_building_at_bound(self@.buildings, point, 0);
        }
        if !point.is_in_world() {
            proof {
                lemma_no_building_outside(self@.buildings, point, 0);
            }
            return None;
        }
        let mut j: usize = 0;
        while j < self.buildings.len()
            invariant
                j <= self.buildings@.len(),
                point.in_world(),
                self@.wf(),
                building_at(self@.buildings, point, 0) == building_at(self@.buildings, point, j as int),
            decreases self.buildings@.len() - j,
        {
            assert(self@.buildings[j as int].wf());
            if self.buildings[j].contains_point(point) {
                return Some(j);
            }
            j = j + 1;
        }
        None
    }

    /// Index of the first truck whose body holds `point`.
    pub fn find_truck(&self, point: Pos) -> (r: Option<usize>)
        requires
            self@.wf(),
        ensures
            r == truck_at(self@.trucks, point, 0),
            r matches Some(k) ==> k < self@.trucks.len(),
    {
        proof {
            assert(self@.trucks.len() == self.trucks.len());
            lemma_truck_at_bound(self@.trucks, point, 0);
        }
        let mut i: usize = 0;
        while i < self.trucks.len()
            invariant
                i <= self.trucks@.len(),
                self@.wf(),
                truck_at(self@.trucks, point, 0) == truck_at(self@.trucks, point, i as int),
            decreases self.trucks@.len() - i,
        {
            assert(self@.trucks[i as int].wf());
            if self.trucks[i].contains_point(point) {
                return Some(i);
            }
            i = i + 1;
        }
        None
    }

    /// Leaves exactly truck `only` selected (none at all for `None`).
    fn select_only(&mut self, only: Option<usize>)
        requires
            old(self)@.wf(),
        ensures
            final(self)@ == (WorldView {
                trucks: with_selection(old(self)@.trucks, |m: int| only == Some(m as usize)),
                ..old(self)@
            }),
            final(self)@.wf(),
    {
        let ghost w0 = self@;
        let ghost goal = with_selection(w0.trucks, |m: int| only == Some(m as usize));
        let mut i: usize = 0;
        while i < self.trucks.len()
            invariant
                i <= self.trucks@.len() == w0.trucks.len(),
                goal == with_selection(w0.trucks, |m: int| only == Some(m as usize)),
                self@.wf(),
                self@ == (WorldView { trucks: self@.trucks, ..w0 }),
                forall|m: int| 0 <= m < i ==> self@.trucks[m] == goal[m],
                forall|m: int| i <= m < w0.trucks.len() ==> self@.trucks[m] == w0.trucks[m],
            decreases w0.trucks.len() - i,
        {
            let mut t = self.trucks[i];
            assert(self@.trucks[i as int].wf());
            t.selected = only == Some(i);
            self.trucks.set(i, t);
            i = i + 1;
        }
        assert(self@.trucks =~= goal);
    }

    /// Selects exactly the trucks whose bodies meet the rectangle spanned by
    /// `a` and `b`.
    pub fn box_select(&mut self, a: Pos, b: Pos)
        requires
            old(self)@.wf(),
        ensures
            final(self)@ == old(self)@.box_selected(a, b),
            final(self)@.wf(),
    {
        let ghost w0 = self@;
        let area = Rect::from_corners(a, b);
        let mut i: usize = 0;
        while i < self.trucks.len()
            invariant
                i <= self.trucks@.len() == w0.trucks.len(),
                area == Rect::spanned(a, b),
                self@.wf(),
                self@ == (WorldView { trucks: self@.trucks, ..w0 }),
                forall|m: int| 0 <= m < i ==> self@.trucks[m] == w0.box_selected(a, b).trucks[m],
                forall|m: int| i <= m < w0.trucks.len() ==> self@.trucks[m] == w0.trucks[m],
            decreases w0.trucks.len() - i,
        {
            let mut t = self.trucks[i];
            assert(self@.trucks[i as int].wf());
            t.selected = area.intersects(&t.bounds());
            self.trucks.set(i, t);
            i = i + 1;
        }
        assert(self@.trucks =~= w0.box_selected(a, b).trucks);
    }

    fn production_phase(&mut self, delta_time: u32)
        requires
            old(self)@.wf(),
        ensures
            final(self)@ == production_pass(old(self)@, delta_time, old(self)@.buildings.len() as int),
            final(self)@.wf(),
    {
        let ghost w0 = self@;
        let mut j: usize = 0;
        while j < self.buildings.len()
            invariant
                j <= self.buildings@.len() == w0.buildings.len(),
                self@ == production_pass(w0, delta_time, j as int),
                self@.wf(),
            decreases w0.buildings.len() - j,
        {
            proof {
                lemma_production_pass(w0, delta_time, j as int);
                assert(self@.buildings[j as int] == w0.buildings[j as int]);
                assert(self@.buildings[j as int].wf());
            }
            let done = self.buildings[j].advance_production(delta_time);
            proof {
                assert(self@.buildings =~= production_pass(w0, delta_time, j as int).buildings.update(
                    j as int,
                    w0.buildings[j as int].ticked(delta_time),
                ));
            }
            if let Some(ProductionType::Truck) = done {
                let at = self.buildings[j].position;
                let id = self.next_truck_id;
                let pos = spawn_point_for(at, id);
                self.trucks.push(Truck::new(id, pos));
                self.next_truck_id = id.saturating_add(1);
            }
            proof {
                assert(self@.trucks =~= production_pass(w0, delta_time, j as int + 1).trucks);
                assert(self@.buildings =~= production_pass(w0, delta_time, j as int + 1).buildings);
            }
            j = j + 1;
        }
    }

    fn spawn_phase(&mut self, delta_time: u32, roll: &SpawnRoll)
        requires
            old(self)@.wf(),
            roll.valid(),
        ensures
            final(self)@ == old(self)@.spawned(delta_time, *roll),
            final(self)@.wf(),
    {
        if delta_time >= self.enemy_spawn_timer {
            let e = Enemy::new(self.next_enemy_id, roll.offset, roll.size);
            self.enemies.push(e);
            self.next_enemy_id = self.next_enemy_id.saturating_add(1);
            self.enemy_spawn_timer = roll.next_interval;
        } else {
            self.enemy_spawn_timer = self.enemy_spawn_timer - delta_time;
        }
    }

    fn truck_phase(&mut self, delta_time: u32)
        requires
            old(self)@.wf(),
        ensures
            final(self)@ == trucks_pass(old(self)@, delta_time, old(self)@.trucks.len() as int),
            final(self)@.wf(),
    {
        let ghost w0 = self@;
        let mut i: usize = 0;
        while i < self.trucks.len()
            invariant
                i <= self.trucks@.len() == w0.trucks.len(),
                self@ == trucks_pass(w0, delta_time, i as int),
                self@.wf(),
            decreases w0.trucks.len() - i,
        {
            proof {
                lemma_trucks_pass(w0, delta_time, i as int);
                lemma_trucks_pass(w0, delta_time, i as int + 1);
                assert(self@.trucks[i as int] == w0.trucks[i as int]);
                assert(self@.trucks[i as int].wf());
            }
            let mut t = self.trucks[i];
            t.update(delta_time);
            let (fe, co) = t.unload_at_beacon();
            self.iron = self.iron.saturating_add(fe);
            self.coal = self.coal.saturating_add(co);
            t.redeploy_from_beacon();
            resupply_all(&mut t, &mut self.buildings);
            t.mine_if_on_patch(&self.ore_patches);
            self.trucks.set(i, t);
            proof {
                assert(self@.trucks =~= trucks_pass(w0, delta_time, i as int + 1).trucks);
            }
            i = i + 1;
        }
    }

    fn enemy_phase(&mut self, delta_time: u32)
        requires
            old(self)@.wf(),
        ensures
            final(self)@ == old(self)@.enemies_advanced(delta_time),
            final(self)@.wf(),
    {
        advance_enemies(&mut self.enemies, delta_time);
        assert(self@.enemies =~= old(self)@.enemies_advanced(delta_time).enemies);
    }
}

impl Default for GameApp {
    /// The starting world, as [`GameApp::new`] builds it.
    fn default() -> (g: GameApp)
        ensures
            g@ == starting_world(),
            g@.wf(),
    {
        GameApp::new()
    }
}

/// Lets the truck draw, in order, on every building in range.
fn resupply_all(t: &mut Truck, buildings: &mut Vec<Building>)
    requires
        old(t).wf(),
        buildings_wf(building_views(old(buildings)@)),
    ensures
        *final(t) == served(*old(t), building_views(old(buildings)@), old(buildings)@.len() as int),
        building_views(final(buildings)@) == stocked(
            *old(t),
            building_views(old(buildings)@),
            old(buildings)@.len() as int,
        ),
        final(t).wf(),
        buildings_wf(building_views(final(buildings)@)),
{
    let ghost t0 = *t;
    let ghost bs = building_views(buildings@);
    let mut j: usize = 0;
    while j < buildings.len()
        invariant
            j <= buildings@.len() == bs.len(),
            t0.wf(),
            buildings_wf(building_views(buildings@)),
            t.wf(),
            *t == served(t0, bs, j as int),
            building_views(buildings@) == stocked(t0, bs, j as int),
        decreases bs.len() - j,
    {
        proof {
            lemma_stocked(t0, bs, j as int);
            lemma_stocked(t0, bs, j as int + 1);
            assert(building_views(buildings@)[j as int] == bs[j as int]);
            assert(buildings@[j as int]@ == bs[j as int]);
        }
        t.resupply_from(&mut buildings[j]);
        proof {
            assert(building_views(buildings@) =~= stocked(t0, bs, j as int + 1));
        }
        j = j + 1;
    }
}

fn advance_enemies(enemies: &mut Vec<Enemy>, delta_time: u32)
    requires
        enemies_wf(old(enemies)@),
    ensures
        final(enemies)@ =~= Seq::new(
            old(enemies)@.len(),
            |k: int| enemy_ticked(old(enemies)@[k], delta_time),
        ),
        enemies_wf(final(enemies)@),
{
    let ghost e0 = enemies@;
    let mut k: usize = 0;
    while k < enemies.len()
        invariant
            k <= enemies@.len() == e0.len(),
            enemies_wf(e0),
            forall|m: int| 0 <= m < k ==> enemies@[m] == enemy_ticked(e0[m], delta_time),
            forall|m: int| k <= m < e0.len() ==> enemies@[m] == e0[m],
            enemies_wf(enemies@),
        decreases e0.len() - k,
    {
        let mut e = enemies[k];
        assert(e0[k as int].wf());
        e.update(delta_time, Pos::origin());
        e.being_shot_at = false;
        enemies.set(k, e);
        k = k + 1;
    }
}

proof fn lemma_served_keeps(t: Truck, bs: Seq<BuildingView>, j: int)
    ensures
        served(t, bs, j).position == t.position,
        served(t, bs, j).state == t.state,
        served(t, bs, j).cargo == t.cargo,
        served(t, bs, j).cargo_amount == t.cargo_amount,
    decreases j,
{
    if j > 0 {
        lemma_served_keeps(t, bs, j - 1);
    }
}

/// Within one truck's turn, a truck that is not mining after its move, has
/// cargo aboard, and ends the turn within unload range has handed over its
/// whole load and carries no kind.
proof fn lemma_turn_unloads(t0: Truck, dt: u32, bs: Seq<BuildingView>, patches: Seq<OrePatch>)
    requires
        t0.wf(),
        t0.updated(dt).state != TruckState::Mining,
        t0.updated(dt).cargo_amount > 0,
        turned(t0, dt, bs, patches).at_beacon(),
    ensures
        turned(t0, dt, bs, patches).cargo_amount == 0,
        turned(t0, dt, bs, patches).cargo.is_none(),
{
    let t = t0.updated(dt).unloaded().redeployed();
    lemma_served_keeps(t, bs, bs.len() as int);
}

proof fn lemma_trucks_pass_turn(w: WorldView, dt: u32, n: int, i: int)
    requires
        0 <= i < n <= w.trucks.len(),
    ensures
        trucks_pass(w, dt, n).trucks[i] == turned(
            w.trucks[i],
            dt,
            trucks_pass(w, dt, i).buildings,
            w.ore_patches,
        ),
    decreases n,
{
    lemma_trucks_pass(w, dt, n - 1);
    lemma_trucks_pass(w, dt, i);
    if n - 1 > i {
        lemma_trucks_pass_turn(w, dt, n - 1, i);
    }
}

proof fn lemma_production_keeps_fleet(w: WorldView, dt: u32, n: int)
    requires
        0 <= n <= w.buildings.len(),
    ensures
        production_pass(w, dt, n).trucks.len() >= w.trucks.len(),
        forall|m: int|
            0 <= m < w.trucks.len() ==> production_pass(w, dt, n).trucks[m] == w.trucks[m],
    decreases n,
{
    if n > 0 {
        lemma_production_keeps_fleet(w, dt, n - 1);
    }
}

/// In a well-formed world every truck carries between none and a full load
/// of ore, and an unarmed truck holds no bullets. Every command and every
/// frame keeps the world well formed.
pub proof fn lemma_world_truck_bounds(w: WorldView, i: int)
    requires
        w.wf(),
        0 <= i < w.trucks.len(),
    ensures
        0 <= w.trucks[i].cargo_amount <= crate::truck::CARGO_CAPACITY,
        !w.trucks[i].has_gun ==> w.trucks[i].bullets == 0,
{
    assert(w.trucks[i].wf());
}

/// Cargo that a truck not busy mining brings within unload range of the
/// beacon during a frame is handed over in that frame: the truck ends it
/// with nothing aboard and no kind.
pub proof fn lemma_cargo_unloaded_at_beacon(w: WorldView, dt: u32, roll: SpawnRoll, i: int)
    requires
        w.wf(),
        0 <= i < w.trucks.len(),
        w.trucks[i].updated(dt).state != TruckState::Mining,
        w.trucks[i].updated(dt).cargo_amount > 0,
        w.stepped(dt, roll).trucks[i].at_beacon(),
    ensures
        w.stepped(dt, roll).trucks[i].cargo_amount == 0,
        w.stepped(dt, roll).trucks[i].cargo.is_none(),
{
    let a = w.spawned(dt, roll);
    let b = a.enemies_advanced(dt);
    let n = b.trucks.len() as int;
    let c = trucks_pass(b, dt, n);
    assert(b.trucks == w.trucks);
    lemma_trucks_pass(b, dt, n);
    lemma_production_keeps_fleet(c, dt, c.buildings.len() as int);
    lemma_trucks_pass_turn(b, dt, n, i);
    assert(w.trucks[i].wf());
    lemma_turn_unloads(w.trucks[i], dt, trucks_pass(b, dt, i).buildings, b.ore_patches);
}

/// A truck that is returning to base when a frame starts, and stands within
/// unload range of the beacon when it ends, has handed over its whole load:
/// it carries nothing, and no kind.
pub proof fn lemma_returning_truck_unloads(w: WorldView, dt: u32, roll: SpawnRoll, i: int)
    requires
        w.wf(),
        0 <= i < w.trucks.len(),
        w.trucks[i].state == TruckState::ReturningToBase,
        w.stepped(dt, roll).trucks[i].at_beacon(),
    ensures
        w.stepped(dt, roll).trucks[i].cargo_amount == 0,
        w.stepped(dt, roll).trucks[i].cargo.is_none(),
{
    assert(w.trucks[i].wf());
    lemma_cargo_unloaded_at_beacon(w, dt, roll, i);
}

/// Issuing the same move command twice in a row is the same as issuing it
/// once: targets and states stay as the first command left them.
pub proof fn lemma_move_command_idempotent(w: WorldView, target: Pos)
    ensures
        w.selection_sent(target).selection_sent(target) == w.selection_sent(target),
{
    assert(w.selection_sent(target).selection_sent(target).trucks =~= w.selection_sent(
        target,
    ).trucks);
}

/// An accepted enqueue leaves both counters at their old value less the
/// cost, never below zero; an enqueue the economy cannot cover is rejected.
pub proof fn lemma_enqueue_funds(w: WorldView, idx: int, kind: ProductionType)
    ensures
        w.can_enqueue(idx, kind) ==> w.enqueued(idx, kind).iron == w.iron - kind.spec_cost().0 >= 0
            && w.enqueued(idx, kind).coal == w.coal - kind.spec_cost().1 >= 0,
        !w.affords(kind.spec_cost()) ==> !w.can_enqueue(idx, kind),
{
}

/// A truck whose production completes in a frame joins the fleet in that
/// same frame's production pass, right after the trucks already there.
pub proof fn lemma_truck_completion_spawns(w: WorldView, dt: u32, j: int)
    requires
        0 <= j < w.buildings.len(),
        w.buildings[j].completed(dt) == Some(ProductionType::Truck),
    ensures
        production_pass(w, dt, w.buildings.len() as int).trucks.len() > w.trucks.len(),
{
    lemma_production_grows(w, dt, j + 1, w.buildings.len() as int);
    lemma_production_keeps_fleet(w, dt, j);
}

proof fn lemma_production_grows(w: WorldView, dt: u32, k: int, n: int)
    requires
        0 <= k <= n <= w.buildings.len(),
    ensures
        production_pass(w, dt, n).trucks.len() >= production_pass(w, dt, k).trucks.len(),
    decreases n,
{
    if n > k {
        lemma_production_grows(w, dt, k, n - 1);
    }
}

/// Trucks completed by the first `n` buildings' production ticks.
pub open spec fn truck_completions(bs: Seq<BuildingView>, dt: u32, n: int) -> int
    decreases n,
{
    if n <= 0 {
        0
    } else {
        truck_completions(bs, dt, n - 1) + if bs[n - 1].completed(dt) == Some(ProductionType::Truck) {
            1int
        } else {
            0
        }
    }
}

/// The production pass applies every building's tick in place, in the same
/// frame: each building ends as its own tick leaves it (so a completed gun
/// or bullet box is already stored), the trucks already there stay as they
/// are, and each completed truck joins the fleet, in building order, as a
/// fresh truck with the next id at its garage's spawn point.
pub proof fn lemma_production_effects(w: WorldView, dt: u32, n: int)
    requires
        0 <= n <= w.buildings.len(),
    ensures
        production_pass(w, dt, n).buildings.len() == w.buildings.len(),
        forall|j: int|
            0 <= j < n ==> #[trigger] production_pass(w, dt, n).buildings[j]
                == w.buildings[j].ticked(dt),
        production_pass(w, dt, n).trucks.len() == w.trucks.len() + truck_completions(
            w.buildings,
            dt,
            n,
        ),
        forall|m: int|
            0 <= m < w.trucks.len() ==> #[trigger] production_pass(w, dt, n).trucks[m]
                == w.trucks[m],
        forall|j: int|
            0 <= j < n && w.buildings[j].completed(dt) == Some(ProductionType::Truck) ==> {
                let id = (#[trigger] production_pass(w, dt, j)).next_truck_id;
                production_pass(w, dt, n).trucks[w.trucks.len() + truck_completions(
                    w.buildings,
                    dt,
                    j,
                )] == Truck::fresh(id, spawn_point(w.buildings[j].position, id))
            },
    decreases n,
{
    if n > 0 {
        lemma_production_effects(w, dt, n - 1);
        lemma_production_pass(w, dt, n - 1);
        let p = production_pass(w, dt, n - 1);
        let r = production_pass(w, dt, n);
        let fresh = Truck::fresh(p.next_truck_id, spawn_point(w.buildings[n - 1].position, p.next_truck_id));
        assert(r.trucks == p.trucks || r.trucks == p.trucks.push(fresh));
        lemma_completions_grow(w.buildings, dt, 0, n - 1);
        assert forall|m: int| 0 <= m < w.trucks.len() implies #[trigger] r.trucks[m] == w.trucks[m] by {
            assert(p.trucks[m] == w.trucks[m]);
        }
        assert forall|j: int|
            0 <= j < n && w.buildings[j].completed(dt) == Some(ProductionType::Truck) implies {
                let id = (#[trigger] production_pass(w, dt, j)).next_truck_id;
                r.trucks[w.trucks.len() + truck_completions(w.buildings, dt, j)] == Truck::fresh(
                    id,
                    spawn_point(w.buildings[j].position, id),
                )
            } by {
            if j < n - 1 {
                let id = production_pass(w, dt, j).next_truck_id;
                let k = w.trucks.len() + truck_completions(w.buildings, dt, j);
                assert(p.trucks[k] == Truck::fresh(id, spawn_point(w.buildings[j].position, id)));
                lemma_completions_grow(w.buildings, dt, j + 1, n - 1);
                lemma_completions_grow(w.buildings, dt, 0, j);
                assert(0 <= k < p.trucks.len());
                assert(p.trucks.push(fresh)[k] == p.trucks[k]);
            }
        }
    }
}

proof fn lemma_completions_grow(bs: Seq<BuildingView>, dt: u32, k: int, n: int)
    requires
        0 <= k <= n,
    ensures
        truck_completions(bs, dt, k) <= truck_completions(bs, dt, n),
    decreases n,
{
    if n > k {
        lemma_completions_grow(bs, dt, k, n - 1);
    }
}

} // verus!
