//! Trucks: mobile units that move, mine ore, haul it to the beacon, and pick
//! up guns and bullets at factories.

use vstd::prelude::*;
use crate::geometry::{Pos, Rect, UNIT, dist_sq, origin, toward, within, is_within, step_toward,
    reachable};
use crate::resource::{OrePatch, ResourceType};
use crate::building::{Building, BuildingType, BuildingView};

verus! {

/// Truck speed in sub-units per millisecond (world units per second).
pub const TRUCK_SPEED: u64 = 100;
/// A truck this close to its target has arrived.
pub const ARRIVAL_EPSILON: i64 = 2 * UNIT;
/// Milliseconds of mining per unit of cargo.
pub const MINING_PERIOD: u32 = 1000;
/// Most units of ore a truck carries.
pub const CARGO_CAPACITY: u32 = 64;
/// Most bullets a truck carries.
pub const BULLET_CAPACITY: u32 = 400;
/// Bullets in one box.
pub const BULLETS_PER_BOX: u32 = 100;
/// Side of a truck's square body.
pub const TRUCK_SIZE: i64 = 20 * UNIT;
/// Cargo is handed over strictly within this distance of the beacon.
pub const UNLOAD_RANGE: i64 = 35 * UNIT;
/// Guns and bullets are picked up strictly within this distance of a factory.
pub const RESUPPLY_RANGE: i64 = 70 * UNIT;

#[derive(Debug, Clone, Copy, PartialEq, Eq, Structural)]
pub enum TruckState {
    Idle,
    Moving,
    Mining,
    ReturningToBase,
}

#[derive(Debug, Clone, Copy)]
pub struct Truck {
    pub id: usize,
    pub position: Pos,
    pub target: Option<Pos>,
    pub selected: bool,
    pub size: i64,
    pub state: TruckState,
    pub cargo: Option<ResourceType>,
    pub cargo_amount: u32,
    /// Milliseconds mined toward the next unit of cargo.
    pub mining_progress: u32,
    pub last_mining_position: Option<Pos>,
    pub has_gun: bool,
    pub bullets: u32,
    /// Milliseconds until the gun may fire again.
    pub fire_cooldown: u32,
}

pub open spec fn opt_in_world(p: Option<Pos>) -> bool {
    p matches Some(q) ==> q.in_world()
}

/// The kind of the first patch, from index `i` on, that covers `p`.
pub open spec fn covering_from(patches: Seq<OrePatch>, p: Pos, i: int) -> Option<ResourceType>
    decreases patches.len() - i,
{
    if i < 0 || i >= patches.len() {
        None
    } else if patches[i].covers(p) {
        Some(patches[i].resource_type)
    } else {
        covering_from(patches, p, i + 1)
    }
}

/// Every patch is well formed.
pub open spec fn patches_wf(patches: Seq<OrePatch>) -> bool {
    forall|i: int| 0 <= i < patches.len() ==> #[trigger] patches[i].wf()
}

/// A factory that the truck at `t` draws on: strictly within resupply range.
pub open spec fn supplies(b: BuildingView, t: Truck) -> bool {
    b.building_type == BuildingType::Factory && within(t.position, b.position, RESUPPLY_RANGE as int)
}

/// Whether the truck takes a gun from a store of `stored_guns`.
pub open spec fn gun_taken(t: Truck, stored_guns: u32) -> bool {
    !t.has_gun && stored_guns > 0
}

/// Whole boxes loaded: enough to cover the shortfall under the bullet cap
/// (a part-used last box counts whole), no more than stored.
pub open spec fn boxes_taken(t: Truck, armed: bool, stored_boxes: u32) -> u32 {
    if armed && t.bullets < BULLET_CAPACITY {
        let need = ((BULLET_CAPACITY - t.bullets + BULLETS_PER_BOX - 1) / BULLETS_PER_BOX as int) as u32;
        if need < stored_boxes {
            need
        } else {
            stored_boxes
        }
    } else {
        0
    }
}

/// The truck after drawing on a factory's store: the boxes loaded fill it
/// up to the bullet cap and no further.
pub open spec fn resupplied(t: Truck, b: BuildingView) -> Truck {
    let armed = t.has_gun || gun_taken(t, b.stored_guns);
    let loaded = t.bullets + BULLETS_PER_BOX * boxes_taken(t, armed, b.stored_bullet_boxes);
    Truck {
        has_gun: armed,
        bullets: if loaded > BULLET_CAPACITY {
            BULLET_CAPACITY
        } else {
            loaded as u32
        },
        ..t
    }
}

/// The factory after the truck drew on its store.
pub open spec fn drawn_on(b: BuildingView, t: Truck) -> BuildingView {
    let armed = t.has_gun || gun_taken(t, b.stored_guns);
    BuildingView {
        stored_guns: if gun_taken(t, b.stored_guns) {
            (b.stored_guns - 1) as u32
        } else {
            b.stored_guns
        },
        stored_bullet_boxes: (b.stored_bullet_boxes - boxes_taken(
            t,
            armed,
            b.stored_bullet_boxes,
        )) as u32,
        ..b
    }
}

impl Truck {
    pub const WEAPON_RANGE: i64 = 150 * UNIT;
    /// Milliseconds between shots.
    pub const FIRE_RATE: u32 = 500;

    /// Positions lie in the world; cargo stays within capacity and never has
    /// an amount without a kind; a mining truck knows what it mines; a truck
    /// carrying a kind remembers where it mined it; a truck
    /// returning to base carries a full load; bullets
    /// stay within capacity and only an armed truck holds any.
    pub open spec fn wf(self) -> bool {
        &&& self.position.in_world()
        &&& opt_in_world(self.target)
        &&& opt_in_world(self.last_mining_position)
        &&& self.size == TRUCK_SIZE
        &&& self.cargo_amount <= CARGO_CAPACITY
        &&& self.cargo_amount > 0 ==> self.cargo.is_some()
        &&& self.state == TruckState::Mining ==> self.cargo.is_some()
        &&& self.cargo.is_some() ==> self.last_mining_position.is_some()
        &&& self.state == TruckState::ReturningToBase ==> self.cargo_amount == CARGO_CAPACITY
        &&& self.mining_progress < MINING_PERIOD
        &&& self.bullets <= BULLET_CAPACITY
        &&& !self.has_gun ==> self.bullets == 0
    }

    /// Units of ore a mining tick of `dt` milliseconds yields before the
    /// cap: one per full period of accumulated mining time.
    pub open spec fn mined_units(self, dt: u32) -> int {
        (self.mining_progress + dt) / MINING_PERIOD as int
    }

    /// One mining tick: every full period of accumulated time adds a unit,
    /// the part of a period left over is kept, the load stops at capacity,
    /// and a full truck turns for the beacon.
    pub open spec fn mined(self, dt: u32) -> Truck {
        let total = self.mining_progress + dt;
        let sum = self.cargo_amount + total / MINING_PERIOD as int;
        let amount = if sum >= CARGO_CAPACITY {
            CARGO_CAPACITY
        } else {
            sum as u32
        };
        let t = Truck {
            mining_progress: (total % MINING_PERIOD as int) as u32,
            cargo_amount: amount,
            ..self
        };
        if amount >= CARGO_CAPACITY {
            Truck { state: TruckState::ReturningToBase, target: Some(origin()), ..t }
        } else {
            t
        }
    }

    /// Whether a move of `dt` milliseconds reaches `goal`: it is within the
    /// arrival distance, or no farther than the step.
    pub open spec fn reaches(self, goal: Pos, dt: u32) -> bool {
        let d2 = dist_sq(self.position, goal);
        d2 <= ARRIVAL_EPSILON * ARRIVAL_EPSILON || d2 <= (TRUCK_SPEED * dt) * (TRUCK_SPEED * dt)
    }

    /// One movement tick toward the target; arriving snaps onto it, clears it
    /// and leaves the truck idle (cargo stays aboard for the beacon to take).
    pub open spec fn moved(self, dt: u32) -> Truck {
        match self.target {
            None => self,
            Some(goal) => if self.reaches(goal, dt) {
                Truck { position: goal, target: None, state: TruckState::Idle, ..self }
            } else {
                Truck { position: toward(self.position, goal, TRUCK_SPEED * dt), ..self }
            },
        }
    }

    /// The truck after `update(dt)`.
    pub open spec fn updated(self, dt: u32) -> Truck {
        let t = Truck { fire_cooldown: self.fire_cooldown.saturating_sub(dt), ..self };
        match t.state {
            TruckState::Mining => t.mined(dt),
            TruckState::Moving | TruckState::ReturningToBase => t.moved(dt),
            TruckState::Idle => t,
        }
    }

    /// The truck after `start_moving(goal)`: a truck returning to base ignores it.
    pub open spec fn sent_to(self, goal: Pos) -> Truck {
        if self.state == TruckState::ReturningToBase {
            self
        } else {
            Truck { target: Some(goal), state: TruckState::Moving, mining_progress: 0, ..self }
        }
    }

    /// The truck after `start_mining(kind)`: a truck returning to base ignores it.
    pub open spec fn set_mining(self, kind: ResourceType) -> Truck {
        if self.state == TruckState::ReturningToBase {
            self
        } else {
            Truck {
                target: None,
                state: TruckState::Mining,
                cargo: Some(kind),
                mining_progress: 0,
                last_mining_position: Some(self.position),
                ..self
            }
        }
    }

    /// The truck stands strictly within unload range of the beacon.
    pub open spec fn at_beacon(self) -> bool {
        within(self.position, origin(), UNLOAD_RANGE as int)
    }

    /// (iron, coal) handed over at the beacon.
    pub open spec fn delivery(self) -> (u32, u32) {
        if self.at_beacon() && self.cargo_amount > 0 {
            match self.cargo {
                Some(ResourceType::Iron) => (self.cargo_amount, 0),
                Some(ResourceType::Coal) => (0, self.cargo_amount),
                None => (0, 0),
            }
        } else {
            (0, 0)
        }
    }

    /// The truck after unloading at the beacon: the amount drops to zero and
    /// the kind is cleared (a truck that is mining keeps the kind it mines);
    /// a truck returning to base becomes idle with no target.
    pub open spec fn unloaded(self) -> Truck {
        if self.at_beacon() && self.cargo_amount > 0 {
            let t = Truck {
                cargo_amount: 0,
                cargo: if self.state == TruckState::Mining {
                    self.cargo
                } else {
                    None
                },
                ..self
            };
            if self.state == TruckState::ReturningToBase {
                Truck { state: TruckState::Idle, target: None, ..t }
            } else {
                t
            }
        } else {
            self
        }
    }

    /// An idle, empty truck at the beacon heads back to where it last mined.
    pub open spec fn redeployed(self) -> Truck {
        if self.at_beacon() && self.state == TruckState::Idle && self.cargo_amount == 0
            && self.last_mining_position.is_some() {
            self.sent_to(self.last_mining_position.unwrap())
        } else {
            self
        }
    }

    /// An idle truck with room for cargo starts mining the first patch it stands on.
    pub open spec fn mining_checked(self, patches: Seq<OrePatch>) -> Truck {
        if self.state == TruckState::Idle && self.cargo_amount < CARGO_CAPACITY {
            match covering_from(patches, self.position, 0) {
                Some(kind) => self.set_mining(kind),
                None => self,
            }
        } else {
            self
        }
    }

    /// A new idle, empty, unarmed truck.
    pub open spec fn fresh(id: usize, position: Pos) -> Truck {
        Truck {
            id,
            position,
            target: None,
            selected: false,
            size: TRUCK_SIZE,
            state: TruckState::Idle,
            cargo: None,
            cargo_amount: 0,
            mining_progress: 0,
            last_mining_position: None,
            has_gun: false,
            bullets: 0,
            fire_cooldown: 0,
        }
    }

    pub fn new(id: usize, position: Pos) -> (t: Truck)
        requires
            position.in_world(),
        ensures
            t == Truck::fresh(id, position),
            t.wf(),
    {
        Truck {
            id,
            position,
            target: None,
            selected: false,
            size: TRUCK_SIZE,
            state: TruckState::Idle,
            cargo: None,
            cargo_amount: 0,
            mining_progress: 0,
            last_mining_position: None,
            has_gun: false,
            bullets: 0,
            fire_cooldown: 0,
        }
    }

    /// Advances the truck by `delta_time` milliseconds: the weapon cools, a
    /// mining truck mines, a moving or returning truck moves.
    pub fn update(&mut self, delta_time: u32)
        requires
            old(self).wf(),
        ensures
            *final(self) == old(self).updated(delta_time),
            final(self).wf(),
    {
        self.fire_cooldown = self.fire_cooldown.saturating_sub(delta_time);
        match self.state {
            TruckState::Mining => {
                let total: u64 = self.mining_progress as u64 + delta_time as u64;
                let units: u64 = total / MINING_PERIOD as u64;
                self.mining_progress = (total % MINING_PERIOD as u64) as u32;
                let room: u64 = (CARGO_CAPACITY - self.cargo_amount) as u64;
                if units >= room {
                    self.cargo_amount = CARGO_CAPACITY;
                } else {
                    self.cargo_amount = self.cargo_amount + units as u32;
                }
                if self.cargo_amount >= CARGO_CAPACITY {
                    self.state = TruckState::ReturningToBase;
                    self.target = Some(Pos::origin());
                }
            },
            TruckState::Moving | TruckState::ReturningToBase => {
                if let Some(goal) = self.target {
                    let step: u64 = TRUCK_SPEED * delta_time as u64;
                    if reachable(self.position, goal, ARRIVAL_EPSILON as u64) || reachable(
                        self.position,
                        goal,
                        step,
                    ) {
                        self.position = goal;
                        self.target = None;
                        self.state = TruckState::Idle;
                    } else {
                        self.position = step_toward(self.position, goal, step);
                    }
                }
            },
            TruckState::Idle => {},
        }
    }

    /// Sends the truck toward `target`, unless it is returning to base.
    pub fn start_moving(&mut self, target: Pos)
        requires
            old(self).wf(),
            target.in_world(),
        ensures
            *final(self) == old(self).sent_to(target),
            final(self).wf(),
    {
        if self.state != TruckState::ReturningToBase {
            self.target = Some(target);
            self.state = TruckState::Moving;
            self.mining_progress = 0;
        }
    }

    /// Starts mining `resource_type` where the truck stands, unless it is
    /// returning to base; the spot is remembered for later trips.
    pub fn start_mining(&mut self, resource_type: ResourceType)
        requires
            old(self).wf(),
        ensures
            *final(self) == old(self).set_mining(resource_type),
            final(self).wf(),
    {
        if self.state != TruckState::ReturningToBase {
            self.target = None;
            self.state = TruckState::Mining;
            self.cargo = Some(resource_type);
            self.mining_progress = 0;
            self.last_mining_position = Some(self.position);
        }
    }

    /// Hands over the cargo when the truck stands within unload range of the
    /// beacon, and returns the (iron, coal) delivered.
    pub fn unload_at_beacon(&mut self) -> (r: (u32, u32))
        requires
            old(self).wf(),
        ensures
            r == old(self).delivery(),
            *final(self) == old(self).unloaded(),
            final(self).wf(),
    {
        if !is_within(self.position, Pos::origin(), UNLOAD_RANGE) || self.cargo_amount == 0 {
            return (0, 0);
        }
        let amount = self.cargo_amount;
        let delivered = match self.cargo {
            Some(ResourceType::Iron) => (amount, 0),
            Some(ResourceType::Coal) => (0, amount),
            None => (0, 0),
        };
        self.cargo_amount = 0;
        if self.state != TruckState::Mining {
            self.cargo = None;
        }
        if self.state == TruckState::ReturningToBase {
            self.state = TruckState::Idle;
            self.target = None;
        }
        delivered
    }

    /// Sends an idle, empty truck at the beacon back to its last mining spot.
    pub fn redeploy_from_beacon(&mut self)
        requires
            old(self).wf(),
        ensures
            *final(self) == old(self).redeployed(),
            final(self).wf(),
    {
        if is_within(self.position, Pos::origin(), UNLOAD_RANGE) && self.state == TruckState::Idle
            && self.cargo_amount == 0 {
            if let Some(spot) = self.last_mining_position {
                self.start_moving(spot);
            }
        }
    }

    /// Draws on a factory in resupply range: takes a gun if unarmed and one is
    /// stored, then loads whole boxes of bullets, enough to reach the cap
    /// and no more than stored, filling up to the cap. Any other
    /// building, or one out of range, is left alone.
    pub fn resupply_from(&mut self, building: &mut Building)
        requires
            old(self).wf(),
            old(building)@.wf(),
        ensures
            supplies(old(building)@, *old(self)) ==> *final(self) == resupplied(*old(self), old(building)@),
            supplies(old(building)@, *old(self)) ==> final(building)@ == drawn_on(old(building)@, *old(self)),
            !supplies(old(building)@, *old(self)) ==> *final(self) == *old(self),
            !supplies(old(building)@, *old(self)) ==> final(building)@ == old(building)@,
            final(self).wf(),
            final(building)@.wf(),
    {
        if building.building_type != BuildingType::Factory || !is_within(
            self.position,
            building.position,
            RESUPPLY_RANGE,
        ) {
            return;
        }
        if !self.has_gun && building.stored_guns > 0 {
            self.has_gun = true;
            building.stored_guns = building.stored_guns - 1;
        }
        if self.has_gun && self.bullets < BULLET_CAPACITY && building.stored_bullet_boxes > 0 {
            let bullets_needed = BULLET_CAPACITY - self.bullets;
            let want = (bullets_needed + BULLETS_PER_BOX - 1) / BULLETS_PER_BOX;
            let boxes_to_load = if want < building.stored_bullet_boxes {
                want
            } else {
                building.stored_bullet_boxes
            };
            let loaded = self.bullets + boxes_to_load * BULLETS_PER_BOX;
            self.bullets = if loaded > BULLET_CAPACITY {
                BULLET_CAPACITY
            } else {
                loaded
            };
            building.stored_bullet_boxes = building.stored_bullet_boxes - boxes_to_load;
        }
    }

    /// Starts an idle truck with room for cargo mining the first patch it stands on.
    pub fn mine_if_on_patch(&mut self, patches: &Vec<OrePatch>)
        requires
            old(self).wf(),
            patches_wf(patches@),
        ensures
            *final(self) == old(self).mining_checked(patches@),
            final(self).wf(),
    {
        if self.state != TruckState::Idle || self.cargo_amount >= CARGO_CAPACITY {
            return;
        }
        let mut i: usize = 0;
        while i < patches.len()
            invariant
                i <= patches.len(),
                patches_wf(patches@),
                self.wf(),
                *self == *old(self),
                self.state == TruckState::Idle,
                self.cargo_amount < CARGO_CAPACITY,
                covering_from(patches@, self.position, 0) == covering_from(
                    patches@,
                    self.position,
                    i as int,
                ),
            decreases patches.len() - i,
        {
            let patch = patches[i];
            assert(patches@[i as int].wf());
            if patch.contains_point(self.position) {
                assert(covering_from(patches@, self.position, i as int) == Some(
                    patch.resource_type,
                ));
                self.start_mining(patch.resource_type);
                return;
            }
            i = i + 1;
        }
    }

    pub open spec fn spec_bounds(self) -> Rect {
        Rect {
            min: Pos { x: (self.position.x - self.size / 2) as i64, y: (self.position.y - self.size / 2) as i64 },
            max: Pos { x: (self.position.x + self.size / 2) as i64, y: (self.position.y + self.size / 2) as i64 },
        }
    }

    /// The square body of the truck.
    pub fn bounds(&self) -> (r: Rect)
        requires
            self.wf(),
        ensures
            r == self.spec_bounds(),
            r.bounded(),
    {
        Rect::from_center_size(self.position, self.size)
    }

    pub fn contains_point(&self, point: Pos) -> (r: bool)
        requires
            self.wf(),
        ensures
            r == self.spec_bounds().spec_contains(point),
    {
        self.bounds().contains(point)
    }
}

/// A well-formed truck carries between none and a full load of ore, and an
/// unarmed truck holds no bullets.
pub proof fn lemma_truck_bounds(t: Truck)
    requires
        t.wf(),
    ensures
        0 <= t.cargo_amount <= CARGO_CAPACITY,
        !t.has_gun ==> t.bullets == 0,
{
}

/// Mining yields exactly one unit per full period of accumulated mining
/// time: a tick adds the whole periods that the kept remainder and the tick
/// make up together, keeps what is left of a period, and stops at capacity.
pub proof fn lemma_mining_yield(t: Truck, dt: u32)
    requires
        t.wf(),
        t.state == TruckState::Mining,
    ensures
        t.updated(dt).cargo_amount == if t.cargo_amount + t.mined_units(dt) >= CARGO_CAPACITY {
            CARGO_CAPACITY as int
        } else {
            t.cargo_amount + t.mined_units(dt)
        },
        t.updated(dt).mining_progress == (t.mining_progress + dt) % MINING_PERIOD as int,
{
}

/// Two mining ticks in a row yield what one tick of their summed length
/// yields: the units follow the total mining time, however it is split.
pub proof fn lemma_mining_accumulates(t: Truck, d1: u32, d2: u32)
    requires
        t.wf(),
        t.state == TruckState::Mining,
    ensures
        t.updated(d1).updated(d2).cargo_amount == if t.cargo_amount + (t.mining_progress + d1 + d2)
            / MINING_PERIOD as int >= CARGO_CAPACITY {
            CARGO_CAPACITY as int
        } else {
            t.cargo_amount + (t.mining_progress + d1 + d2) / MINING_PERIOD as int
        },
{
    let a: int = t.mining_progress + d1;
    let q = a / 1000;
    let r = a % 1000;
    assert(a == 1000 * q + r && 0 <= r < 1000) by {
        vstd::arithmetic::div_mod::lemma_fundamental_div_mod(a, 1000);
    }
    assert(q + (r + d2) / 1000 == (a + d2) / 1000) by (nonlinear_arith)
        requires
            a == 1000 * q + r,
            0 <= r < 1000,
            d2 >= 0,
    ;
    assert(q >= 0) by (nonlinear_arith)
        requires
            a >= 0,
            a == 1000 * q + r,
            r < 1000,
    ;
    assert((a + d2) / 1000 >= q) by (nonlinear_arith)
        requires
            q + (r + d2) / 1000 == (a + d2) / 1000,
            r + d2 >= 0,
    ;
}

/// Sending a truck toward the same target a second time changes nothing.
pub proof fn lemma_send_idempotent(t: Truck, goal: Pos)
    ensures
        t.sent_to(goal).sent_to(goal) == t.sent_to(goal),
{
}

} // verus!
