//! Buildings: the beacon, garages that build trucks, and factories that make
//! guns and bullet boxes through a first-in first-out production queue.

use vstd::prelude::*;
use crate::geometry::{Pos, UNIT, WORLD_LIMIT};

verus! {

/// Half-widths of the square footprints, in sub-units.
pub const BEACON_SIZE: i64 = 30 * UNIT;
pub const GARAGE_SIZE: i64 = 40 * UNIT;
pub const FACTORY_SIZE: i64 = 50 * UNIT;

/// Largest coordinate magnitude at which a building may stand, leaving room
/// around it for the trucks it builds.
pub const BUILD_LIMIT: i64 = WORLD_LIMIT - 1000 * UNIT;

/// A building may stand at `p`.
pub open spec fn placeable(p: Pos) -> bool {
    &&& -BUILD_LIMIT <= p.x <= BUILD_LIMIT
    &&& -BUILD_LIMIT <= p.y <= BUILD_LIMIT
}

pub fn is_placeable(p: Pos) -> (r: bool)
    ensures
        r == placeable(p),
{
    -BUILD_LIMIT <= p.x && p.x <= BUILD_LIMIT && -BUILD_LIMIT <= p.y && p.y <= BUILD_LIMIT
}

#[derive(Debug, Clone, Copy, PartialEq, Eq, Structural)]
pub enum BuildingType {
    /// The starting base.
    Beacon,
    /// Builds trucks.
    Garage,
    /// Makes guns and bullets.
    Factory,
}

#[derive(Debug, Clone, Copy, PartialEq, Eq, Structural)]
pub enum ProductionType {
    Truck,
    Gun,
    Bullets,
}

impl ProductionType {
    /// (iron, coal) paid when an item of this kind is queued.
    pub open spec fn spec_cost(self) -> (u32, u32) {
        match self {
            ProductionType::Truck => (20, 10),
            ProductionType::Gun => (30, 5),
            ProductionType::Bullets => (5, 10),
        }
    }

    /// Milliseconds of progress an item of this kind needs at the queue head.
    pub open spec fn spec_time(self) -> u32 {
        match self {
            ProductionType::Truck => 5000,
            ProductionType::Gun => 8000,
            ProductionType::Bullets => 3000,
        }
    }

    /// Returns (iron, coal) cost.
    pub fn cost(&self) -> (r: (u32, u32))
        ensures
            r == self.spec_cost(),
    {
        match self {
            ProductionType::Truck => (20, 10),
            ProductionType::Gun => (30, 5),
            ProductionType::Bullets => (5, 10),
        }
    }

    /// Production time in milliseconds.
    pub fn time(&self) -> (r: u32)
        ensures
            r == self.spec_time(),
    {
        match self {
            ProductionType::Truck => 5000,
            ProductionType::Gun => 8000,
            ProductionType::Bullets => 3000,
        }
    }

    pub fn name(&self) -> (r: &'static str)
        ensures
            *self == ProductionType::Truck ==> r@ == "Truck"@,
            *self == ProductionType::Gun ==> r@ == "Gun"@,
            *self == ProductionType::Bullets ==> r@ == "Bullets"@,
    {
        match self {
            ProductionType::Truck => "Truck",
            ProductionType::Gun => "Gun",
            ProductionType::Bullets => "Bullets",
        }
    }
}

impl BuildingType {
    /// Half-width of the square footprint, in sub-units.
    pub open spec fn spec_size(self) -> i64 {
        match self {
            BuildingType::Beacon => BEACON_SIZE,
            BuildingType::Garage => GARAGE_SIZE,
            BuildingType::Factory => FACTORY_SIZE,
        }
    }

    /// (iron, coal) paid to place a building of this kind.
    pub open spec fn spec_cost(self) -> (u32, u32) {
        match self {
            BuildingType::Beacon => (0, 0),
            BuildingType::Garage => (50, 30),
            BuildingType::Factory => (100, 50),
        }
    }

    /// Only a garage builds trucks; only a factory makes guns and bullets.
    pub open spec fn produces(self, kind: ProductionType) -> bool {
        match (self, kind) {
            (BuildingType::Garage, ProductionType::Truck) => true,
            (BuildingType::Factory, ProductionType::Gun) => true,
            (BuildingType::Factory, ProductionType::Bullets) => true,
            _ => false,
        }
    }

    pub fn footprint(&self) -> (r: i64)
        ensures
            r == self.spec_size(),
    {
        match self {
            BuildingType::Beacon => BEACON_SIZE,
            BuildingType::Garage => GARAGE_SIZE,
            BuildingType::Factory => FACTORY_SIZE,
        }
    }

    /// Returns (iron, coal) cost.
    pub fn cost(&self) -> (r: (u32, u32))
        ensures
            r == self.spec_cost(),
    {
        match self {
            BuildingType::Beacon => (0, 0),
            BuildingType::Garage => (50, 30),
            BuildingType::Factory => (100, 50),
        }
    }
}

/// What a building is, with its queue as a sequence.
pub struct BuildingView {
    pub position: Pos,
    pub building_type: BuildingType,
    pub size: i64,
    pub production_queue: Seq<ProductionType>,
    pub production_progress: u32,
    pub stored_guns: u32,
    pub stored_bullet_boxes: u32,
}

#[derive(Debug, Clone)]
pub struct Building {
    pub position: Pos,
    pub building_type: BuildingType,
    pub size: i64,
    pub production_queue: Vec<ProductionType>,
    /// Milliseconds spent on the head of the queue.
    pub production_progress: u32,
    pub stored_guns: u32,
    pub stored_bullet_boxes: u32,
}

impl View for Building {
    type V = BuildingView;

    open spec fn view(&self) -> BuildingView {
        BuildingView {
            position: self.position,
            building_type: self.building_type,
            size: self.size,
            production_queue: self.production_queue@,
            production_progress: self.production_progress,
            stored_guns: self.stored_guns,
            stored_bullet_boxes: self.stored_bullet_boxes,
        }
    }
}

impl BuildingView {
    /// A new building with an empty queue and empty storage.
    pub open spec fn fresh(position: Pos, building_type: BuildingType) -> BuildingView {
        BuildingView {
            position,
            building_type,
            size: building_type.spec_size(),
            production_queue: Seq::empty(),
            production_progress: 0,
            stored_guns: 0,
            stored_bullet_boxes: 0,
        }
    }

    /// The building with `kind` appended to its queue.
    pub open spec fn enqueued(self, kind: ProductionType) -> BuildingView {
        BuildingView { production_queue: self.production_queue.push(kind), ..self }
    }

    /// The building stands where buildings may, the footprint fits its kind, and the
    /// head's progress is short of its production time (zero on an empty queue).
    pub open spec fn wf(self) -> bool {
        &&& placeable(self.position)
        &&& self.size == self.building_type.spec_size()
        &&& self.production_queue.len() == 0 ==> self.production_progress == 0
        &&& self.production_queue.len() > 0 ==> self.production_progress
            < self.production_queue[0].spec_time()
    }

    /// The item that a tick of `dt` milliseconds completes, if any.
    pub open spec fn completed(self, dt: u32) -> Option<ProductionType> {
        if self.production_queue.len() > 0 && self.production_progress + dt
            >= self.production_queue[0].spec_time() {
            Some(self.production_queue[0])
        } else {
            None
        }
    }

    /// The building after a production tick of `dt` milliseconds: the head
    /// gains `dt`; on reaching its time it leaves the queue, progress restarts
    /// at zero, and a gun or a bullet box goes into storage.
    pub open spec fn ticked(self, dt: u32) -> BuildingView {
        if self.production_queue.len() == 0 {
            self
        } else {
            match self.completed(dt) {
                None => BuildingView {
                    production_progress: (self.production_progress + dt) as u32,
                    ..self
                },
                Some(head) => BuildingView {
                    production_queue: self.production_queue.drop_first(),
                    production_progress: 0,
                    stored_guns: if head == ProductionType::Gun {
                        self.stored_guns.saturating_add(1)
                    } else {
                        self.stored_guns
                    },
                    stored_bullet_boxes: if head == ProductionType::Bullets {
                        self.stored_bullet_boxes.saturating_add(1)
                    } else {
                        self.stored_bullet_boxes
                    },
                    ..self
                },
            }
        }
    }
}

impl Building {
    pub fn new(position: Pos, building_type: BuildingType) -> (b: Building)
        ensures
            b@ == BuildingView::fresh(position, building_type),
            placeable(position) ==> b@.wf(),
    {
        let size = building_type.footprint();
        let b = Building {
            position,
            building_type,
            size,
            production_queue: Vec::new(),
            production_progress: 0,
            stored_guns: 0,
            stored_bullet_boxes: 0,
        };
        assert(b@.production_queue =~= Seq::empty());
        b
    }

    /// The point lies strictly inside the square footprint.
    pub open spec fn covers(self, point: Pos) -> bool {
        &&& -self.size < point.x - self.position.x < self.size
        &&& -self.size < point.y - self.position.y < self.size
    }

    pub fn contains_point(&self, point: Pos) -> (r: bool)
        requires
            self@.wf(),
            point.in_world(),
        ensures
            r == self.covers(point),
    {
        let dx = point.x - self.position.x;
        let dy = point.y - self.position.y;
        -self.size < dx && dx < self.size && -self.size < dy && dy < self.size
    }

    /// Returns (iron, coal) cost of this building's kind.
    pub fn cost(&self) -> (r: (u32, u32))
        ensures
            r == self.building_type.spec_cost(),
    {
        self.building_type.cost()
    }

    pub fn can_produce(&self, production_type: ProductionType) -> (r: bool)
        ensures
            r == self.building_type.produces(production_type),
    {
        match (self.building_type, production_type) {
            (BuildingType::Garage, ProductionType::Truck) => true,
            (BuildingType::Factory, ProductionType::Gun) => true,
            (BuildingType::Factory, ProductionType::Bullets) => true,
            _ => false,
        }
    }

    /// Advances the head of the queue by `dt` milliseconds and returns the
    /// item completed by this tick, if any. Guns and bullet boxes go into
    /// storage here; a completed truck is for the caller to place.
    pub fn advance_production(&mut self, dt: u32) -> (done: Option<ProductionType>)
        requires
            old(self)@.wf(),
        ensures
            final(self)@ == old(self)@.ticked(dt),
            done == old(self)@.completed(dt),
            final(self)@.wf(),
    {
        if self.production_queue.len() == 0 {
            return None;
        }
        let current = self.production_queue[0];
        let time = current.time();
        let progress: u64 = self.production_progress as u64 + dt as u64;
        if progress < time as u64 {
            self.production_progress = progress as u32;
            return None;
        }
        self.production_progress = 0;
        self.production_queue.remove(0);
        match current {
            ProductionType::Gun => {
                self.stored_guns = self.stored_guns.saturating_add(1);
            },
            ProductionType::Bullets => {
                self.stored_bullet_boxes = self.stored_bullet_boxes.saturating_add(1);
            },
            ProductionType::Truck => {},
        }
        assert(self.production_queue@ =~= old(self).production_queue@.drop_first());
        Some(current)
    }
}

/// When a tick completes the head item, the progress restarts at exactly
/// zero, the head leaves the queue, and a gun or a bullet box is stored in
/// that same tick.
pub proof fn lemma_completion(b: BuildingView, dt: u32)
    requires
        b.completed(dt).is_some(),
    ensures
        b.ticked(dt).production_progress == 0,
        b.ticked(dt).production_queue == b.production_queue.drop_first(),
        b.completed(dt) == Some(ProductionType::Gun) ==> b.ticked(dt).stored_guns
            == b.stored_guns.saturating_add(1),
        b.completed(dt) == Some(ProductionType::Bullets) ==> b.ticked(dt).stored_bullet_boxes
            == b.stored_bullet_boxes.saturating_add(1),
{
}

} // verus!
