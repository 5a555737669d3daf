//! Resource sites: static circular ore patches tagged with what they yield.

use vstd::prelude::*;
use crate::geometry::{Pos, UNIT, WORLD_LIMIT, within, is_within};

verus! {

/// Radius of every ore patch, in sub-units.
pub const PATCH_RADIUS: i64 = 40 * UNIT;

/// Nominal amount held by a patch; depletion is not modelled.
pub const PATCH_AMOUNT: u32 = 999_999;

#[derive(Debug, Clone, Copy, PartialEq, Eq, Structural)]
pub enum ResourceType {
    Iron,
    Coal,
}

#[derive(Debug, Clone, Copy)]
pub struct OrePatch {
    pub position: Pos,
    pub size: i64,
    pub resource_type: ResourceType,
    pub amount: u32,
}

impl OrePatch {
    pub open spec fn wf(self) -> bool {
        &&& self.position.in_world()
        &&& 0 <= self.size <= 2 * WORLD_LIMIT
    }

    /// The point lies strictly inside the patch's circle.
    pub open spec fn covers(self, point: Pos) -> bool {
        within(point, self.position, self.size as int)
    }

    pub fn new(position: Pos, resource_type: ResourceType) -> (p: OrePatch)
        ensures
            p.position == position,
            p.size == PATCH_RADIUS,
            p.resource_type == resource_type,
            p.amount == PATCH_AMOUNT,
            position.in_world() ==> p.wf(),
    {
        OrePatch { position, size: PATCH_RADIUS, resource_type, amount: PATCH_AMOUNT }
    }

    pub fn contains_point(&self, point: Pos) -> (r: bool)
        requires
            self.wf(),
            point.in_world(),
        ensures
            r == self.covers(point),
    {
        is_within(point, self.position, self.size)
    }
}

} // verus!
