//! Simulation core of a small real-time strategy game: trucks that mine ore,
//! haul it to the beacon and arm themselves at factories, buildings that run
//! production queues against a shared iron and coal economy, and hostile
//! actors that converge on the beacon.
//!
//! All state is held in integers so that every rule can be stated and proved
//! exactly: a world unit is split into [`geometry::UNIT`] sub-units, and time
//! is counted in milliseconds. Each frame runs in a fixed order (spawn check,
//! actors, trucks one by one, production), see [`game::GameApp::update_with`].
//!
//! - [`geometry`]: positions, exact distance tests, the movement rule.
//! - [`resource`]: ore patches.
//! - [`building`]: buildings and their production queues.
//! - [`truck`]: the truck state machine and its interactions.
//! - [`enemy`]: hostile actors and what chance decides about them.
//! - [`game`]: the world, its frame step and its commands.

pub mod geometry;
pub mod resource;
pub mod building;
pub mod truck;
pub mod enemy;
pub mod game;
