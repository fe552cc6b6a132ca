//! Core of an unsignalized four-way intersection simulation.
//!
//! Autonomous vehicles coordinate their passage through a shared conflict
//! region by reserving time slots on a 4x4 grid of zones.  The crate holds the
//! reservation ledger, the per-vehicle controller, the lane queues and
//! spawner, the world tick and the statistics, all with verified contracts.
//!
//! Time is measured in integer units of 1/3000 s, so that every timing
//! parameter derived from the nominal speed of 300 px/s is exact: a pixel of
//! travel at nominal speed takes exactly 10 units.

pub mod car;
pub mod cars_id;
pub mod consts;
pub mod crossing_manager;
pub mod intersection;
pub mod laws;
pub mod rect;
pub mod rng;
pub mod utils;
