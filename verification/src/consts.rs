//! Fixed geometry and timing constants of the simulation.
//!
//! All times are in integer time units of 1/3000 s.  At the nominal speed of
//! 300 px/s a vehicle covers one pixel in exactly `PX_TO_TIME_UNITS` units,
//! so every timing parameter below is exact.

use vstd::prelude::*;

verus! {

/// Number of time units in one second.
pub const TIME_UNITS_PER_SEC: u64 = 3000;

/// Nominal (maximum) vehicle speed, in px/s.
pub const SPEED_PX_PER_SEC: i32 = 300;

/// Time units a vehicle at nominal speed needs to cover one pixel.
pub const PX_TO_TIME_UNITS: u64 = 10;

/// Side length of one conflict-region zone, in pixels.
pub const ZONE_LENGTH_PX: i32 = 50;

/// Unrotated vehicle width, in pixels.
pub const CAR_WIDTH_PX: u32 = 33;

/// Unrotated vehicle length, in pixels.
pub const CAR_HEIGHT_PX: u32 = 78;

/// Safety margin appended to every zone release, in pixels.
pub const SAFE_DISTANCE_PX: i32 = 39;

/// Time for a vehicle at nominal speed to traverse one zone.
pub const ZONE_TIME_UNITS: u64 = 500;

/// Additional time for the vehicle's body to clear a zone after its head
/// leaves.
pub const CAR_OCCUPY_TIME_UNITS: u64 = 780;

/// Uniform safety gap appended to every zone release.
pub const SAFE_GAP_TIME_UNITS: u64 = 390;

/// Total length of one zone reservation:
/// `ZONE_TIME_UNITS + CAR_OCCUPY_TIME_UNITS + SAFE_GAP_TIME_UNITS`.
pub const RESERVATION_HOLD_UNITS: u64 = ZONE_TIME_UNITS + CAR_OCCUPY_TIME_UNITS
    + SAFE_GAP_TIME_UNITS;

/// Target tick period of the world loop (16 ms).
pub const BASE_DELTA_UNITS: u64 = 48;

/// Lower clamp on the tick duration handed to the controller
/// (one sixteenth of `BASE_DELTA_UNITS`, i.e. 1 ms).
pub const MIN_DELTA_UNITS: u64 = 3;

/// Upper bound on a single tick duration accepted by the world tick; keeps
/// every position computation inside `i32`.  About 55 simulated minutes.
pub const MAX_DELTA_UNITS: u64 = 10_000_000;

/// Upper bound on clock values accepted by the public operations; keeps every
/// time computation inside `u64`.  About 12 million simulated years.
pub const MAX_CLOCK_UNITS: u64 = 0x1000_0000_0000_0000;

/// Upper bound on the clock accepted by the world; far above any real run
/// (about 370 simulated years) while keeping the statistics inside `u64`.
pub const MAX_SIM_CLOCK_UNITS: u64 = 0x2000_0000_0000;

/// Largest amount one admission can add beyond the ledger's horizon: the
/// span of a five-zone path plus one reservation hold.
pub const ADMISSION_SLACK_UNITS: u64 = 4 * ZONE_TIME_UNITS + RESERVATION_HOLD_UNITS;

/// Largest travel time from a spawn point to the conflict region.
pub const MAX_TRAVEL_UNITS: u64 = 3500;

/// Distance from spawn to the conflict region for straight and left routes,
/// in pixels.
pub const ENTRY_DISTANCE_PX: i32 = 350;

/// Distance from spawn to the turn point for right routes, in pixels.
pub const ENTRY_DISTANCE_PX_RIGHT: i32 = 300;

/// Covered distance past which a left-turning vehicle pivots.
pub const LEFT_TURN_ENTRY_DISTANCE_PX: i32 = 500;

/// Covered distance past which a right-turning vehicle pivots.
pub const RIGHT_TURN_ENTRY_DISTANCE_PX: i32 = 350;

/// Predecessor gap below which a vehicle brakes, in pixels.
pub const BRAKE_DISTANCE_PX: i32 = 10;

/// Largest speed change per tick, in px/s.
pub const MAX_ACCELERATION: i32 = 30;

/// Simulation window width, in pixels.
pub const SIMULATION_WINDOW_WIDTH: u32 = 900;

/// Simulation window height, in pixels.
pub const SIMULATION_WINDOW_HEIGHT: u32 = 900;

/// Nominal path length of a right route, for statistics, in pixels.
pub const ROUTE_RIGHT_DISTANCE: i32 = 650;

/// Nominal path length of a straight route, for statistics, in pixels.
pub const ROUTE_STRAIGHT_DISTANCE: i32 = 900;

/// Nominal path length of a left route, for statistics, in pixels.
pub const ROUTE_LEFT_DISTANCE: i32 = 950;

/// Column of the NW corner of the conflict region.
pub const INTERSECTION_START_X: i32 = 350;

/// Row of the NW corner of the conflict region.
pub const INTERSECTION_START_Y: i32 = 350;

/// Largest admissible lane-queue length.
pub const MAX_LANE_LEN: usize = 4;

/// Coordinates of queued vehicles stay within this bound; established at
/// spawn and re-established each tick when exited vehicles leave the lanes.
pub const POS_BOUND_PX: i32 = 1100;

} // verus!
