//! Route geometry, spawn rules, proximity predicates and statistics helpers.

use vstd::prelude::*;

use crate::consts::{
    CAR_HEIGHT_PX, MAX_SIM_CLOCK_UNITS, RESERVATION_HOLD_UNITS, SIMULATION_WINDOW_HEIGHT,
    SIMULATION_WINDOW_WIDTH, TIME_UNITS_PER_SEC, ZONE_TIME_UNITS,
};
use crate::crossing_manager::ZoneReservation;
use crate::intersection::{Direction, Route};
use crate::rect::Rect;
use crate::rng::rng_below;
use rand::rngs::StdRng;

verus! {

/// The three routes in a uniformly random order.
pub fn get_rnd_routes(rng: &mut StdRng) -> (routes: Vec<Route>)
    ensures
        routes@.len() == 3,
        routes@.contains(Route::Left),
        routes@.contains(Route::Right),
        routes@.contains(Route::Straight),
{
    let pick = rng_below(rng, 6);
    let mut routes: Vec<Route> = Vec::new();
    if pick == 0 {
        routes.push(Route::Left);
        routes.push(Route::Right);
        routes.push(Route::Straight);
    } else if pick == 1 {
        routes.push(Route::Left);
        routes.push(Route::Straight);
        routes.push(Route::Right);
    } else if pick == 2 {
        routes.push(Route::Right);
        routes.push(Route::Left);
        routes.push(Route::Straight);
    } else if pick == 3 {
        routes.push(Route::Right);
        routes.push(Route::Straight);
        routes.push(Route::Left);
    } else if pick == 4 {
        routes.push(Route::Straight);
        routes.push(Route::Left);
        routes.push(Route::Right);
    } else {
        routes.push(Route::Straight);
        routes.push(Route::Right);
        routes.push(Route::Left);
    }
    proof {
        assert(routes@.contains(routes@[0]));
        assert(routes@.contains(routes@[1]));
        assert(routes@.contains(routes@[2]));
    }
    routes
}

/// A uniformly random approach direction.
pub fn get_rnd_direction(rng: &mut StdRng) -> Direction {
    let pick = rng_below(rng, 4);
    if pick == 0 {
        Direction::North
    } else if pick == 1 {
        Direction::South
    } else if pick == 2 {
        Direction::East
    } else {
        Direction::West
    }
}

/// Display classification of a vehicle, in decreasing priority.
#[derive(Clone, Copy, Debug, PartialEq, Eq, Structural)]
pub enum CarDisplayState {
    /// The vehicle has collided.
    Collided,
    /// The vehicle is braking behind its predecessor.
    Braking,
    /// The vehicle has not yet entered the conflict region.
    Waiting,
    /// The vehicle is crossing the conflict region.
    Active,
}

/// A mutable borrow of one vector element, with the usual contract.
pub fn vec_index_mut<T>(v: &mut Vec<T>, i: usize) -> (element: &mut T)
    requires
        i < old(v).len(),
    ensures
        *element == old(v)@[i as int],
        final(v)@ == old(v)@.update(i as int, *final(element)),
{
    &mut v[i]
}

/// Every zone address of the path lies on the 4x4 grid.
pub open spec fn path_wf(p: Seq<(usize, usize)>) -> bool {
    forall|i: int| 0 <= i < p.len() ==> (#[trigger] p[i]).0 < 4 && p[i].1 < 4
}

/// No zone appears twice on the path.
pub open spec fn path_distinct(p: Seq<(usize, usize)>) -> bool {
    forall|i: int, j: int| 0 <= i < j < p.len() ==> #[trigger] p[i] != #[trigger] p[j]
}

/// The ordered list of zones a vehicle on `(dir, route)` traverses.
/// Right routes bypass the conflict region entirely.
pub open spec fn spec_zone_path(dir: Direction, route: Route) -> Seq<(usize, usize)> {
    match (dir, route) {
        (Direction::South, Route::Left) => seq![
            (0usize, 1usize),
            (1usize, 1usize),
            (2usize, 1usize),
            (2usize, 2usize),
            (2usize, 3usize),
        ],
        (Direction::South, Route::Straight) => seq![
            (0usize, 0usize),
            (1usize, 0usize),
            (2usize, 0usize),
            (3usize, 0usize),
        ],
        (Direction::North, Route::Left) => seq![
            (3usize, 2usize),
            (2usize, 2usize),
            (1usize, 2usize),
            (1usize, 1usize),
            (1usize, 0usize),
        ],
        (Direction::North, Route::Straight) => seq![
            (3usize, 3usize),
            (2usize, 3usize),
            (1usize, 3usize),
            (0usize, 3usize),
        ],
        (Direction::East, Route::Left) => seq![
            (2usize, 0usize),
            (2usize, 1usize),
            (2usize, 2usize),
            (1usize, 2usize),
            (0usize, 2usize),
        ],
        (Direction::East, Route::Straight) => seq![
            (3usize, 0usize),
            (3usize, 1usize),
            (3usize, 2usize),
            (3usize, 3usize),
        ],
        (Direction::West, Route::Left) => seq![
            (1usize, 3usize),
            (1usize, 2usize),
            (1usize, 1usize),
            (2usize, 1usize),
            (3usize, 1usize),
        ],
        (Direction::West, Route::Straight) => seq![
            (0usize, 3usize),
            (0usize, 2usize),
            (0usize, 1usize),
            (0usize, 0usize),
        ],
        (_, Route::Right) => Seq::empty(),
    }
}

/// Builds the zone path of `(dir, route)` as a vector.
pub fn route_to_zone_path(dir: Direction, route: Route) -> (p: Vec<(usize, usize)>)
    ensures
        p@ == spec_zone_path(dir, route),
        path_wf(p@),
        path_distinct(p@),
        p@.len() <= 5,
        route == Route::Right ==> p@.len() == 0,
        route != Route::Right ==> p@.len() >= 4,
{
    let mut p: Vec<(usize, usize)> = Vec::new();
    match (dir, route) {
        (Direction::South, Route::Left) => {
            p.push((0, 1));
            p.push((1, 1));
            p.push((2, 1));
            p.push((2, 2));
            p.push((2, 3));
        }
        (Direction::South, Route::Straight) => {
            p.push((0, 0));
            p.push((1, 0));
            p.push((2, 0));
            p.push((3, 0));
        }
        (Direction::North, Route::Left) => {
            p.push((3, 2));
            p.push((2, 2));
            p.push((1, 2));
            p.push((1, 1));
            p.push((1, 0));
        }
        (Direction::North, Route::Straight) => {
            p.push((3, 3));
            p.push((2, 3));
            p.push((1, 3));
            p.push((0, 3));
        }
        (Direction::East, Route::Left) => {
            p.push((2, 0));
            p.push((2, 1));
            p.push((2, 2));
            p.push((1, 2));
            p.push((0, 2));
        }
        (Direction::East, Route::Straight) => {
            p.push((3, 0));
            p.push((3, 1));
            p.push((3, 2));
            p.push((3, 3));
        }
        (Direction::West, Route::Left) => {
            p.push((1, 3));
            p.push((1, 2));
            p.push((1, 1));
            p.push((2, 1));
            p.push((3, 1));
        }
        (Direction::West, Route::Straight) => {
            p.push((0, 3));
            p.push((0, 2));
            p.push((0, 1));
            p.push((0, 0));
        }
        (_, Route::Right) => {
        }
    }
    proof {
        assert(p@ =~= spec_zone_path(dir, route));
    }
    p
}

/// Builds the reservation of each zone along `path` for a path entered at
/// `entry_time`: zone `i` is held over
/// `[entry_time + i * ZONE_TIME_UNITS, entry_time + i * ZONE_TIME_UNITS + RESERVATION_HOLD_UNITS)`.
pub fn generate_zone_reservations(
    car_id: &str,
    path: &[(usize, usize)],
    entry_time: u64,
) -> (out: Vec<((usize, usize), ZoneReservation)>)
    requires
        path@.len() <= 5,
        entry_time <= 0x4000_0000_0000_0000u64,
    ensures
        out@.len() == path@.len(),
        forall|i: int| 0 <= i < out@.len() ==> {
            &&& (#[trigger] out@[i]).0 == path@[i]
            &&& out@[i].1.time_in == entry_time + i * ZONE_TIME_UNITS
            &&& out@[i].1.time_out == entry_time + i * ZONE_TIME_UNITS + RESERVATION_HOLD_UNITS
            &&& out@[i].1.car_id@ == car_id@
        },
{
    let mut out: Vec<((usize, usize), ZoneReservation)> = Vec::new();
    let mut i: usize = 0;
    while i < path.len()
        invariant
            i <= path@.len(),
            path@.len() <= 5,
            entry_time <= 0x4000_0000_0000_0000u64,
            out@.len() == i,
            forall|k: int| 0 <= k < i ==> {
                &&& (#[trigger] out@[k]).0 == path@[k]
                &&& out@[k].1.time_in == entry_time + k * ZONE_TIME_UNITS
                &&& out@[k].1.time_out == entry_time + k * ZONE_TIME_UNITS
                    + RESERVATION_HOLD_UNITS
                &&& out@[k].1.car_id@ == car_id@
            },
        decreases path@.len() - i,
    {
        let time_in = entry_time + (i as u64) * ZONE_TIME_UNITS;
        let time_out = time_in + RESERVATION_HOLD_UNITS;
        let reservation = ZoneReservation { car_id: car_id.to_owned(), time_in, time_out };
        out.push((path[i], reservation));
        i = i + 1;
    }
    out
}

/// Whether a spawn request is accepted by a lane: fewer than four vehicles
/// queued, and the tail vehicle has cleared the spawn point by at least one
/// vehicle length (or the lane is empty).
pub open spec fn spec_spawn_check(
    lane: Seq<crate::car::Car>,
    direction: Direction,
    x: int,
    y: int,
    height: int,
) -> bool {
    &&& lane.len() < 4
    &&& (lane.len() == 0 || spec_safe_spawn_distance(
        direction,
        x,
        y,
        height,
        lane.last().spec_bounding_box(),
        height,
    ))
}

/// Spawn-side admission check of one lane.
pub fn car_spawn_check(
    lane: &Vec<crate::car::Car>,
    direction: Direction,
    x: i32,
    y: i32,
    height: i32,
) -> (r: bool)
    requires
        forall|k: int| 0 <= k < lane@.len() ==> (#[trigger] lane@[k]).wf(),
        -2_000_000 <= x <= 2_000_000,
        -2_000_000 <= y <= 2_000_000,
        0 <= height <= 1000,
    ensures
        r == spec_spawn_check(lane@, direction, x as int, y as int, height as int),
{
    if lane.len() >= 4 {
        return false;
    }
    if lane.len() == 0 {
        return true;
    }
    let last_bb = lane[lane.len() - 1].bounding_box();
    is_safe_distance_from_car(direction, x, y, height, &last_bb, height)
}

/// Spawn coordinates and initial speed (px/s) of each approach lane.
pub open spec fn spec_spawn_position(direction: Direction, route: Route) -> (i32, i32, i32) {
    match (direction, route) {
        (Direction::South, Route::Left) => (408i32, -80i32, 5i32),
        (Direction::South, Route::Straight) => (358i32, -80i32, 5i32),
        (Direction::South, Route::Right) => (308i32, -80i32, 7i32),
        (Direction::North, Route::Left) => (458i32, 900i32, 5i32),
        (Direction::North, Route::Straight) => (508i32, 900i32, 5i32),
        (Direction::North, Route::Right) => (558i32, 900i32, 7i32),
        (Direction::East, Route::Left) => (-80i32, 458i32, 5i32),
        (Direction::East, Route::Straight) => (-80i32, 508i32, 5i32),
        (Direction::East, Route::Right) => (-80i32, 558i32, 7i32),
        (Direction::West, Route::Left) => (900i32, 408i32, 5i32),
        (Direction::West, Route::Straight) => (900i32, 358i32, 5i32),
        (Direction::West, Route::Right) => (900i32, 308i32, 7i32),
    }
}

/// Spawn coordinates and initial speed of the `(direction, route)` lane.
pub fn get_spawn_position(direction: Direction, route: Route) -> (r: (i32, i32, i32))
    ensures
        r == spec_spawn_position(direction, route),
{
    match (direction, route) {
        (Direction::South, Route::Left) => (408, -80, 5),
        (Direction::South, Route::Straight) => (358, -80, 5),
        (Direction::South, Route::Right) => (308, -80, 7),
        (Direction::North, Route::Left) => (458, 900, 5),
        (Direction::North, Route::Straight) => (508, 900, 5),
        (Direction::North, Route::Right) => (558, 900, 7),
        (Direction::East, Route::Left) => (-80, 458, 5),
        (Direction::East, Route::Straight) => (-80, 508, 5),
        (Direction::East, Route::Right) => (-80, 558, 7),
        (Direction::West, Route::Left) => (900, 408, 5),
        (Direction::West, Route::Straight) => (900, 358, 5),
        (Direction::West, Route::Right) => (900, 308, 7),
    }
}

/// Distance covered since spawn along the travel axis, measured at the
/// vehicle's rear edge.
pub open spec fn spec_distance_covered(x: int, y: int, height: int, direction: Direction) -> int {
    match direction {
        Direction::North => SIMULATION_WINDOW_HEIGHT - y,
        Direction::South => y + height,
        Direction::East => x + height,
        Direction::West => SIMULATION_WINDOW_WIDTH - x,
    }
}

/// Distance covered since spawn along the travel axis.
pub fn get_distance_by_direction(x: i32, y: i32, height: u32, direction: Direction) -> (r: i32)
    requires
        -2_000_000 <= x <= 2_000_000,
        -2_000_000 <= y <= 2_000_000,
        height <= 1000,
    ensures
        r == spec_distance_covered(x as int, y as int, height as int, direction),
{
    match direction {
        Direction::North => SIMULATION_WINDOW_HEIGHT as i32 - y,
        Direction::South => y + height as i32,
        Direction::East => x + height as i32,
        Direction::West => SIMULATION_WINDOW_WIDTH as i32 - x,
    }
}

/// Whether a vehicle at `(x, y)` has crossed its direction-specific entry
/// boundary of the conflict region.
pub open spec fn spec_past_entry(x: int, y: int, height: int, direction: Direction) -> bool {
    match direction {
        Direction::North => y <= 550,
        Direction::South => y + height >= 350,
        Direction::East => x + height >= 350,
        Direction::West => x <= 550,
    }
}

/// Whether a vehicle at `(x, y)` has crossed its entry boundary.
pub fn is_past_entry_by_direction(x: i32, y: i32, height: u32, direction: Direction) -> (r: bool)
    requires
        -2_000_000 <= x <= 2_000_000,
        -2_000_000 <= y <= 2_000_000,
        height <= 1000,
    ensures
        r == spec_past_entry(x as int, y as int, height as int, direction),
{
    match direction {
        Direction::North => y <= 550,
        Direction::South => y + height as i32 >= 350,
        Direction::East => x + height as i32 >= 350,
        Direction::West => x <= 550,
    }
}

/// Whether the bounding box has fully left the simulation window along the
/// travel axis.
pub open spec fn spec_has_exited(x: int, y: int, height: int, direction: Direction) -> bool {
    match direction {
        Direction::North => y + height <= 0,
        Direction::South => y >= SIMULATION_WINDOW_HEIGHT,
        Direction::West => x + height <= 0,
        Direction::East => x >= SIMULATION_WINDOW_WIDTH,
    }
}

/// Whether the bounding box has fully left the simulation window.
pub fn has_exited_by_direction(x: i32, y: i32, height: u32, direction: Direction) -> (r: bool)
    requires
        -2_000_000 <= x <= 2_000_000,
        -2_000_000 <= y <= 2_000_000,
        height <= 1000,
    ensures
        r == spec_has_exited(x as int, y as int, height as int, direction),
{
    match direction {
        Direction::North => y + height as i32 <= 0,
        Direction::South => y >= SIMULATION_WINDOW_HEIGHT as i32,
        Direction::West => x + height as i32 <= 0,
        Direction::East => x >= SIMULATION_WINDOW_WIDTH as i32,
    }
}

/// Moves `(x, y)` forward by `distance` pixels along `direction`.
pub fn apply_movement_for_direction(
    x: &mut i32,
    y: &mut i32,
    distance: i32,
    direction: Direction,
)
    requires
        -2_000_000 <= *old(x) <= 2_000_000,
        -2_000_000 <= *old(y) <= 2_000_000,
        0 <= distance <= 2_000_000,
    ensures
        match direction {
            Direction::North => *final(x) == *old(x) && *final(y) == *old(y) - distance,
            Direction::South => *final(x) == *old(x) && *final(y) == *old(y) + distance,
            Direction::East => *final(x) == *old(x) + distance && *final(y) == *old(y),
            Direction::West => *final(x) == *old(x) - distance && *final(y) == *old(y),
        },
{
    match direction {
        Direction::North => {
            *y = *y - distance;
        }
        Direction::South => {
            *y = *y + distance;
        }
        Direction::East => {
            *x = *x + distance;
        }
        Direction::West => {
            *x = *x - distance;
        }
    }
}

/// Whether a vehicle heading `direction` whose bounding box is `self_bb` is
/// within `safe_distance` (strictly) of the rear of the predecessor box
/// `other_bb`, with overlap on the cross axis.  A predecessor exactly
/// `safe_distance` ahead is not too close.
pub open spec fn spec_proximity(
    self_bb: Rect,
    other_bb: Rect,
    direction: Direction,
    safe_distance: int,
) -> bool {
    match direction {
        Direction::North => {
            &&& self_bb.y < other_bb.spec_bottom() + safe_distance
            &&& self_bb.x < other_bb.spec_right()
            &&& other_bb.x < self_bb.spec_right()
        }
        Direction::South => {
            &&& self_bb.spec_bottom() > other_bb.y - safe_distance
            &&& self_bb.x < other_bb.spec_right()
            &&& other_bb.x < self_bb.spec_right()
        }
        Direction::East => {
            &&& self_bb.spec_right() > other_bb.x - safe_distance
            &&& self_bb.y < other_bb.spec_bottom()
            &&& other_bb.y < self_bb.spec_bottom()
        }
        Direction::West => {
            &&& self_bb.x < other_bb.spec_right() + safe_distance
            &&& self_bb.y < other_bb.spec_bottom()
            &&& other_bb.y < self_bb.spec_bottom()
        }
    }
}

/// Axis-aligned proximity along the lane axis with lateral overlap; strict,
/// so a gap of exactly `safe_distance` is not a hit.
pub fn proximity_check_by_direction(
    self_bb: &Rect,
    other_bb: &Rect,
    direction: Direction,
    safe_distance: i32,
) -> (r: bool)
    requires
        -2_000_000 <= self_bb.x <= 2_000_000,
        -2_000_000 <= self_bb.y <= 2_000_000,
        -2_000_000 <= other_bb.x <= 2_000_000,
        -2_000_000 <= other_bb.y <= 2_000_000,
        self_bb.width <= 1000,
        self_bb.height <= 1000,
        other_bb.width <= 1000,
        other_bb.height <= 1000,
        0 <= safe_distance <= 1000,
    ensures
        r == spec_proximity(*self_bb, *other_bb, direction, safe_distance as int),
{
    match direction {
        Direction::North => {
            let this_front = self_bb.top();
            let other_rear = other_bb.bottom();
            this_front < other_rear + safe_distance
                && self_bb.x < other_bb.right()
                && self_bb.right() > other_bb.x
        }
        Direction::South => {
            let this_front = self_bb.bottom();
            let other_rear = other_bb.top();
            this_front > other_rear - safe_distance
                && self_bb.x < other_bb.right()
                && self_bb.right() > other_bb.x
        }
        Direction::East => {
            let this_front = self_bb.right();
            let other_rear = other_bb.x;
            this_front > other_rear - safe_distance
                && self_bb.y < other_bb.bottom()
                && self_bb.bottom() > other_bb.y
        }
        Direction::West => {
            let this_front = self_bb.x;
            let other_rear = other_bb.right();
            this_front < other_rear + safe_distance
                && self_bb.y < other_bb.bottom()
                && self_bb.bottom() > other_bb.y
        }
    }
}

/// Whether a vehicle spawned at `(x, y)` keeps at least `safe_distance`
/// pixels to the tail vehicle's box `other_bb` along the lane axis.
pub open spec fn spec_safe_spawn_distance(
    direction: Direction,
    x: int,
    y: int,
    height: int,
    other_bb: Rect,
    safe_distance: int,
) -> bool {
    match direction {
        Direction::North => y >= other_bb.spec_bottom() + safe_distance,
        Direction::South => y + height + safe_distance <= other_bb.y,
        Direction::East => x + height + safe_distance <= other_bb.x,
        Direction::West => x >= other_bb.spec_right() + safe_distance,
    }
}

/// Spawn-side tail spacing check.
pub fn is_safe_distance_from_car(
    direction: Direction,
    x: i32,
    y: i32,
    height: i32,
    other_bb: &Rect,
    safe_distance: i32,
) -> (r: bool)
    requires
        -2_000_000 <= x <= 2_000_000,
        -2_000_000 <= y <= 2_000_000,
        0 <= height <= 1000,
        -2_000_000 <= other_bb.x <= 2_000_000,
        -2_000_000 <= other_bb.y <= 2_000_000,
        other_bb.width <= 1000,
        other_bb.height <= 1000,
        0 <= safe_distance <= 1000,
    ensures
        r == spec_safe_spawn_distance(
            direction,
            x as int,
            y as int,
            height as int,
            *other_bb,
            safe_distance as int,
        ),
{
    match direction {
        Direction::North => y >= other_bb.bottom() + safe_distance,
        Direction::South => y + height + safe_distance <= other_bb.y,
        Direction::East => x + height + safe_distance <= other_bb.x,
        Direction::West => x >= other_bb.right() + safe_distance,
    }
}

/// Sprite offset compensating for center-based rotation of an east- or
/// west-facing vehicle.
pub fn get_direction_offset_by_direction(
    direction: Direction,
    width: u32,
    height: u32,
) -> (r: (i32, i32))
    requires
        width <= height,
        height <= 1000,
    ensures
        match direction {
            Direction::North | Direction::South => r == (0i32, 0i32),
            Direction::East | Direction::West => {
                &&& r.0 == (height - width) as int / 2
                &&& r.1 == -(r.0 as int)
            },
        },
{
    match direction {
        Direction::North | Direction::South => (0, 0),
        Direction::East | Direction::West => {
            let d = (height as i32 - width as i32) / 2;
            (d, -d)
        }
    }
}

/// A square of side `size` centered on `(x, y)`.
pub fn create_origin_rect(x: i32, y: i32, size: i32) -> (r: Rect)
    requires
        -2_000_000 <= x <= 2_000_000,
        -2_000_000 <= y <= 2_000_000,
        0 <= size <= 1000,
    ensures
        r.x == x - size / 2,
        r.y == y - size / 2,
        r.width == size,
        r.height == size,
{
    Rect::new(x - size / 2, y - size / 2, size as u32, size as u32)
}

/// Display classification of a vehicle from its flags: a collision outranks
/// braking, which outranks waiting to enter.
pub fn get_color_by_state(collided: bool, brake: bool, in_intersection: bool) -> (r:
    CarDisplayState)
    ensures
        r == (if collided {
            CarDisplayState::Collided
        } else if brake {
            CarDisplayState::Braking
        } else if !in_intersection {
            CarDisplayState::Waiting
        } else {
            CarDisplayState::Active
        }),
{
    if collided {
        CarDisplayState::Collided
    } else if brake {
        CarDisplayState::Braking
    } else if !in_intersection {
        CarDisplayState::Waiting
    } else {
        CarDisplayState::Active
    }
}

/// Pose after the 90-degree pivot of a turning vehicle: the cross-axis
/// coordinate snaps to the pivot lane of the post-turn heading and the
/// vehicle advances `distance` pixels along it.
pub open spec fn spec_position_after_turn(
    x: int,
    y: int,
    distance: int,
    direction: Direction,
    turn_type: Route,
) -> (int, int, Direction) {
    match (direction, turn_type) {
        (Direction::North, Route::Right) => (x + distance, 558, Direction::East),
        (Direction::South, Route::Right) => (
            x - CAR_HEIGHT_PX / 2 - distance,
            308,
            Direction::West,
        ),
        (Direction::East, Route::Right) => (308, y + distance, Direction::South),
        (Direction::West, Route::Right) => (
            558,
            y - CAR_HEIGHT_PX / 2 - distance,
            Direction::North,
        ),
        (Direction::North, Route::Left) => (
            x - CAR_HEIGHT_PX / 2 - distance,
            408,
            Direction::West,
        ),
        (Direction::South, Route::Left) => (x + distance, 458, Direction::East),
        (Direction::East, Route::Left) => (
            458,
            y - CAR_HEIGHT_PX / 2 - distance,
            Direction::North,
        ),
        (Direction::West, Route::Left) => (408, y + distance, Direction::South),
        (_, Route::Straight) => (x, y, direction),
    }
}

/// Pose after the 90-degree pivot of a turning vehicle.
pub fn get_position_after_turn(
    x: i32,
    y: i32,
    distance: i32,
    direction: Direction,
    turn_type: Route,
) -> (r: (i32, i32, Direction))
    requires
        -2_000_000 <= x <= 2_000_000,
        -2_000_000 <= y <= 2_000_000,
        0 <= distance <= 2_000_000,
    ensures
        (r.0 as int, r.1 as int, r.2) == spec_position_after_turn(
            x as int,
            y as int,
            distance as int,
            direction,
            turn_type,
        ),
{
    let half = (CAR_HEIGHT_PX / 2) as i32;
    match (direction, turn_type) {
        (Direction::North, Route::Right) => (x + distance, 558, Direction::East),
        (Direction::South, Route::Right) => (x - half - distance, 308, Direction::West),
        (Direction::East, Route::Right) => (308, y + distance, Direction::South),
        (Direction::West, Route::Right) => (558, y - half - distance, Direction::North),
        (Direction::North, Route::Left) => (x - half - distance, 408, Direction::West),
        (Direction::South, Route::Left) => (x + distance, 458, Direction::East),
        (Direction::East, Route::Left) => (458, y - half - distance, Direction::North),
        (Direction::West, Route::Left) => (408, y + distance, Direction::South),
        (_, Route::Straight) => (x, y, direction),
    }
}

/// Integer division of `a` by `b`, rounded to the nearest integer with ties
/// away from zero; both arguments non-negative, `b` positive.
pub open spec fn rounded_div(a: int, b: int) -> int {
    (2 * a + b) / (2 * b)
}

/// A completed vehicle that counts for the speed statistics: it exited, and
/// strictly later than it was created.
pub open spec fn valid_speed_car(c: crate::car::Car) -> bool {
    match c.time_exit {
        Some(e) => e > c.time_enter,
        None => false,
    }
}

/// Effective speed of a completed vehicle in centi-px/s: nominal path
/// length over transit duration.
pub open spec fn spec_effective_speed(c: crate::car::Car) -> int {
    rounded_div(
        c.dist * (TIME_UNITS_PER_SEC * 100),
        (c.time_exit->Some_0 - c.time_enter) as int,
    )
}

/// Number of vehicles that count for the speed statistics.
pub open spec fn spd_count(s: Seq<crate::car::Car>) -> int
    decreases s.len(),
{
    if s.len() == 0 {
        0
    } else {
        spd_count(s.drop_last()) + if valid_speed_car(s.last()) {
            1int
        } else {
            0int
        }
    }
}

/// Sum of the effective speeds, centi-px/s.
pub open spec fn spd_sum(s: Seq<crate::car::Car>) -> int
    decreases s.len(),
{
    if s.len() == 0 {
        0
    } else {
        spd_sum(s.drop_last()) + if valid_speed_car(s.last()) {
            spec_effective_speed(s.last())
        } else {
            0int
        }
    }
}

/// Least effective speed, centi-px/s; the sentinel `u64::MAX` when no
/// vehicle counts.
pub open spec fn spd_min(s: Seq<crate::car::Car>) -> int
    decreases s.len(),
{
    if s.len() == 0 {
        0xFFFF_FFFF_FFFF_FFFFu64 as int
    } else {
        let m = spd_min(s.drop_last());
        if valid_speed_car(s.last()) && spec_effective_speed(s.last()) < m {
            spec_effective_speed(s.last())
        } else {
            m
        }
    }
}

/// Greatest effective speed, centi-px/s; 0 when no vehicle counts.
pub open spec fn spd_max(s: Seq<crate::car::Car>) -> int
    decreases s.len(),
{
    if s.len() == 0 {
        0
    } else {
        let m = spd_max(s.drop_last());
        if valid_speed_car(s.last()) && spec_effective_speed(s.last()) > m {
            spec_effective_speed(s.last())
        } else {
            m
        }
    }
}

/// A completed vehicle that counts for the duration statistics: it exited
/// no earlier than it was created.
pub open spec fn valid_duration_car(c: crate::car::Car) -> bool {
    match c.time_exit {
        Some(e) => e >= c.time_enter,
        None => false,
    }
}

/// Transit duration of a completed vehicle, in centiseconds.
pub open spec fn spec_transit_cs(c: crate::car::Car) -> int {
    rounded_div((c.time_exit->Some_0 - c.time_enter) as int, 30)
}

/// Number of vehicles that count for the duration statistics.
pub open spec fn dur_count(s: Seq<crate::car::Car>) -> int
    decreases s.len(),
{
    if s.len() == 0 {
        0
    } else {
        dur_count(s.drop_last()) + if valid_duration_car(s.last()) {
            1int
        } else {
            0int
        }
    }
}

/// Sum of the transit durations, centiseconds.
pub open spec fn dur_sum(s: Seq<crate::car::Car>) -> int
    decreases s.len(),
{
    if s.len() == 0 {
        0
    } else {
        dur_sum(s.drop_last()) + if valid_duration_car(s.last()) {
            spec_transit_cs(s.last())
        } else {
            0int
        }
    }
}

/// Least transit duration, centiseconds; the sentinel `u64::MAX` when no
/// vehicle counts.
pub open spec fn dur_min(s: Seq<crate::car::Car>) -> int
    decreases s.len(),
{
    if s.len() == 0 {
        0xFFFF_FFFF_FFFF_FFFFu64 as int
    } else {
        let m = dur_min(s.drop_last());
        if valid_duration_car(s.last()) && spec_transit_cs(s.last()) < m {
            spec_transit_cs(s.last())
        } else {
            m
        }
    }
}

/// Greatest transit duration, centiseconds; 0 when no vehicle counts.
pub open spec fn dur_max(s: Seq<crate::car::Car>) -> int
    decreases s.len(),
{
    if s.len() == 0 {
        0
    } else {
        let m = dur_max(s.drop_last());
        if valid_duration_car(s.last()) && spec_transit_cs(s.last()) > m {
            spec_transit_cs(s.last())
        } else {
            m
        }
    }
}

/// Effective speed of one valid completed vehicle, centi-px/s.
fn effective_speed_of(c: &crate::car::Car) -> (r: u64)
    requires
        valid_speed_car(*c),
        0 <= c.dist <= 1000,
        c.time_exit->Some_0 <= 0x4000_0000_0000_0000u64,
    ensures
        r == spec_effective_speed(*c),
        r <= 300_000_000,
{
    let e = if let Some(e) = c.time_exit {
        e
    } else {
        0
    };
    let dur: u64 = e - c.time_enter;
    proof {
        assert((c.dist as u64) * (TIME_UNITS_PER_SEC as u64 * 100) <= 300_000_000)
            by (nonlinear_arith)
            requires
                0 <= c.dist <= 1000,
                TIME_UNITS_PER_SEC == 3000,
        ;
    }
    let n: u64 = (c.dist as u64) * (TIME_UNITS_PER_SEC as u64 * 100);
    let q: u64 = (2 * n + dur) / (2 * dur);
    proof {
        assert(q <= 300_000_000) by (nonlinear_arith)
            requires
                n <= 300_000_000,
                dur >= 1,
                q == ((2 * n + dur) as int) / ((2 * dur) as int),
        ;
    }
    q
}

/// Transit duration of one valid completed vehicle, centiseconds.
fn transit_cs_of(c: &crate::car::Car) -> (r: u64)
    requires
        valid_duration_car(*c),
        c.time_exit->Some_0 <= MAX_SIM_CLOCK_UNITS,
    ensures
        r == spec_transit_cs(*c),
        r <= 0x200_0000_0000u64,
{
    let e = if let Some(e) = c.time_exit {
        e
    } else {
        0
    };
    let dur: u64 = e - c.time_enter;
    let r: u64 = (2 * dur + 30) / 60;
    proof {
        assert(r <= 0x200_0000_0000u64) by (nonlinear_arith)
            requires
                dur <= 0x2000_0000_0000u64,
                r == ((2 * dur + 30) as int) / (60 as int),
        ;
    }
    r
}

/// Min, max and average effective speed (centi-px/s) over the completed
/// vehicles with a positive transit duration; all zero when none counts.
pub fn calculate_speed_statistics(cars: &Vec<crate::car::Car>) -> (r: (u64, u64, u64))
    requires
        forall|k: int|
            0 <= k < cars@.len() ==> {
                &&& 0 <= (#[trigger] cars@[k]).dist <= 1000
                &&& (cars@[k].time_exit is Some
                    ==> cars@[k].time_exit->Some_0 <= MAX_SIM_CLOCK_UNITS)
            },
        cars@.len() <= 100_000,
    ensures
        spd_count(cars@) == 0 ==> r == (0u64, 0u64, 0u64),
        spd_count(cars@) > 0 ==> {
            &&& r.0 == spd_min(cars@)
            &&& r.1 == spd_max(cars@)
            &&& r.2 == rounded_div(spd_sum(cars@), spd_count(cars@))
        },
{
    let mut min_v: u64 = 0xFFFF_FFFF_FFFF_FFFF;
    let mut max_v: u64 = 0;
    let mut total: u64 = 0;
    let mut valid: u64 = 0;
    let mut i: usize = 0;
    while i < cars.len()
        invariant
            i <= cars@.len(),
            cars@.len() <= 100_000,
            forall|k: int|
                0 <= k < cars@.len() ==> {
                    &&& 0 <= (#[trigger] cars@[k]).dist <= 1000
                    &&& (cars@[k].time_exit is Some
                        ==> cars@[k].time_exit->Some_0 <= MAX_SIM_CLOCK_UNITS)
                },
            min_v == spd_min(cars@.subrange(0, i as int)),
            max_v == spd_max(cars@.subrange(0, i as int)),
            total == spd_sum(cars@.subrange(0, i as int)),
            valid == spd_count(cars@.subrange(0, i as int)),
            valid <= i as u64,
            total <= 300_000_000 * (i as u64),
            max_v <= 300_000_000,
        decreases cars@.len() - i,
    {
        let ghost sub1 = cars@.subrange(0, i + 1);
        proof {
            assert(sub1.drop_last() =~= cars@.subrange(0, i as int));
            assert(sub1.last() == cars@[i as int]);
        }
        let c = &cars[i];
        let is_valid = match c.time_exit {
            Some(e) => e > c.time_enter,
            None => false,
        };
        if is_valid {
            let sp = effective_speed_of(c);
            if sp < min_v {
                min_v = sp;
            }
            if sp > max_v {
                max_v = sp;
            }
            total = total + sp;
            valid = valid + 1;
        }
        i = i + 1;
    }
    proof {
        assert(cars@.subrange(0, cars@.len() as int) =~= cars@);
    }
    if valid == 0 {
        (0, 0, 0)
    } else {
        let avg: u64 = (2 * total + valid) / (2 * valid);
        (min_v, max_v, avg)
    }
}

/// Min, max and average transit duration (centiseconds) over the completed
/// vehicles; all zero when none counts.
pub fn calculate_duration_statistics(cars: &Vec<crate::car::Car>) -> (r: (u64, u64, u64))
    requires
        forall|k: int|
            0 <= k < cars@.len()
                ==> ((#[trigger] cars@[k]).time_exit is Some
                    ==> cars@[k].time_exit->Some_0 <= MAX_SIM_CLOCK_UNITS),
        cars@.len() <= 100_000,
    ensures
        dur_count(cars@) == 0 ==> r == (0u64, 0u64, 0u64),
        dur_count(cars@) > 0 ==> {
            &&& r.0 == dur_min(cars@)
            &&& r.1 == dur_max(cars@)
            &&& r.2 == rounded_div(dur_sum(cars@), dur_count(cars@))
        },
{
    let mut min_v: u64 = 0xFFFF_FFFF_FFFF_FFFF;
    let mut max_v: u64 = 0;
    let mut total: u64 = 0;
    let mut valid: u64 = 0;
    let mut i: usize = 0;
    while i < cars.len()
        invariant
            i <= cars@.len(),
            cars@.len() <= 100_000,
            forall|k: int|
                0 <= k < cars@.len()
                    ==> ((#[trigger] cars@[k]).time_exit is Some
                        ==> cars@[k].time_exit->Some_0 <= MAX_SIM_CLOCK_UNITS),
            min_v == dur_min(cars@.subrange(0, i as int)),
            max_v == dur_max(cars@.subrange(0, i as int)),
            total == dur_sum(cars@.subrange(0, i as int)),
            valid == dur_count(cars@.subrange(0, i as int)),
            valid <= i as u64,
            total <= 0x200_0000_0000u64 * (i as u64),
            max_v <= 0x200_0000_0000u64,
        decreases cars@.len() - i,
    {
        let ghost sub1 = cars@.subrange(0, i + 1);
        proof {
            assert(sub1.drop_last() =~= cars@.subrange(0, i as int));
            assert(sub1.last() == cars@[i as int]);
        }
        let c = &cars[i];
        let is_valid = match c.time_exit {
            Some(e) => e >= c.time_enter,
            None => false,
        };
        if is_valid {
            let d = transit_cs_of(c);
            if d < min_v {
                min_v = d;
            }
            if d > max_v {
                max_v = d;
            }
            total = total + d;
            valid = valid + 1;
        }
        i = i + 1;
    }
    proof {
        assert(cars@.subrange(0, cars@.len() as int) =~= cars@);
    }
    if valid == 0 {
        (0, 0, 0)
    } else {
        let avg: u64 = (2 * total + valid) / (2 * valid);
        (min_v, max_v, avg)
    }
}

/// Signed difference `actual - scheduled`, in time units: positive when the
/// vehicle is late.
pub fn calculate_time_difference(scheduled: u64, actual: u64) -> (r: i64)
    requires
        scheduled <= 0x4000_0000_0000_0000u64,
        actual <= 0x4000_0000_0000_0000u64,
    ensures
        r == actual - scheduled,
{
    if actual >= scheduled {
        (actual - scheduled) as i64
    } else {
        -((scheduled - actual) as i64)
    }
}

/// Speed, in px/s, needed to cover `distance` pixels in `time_left` time
/// units, rounded to the nearest integer; `default_speed` when no time is
/// left.
pub fn calculate_speed_from_distance_time(
    distance: i32,
    time_left: u64,
    default_speed: i32,
) -> (r: i32)
    requires
        0 <= distance <= 100_000,
        time_left <= 0x4000_0000_0000_0000u64,
        0 <= default_speed <= 100_000,
    ensures
        time_left > 0 ==> r == rounded_div(distance * TIME_UNITS_PER_SEC, time_left as int),
        time_left == 0 ==> r == default_speed,
{
    if time_left > 0 {
        let n: u64 = (distance as u64) * TIME_UNITS_PER_SEC;
        let q: u64 = (2 * n + time_left) / (2 * time_left);
        proof {
            assert(q <= n + 1) by (nonlinear_arith)
                requires
                    n <= 300_000_000,
                    time_left >= 1,
                    q == (2 * n + time_left) / (2 * time_left),
            ;
        }
        q as i32
    } else {
        default_speed
    }
}

} // verus!
