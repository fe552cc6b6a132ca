//! The per-vehicle controller: state machine and kinematics.
//!
//! A vehicle approaches the conflict region, possibly brakes behind its
//! predecessor, pivots once on a turning route, crosses, and exits the
//! window.  Each tick it accelerates toward a target speed computed from the
//! remaining pre-entry distance and the time left until its scheduled entry,
//! so that it reaches its first zone exactly at its reserved slot.

use vstd::prelude::*;

use crate::consts::{
    BRAKE_DISTANCE_PX, CAR_HEIGHT_PX, CAR_WIDTH_PX, ENTRY_DISTANCE_PX, LEFT_TURN_ENTRY_DISTANCE_PX,
    MAX_ACCELERATION, MAX_DELTA_UNITS, POS_BOUND_PX, RIGHT_TURN_ENTRY_DISTANCE_PX,
    ROUTE_LEFT_DISTANCE, ROUTE_RIGHT_DISTANCE, ROUTE_STRAIGHT_DISTANCE, SPEED_PX_PER_SEC,
    TIME_UNITS_PER_SEC,
};
use crate::intersection::{Direction, Route};
use crate::rect::Rect;
use crate::utils::{
    apply_movement_for_direction, calculate_speed_from_distance_time, get_distance_by_direction,
    get_position_after_turn, has_exited_by_direction, is_past_entry_by_direction,
    proximity_check_by_direction, rounded_div, spec_distance_covered, spec_has_exited,
    spec_past_entry, spec_position_after_turn, spec_proximity,
};

verus! {

/// One vehicle of the simulation.
pub struct Car {
    pub id: String,
    pub x: i32,
    pub y: i32,
    pub width: u32,
    pub height: u32,
    /// Longitudinal speed, px/s.
    pub speed: i32,
    pub route: Route,
    pub direction: Direction,
    pub turned: bool,
    pub exited: bool,
    pub collided: bool,
    pub brake: bool,
    /// Clock time of creation.
    pub time_enter: u64,
    /// Clock time of exit, once exited.
    pub time_exit: Option<u64>,
    /// Scheduled entry time issued by the ledger.
    pub entry_time: u64,
    pub in_intersection: bool,
    /// Nominal total path length, px, for statistics.
    pub dist: i32,
    /// Clock time at which the vehicle actually crossed the entry boundary.
    pub actual_entry_time: Option<u64>,
}

impl Car {
    /// A vehicle still in a lane queue: fixed dimensions, position inside the
    /// simulation margins, speed within `[0, SPEED_PX_PER_SEC]`, bounded
    /// times.
    pub open spec fn wf(self) -> bool {
        &&& self.width == CAR_WIDTH_PX
        &&& self.height == CAR_HEIGHT_PX
        &&& -POS_BOUND_PX <= self.x <= POS_BOUND_PX
        &&& -POS_BOUND_PX <= self.y <= POS_BOUND_PX
        &&& 0 <= self.speed <= SPEED_PX_PER_SEC
        &&& self.entry_time <= 0x2000_0000_0000_0000u64
    }

    /// The oriented bounding box: the 33 x 78 footprint, rotated with the
    /// heading.
    pub open spec fn spec_bounding_box(self) -> Rect {
        match self.direction {
            Direction::North | Direction::South => (Rect {
                x: self.x,
                y: self.y,
                width: self.width,
                height: self.height,
            }),
            Direction::East | Direction::West => (Rect {
                x: self.x,
                y: self.y,
                width: self.height,
                height: self.width,
            }),
        }
    }

    /// Distance covered since spawn along the travel axis.
    pub open spec fn spec_distance_to_entry(self) -> int {
        spec_distance_covered(self.x as int, self.y as int, self.height as int, self.direction)
    }

    /// Whether this vehicle is too close behind `other` (strictly within
    /// `BRAKE_DISTANCE_PX` along the lane axis, with lateral overlap).
    pub open spec fn spec_too_close(self, other: Car) -> bool {
        spec_proximity(
            self.spec_bounding_box(),
            other.spec_bounding_box(),
            self.direction,
            BRAKE_DISTANCE_PX as int,
        )
    }

    /// Target speed of the straight-segment law: cover the remaining
    /// pre-entry distance in exactly the time left until the scheduled
    /// entry; nominal speed once the schedule is due.
    pub open spec fn spec_target_speed(self, now: u64) -> int {
        let covered = self.spec_distance_to_entry();
        let remaining = if ENTRY_DISTANCE_PX - covered > 0 {
            ENTRY_DISTANCE_PX - covered
        } else {
            0
        };
        if self.entry_time > now {
            rounded_div(remaining * TIME_UNITS_PER_SEC, self.entry_time - now)
        } else {
            SPEED_PX_PER_SEC as int
        }
    }

    /// One acceleration step: move `speed` toward `target` by at most
    /// `MAX_ACCELERATION`, clamped to `[0, SPEED_PX_PER_SEC]`.
    pub open spec fn spec_clamped_speed(speed: int, target: int) -> int {
        if speed < target {
            let up = if speed + MAX_ACCELERATION < target {
                speed + MAX_ACCELERATION
            } else {
                target
            };
            if up > SPEED_PX_PER_SEC {
                SPEED_PX_PER_SEC as int
            } else {
                up
            }
        } else if speed > target {
            let down = if speed - MAX_ACCELERATION > target {
                speed - MAX_ACCELERATION
            } else {
                target
            };
            if down < 0 {
                0
            } else {
                down
            }
        } else {
            speed
        }
    }

    /// Pixels advanced in one tick of `delta` time units at `speed` px/s.
    pub open spec fn spec_move_px(speed: int, delta: int) -> int {
        rounded_div(speed * delta, TIME_UNITS_PER_SEC as int)
    }

    /// The straight-segment step: record the entry-boundary crossing, adjust
    /// the speed toward the target, and advance along the heading.
    pub open spec fn spec_straight_step(self, now: u64, delta: u64) -> Car {
        let c1 = if !self.in_intersection && spec_past_entry(
            self.x as int,
            self.y as int,
            self.height as int,
            self.direction,
        ) {
            Car { in_intersection: true, actual_entry_time: Some(now), ..self }
        } else {
            self
        };
        let target = c1.spec_target_speed(now);
        let adjusted = Car::spec_clamped_speed(c1.speed as int, target);
        let sp = if c1.route == Route::Right {
            SPEED_PX_PER_SEC as int
        } else {
            adjusted
        };
        let mv = Car::spec_move_px(sp, delta as int);
        match c1.direction {
            Direction::North => (Car { speed: sp as i32, y: (c1.y - mv) as i32, ..c1 }),
            Direction::South => (Car { speed: sp as i32, y: (c1.y + mv) as i32, ..c1 }),
            Direction::East => (Car { speed: sp as i32, x: (c1.x + mv) as i32, ..c1 }),
            Direction::West => (Car { speed: sp as i32, x: (c1.x - mv) as i32, ..c1 }),
        }
    }

    /// The turning-route step: before the pivot threshold the straight law
    /// applies; strictly past it the vehicle snaps to the pivot lane of its
    /// post-turn heading, advancing this tick's distance along it.
    pub open spec fn spec_turn_step(self, now: u64, delta: u64, threshold: int) -> Car {
        if self.turned || self.spec_distance_to_entry() <= threshold {
            self.spec_straight_step(now, delta)
        } else {
            let mv = Car::spec_move_px(self.speed as int, delta as int);
            let pose = spec_position_after_turn(
                self.x as int,
                self.y as int,
                mv,
                self.direction,
                self.route,
            );
            Car {
                x: pose.0 as i32,
                y: pose.1 as i32,
                direction: pose.2,
                turned: true,
                ..self
            }
        }
    }

    /// The full per-tick transition of one vehicle: nothing happens while
    /// exited or braking; otherwise the route-specific step runs and the
    /// exit flag and exit time are set once the box leaves the window.
    pub open spec fn spec_update(self, now: u64, delta: u64) -> Car {
        if self.exited || self.brake {
            self
        } else {
            let c1 = match self.route {
                Route::Right => self.spec_turn_step(now, delta, RIGHT_TURN_ENTRY_DISTANCE_PX as int),
                Route::Left => self.spec_turn_step(now, delta, LEFT_TURN_ENTRY_DISTANCE_PX as int),
                Route::Straight => self.spec_straight_step(now, delta),
            };
            if spec_has_exited(c1.x as int, c1.y as int, c1.height as int, c1.direction) {
                Car { exited: true, time_exit: Some(now), ..c1 }
            } else {
                c1
            }
        }
    }

    /// Frame facts of one controller step, stated without unfolding the
    /// transition itself: dimensions and schedule are kept, the speed stays
    /// clamped, the pose stays within wide margins, the vehicle only moves
    /// forward along its (possibly new) heading, and its cross-axis
    /// coordinate stays within the lane margins.
    pub open spec fn step_frame(pre: Car, post: Car) -> bool {
        &&& post.width == pre.width
        &&& post.height == pre.height
        &&& 0 <= post.speed <= SPEED_PX_PER_SEC
        &&& post.entry_time == pre.entry_time
        &&& post.id == pre.id
        &&& post.route == pre.route
        &&& post.dist == pre.dist
        &&& post.time_enter == pre.time_enter
        &&& post.time_exit == pre.time_exit
        &&& post.collided == pre.collided
        &&& post.brake == pre.brake
        &&& post.exited == pre.exited
        &&& -1_100_000 <= post.x <= 1_100_000
        &&& -1_100_000 <= post.y <= 1_100_000
        &&& match post.direction {
            Direction::North => post.y <= pre.y && -POS_BOUND_PX <= post.x <= POS_BOUND_PX,
            Direction::South => post.y >= pre.y && -POS_BOUND_PX <= post.x <= POS_BOUND_PX,
            Direction::East => post.x >= pre.x && -POS_BOUND_PX <= post.y <= POS_BOUND_PX,
            Direction::West => post.x <= pre.x && -POS_BOUND_PX <= post.y <= POS_BOUND_PX,
        }
    }

    /// A newly spawned vehicle.
    pub fn new(
        id: String,
        x: i32,
        y: i32,
        width: u32,
        height: u32,
        speed: i32,
        route: Route,
        entry_time: u64,
        direction: Direction,
        now: u64,
    ) -> (c: Car)
        requires
            width == CAR_WIDTH_PX,
            height == CAR_HEIGHT_PX,
            -POS_BOUND_PX <= x <= POS_BOUND_PX,
            -POS_BOUND_PX <= y <= POS_BOUND_PX,
            0 <= speed <= SPEED_PX_PER_SEC,
            entry_time <= 0x2000_0000_0000_0000u64,
        ensures
            c.wf(),
            c.id == id,
            c.x == x && c.y == y,
            c.width == width && c.height == height,
            c.speed == speed,
            c.route == route && c.direction == direction,
            !c.turned && !c.exited && !c.collided && !c.brake && !c.in_intersection,
            c.time_enter == now,
            c.time_exit is None,
            c.entry_time == entry_time,
            c.actual_entry_time is None,
            c.dist == (match route {
                Route::Right => ROUTE_RIGHT_DISTANCE as int,
                Route::Straight => ROUTE_STRAIGHT_DISTANCE as int,
                Route::Left => ROUTE_LEFT_DISTANCE as int,
            }),
    {
        let dist = match route {
            Route::Right => ROUTE_RIGHT_DISTANCE,
            Route::Straight => ROUTE_STRAIGHT_DISTANCE,
            Route::Left => ROUTE_LEFT_DISTANCE,
        };
        Car {
            id,
            x,
            y,
            width,
            height,
            speed,
            route,
            direction,
            turned: false,
            exited: false,
            collided: false,
            time_enter: now,
            time_exit: None,
            entry_time,
            in_intersection: false,
            dist,
            actual_entry_time: None,
            brake: false,
        }
    }

    /// The oriented bounding box.
    pub fn bounding_box(&self) -> (r: Rect)
        ensures
            r == self.spec_bounding_box(),
    {
        match self.direction {
            Direction::North | Direction::South => Rect::new(
                self.x,
                self.y,
                self.width,
                self.height,
            ),
            Direction::East | Direction::West => Rect::new(
                self.x,
                self.y,
                self.height,
                self.width,
            ),
        }
    }

    /// Whether the two bounding boxes share interior area.
    pub fn intersects(&self, other: &Car) -> (r: bool)
        requires
            self.wf(),
            other.wf(),
        ensures
            r == self.spec_bounding_box().spec_overlaps(other.spec_bounding_box()),
    {
        let a = self.bounding_box();
        let b = other.bounding_box();
        a.has_intersection(&b)
    }

    /// Whether this vehicle is strictly within `BRAKE_DISTANCE_PX` of the
    /// rear of `other` along the lane axis, with lateral overlap.  A
    /// predecessor exactly `BRAKE_DISTANCE_PX` ahead is not too close.
    pub fn is_too_close(&self, other: &Car) -> (r: bool)
        requires
            self.wf(),
            other.wf(),
        ensures
            r == self.spec_too_close(*other),
    {
        let self_box = self.bounding_box();
        let other_box = other.bounding_box();
        proximity_check_by_direction(&self_box, &other_box, self.direction, BRAKE_DISTANCE_PX)
    }

    /// Distance covered since spawn along the travel axis.
    pub fn distance_to_entry(&self) -> (r: i32)
        requires
            self.wf(),
        ensures
            r == self.spec_distance_to_entry(),
    {
        get_distance_by_direction(self.x, self.y, self.height, self.direction)
    }

    /// Whether the vehicle has crossed its entry boundary.
    fn is_at_entry_boundary(&self) -> (r: bool)
        requires
            self.wf(),
        ensures
            r == spec_past_entry(self.x as int, self.y as int, self.height as int, self.direction),
    {
        is_past_entry_by_direction(self.x, self.y, self.height, self.direction)
    }

    /// Pixels advanced in one tick of `delta` at `speed` px/s.
    fn move_distance(speed: i32, delta: u64) -> (d: i32)
        requires
            0 <= speed <= SPEED_PX_PER_SEC,
            delta <= MAX_DELTA_UNITS,
        ensures
            d == Car::spec_move_px(speed as int, delta as int),
            0 <= d <= 1_000_001,
    {
        proof {
            assert((speed as u64) * delta <= 3_000_000_000u64) by (nonlinear_arith)
                requires
                    speed as u64 <= 300,
                    delta <= 10_000_000u64,
            ;
        }
        let n: u64 = (speed as u64) * delta;
        let q: u64 = (2 * n + TIME_UNITS_PER_SEC) / (2 * TIME_UNITS_PER_SEC);
        proof {
            assert(q <= 1_000_001) by (nonlinear_arith)
                requires
                    n <= 3_000_000_000u64,
                    q == ((2 * n + 3000) as int) / (6000 as int),
            ;
        }
        q as i32
    }

    /// The straight-segment step.
    #[verifier::rlimit(50)]
    fn update_straight(&mut self, now: u64, delta: u64)
        requires
            old(self).wf(),
            now <= 0x4000_0000_0000_0000u64,
            delta <= MAX_DELTA_UNITS,
        ensures
            *final(self) == old(self).spec_straight_step(now, delta),
            Car::step_frame(*old(self), *final(self)),
    {
        if !self.in_intersection && self.is_at_entry_boundary() {
            self.in_intersection = true;
            self.actual_entry_time = Some(now);
        }

        let covered = self.distance_to_entry();
        let remaining = if ENTRY_DISTANCE_PX - covered > 0 {
            ENTRY_DISTANCE_PX - covered
        } else {
            0
        };
        let time_left: u64 = if self.entry_time > now {
            self.entry_time - now
        } else {
            0
        };
        let target_speed = calculate_speed_from_distance_time(
            remaining,
            time_left,
            SPEED_PX_PER_SEC,
        );

        if self.speed < target_speed {
            let up = if self.speed + MAX_ACCELERATION < target_speed {
                self.speed + MAX_ACCELERATION
            } else {
                target_speed
            };
            self.speed = if up > SPEED_PX_PER_SEC {
                SPEED_PX_PER_SEC
            } else {
                up
            };
        } else if self.speed > target_speed {
            let down = if self.speed - MAX_ACCELERATION > target_speed {
                self.speed - MAX_ACCELERATION
            } else {
                target_speed
            };
            self.speed = if down < 0 {
                0
            } else {
                down
            };
        }

        if self.route == Route::Right {
            self.speed = SPEED_PX_PER_SEC;
        }
        let distance = Car::move_distance(self.speed, delta);
        let mut x = self.x;
        let mut y = self.y;
        apply_movement_for_direction(&mut x, &mut y, distance, self.direction);
        self.x = x;
        self.y = y;
    }

    /// The right-turn step: the straight law up to the pivot threshold, the
    /// 90-degree pivot strictly past it.
    fn update_right_turn(&mut self, now: u64, delta: u64)
        requires
            old(self).wf(),
            old(self).route == Route::Right,
            now <= 0x4000_0000_0000_0000u64,
            delta <= MAX_DELTA_UNITS,
        ensures
            *final(self) == old(self).spec_turn_step(
                now,
                delta,
                RIGHT_TURN_ENTRY_DISTANCE_PX as int,
            ),
            Car::step_frame(*old(self), *final(self)),
    {
        let distance = Car::move_distance(self.speed, delta);
        let distance_forward = self.distance_to_entry();

        if self.turned || distance_forward <= RIGHT_TURN_ENTRY_DISTANCE_PX {
            self.update_straight(now, delta);
        } else {
            let pose = get_position_after_turn(self.x, self.y, distance, self.direction, self.route);
            self.x = pose.0;
            self.y = pose.1;
            self.direction = pose.2;
            self.turned = true;
        }
    }

    /// The left-turn step: the straight law up to the pivot threshold, the
    /// 90-degree pivot strictly past it.
    fn update_left_turn(&mut self, now: u64, delta: u64)
        requires
            old(self).wf(),
            old(self).route == Route::Left,
            now <= 0x4000_0000_0000_0000u64,
            delta <= MAX_DELTA_UNITS,
        ensures
            *final(self) == old(self).spec_turn_step(
                now,
                delta,
                LEFT_TURN_ENTRY_DISTANCE_PX as int,
            ),
            Car::step_frame(*old(self), *final(self)),
    {
        let distance = Car::move_distance(self.speed, delta);
        let distance_forward = self.distance_to_entry();

        if self.turned || distance_forward <= LEFT_TURN_ENTRY_DISTANCE_PX {
            self.update_straight(now, delta);
        } else {
            let pose = get_position_after_turn(self.x, self.y, distance, self.direction, self.route);
            self.x = pose.0;
            self.y = pose.1;
            self.direction = pose.2;
            self.turned = true;
        }
    }

    /// The full per-tick transition: route-specific advance, then exit
    /// detection.  A braking vehicle keeps its pose and speed for the tick.
    pub fn update(&mut self, now: u64, delta: u64)
        requires
            old(self).wf(),
            now <= 0x4000_0000_0000_0000u64,
            delta <= MAX_DELTA_UNITS,
        ensures
            *final(self) == old(self).spec_update(now, delta),
            !final(self).exited ==> final(self).wf(),
            final(self).id == old(self).id,
            final(self).route == old(self).route,
            final(self).dist == old(self).dist,
            final(self).time_enter == old(self).time_enter,
            final(self).entry_time == old(self).entry_time,
            final(self).collided == old(self).collided,
            final(self).time_exit == old(self).time_exit || final(self).time_exit == Some(now),
            old(self).exited ==> *final(self) == *old(self),
    {
        if self.exited || self.brake {
            return ;
        }

        match self.route {
            Route::Right => self.update_right_turn(now, delta),
            Route::Left => self.update_left_turn(now, delta),
            Route::Straight => self.update_straight(now, delta),
        }

        if has_exited_by_direction(self.x, self.y, self.height, self.direction) {
            self.exited = true;
            self.time_exit = Some(now);
        }
    }
}

} // verus!
