//! The world: lane queues, spawner, tick driver and counters.

use rand::rngs::StdRng;
use vstd::prelude::*;

use crate::car::Car;
use crate::cars_id::{spec_car_id, CarIdGenerator};
use crate::consts::{
    ADMISSION_SLACK_UNITS, CAR_HEIGHT_PX, CAR_WIDTH_PX, ENTRY_DISTANCE_PX,
    ENTRY_DISTANCE_PX_RIGHT, MAX_CLOCK_UNITS, MAX_DELTA_UNITS, MAX_LANE_LEN, MAX_SIM_CLOCK_UNITS,
    MAX_TRAVEL_UNITS, MIN_DELTA_UNITS,
    PX_TO_TIME_UNITS, RESERVATION_HOLD_UNITS, ROUTE_LEFT_DISTANCE, ROUTE_RIGHT_DISTANCE,
    ROUTE_STRAIGHT_DISTANCE, ZONE_TIME_UNITS,
};
use crate::crossing_manager::CrossingManager;
use crate::rng::rng_from_seed;
use crate::utils::{
    car_spawn_check, get_rnd_direction, get_rnd_routes, get_spawn_position, spec_spawn_check,
    spec_spawn_position, spec_zone_path, vec_index_mut,
};

verus! {

/// Compass heading the vehicle is moving toward.
#[derive(Clone, Copy, Debug, PartialEq, Eq, Hash, Structural)]
pub enum Direction {
    North,
    South,
    East,
    West,
}

/// Relative turn taken at the intersection.
#[derive(Clone, Copy, Debug, PartialEq, Eq, Hash, Structural)]
pub enum Route {
    Left,
    Right,
    Straight,
}

/// Index of the `(direction, route)` lane queue among the twelve lanes.
pub open spec fn spec_lane_index(direction: Direction, route: Route) -> int {
    (match direction {
        Direction::North => 0int,
        Direction::South => 1int,
        Direction::East => 2int,
        Direction::West => 3int,
    }) * 3 + (match route {
        Route::Left => 0int,
        Route::Right => 1int,
        Route::Straight => 2int,
    })
}

/// Index of the `(direction, route)` lane queue.
pub fn lane_index(direction: Direction, route: Route) -> (l: usize)
    ensures
        l == spec_lane_index(direction, route),
        l < 12,
{
    (match direction {
        Direction::North => 0usize,
        Direction::South => 1,
        Direction::East => 2,
        Direction::West => 3,
    }) * 3 + (match route {
        Route::Left => 0usize,
        Route::Right => 1,
        Route::Straight => 2,
    })
}

/// Total number of vehicles held by the lane queues.
pub open spec fn sum_lane_lens(ls: Seq<Seq<Car>>) -> int
    decreases ls.len(),
{
    if ls.len() == 0 {
        0
    } else {
        sum_lane_lens(ls.drop_last()) + ls.last().len()
    }
}

/// Changing one lane changes the total by the difference of its lengths.
pub proof fn lemma_sum_lane_lens_update(ls: Seq<Seq<Car>>, l: int, v: Seq<Car>)
    requires
        0 <= l < ls.len(),
    ensures
        sum_lane_lens(ls.update(l, v)) == sum_lane_lens(ls) - ls[l].len() + v.len(),
    decreases ls.len(),
{
    if ls.len() > 0 {
        if l == ls.len() - 1 {
            assert(ls.update(l, v).drop_last() =~= ls.drop_last());
            assert(ls.update(l, v).last() == v);
        } else {
            lemma_sum_lane_lens_update(ls.drop_last(), l, v);
            assert(ls.update(l, v).drop_last() =~= ls.drop_last().update(l, v));
            assert(ls.update(l, v).last() == ls.last());
        }
    }
}

/// Time bounds and statistics bounds of a vehicle record.
pub open spec fn car_times_ok(c: Car) -> bool {
    &&& c.time_enter <= MAX_SIM_CLOCK_UNITS
    &&& match c.time_exit {
        Some(e) => e <= MAX_SIM_CLOCK_UNITS,
        None => true,
    }
    &&& 0 <= c.dist <= 1000
}

/// The world: twelve lane queues, the completed list, the identifier mint,
/// the reservation ledger, the counters and the clock of the previous tick.
pub struct Intersection {
    /// Lane queues, indexed by `spec_lane_index`.
    pub cars_in: Vec<Vec<Car>>,
    /// Completed vehicles, immutable, read by the statistics.
    pub cars_out: Vec<Car>,
    pub id_generator: CarIdGenerator,
    pub crossing_manager: CrossingManager,
    pub collision_count: usize,
    pub near_miss: usize,
    pub last_update: u64,
    /// Seedable random source for spawn decisions.
    pub rng: StdRng,
}

impl Intersection {
    /// The lane queues as mathematical sequences.
    pub open spec fn lane_seqs(self) -> Seq<Seq<Car>> {
        self.cars_in@.map_values(|v: Vec<Car>| v@)
    }

    /// Ledger horizon allowed after `n` admissions: every reservation ends
    /// within the clock bound plus one admission's slack per minted vehicle.
    pub open spec fn spec_ledger_bound(n: int) -> int {
        MAX_SIM_CLOCK_UNITS + MAX_TRAVEL_UNITS + ADMISSION_SLACK_UNITS * n
    }

    /// The world invariant: twelve well-formed lanes of at most
    /// `MAX_LANE_LEN` vehicles, bounded vehicle records, a well-formed
    /// ledger whose horizon is covered by the admissions made so far, and
    /// the conservation law: lane vehicles plus completed vehicles equal
    /// minted identifiers.
    pub open spec fn wf(self) -> bool {
        &&& self.cars_in@.len() == 12
        &&& forall|l: int, k: int|
            0 <= l < 12 && 0 <= k < self.cars_in@[l]@.len()
                ==> (#[trigger] self.cars_in@[l]@[k]).wf() && car_times_ok(self.cars_in@[l]@[k])
        &&& forall|l: int| 0 <= l < 12 ==> (#[trigger] self.cars_in@[l])@.len() <= MAX_LANE_LEN
        &&& forall|k: int|
            0 <= k < self.cars_out@.len() ==> car_times_ok(#[trigger] self.cars_out@[k])
        &&& self.id_generator.max == 9999
        &&& self.id_generator.current <= 9999
        &&& self.crossing_manager.wf()
        &&& self.crossing_manager.bounded(
            Intersection::spec_ledger_bound(self.id_generator.current as int),
        )
        &&& sum_lane_lens(self.lane_seqs()) + self.cars_out@.len() == self.id_generator.current
        &&& self.last_update <= MAX_SIM_CLOCK_UNITS
    }

    /// Number of vehicles admitted so far.
    pub open spec fn spec_admitted_count(self) -> int {
        self.id_generator.current as int
    }

    /// Number of vehicles still in the lanes.
    pub open spec fn spec_alive_count(self) -> int {
        sum_lane_lens(self.lane_seqs())
    }

    /// Number of completed vehicles.
    pub open spec fn spec_completed_count(self) -> int {
        self.cars_out@.len() as int
    }

    /// Whether a spawn request for `(direction, route)` would be accepted:
    /// the lane holds fewer than `MAX_LANE_LEN` vehicles and its tail has
    /// cleared the spawn point by at least one vehicle length.
    pub open spec fn spec_can_spawn(self, direction: Direction, route: Route) -> bool {
        let lane = self.lane_seqs()[spec_lane_index(direction, route)];
        let sp = spec_spawn_position(direction, route);
        spec_spawn_check(lane, direction, sp.0 as int, sp.1 as int, CAR_HEIGHT_PX as int)
    }

    /// The vehicle record that admission appends to the lane.
    pub open spec fn spec_new_car_ok(
        c: Car,
        direction: Direction,
        route: Route,
        t: u64,
        now: u64,
        n: int,
    ) -> bool {
        let sp = spec_spawn_position(direction, route);
        &&& c.id@ == spec_car_id(direction, route, n)
        &&& c.x == sp.0
        &&& c.y == sp.1
        &&& c.speed == sp.2
        &&& c.width == CAR_WIDTH_PX
        &&& c.height == CAR_HEIGHT_PX
        &&& c.route == route
        &&& c.direction == direction
        &&& !c.turned && !c.exited && !c.collided && !c.brake && !c.in_intersection
        &&& c.time_enter == now
        &&& c.time_exit is None
        &&& c.actual_entry_time is None
        &&& c.entry_time == t
        &&& c.dist == (match route {
            Route::Right => ROUTE_RIGHT_DISTANCE as int,
            Route::Straight => ROUTE_STRAIGHT_DISTANCE as int,
            Route::Left => ROUTE_LEFT_DISTANCE as int,
        })
    }

    /// Distance from spawn to the conflict region handed to the ledger.
    pub open spec fn spec_admission_distance(route: Route) -> int {
        if route == Route::Right {
            ENTRY_DISTANCE_PX_RIGHT as int
        } else {
            ENTRY_DISTANCE_PX as int
        }
    }

    /// What one accepted admission does: the ledger grants the earliest
    /// feasible entry time `t` for the route's zone path and installs the
    /// reservations; a new vehicle scheduled at `t` joins the tail of its
    /// lane; the identifier counter advances; everything else is unchanged.
    pub open spec fn spec_admitted(
        pre: Intersection,
        post: Intersection,
        direction: Direction,
        route: Route,
        now: u64,
    ) -> bool {
        exists|t: u64| spec_admitted_witness(pre, post, direction, route, now, t)
    }

    /// One spawn attempt on a given approach: either some route of that
    /// approach accepted and the admission happened, or all three of its
    /// routes refused and the world is unchanged apart from the random
    /// source.  On an approach with any open lane only the first arm is
    /// possible, so an admission is forced.
    pub open spec fn spec_spawn_attempt(
        pre: Intersection,
        post: Intersection,
        direction: Direction,
        now: u64,
    ) -> bool {
        ||| exists|route: Route|
            pre.spec_can_spawn(direction, route) && #[trigger] Intersection::spec_admitted(
                pre,
                post,
                direction,
                route,
                now,
            )
        ||| ((forall|route: Route| !pre.spec_can_spawn(direction, route))
            && Intersection::spec_unchanged_but_rng(pre, post))
    }

    /// The world is unchanged, apart from the random source.
    pub open spec fn spec_unchanged_but_rng(pre: Intersection, post: Intersection) -> bool {
        &&& post.cars_in == pre.cars_in
        &&& post.cars_out == pre.cars_out
        &&& post.id_generator == pre.id_generator
        &&& post.crossing_manager == pre.crossing_manager
        &&& post.collision_count == pre.collision_count
        &&& post.near_miss == pre.near_miss
        &&& post.last_update == pre.last_update
    }

    /// A fresh world: empty lanes, empty ledger, counters at zero, the
    /// random source seeded with `seed` and the clock at `now`.
    pub fn new(seed: u64, now: u64) -> (r: Intersection)
        requires
            now <= MAX_SIM_CLOCK_UNITS,
        ensures
            r.wf(),
            r.cars_in@.len() == 12,
            forall|l: int| 0 <= l < 12 ==> (#[trigger] r.cars_in@[l])@.len() == 0,
            r.cars_out@.len() == 0,
            r.id_generator.current == 0,
            forall|j: int| 0 <= j < 16 ==> (#[trigger] r.crossing_manager.grid@[j])@.len() == 0,
            r.collision_count == 0,
            r.near_miss == 0,
            r.last_update == now,
    {
        let mut cars_in: Vec<Vec<Car>> = Vec::new();
        let mut l: usize = 0;
        while l < 12
            invariant
                cars_in@.len() == l,
                l <= 12,
                forall|a: int| 0 <= a < l ==> (#[trigger] cars_in@[a])@.len() == 0,
            decreases 12 - l,
        {
            cars_in.push(Vec::new());
            l = l + 1;
        }
        let r = Intersection {
            cars_in,
            cars_out: Vec::new(),
            id_generator: CarIdGenerator::new(),
            crossing_manager: CrossingManager::new(),
            collision_count: 0,
            near_miss: 0,
            last_update: now,
            rng: rng_from_seed(seed),
        };
        proof {
            assert(r.lane_seqs().len() == 12);
            assert(sum_lane_lens(r.lane_seqs()) == 0) by {
                lemma_sum_lane_lens_zero(r.lane_seqs());
            }
        }
        r
    }

    /// Attempts to admit one vehicle on the given lane: checks the lane's
    /// capacity and tail spacing, and on acceptance mints an identifier,
    /// reserves the zone path and appends the vehicle to the lane tail.
    /// Returns whether the vehicle was admitted.
    pub fn try_add_car(&mut self, direction: Direction, route: Route, now: u64) -> (admitted:
        bool)
        requires
            old(self).wf(),
            now <= MAX_SIM_CLOCK_UNITS,
            old(self).id_generator.current < 9999,
        ensures
            final(self).wf(),
            admitted == old(self).spec_can_spawn(direction, route),
            admitted ==> Intersection::spec_admitted(
                *old(self),
                *final(self),
                direction,
                route,
                now,
            ),
            !admitted ==> *final(self) == *old(self),
            final(self).rng == old(self).rng,
    {
        let (x, y, speed) = get_spawn_position(direction, route);
        let l = lane_index(direction, route);
        let can = car_spawn_check(&self.cars_in[l], direction, x, y, CAR_HEIGHT_PX as i32);
        if !can {
            return false;
        }
        let ghost pre = *self;
        let car_id = self.id_generator.get_next(direction, route);
        let distance_to_entry: u32 = if route == Route::Right {
            ENTRY_DISTANCE_PX_RIGHT as u32
        } else {
            ENTRY_DISTANCE_PX as u32
        };
        proof {
            let k = pre.id_generator.current as int;
            let bk = Intersection::spec_ledger_bound(k);
            assert(pre.crossing_manager.bounded(bk));
            assert(ADMISSION_SLACK_UNITS * k <= ADMISSION_SLACK_UNITS * 9999)
                by (nonlinear_arith)
                requires
                    0 <= k <= 9999,
            ;
            assert(bk <= MAX_CLOCK_UNITS);
            assert forall|j: int, k2: int|
                0 <= j < self.crossing_manager.grid@.len() && 0 <= k2
                    < self.crossing_manager.grid@[j]@.len()
                    implies (#[trigger] self.crossing_manager.grid@[j]@[k2]).time_out
                    <= MAX_CLOCK_UNITS by {
                assert(self.crossing_manager.grid@[j]@[k2].time_out <= bk);
            }
        }
        let entry_time = self.crossing_manager.reserve_path(
            car_id.as_str(),
            direction,
            route,
            distance_to_entry,
            now,
        );
        proof {
            // the granted time is at most the pre-admission ledger horizon
            let k = pre.id_generator.current as int;
            let bk = Intersection::spec_ledger_bound(k);
            assert(pre.crossing_manager.bounded(bk));
            assert(ADMISSION_SLACK_UNITS * k >= 0) by (nonlinear_arith)
                requires
                    k >= 0,
            ;
            assert(distance_to_entry * PX_TO_TIME_UNITS <= MAX_TRAVEL_UNITS)
                by (nonlinear_arith)
                requires
                    distance_to_entry <= 350,
                    PX_TO_TIME_UNITS == 10,
                    MAX_TRAVEL_UNITS == 3500,
            ;
            assert(now + distance_to_entry * PX_TO_TIME_UNITS <= bk);
            assert(entry_time <= bk);
            assert(entry_time <= 0x2000_0000_0000_0000u64);
        }
        let car = Car::new(
            car_id,
            x,
            y,
            CAR_WIDTH_PX,
            CAR_HEIGHT_PX,
            speed,
            route,
            entry_time,
            direction,
            now,
        );
        let ghost mid = *self;
        vec_index_mut(&mut self.cars_in, l).push(car);
        proof {
            let k = pre.id_generator.current as int;
            assert(self.lane_seqs() =~= pre.lane_seqs().update(
                l as int,
                pre.lane_seqs()[l as int].push(car),
            ));
            lemma_sum_lane_lens_update(
                pre.lane_seqs(),
                l as int,
                pre.lane_seqs()[l as int].push(car),
            );
            // the ledger stays within the horizon of one more admission
            let bk = Intersection::spec_ledger_bound(k);
            let bk1 = Intersection::spec_ledger_bound(k + 1);
            assert(mid.crossing_manager.bounded(bk1)) by {
                assert(ADMISSION_SLACK_UNITS * (k + 1) == ADMISSION_SLACK_UNITS * k
                    + ADMISSION_SLACK_UNITS) by (nonlinear_arith);
                assert(bk1 == bk + ADMISSION_SLACK_UNITS);
                assert(pre.crossing_manager.bounded(bk));
                assert forall|j: int, k2: int|
                    0 <= j < pre.crossing_manager.grid@.len() && 0 <= k2
                        < pre.crossing_manager.grid@[j]@.len()
                        implies (#[trigger] pre.crossing_manager.grid@[j]@[k2]).time_out
                        <= bk1 by {
                    assert(pre.crossing_manager.grid@[j]@[k2].time_out <= bk);
                }
                assert(pre.crossing_manager.bounded(bk1));
                assert(entry_time + 4 * ZONE_TIME_UNITS + RESERVATION_HOLD_UNITS <= bk1);
            }
            assert(spec_admitted_witness(pre, *self, direction, route, now, entry_time)) by {
                assert(distance_to_entry == Intersection::spec_admission_distance(route));
                assert(pre.crossing_manager.spec_installed(
                    self.crossing_manager,
                    direction,
                    route,
                    entry_time,
                    spec_car_id(direction, route, pre.id_generator.current + 1),
                ));
                assert(self.lane_seqs()[l as int] == pre.lane_seqs()[l as int].push(car));
                assert(self.lane_seqs()[l as int].last() == car);
                assert(Intersection::spec_new_car_ok(
                    car,
                    direction,
                    route,
                    entry_time,
                    now,
                    pre.id_generator.current + 1,
                ));
                assert forall|l2: int| 0 <= l2 < 12 && l2 != l
                    implies #[trigger] self.lane_seqs()[l2] == pre.lane_seqs()[l2] by {}
            }
            assert(Intersection::spec_admitted(pre, *self, direction, route, now));
        }
        true
    }

    /// Admits one vehicle arriving from `direction`: tries the three routes
    /// in a uniformly random order and takes the first whose lane accepts;
    /// when every lane refuses, the request is dropped.
    #[verifier::loop_isolation(false)]
    pub fn add_car_in(&mut self, direction: Direction, now: u64)
        requires
            old(self).wf(),
            now <= MAX_SIM_CLOCK_UNITS,
            old(self).id_generator.current < 9999,
        ensures
            final(self).wf(),
            (exists|route: Route| old(self).spec_can_spawn(direction, route))
                ==> exists|route: Route|
                    old(self).spec_can_spawn(direction, route) && Intersection::spec_admitted(
                        *old(self),
                        *final(self),
                        direction,
                        route,
                        now,
                    ),
            (forall|route: Route| !old(self).spec_can_spawn(direction, route))
                ==> Intersection::spec_unchanged_but_rng(*old(self), *final(self)),
    {
        let ghost pre = *self;
        let routes = get_rnd_routes(&mut self.rng);
        let mut idx: usize = 0;
        while idx < 3
            invariant
                self.wf(),
                now <= MAX_SIM_CLOCK_UNITS,
                self.id_generator.current < 9999,
                idx <= 3,
                routes@.len() == 3,
                routes@.contains(Route::Left),
                routes@.contains(Route::Right),
                routes@.contains(Route::Straight),
                forall|a: int| 0 <= a < idx ==> !pre.spec_can_spawn(direction, #[trigger] routes@[a]),
                Intersection::spec_unchanged_but_rng(pre, *self),
            decreases 3 - idx,
        {
            let route = routes[idx];
            let ghost before = *self;
            let admitted = self.try_add_car(direction, route, now);
            if admitted {
                proof {
                    assert(pre == *old(self));
                    assert(before.lane_seqs() =~= pre.lane_seqs());
                    assert(pre.spec_can_spawn(direction, route));
                    let t = choose|t: u64|
                        spec_admitted_witness(before, *self, direction, route, now, t);
                    assert(spec_admitted_witness(pre, *self, direction, route, now, t)) by {
                        assert(before.crossing_manager == pre.crossing_manager);
                        assert(before.id_generator == pre.id_generator);
                        assert(before.cars_out == pre.cars_out);
                    }
                    assert(Intersection::spec_admitted(pre, *self, direction, route, now));
                    assert(old(self).spec_can_spawn(direction, route));
                    assert(Intersection::spec_admitted(
                        *old(self),
                        *self,
                        direction,
                        route,
                        now,
                    ));
                }
                return ;
            }
            idx = idx + 1;
        }
        proof {
            assert forall|route: Route| !pre.spec_can_spawn(direction, route) by {
                assert(routes@.contains(route)) by {
                    match route {
                        Route::Left => {},
                        Route::Right => {},
                        Route::Straight => {},
                    }
                }
                let a = choose|a: int| 0 <= a < routes@.len() && routes@[a] == route;
                assert(!pre.spec_can_spawn(direction, routes@[a]));
            }
        }
    }

    /// Admits one vehicle from a uniformly random direction: the drawn
    /// approach's spawn attempt runs in full, so whenever that approach has
    /// any open lane, a vehicle is admitted.
    pub fn add_car_in_rnd(&mut self, now: u64)
        requires
            old(self).wf(),
            now <= MAX_SIM_CLOCK_UNITS,
            old(self).id_generator.current < 9999,
        ensures
            final(self).wf(),
            exists|direction: Direction|
                #[trigger] Intersection::spec_spawn_attempt(
                    *old(self),
                    *final(self),
                    direction,
                    now,
                ),
    {
        let direction = get_rnd_direction(&mut self.rng);
        let ghost mid = *self;
        self.add_car_in(direction, now);
        proof {
            if exists|route: Route| mid.spec_can_spawn(direction, route) {
                let route = choose|route: Route|
                    mid.spec_can_spawn(direction, route) && Intersection::spec_admitted(
                        mid,
                        *self,
                        direction,
                        route,
                        now,
                    );
                assert(old(self).spec_can_spawn(direction, route)) by {
                    assert(mid.lane_seqs() =~= old(self).lane_seqs());
                }
                assert(Intersection::spec_admitted(*old(self), *self, direction, route, now))
                    by {
                    let t = choose|t: u64|
                        spec_admitted_witness(mid, *self, direction, route, now, t);
                    assert(spec_admitted_witness(*old(self), *self, direction, route, now, t))
                        by {
                        assert(mid.lane_seqs() =~= old(self).lane_seqs());
                    }
                }
            } else {
                assert forall|route: Route|
                    !old(self).spec_can_spawn(direction, route) by {
                    assert(!mid.spec_can_spawn(direction, route));
                    assert(mid.lane_seqs() =~= old(self).lane_seqs());
                }
                assert(Intersection::spec_unchanged_but_rng(*old(self), *self)) by {
                    assert(Intersection::spec_unchanged_but_rng(mid, *self));
                }
            }
            assert(Intersection::spec_spawn_attempt(*old(self), *self, direction, now));
        }
    }
}

/// Whether the bounding boxes of two vehicles overlap.
pub open spec fn cars_hit(a: Car, b: Car) -> bool {
    a.spec_bounding_box().spec_overlaps(b.spec_bounding_box())
}

/// The vehicle with its collision flag set.
pub open spec fn mark_collided(c: Car) -> Car {
    Car { collided: true, ..c }
}

/// The collision sweep from pair `(i, j)` on: pairs are visited in
/// lexicographic order; a pair of intersecting boxes with at least one
/// fresh participant marks both vehicles and counts one collision.
pub open spec fn collide_from(cars: Seq<Car>, i: int, j: int) -> (Seq<Car>, int)
    decreases cars.len() - i + 1, cars.len() + 2 - j,
{
    if i < 0 || j <= i || i >= cars.len() || j > cars.len() {
        (cars, 0int)
    } else if j == cars.len() {
        collide_from(cars, i + 1, i + 2)
    } else if (!cars[i].collided || !cars[j].collided) && cars_hit(cars[i], cars[j]) {
        let marked = cars.update(i, mark_collided(cars[i])).update(j, mark_collided(cars[j]));
        let rest = collide_from(marked, i, j + 1);
        (rest.0, rest.1 + 1)
    } else {
        collide_from(cars, i, j + 1)
    }
}

/// The whole collision sweep over a tick's vehicles.
pub open spec fn collide_phase(cars: Seq<Car>) -> (Seq<Car>, int) {
    collide_from(cars, 0, 1)
}

/// The sweep only sets collision flags: every vehicle comes out either
/// unchanged or marked, and the count is non-negative.
pub proof fn lemma_collide_from_shape(cars: Seq<Car>, i: int, j: int)
    ensures
        collide_from(cars, i, j).0.len() == cars.len(),
        forall|k: int|
            0 <= k < cars.len()
                ==> (#[trigger] collide_from(cars, i, j).0[k]) == cars[k]
                    || collide_from(cars, i, j).0[k] == mark_collided(cars[k]),
        collide_from(cars, i, j).1 >= 0,
    decreases cars.len() - i + 1, cars.len() + 2 - j,
{
    if i < 0 || j <= i || i >= cars.len() || j > cars.len() {
    } else if j == cars.len() {
        lemma_collide_from_shape(cars, i + 1, i + 2);
    } else if (!cars[i].collided || !cars[j].collided) && cars_hit(cars[i], cars[j]) {
        let marked = cars.update(i, mark_collided(cars[i])).update(j, mark_collided(cars[j]));
        lemma_collide_from_shape(marked, i, j + 1);
        assert forall|k: int|
            0 <= k < cars.len()
                implies (#[trigger] collide_from(cars, i, j).0[k]) == cars[k]
                || collide_from(cars, i, j).0[k] == mark_collided(cars[k]) by {
            assert(marked[k] == cars[k] || marked[k] == mark_collided(cars[k]));
            if cars[k].collided {
                assert(mark_collided(cars[k]) == cars[k]);
            }
            assert(mark_collided(mark_collided(cars[k])) == mark_collided(cars[k]));
        }
    } else {
        lemma_collide_from_shape(cars, i, j + 1);
    }
}

/// Whether the vehicle at position `k` of its lane must brake this tick:
/// it is not the head, it has not collided, and it is strictly within
/// `BRAKE_DISTANCE_PX` of its predecessor's pre-tick pose.
pub open spec fn spec_should_brake(lane: Seq<Car>, k: int) -> bool {
    k > 0 && !lane[k].collided && lane[k].spec_too_close(lane[k - 1])
}

/// The vehicle at position `k` with this tick's brake decision applied.
pub open spec fn spec_with_brake(lane: Seq<Car>, k: int) -> Car {
    Car { brake: spec_should_brake(lane, k), ..lane[k] }
}

/// One lane after a tick: each vehicle takes its brake decision from the
/// pre-tick poses, then advances by the controller's transition.
pub open spec fn spec_advanced_lane(lane: Seq<Car>, now: u64, delta: u64) -> Seq<Car> {
    Seq::new(lane.len(), |k: int| spec_with_brake(lane, k).spec_update(now, delta))
}

/// Number of rising edges of the brake flag in one lane this tick: each is
/// one near miss.
pub open spec fn rising_count(lane: Seq<Car>, k: int) -> int
    decreases lane.len() - k,
{
    if k < 0 || k >= lane.len() {
        0
    } else {
        (if !lane[k].brake && spec_should_brake(lane, k) {
            1int
        } else {
            0int
        }) + rising_count(lane, k + 1)
    }
}

/// The vehicles of a processed lane that are still on the road.
pub open spec fn stayed(lane: Seq<Car>) -> Seq<Car> {
    lane.filter(|c: Car| !c.exited)
}

/// The vehicles of a processed lane that exited this tick.
pub open spec fn departed(lane: Seq<Car>) -> Seq<Car> {
    lane.filter(|c: Car| c.exited)
}

/// Start of lane `l`'s segment in the flattened vehicle list.
pub open spec fn lane_offset(ls: Seq<Seq<Car>>, l: int) -> int
    decreases l,
{
    if l <= 0 {
        0
    } else {
        lane_offset(ls, l - 1) + ls[l - 1].len()
    }
}

/// The concatenation of the first `l` lanes.
pub open spec fn concat_upto(ls: Seq<Seq<Car>>, l: int) -> Seq<Car>
    decreases l,
{
    if l <= 0 {
        Seq::empty()
    } else {
        concat_upto(ls, l - 1) + ls[l - 1]
    }
}

/// Lane `l`'s segment of the marked flattened list.
pub open spec fn seg_of(ls: Seq<Seq<Car>>, marked: Seq<Car>, l: int) -> Seq<Car> {
    marked.subrange(lane_offset(ls, l), lane_offset(ls, l) + ls[l].len())
}

/// The vehicles that exit during one tick, drawn from the first `l` lanes
/// in lane order.
pub open spec fn departed_upto(
    ls: Seq<Seq<Car>>,
    marked: Seq<Car>,
    now: u64,
    delta: u64,
    l: int,
) -> Seq<Car>
    decreases l,
{
    if l <= 0 {
        Seq::empty()
    } else {
        departed_upto(ls, marked, now, delta, l - 1) + departed(
            spec_advanced_lane(seg_of(ls, marked, l - 1), now, delta),
        )
    }
}

/// Near misses of one tick, summed over the first `l` lanes.
pub open spec fn rising_upto(ls: Seq<Seq<Car>>, marked: Seq<Car>, l: int) -> int
    decreases l,
{
    if l <= 0 {
        0
    } else {
        rising_upto(ls, marked, l - 1) + rising_count(seg_of(ls, marked, l - 1), 0)
    }
}

/// Concatenating `l` lanes yields exactly the first `l` segments.
pub proof fn lemma_concat_upto_len(ls: Seq<Seq<Car>>, l: int)
    ensures
        concat_upto(ls, l).len() == lane_offset(ls, l),
        lane_offset(ls, l) >= 0,
    decreases l,
{
    if l > 0 {
        lemma_concat_upto_len(ls, l - 1);
    }
}

/// Lane offsets grow with the lane index.
pub proof fn lemma_lane_offset_mono(ls: Seq<Seq<Car>>, a: int, b: int)
    requires
        0 <= a <= b,
    ensures
        lane_offset(ls, a) <= lane_offset(ls, b),
    decreases b - a,
{
    if a < b {
        lemma_lane_offset_mono(ls, a, b - 1);
    }
}

/// The offset past the last lane is the total number of lane vehicles.
pub proof fn lemma_offset_eq_sum(ls: Seq<Seq<Car>>)
    ensures
        lane_offset(ls, ls.len() as int) == sum_lane_lens(ls),
    decreases ls.len(),
{
    if ls.len() > 0 {
        let d = ls.drop_last();
        lemma_offset_eq_sum(d);
        lemma_lane_offset_prefix(ls, ls.len() - 1);
    }
}

/// Offsets below `l` ignore the last lane.
pub proof fn lemma_lane_offset_prefix(ls: Seq<Seq<Car>>, l: int)
    requires
        ls.len() > 0,
        l <= ls.len() - 1,
    ensures
        lane_offset(ls.drop_last(), l) == lane_offset(ls, l),
    decreases l,
{
    if l > 0 {
        lemma_lane_offset_prefix(ls, l - 1);
    }
}

/// Every kept element of a filtered lane is one of its elements, and a
/// filter never grows a lane.
pub proof fn lemma_car_filter_member(s: Seq<Car>, pred: spec_fn(Car) -> bool)
    ensures
        forall|i: int|
            0 <= i < s.filter(pred).len()
                ==> exists|k: int| 0 <= k < s.len() && s[k] == #[trigger] s.filter(pred)[i],
        s.filter(pred).len() <= s.len(),
    decreases s.len(),
{
    reveal(Seq::filter);
    if s.len() > 0 {
        let d = s.drop_last();
        lemma_car_filter_member(d, pred);
        let fd = d.filter(pred);
        let fs = s.filter(pred);
        assert forall|i: int|
            0 <= i < fs.len()
                implies exists|k: int| 0 <= k < s.len() && s[k] == #[trigger] fs[i] by {
            if pred(s.last()) && i == fs.len() - 1 {
                assert(fs[i] == s[s.len() - 1]);
            } else {
                assert(fs[i] == fd[i]);
                let k = choose|k: int| 0 <= k < d.len() && d[k] == fd[i];
                assert(s[k] == fs[i]);
            }
        }
    }
}

/// A processed lane splits exactly into its staying and its departed
/// vehicles.
pub proof fn lemma_stay_depart_partition(s: Seq<Car>)
    ensures
        stayed(s).len() + departed(s).len() == s.len(),
    decreases s.len(),
{
    reveal(Seq::filter);
    if s.len() > 0 {
        lemma_stay_depart_partition(s.drop_last());
    }
}

/// Runs the collision sweep over the flattened vehicle list: marks every
/// member of an intersecting pair and returns the number of fresh
/// collisions, exactly as `collide_phase` describes.
fn collide_cars(flat: &mut Vec<Car>) -> (added: usize)
    requires
        forall|k: int| 0 <= k < old(flat)@.len() ==> (#[trigger] old(flat)@[k]).wf(),
        old(flat)@.len() <= 100,
    ensures
        final(flat)@ == collide_phase(old(flat)@).0,
        added == collide_phase(old(flat)@).1,
        added <= 10_100,
        final(flat)@.len() == old(flat)@.len(),
        forall|k: int|
            0 <= k < old(flat)@.len()
                ==> (#[trigger] final(flat)@[k]) == old(flat)@[k]
                    || final(flat)@[k] == mark_collided(old(flat)@[k]),
{
    let ghost flat0 = flat@;
    let n = flat.len();
    let mut added: usize = 0;
    let mut i: usize = 0;
    while i < n
        invariant
            flat@.len() == n,
            n == flat0.len(),
            n <= 100,
            forall|k: int| 0 <= k < n ==> (#[trigger] flat@[k]).wf(),
            forall|k: int|
                0 <= k < n
                    ==> (#[trigger] flat@[k]) == flat0[k] || flat@[k] == mark_collided(flat0[k]),
            i <= n,
            added <= 100 * i + 1,
            collide_from(flat@, i as int, i + 1).0 == collide_phase(flat0).0,
            added + collide_from(flat@, i as int, i + 1).1 == collide_phase(flat0).1,
        decreases n - i,
    {
        let mut j: usize = i + 1;
        while j < n
            invariant
                flat@.len() == n,
                n == flat0.len(),
                n <= 100,
                forall|k: int| 0 <= k < n ==> (#[trigger] flat@[k]).wf(),
                forall|k: int|
                    0 <= k < n
                        ==> (#[trigger] flat@[k]) == flat0[k] || flat@[k] == mark_collided(
                            flat0[k],
                        ),
                i < n,
                i < j <= n,
                added <= 100 * i + j,
                collide_from(flat@, i as int, j as int).0 == collide_phase(flat0).0,
                added + collide_from(flat@, i as int, j as int).1 == collide_phase(flat0).1,
            decreases n - j,
        {
            let hit = {
                let a = &flat[i];
                let b = &flat[j];
                (!a.collided || !b.collided) && a.intersects(b)
            };
            if hit {
                let ghost pre = flat@;
                vec_index_mut(flat, i).collided = true;
                vec_index_mut(flat, j).collided = true;
                added = added + 1;
                proof {
                    assert(flat@ =~= pre.update(i as int, mark_collided(pre[i as int])).update(
                        j as int,
                        mark_collided(pre[j as int]),
                    ));
                    lemma_collide_from_shape(flat@, i as int, j + 1);
                }
            }
            j = j + 1;
        }
        i = i + 1;
    }
    proof {
        assert(collide_from(flat@, n as int, n + 1).1 == 0);
        assert(collide_from(flat@, n as int, n + 1).0 == flat@);
    }
    added
}

/// Advances one lane by one tick: brake decisions are taken from the
/// pre-tick poses of the whole lane, then every vehicle runs the
/// controller's transition; returns the number of near misses (rising
/// brake edges).
fn advance_lane(lane: &mut Vec<Car>, now: u64, delta: u64) -> (nm: usize)
    requires
        forall|k: int| 0 <= k < old(lane)@.len() ==> (#[trigger] old(lane)@[k]).wf(),
        old(lane)@.len() <= 4,
        now <= MAX_SIM_CLOCK_UNITS,
        delta <= MAX_DELTA_UNITS,
    ensures
        final(lane)@ == spec_advanced_lane(old(lane)@, now, delta),
        nm == rising_count(old(lane)@, 0),
        nm <= 4,
        forall|k: int|
            0 <= k < final(lane)@.len()
                ==> (!(#[trigger] final(lane)@[k]).exited ==> final(lane)@[k].wf()),
        forall|k: int|
            0 <= k < final(lane)@.len()
                ==> (car_times_ok(old(lane)@[k]) ==> car_times_ok(#[trigger] final(lane)@[k])),
{
    let ghost lane0 = lane@;
    let n = lane.len();
    let mut brakes: Vec<bool> = Vec::new();
    let mut k: usize = 0;
    while k < n
        invariant
            lane@ == lane0,
            n == lane0.len(),
            n <= 4,
            forall|a: int| 0 <= a < n ==> (#[trigger] lane0[a]).wf(),
            k <= n,
            brakes@.len() == k,
            forall|a: int| 0 <= a < k ==> brakes@[a] == spec_should_brake(lane0, a),
        decreases n - k,
    {
        let b = if k > 0 {
            !lane[k].collided && lane[k].is_too_close(&lane[k - 1])
        } else {
            false
        };
        brakes.push(b);
        k = k + 1;
    }
    let mut nm: usize = 0;
    let mut k: usize = 0;
    while k < n
        invariant
            lane@.len() == n,
            n == lane0.len(),
            n <= 4,
            now <= MAX_SIM_CLOCK_UNITS,
            delta <= MAX_DELTA_UNITS,
            forall|a: int| 0 <= a < n ==> (#[trigger] lane0[a]).wf(),
            brakes@.len() == n,
            forall|a: int| 0 <= a < n ==> brakes@[a] == spec_should_brake(lane0, a),
            k <= n,
            nm <= k,
            forall|a: int| k <= a < n ==> (#[trigger] lane@[a]) == lane0[a],
            forall|a: int|
                0 <= a < k
                    ==> (#[trigger] lane@[a]) == spec_advanced_lane(lane0, now, delta)[a],
            forall|a: int|
                0 <= a < k
                    ==> (!(#[trigger] lane@[a]).exited ==> lane@[a].wf()),
            forall|a: int|
                0 <= a < k
                    ==> (car_times_ok(lane0[a]) ==> car_times_ok(#[trigger] lane@[a])),
            nm + rising_count(lane0, k as int) == rising_count(lane0, 0),
        decreases n - k,
    {
        let b = brakes[k];
        let was_braking = lane[k].brake;
        if !was_braking && b {
            nm = nm + 1;
        }
        let car = vec_index_mut(lane, k);
        car.brake = b;
        car.update(now, delta);
        k = k + 1;
    }
    nm
}

/// Zero lanes hold zero vehicles.
pub proof fn lemma_sum_lane_lens_zero(ls: Seq<Seq<Car>>)
    requires
        forall|l: int| 0 <= l < ls.len() ==> (#[trigger] ls[l]).len() == 0,
    ensures
        sum_lane_lens(ls) == 0,
    decreases ls.len(),
{
    if ls.len() > 0 {
        lemma_sum_lane_lens_zero(ls.drop_last());
    }
}

impl Intersection {
    /// One world tick at clock `now`.  In order: collision detection over
    /// the pre-tick poses of all vehicles, expiry of past reservations,
    /// per-lane brake decisions against pre-tick predecessor poses, advance
    /// of every vehicle by the controller's transition, and migration of
    /// exited vehicles to the completed list.
    ///
    /// The tick duration is the elapsed clock, clamped below to
    /// `MIN_DELTA_UNITS`.
    #[verifier::loop_isolation(false)]
    #[verifier::rlimit(100)]
    pub fn update(&mut self, now: u64)
        requires
            old(self).wf(),
            now <= MAX_SIM_CLOCK_UNITS,
            old(self).last_update <= now,
            now - old(self).last_update <= MAX_DELTA_UNITS,
            old(self).collision_count <= 0xFFF_FFFFusize,
            old(self).near_miss <= 0xFFF_FFFFusize,
        ensures
            final(self).wf(),
            final(self).last_update == now,
            final(self).id_generator == old(self).id_generator,
            final(self).rng == old(self).rng,
            final(self).crossing_manager.grid@.len() == 16,
            forall|j: int|
                0 <= j < 16
                    ==> (#[trigger] final(self).crossing_manager.grid@[j])@ == old(
                        self,
                    ).crossing_manager.grid@[j]@.filter(
                        |r: crate::crossing_manager::ZoneReservation| r.time_out > now,
                    ),
            ({
                let delta = if now - old(self).last_update < MIN_DELTA_UNITS {
                    MIN_DELTA_UNITS
                } else {
                    (now - old(self).last_update) as u64
                };
                let ls = old(self).lane_seqs();
                let marked = collide_phase(concat_upto(ls, 12)).0;
                &&& final(self).collision_count == old(self).collision_count + collide_phase(
                    concat_upto(ls, 12),
                ).1
                &&& forall|l: int|
                    0 <= l < 12
                        ==> #[trigger] final(self).lane_seqs()[l] == stayed(
                            spec_advanced_lane(seg_of(ls, marked, l), now, delta),
                        )
                &&& final(self).cars_out@ == old(self).cars_out@ + departed_upto(
                    ls,
                    marked,
                    now,
                    delta,
                    12,
                )
                &&& final(self).near_miss == old(self).near_miss + rising_upto(ls, marked, 12)
            }),
    {
        let elapsed = now - self.last_update;
        let delta: u64 = if elapsed < MIN_DELTA_UNITS {
            MIN_DELTA_UNITS
        } else {
            elapsed
        };
        self.last_update = now;
        let ghost ls = old(self).lane_seqs();

        // flatten the lanes into one vehicle list, in lane order
        let mut flat: Vec<Car> = Vec::new();
        let mut counts: Vec<usize> = Vec::new();
        let mut l: usize = 0;
        while l < 12
            invariant
                self.cars_in@.len() == 12,
                l <= 12,
                counts@.len() == l,
                forall|a: int| 0 <= a < l ==> counts@[a] == (#[trigger] ls[a]).len(),
                flat@ == concat_upto(ls, l as int),
                flat@.len() == lane_offset(ls, l as int),
                flat@.len() <= 4 * l,
                forall|a: int| l <= a < 12 ==> (#[trigger] self.cars_in@[a])@ == ls[a],
                forall|a: int| 0 <= a < l ==> (#[trigger] self.cars_in@[a])@.len() == 0,
                self.cars_out == old(self).cars_out,
                self.id_generator == old(self).id_generator,
                self.crossing_manager == old(self).crossing_manager,
                self.collision_count == old(self).collision_count,
                self.near_miss == old(self).near_miss,
                self.rng == old(self).rng,
                self.last_update == now,
            decreases 12 - l,
        {
            let cnt = self.cars_in[l].len();
            counts.push(cnt);
            let mut tmp: Vec<Car> = Vec::new();
            core::mem::swap(vec_index_mut(&mut self.cars_in, l), &mut tmp);
            flat.append(&mut tmp);
            proof {
                assert(flat@ =~= concat_upto(ls, l + 1));
            }
            l = l + 1;
        }
        proof {
            assert forall|k: int| 0 <= k < flat@.len() implies (#[trigger] flat@[k]).wf()
                && car_times_ok(flat@[k]) by {
                lemma_concat_member(ls, 12, k);
            }
        }

        // collision detection over pre-tick poses
        let added = collide_cars(&mut flat);
        self.collision_count = self.collision_count + added;
        let ghost flat0 = concat_upto(ls, 12);
        let ghost marked = collide_phase(flat0).0;

        // expire past reservations
        self.crossing_manager.update(now);

        // per lane: brake decisions, advance, and migration of exited
        // vehicles
        let ghost out0 = old(self).cars_out@;
        proof {
            assert(marked.len() == lane_offset(ls, 12)) by {
                lemma_concat_upto_len(ls, 12);
            }
            assert(flat@ =~= marked.subrange(lane_offset(ls, 0), marked.len() as int));
            assert(out0 + departed_upto(ls, marked, now, delta, 0) =~= out0);
            lemma_offset_eq_sum(ls);
            assert forall|a: int| 0 <= a < 12
                implies (#[trigger] self.lane_seqs()[a]).len() == 0 by {}
            lemma_sum_lane_lens_zero(self.lane_seqs());
        }
        let mut l: usize = 0;
        while l < 12
            invariant
                self.cars_in@.len() == 12,
                l <= 12,
                counts@.len() == 12,
                forall|a: int| 0 <= a < 12 ==> counts@[a] == (#[trigger] ls[a]).len(),
                marked.len() == lane_offset(ls, 12),
                flat@ == marked.subrange(lane_offset(ls, l as int), marked.len() as int),
                forall|k: int|
                    0 <= k < flat@.len() ==> (#[trigger] flat@[k]).wf() && car_times_ok(
                        flat@[k],
                    ),
                forall|a: int|
                    0 <= a < l
                        ==> (#[trigger] self.cars_in@[a])@ == stayed(
                            spec_advanced_lane(seg_of(ls, marked, a), now, delta),
                        ),
                forall|a: int| l <= a < 12 ==> (#[trigger] self.cars_in@[a])@.len() == 0,
                forall|a: int, k: int|
                    0 <= a < 12 && 0 <= k < self.cars_in@[a]@.len()
                        ==> (#[trigger] self.cars_in@[a]@[k]).wf() && car_times_ok(
                            self.cars_in@[a]@[k],
                        ),
                forall|a: int| 0 <= a < 12 ==> (#[trigger] self.cars_in@[a])@.len() <= 4,
                self.cars_out@ == out0 + departed_upto(ls, marked, now, delta, l as int),
                forall|k: int|
                    0 <= k < self.cars_out@.len()
                        ==> car_times_ok(#[trigger] self.cars_out@[k]),
                sum_lane_lens(self.lane_seqs()) + self.cars_out@.len() + flat@.len() == old(
                    self,
                ).id_generator.current,
                self.near_miss == old(self).near_miss + rising_upto(ls, marked, l as int),
                self.near_miss <= 0xFFF_FFFFusize + 48 * l,
                self.id_generator == old(self).id_generator,
                self.collision_count == old(self).collision_count + collide_phase(flat0).1,
                self.rng == old(self).rng,
                self.last_update == now,
                self.crossing_manager.wf(),
                self.crossing_manager.grid@.len() == 16,
                forall|j: int|
                    0 <= j < 16
                        ==> (#[trigger] self.crossing_manager.grid@[j])@ == old(
                            self,
                        ).crossing_manager.grid@[j]@.filter(
                            |r: crate::crossing_manager::ZoneReservation| r.time_out > now,
                        ),
                self.crossing_manager.bounded(
                    Intersection::spec_ledger_bound(self.id_generator.current as int),
                ),
            decreases 12 - l,
        {
            let cnt = counts[l];
            let ghost off = lane_offset(ls, l as int);
            proof {
                lemma_lane_offset_mono(ls, l + 1, 12);
                assert(off + ls[l as int].len() == lane_offset(ls, l + 1));
                assert(off + cnt <= marked.len());
            }

            // take this lane's segment off the front of the flat list
            let mut seg_vec: Vec<Car> = Vec::new();
            proof {
                lemma_concat_upto_len(ls, l as int);
                assert(seg_vec@ =~= marked.subrange(off, off + 0));
            }
            let mut k: usize = 0;
            while k < cnt
                invariant
                    k <= cnt,
                    off + cnt <= marked.len(),
                    off == lane_offset(ls, l as int),
                    cnt == ls[l as int].len(),
                    seg_vec@ == marked.subrange(off, off + k),
                    flat@ == marked.subrange(off + k, marked.len() as int),
                    forall|a: int|
                        0 <= a < flat@.len() ==> (#[trigger] flat@[a]).wf() && car_times_ok(
                            flat@[a],
                        ),
                    forall|a: int|
                        0 <= a < seg_vec@.len()
                            ==> (#[trigger] seg_vec@[a]).wf() && car_times_ok(seg_vec@[a]),
                decreases cnt - k,
            {
                let c = flat.remove(0);
                seg_vec.push(c);
                proof {
                    assert(seg_vec@ =~= marked.subrange(off, off + k + 1));
                    assert(flat@ =~= marked.subrange(off + k + 1, marked.len() as int));
                }
                k = k + 1;
            }
            proof {
                assert(seg_vec@ =~= seg_of(ls, marked, l as int));
            }

            // brake decisions and controller advance
            let nm_added = advance_lane(&mut seg_vec, now, delta);
            self.near_miss = self.near_miss + nm_added;

            // migrate exited vehicles, keep the rest in lane order
            let ghost adv = spec_advanced_lane(seg_of(ls, marked, l as int), now, delta);
            let mut stay_vec: Vec<Car> = Vec::new();
            let mut gone_vec: Vec<Car> = Vec::new();
            let mut k: usize = 0;
            let seg_len = seg_vec.len();
            while k < seg_len
                invariant
                    k <= seg_len,
                    seg_len == adv.len(),
                    seg_vec@ == adv.subrange(k as int, adv.len() as int),
                    stay_vec@ == stayed(adv.subrange(0, k as int)),
                    gone_vec@ == departed(adv.subrange(0, k as int)),
                    forall|a: int|
                        0 <= a < adv.len()
                            ==> (!(#[trigger] adv[a]).exited ==> adv[a].wf()) && car_times_ok(
                                adv[a],
                            ),
                    forall|a: int|
                        0 <= a < stay_vec@.len()
                            ==> (#[trigger] stay_vec@[a]).wf() && car_times_ok(stay_vec@[a]),
                    forall|a: int|
                        0 <= a < gone_vec@.len()
                            ==> car_times_ok(#[trigger] gone_vec@[a]),
                decreases seg_len - k,
            {
                let c = seg_vec.remove(0);
                proof {
                    let sub1 = adv.subrange(0, k + 1);
                    assert(sub1.drop_last() =~= adv.subrange(0, k as int));
                    assert(sub1.last() == adv[k as int]);
                    assert(seg_vec@ =~= adv.subrange(k + 1, adv.len() as int));
                }
                if c.exited {
                    gone_vec.push(c);
                } else {
                    stay_vec.push(c);
                }
                proof {
                    let pred_stay = |c2: Car| !c2.exited;
                    let pred_gone = |c2: Car| c2.exited;
                    assert(stay_vec@ =~= adv.subrange(0, k + 1).filter(pred_stay)) by {
                        reveal(Seq::filter);
                    }
                    assert(gone_vec@ =~= adv.subrange(0, k + 1).filter(pred_gone)) by {
                        reveal(Seq::filter);
                    }
                }
                k = k + 1;
            }
            proof {
                assert(adv.subrange(0, adv.len() as int) =~= adv);
            }
            let ghost pre_lanes = self.cars_in@;
            let ghost out_pre = self.cars_out@;
            self.cars_out.append(&mut gone_vec);
            *vec_index_mut(&mut self.cars_in, l) = stay_vec;
            proof {
                // lane lengths and conservation
                lemma_stay_depart_partition(adv);
                lemma_car_filter_member(adv, |c2: Car| !c2.exited);
                assert(self.lane_seqs() =~= pre_lanes.map_values(|v: Vec<Car>| v@).update(
                    l as int,
                    stay_vec@,
                ));
                lemma_sum_lane_lens_update(
                    pre_lanes.map_values(|v: Vec<Car>| v@),
                    l as int,
                    stay_vec@,
                );
                assert(departed_upto(ls, marked, now, delta, l + 1) == departed_upto(
                    ls,
                    marked,
                    now,
                    delta,
                    l as int,
                ) + departed(adv));
                assert(rising_upto(ls, marked, l + 1) == rising_upto(ls, marked, l as int)
                    + rising_count(seg_of(ls, marked, l as int), 0));
                assert(stay_vec@.len() <= 4);
                assert(self.cars_out@ == out_pre + departed(adv));
                assert forall|a: int|
                    0 <= a < self.cars_out@.len()
                        implies car_times_ok(#[trigger] self.cars_out@[a]) by {
                    if a < out_pre.len() {
                        assert(self.cars_out@[a] == out_pre[a]);
                    } else {
                        assert(self.cars_out@[a] == departed(adv)[a - out_pre.len()]);
                    }
                }
                lemma_lane_offset_mono(ls, l + 1, 12);
                assert(flat@ =~= marked.subrange(lane_offset(ls, l + 1), marked.len() as int));
                assert forall|a: int, k2: int|
                    0 <= a < 12 && 0 <= k2 < self.cars_in@[a]@.len()
                        implies (#[trigger] self.cars_in@[a]@[k2]).wf() && car_times_ok(
                        self.cars_in@[a]@[k2],
                    ) by {
                    if a == l {
                        assert(self.cars_in@[a]@ == stay_vec@);
                        assert(stay_vec@[k2].wf() && car_times_ok(stay_vec@[k2]));
                    } else {
                        assert(self.cars_in@[a] == pre_lanes[a]);
                    }
                }
            }
            l = l + 1;
        }
        proof {
            assert(flat@.len() == 0) by {
                lemma_lane_offset_mono(ls, 12, 12);
            }
            lemma_offset_eq_sum(ls);
            assert(sum_lane_lens(self.lane_seqs()) + self.cars_out@.len() == old(
                self,
            ).id_generator.current);
        }
    }
}

/// Aggregates over the completed vehicles.  Speeds are in centi-px/s and
/// durations in centiseconds, so that two decimal places are exact.
#[derive(Clone, Copy, Debug, PartialEq, Eq, Structural)]
pub struct IntersectionStatistics {
    /// Vehicles that crossed the intersection.
    pub total: usize,
    pub collisions: usize,
    pub near_misses: usize,
    pub max_speed: u64,
    pub min_speed: u64,
    pub avg_speed: u64,
    pub max_duration: u64,
    pub min_duration: u64,
    pub avg_duration: u64,
}

impl Intersection {
    /// The statistics over the completed list: counts, and min/max/average
    /// of effective speed and transit duration, zero where no vehicle
    /// qualifies.
    pub fn get_statistics(&self) -> (r: IntersectionStatistics)
        requires
            self.wf(),
            self.cars_out@.len() <= 100_000,
        ensures
            r.total == self.cars_out@.len(),
            r.collisions == self.collision_count,
            r.near_misses == self.near_miss,
            crate::utils::spd_count(self.cars_out@) == 0 ==> r.min_speed == 0 && r.max_speed == 0
                && r.avg_speed == 0,
            crate::utils::spd_count(self.cars_out@) > 0 ==> {
                &&& r.min_speed == crate::utils::spd_min(self.cars_out@)
                &&& r.max_speed == crate::utils::spd_max(self.cars_out@)
                &&& r.avg_speed == crate::utils::rounded_div(
                    crate::utils::spd_sum(self.cars_out@),
                    crate::utils::spd_count(self.cars_out@),
                )
            },
            crate::utils::dur_count(self.cars_out@) == 0 ==> r.min_duration == 0
                && r.max_duration == 0 && r.avg_duration == 0,
            crate::utils::dur_count(self.cars_out@) > 0 ==> {
                &&& r.min_duration == crate::utils::dur_min(self.cars_out@)
                &&& r.max_duration == crate::utils::dur_max(self.cars_out@)
                &&& r.avg_duration == crate::utils::rounded_div(
                    crate::utils::dur_sum(self.cars_out@),
                    crate::utils::dur_count(self.cars_out@),
                )
            },
    {
        let (min_speed, max_speed, avg_speed) = crate::utils::calculate_speed_statistics(
            &self.cars_out,
        );
        let (min_duration, max_duration, avg_duration) =
            crate::utils::calculate_duration_statistics(&self.cars_out);
        IntersectionStatistics {
            total: self.cars_out.len(),
            collisions: self.collision_count,
            near_misses: self.near_miss,
            max_speed,
            min_speed,
            avg_speed,
            max_duration,
            min_duration,
            avg_duration,
        }
    }

    /// Read-only view of the conflict grid at instant `now`: the
    /// classification of every zone, row-major, exactly as the ledger
    /// reports it when queried directly.
    pub fn snapshot(&self, now: u64) -> (r: Vec<crate::crossing_manager::ZoneState>)
        requires
            self.wf(),
        ensures
            r@.len() == 16,
            forall|row: int, col: int|
                0 <= row < 4 && 0 <= col < 4
                    ==> r@[row * 4 + col] == #[trigger] self.crossing_manager.spec_zone_state(
                        (row as usize, col as usize),
                        now,
                    ),
    {
        let mut r: Vec<crate::crossing_manager::ZoneState> = Vec::new();
        let mut row: usize = 0;
        while row < 4
            invariant
                self.wf(),
                row <= 4,
                r@.len() == 4 * row,
                forall|a: int, b: int|
                    0 <= a < row && 0 <= b < 4
                        ==> r@[a * 4 + b] == #[trigger] self.crossing_manager.spec_zone_state(
                            (a as usize, b as usize),
                            now,
                        ),
            decreases 4 - row,
        {
            let mut col: usize = 0;
            while col < 4
                invariant
                    self.wf(),
                    row < 4,
                    col <= 4,
                    r@.len() == 4 * row + col,
                    forall|a: int, b: int|
                        0 <= a < row && 0 <= b < 4
                            ==> r@[a * 4 + b] == #[trigger] self.crossing_manager.spec_zone_state(
                                (a as usize, b as usize),
                                now,
                            ),
                    forall|b: int|
                        0 <= b < col
                            ==> r@[row * 4 + b] == #[trigger] self.crossing_manager.spec_zone_state(
                                (row as usize, b as usize),
                                now,
                            ),
                decreases 4 - col,
            {
                let s = self.crossing_manager.zone_state(row, col, now);
                r.push(s);
                col = col + 1;
            }
            row = row + 1;
        }
        r
    }
}

/// Every vehicle of the first `L` concatenated lanes is a lane vehicle.
pub proof fn lemma_concat_member(ls: Seq<Seq<Car>>, L: int, k: int)
    requires
        0 <= k < concat_upto(ls, L).len(),
    ensures
        exists|a: int, b: int|
            0 <= a < L && 0 <= b < ls[a].len() && concat_upto(ls, L)[k] == #[trigger] ls[a][b],
    decreases L,
{
    if L > 0 {
        let prefix = concat_upto(ls, L - 1);
        if k < prefix.len() {
            lemma_concat_member(ls, L - 1, k);
            let (a, b) = choose|a: int, b: int|
                0 <= a < L - 1 && 0 <= b < ls[a].len() && prefix[k] == #[trigger] ls[a][b];
            assert(concat_upto(ls, L)[k] == ls[a][b]);
        } else {
            assert(concat_upto(ls, L)[k] == ls[L - 1][k - prefix.len()]);
        }
    }
}

/// The body of `spec_admitted` for a fixed granted time `t`.
pub open spec fn spec_admitted_witness(
    pre: Intersection,
    post: Intersection,
    direction: Direction,
    route: Route,
    now: u64,
    t: u64,
) -> bool {
    let l = spec_lane_index(direction, route);
    let start = now + Intersection::spec_admission_distance(route) * PX_TO_TIME_UNITS;
    &&& t >= start
    &&& pre.crossing_manager.path_free_at(spec_zone_path(direction, route), t as int)
    &&& forall|u: int|
        start <= u < t ==> !pre.crossing_manager.path_free_at(spec_zone_path(direction, route), u)
    &&& pre.crossing_manager.spec_installed(
        post.crossing_manager,
        direction,
        route,
        t,
        spec_car_id(direction, route, pre.id_generator.current + 1),
    )
    &&& post.lane_seqs()[l].len() == pre.lane_seqs()[l].len() + 1
    &&& (forall|k: int|
        0 <= k < pre.lane_seqs()[l].len() ==> post.lane_seqs()[l][k] == pre.lane_seqs()[l][k])
    &&& Intersection::spec_new_car_ok(
        post.lane_seqs()[l].last(),
        direction,
        route,
        t,
        now,
        pre.id_generator.current + 1,
    )
    &&& forall|l2: int|
        0 <= l2 < 12 && l2 != l ==> #[trigger] post.lane_seqs()[l2] == pre.lane_seqs()[l2]
    &&& post.cars_out == pre.cars_out
    &&& post.id_generator.current == pre.id_generator.current + 1
    &&& post.id_generator.max == pre.id_generator.max
    &&& post.collision_count == pre.collision_count
    &&& post.near_miss == pre.near_miss
    &&& post.last_update == pre.last_update
}

} // verus!
