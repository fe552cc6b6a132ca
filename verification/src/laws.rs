//! The library's general laws, stated and proved once over the contracts of
//! the ledger, the controller and the world.

use vstd::prelude::*;

use crate::car::Car;
use crate::consts::{
    BRAKE_DISTANCE_PX, MAX_ACCELERATION, SPEED_PX_PER_SEC, ZONE_TIME_UNITS,
};
use crate::crossing_manager::{res_disjoint, CrossingManager};
use crate::intersection::Intersection;
use crate::intersection::{Direction, Route};
use crate::utils::spec_zone_path;

verus! {

/// Any two reservations of one zone timeline hold the zone over disjoint
/// half-open intervals.
pub proof fn lemma_zone_timeline_disjoint(
    cm: CrossingManager,
    z: (usize, usize),
    a: int,
    b: int,
)
    requires
        cm.wf(),
        z.0 < 4,
        z.1 < 4,
        0 <= a < b < cm.zone_list(z).len(),
    ensures
        res_disjoint(cm.zone_list(z)[a], cm.zone_list(z)[b]),
{
}

/// Of two reservations of one zone timeline, the one that starts no later
/// releases the zone before the other takes it.
pub proof fn lemma_zone_timeline_ordered(cm: CrossingManager, z: (usize, usize), a: int, b: int)
    requires
        cm.wf(),
        z.0 < 4,
        z.1 < 4,
        0 <= a < b < cm.zone_list(z).len(),
        cm.zone_list(z)[a].time_in <= cm.zone_list(z)[b].time_in,
    ensures
        cm.zone_list(z)[a].time_out <= cm.zone_list(z)[b].time_in,
{
    assert(cm.zone_list(z)[b].time_in < cm.zone_list(z)[b].time_out);
}

/// One admission installs exactly one reservation per zone of the route's
/// path, in path order, with consecutive entry times one `ZONE_TIME_UNITS`
/// apart, all owned by the admitted vehicle.
pub proof fn lemma_installed_path_spacing(
    pre: CrossingManager,
    post: CrossingManager,
    dir: Direction,
    route: Route,
    t: u64,
    id: Seq<char>,
)
    requires
        pre.spec_installed(post, dir, route, t, id),
    ensures
        forall|i: int|
            0 <= i < spec_zone_path(dir, route).len() ==> {
                let zl = post.zone_list(#[trigger] spec_zone_path(dir, route)[i]);
                &&& zl.last().time_in == t + i * ZONE_TIME_UNITS
                &&& zl.last().car_id@ == id
            },
        forall|i: int|
            0 <= i && i + 1 < spec_zone_path(dir, route).len()
                ==> post.zone_list(#[trigger] spec_zone_path(dir, route)[i + 1]).last().time_in
                    == post.zone_list(spec_zone_path(dir, route)[i]).last().time_in
                    + ZONE_TIME_UNITS,
{
    assert forall|i: int|
        0 <= i && i + 1 < spec_zone_path(dir, route).len()
            implies post.zone_list(#[trigger] spec_zone_path(dir, route)[i + 1]).last().time_in
            == post.zone_list(spec_zone_path(dir, route)[i]).last().time_in
            + ZONE_TIME_UNITS by {
        assert(post.zone_list(spec_zone_path(dir, route)[i]).last().time_in == t + i
            * ZONE_TIME_UNITS);
        assert(post.zone_list(spec_zone_path(dir, route)[i + 1]).last().time_in == t + (i + 1)
            * ZONE_TIME_UNITS);
    }
}

/// Conservation: at every tick, vehicles still in the lanes plus completed
/// vehicles equal the vehicles admitted.
pub proof fn lemma_vehicle_conservation(w: Intersection)
    requires
        w.wf(),
    ensures
        w.spec_alive_count() + w.spec_completed_count() == w.spec_admitted_count(),
{
}

/// What the admission search returns: the least feasible start time at or
/// after `start`.
pub open spec fn is_earliest_entry(
    cm: CrossingManager,
    path: Seq<(usize, usize)>,
    start: int,
    t: int,
) -> bool {
    &&& start <= t
    &&& cm.path_free_at(path, t)
    &&& forall|u: int| start <= u < t ==> !cm.path_free_at(path, u)
}

/// Admission is monotone: on one ledger state, a request whose earliest
/// possible start is no earlier is granted an entry time that is no
/// earlier.
pub proof fn lemma_admission_monotone(
    cm: CrossingManager,
    path: Seq<(usize, usize)>,
    start_a: int,
    start_b: int,
    t_a: int,
    t_b: int,
)
    requires
        is_earliest_entry(cm, path, start_a, t_a),
        is_earliest_entry(cm, path, start_b, t_b),
        start_a <= start_b,
    ensures
        t_a <= t_b,
{
    if t_b < t_a {
        assert(!cm.path_free_at(path, t_b));
    }
}

/// Right-turn vehicles never appear in any zone ledger: an admission on a
/// right route leaves every zone timeline unchanged.
pub proof fn lemma_right_turns_never_reserved(
    pre: Intersection,
    post: Intersection,
    direction: Direction,
    now: u64,
)
    requires
        Intersection::spec_admitted(pre, post, direction, Route::Right, now),
    ensures
        forall|z: (usize, usize)|
            z.0 < 4 && z.1 < 4
                ==> #[trigger] post.crossing_manager.zone_list(z)
                    == pre.crossing_manager.zone_list(z),
{
    let t = choose|t: u64|
        crate::intersection::spec_admitted_witness(pre, post, direction, Route::Right, now, t);
    assert(spec_zone_path(direction, Route::Right).len() == 0);
    assert forall|z: (usize, usize)|
        z.0 < 4 && z.1 < 4
            implies #[trigger] post.crossing_manager.zone_list(z)
            == pre.crossing_manager.zone_list(z) by {
        assert(!spec_zone_path(direction, Route::Right).contains(z));
    }
}

/// A random spawn attempt on an approach that has any open lane always
/// admits a vehicle: the refused arm of `spec_spawn_attempt` demands that
/// every route of the approach refused, which an open lane contradicts.
pub proof fn lemma_open_approach_spawn_admits(
    pre: Intersection,
    post: Intersection,
    direction: Direction,
    now: u64,
)
    requires
        Intersection::spec_spawn_attempt(pre, post, direction, now),
        exists|route: Route| pre.spec_can_spawn(direction, route),
    ensures
        exists|route: Route|
            pre.spec_can_spawn(direction, route) && #[trigger] Intersection::spec_admitted(
                pre,
                post,
                direction,
                route,
                now,
            ),
{
    let open_route = choose|route: Route| pre.spec_can_spawn(direction, route);
    if forall|route: Route| !pre.spec_can_spawn(direction, route) {
        assert(!pre.spec_can_spawn(direction, open_route));
    }
}

/// A vehicle whose scheduled entry is due targets the nominal speed at
/// once: the straight-segment step accelerates it by `MAX_ACCELERATION`
/// up to `SPEED_PX_PER_SEC`.
pub proof fn lemma_due_entry_runs_nominal(c: Car, now: u64, delta: u64)
    requires
        c.wf(),
        c.entry_time <= now,
    ensures
        c.spec_target_speed(now) == SPEED_PX_PER_SEC,
        c.spec_straight_step(now, delta).speed == if c.route == Route::Right {
            SPEED_PX_PER_SEC as int
        } else if c.speed + MAX_ACCELERATION <= SPEED_PX_PER_SEC {
            c.speed + MAX_ACCELERATION
        } else {
            SPEED_PX_PER_SEC as int
        },
{
}

/// A predecessor exactly `BRAKE_DISTANCE_PX` ahead does not make the
/// follower brake: the proximity test is strict.
pub proof fn lemma_exact_gap_does_not_brake(a: Car, b: Car)
    requires
        match a.direction {
            Direction::North => a.spec_bounding_box().y == b.spec_bounding_box().spec_bottom()
                + BRAKE_DISTANCE_PX,
            Direction::South => a.spec_bounding_box().spec_bottom() == b.spec_bounding_box().y
                - BRAKE_DISTANCE_PX,
            Direction::East => a.spec_bounding_box().spec_right() == b.spec_bounding_box().x
                - BRAKE_DISTANCE_PX,
            Direction::West => a.spec_bounding_box().x == b.spec_bounding_box().spec_right()
                + BRAKE_DISTANCE_PX,
        },
    ensures
        !a.spec_too_close(b),
{
}

/// A turning vehicle whose covered distance is exactly at the pivot
/// threshold still follows the straight-segment rule, not the turn.
pub proof fn lemma_exact_threshold_stays_straight(c: Car, now: u64, delta: u64, threshold: int)
    requires
        !c.turned,
        c.spec_distance_to_entry() == threshold,
    ensures
        c.spec_turn_step(now, delta, threshold) == c.spec_straight_step(now, delta),
{
}

} // verus!
