use smart_road::consts::{
    CAR_OCCUPY_TIME_UNITS, RESERVATION_HOLD_UNITS, SAFE_GAP_TIME_UNITS, ZONE_TIME_UNITS,
};
use smart_road::crossing_manager::{CrossingManager, ZoneState};
use smart_road::intersection::{Direction, Route};
use smart_road::utils::route_to_zone_path;

#[test]
fn reservation_hold_is_zone_plus_occupy_plus_gap() {
    assert_eq!(ZONE_TIME_UNITS, 500);
    assert_eq!(CAR_OCCUPY_TIME_UNITS, 780);
    assert_eq!(SAFE_GAP_TIME_UNITS, 390);
    assert_eq!(RESERVATION_HOLD_UNITS, 1670);
}

#[test]
fn empty_ledger_grants_travel_time() {
    let mut cm = CrossingManager::new();
    let t = cm.reserve_path("NST-0001", Direction::North, Route::Straight, 350, 0);
    assert_eq!(t, 3500);
}

#[test]
fn straight_path_reserves_four_zones_in_order() {
    let mut cm = CrossingManager::new();
    let t = cm.reserve_path("NST-0001", Direction::North, Route::Straight, 350, 0);
    let path = route_to_zone_path(Direction::North, Route::Straight);
    assert_eq!(
        path,
        vec![(3usize, 3usize), (2usize, 3usize), (1usize, 3usize), (0usize, 3usize)]
    );
    for (i, (row, col)) in path.iter().enumerate() {
        let list = &cm.grid[row * 4 + col];
        assert_eq!(list.len(), 1);
        assert_eq!(list[0].time_in, t + i as u64 * ZONE_TIME_UNITS);
        assert_eq!(list[0].time_out, list[0].time_in + RESERVATION_HOLD_UNITS);
        assert_eq!(list[0].car_id, "NST-0001");
    }
    // the other twelve zones stay empty
    let mut reserved = 0;
    for list in &cm.grid {
        reserved += list.len();
    }
    assert_eq!(reserved, 4);
}

#[test]
fn second_vehicle_on_same_path_is_shifted_clear() {
    let mut cm = CrossingManager::new();
    let t1 = cm.reserve_path("SST-0001", Direction::South, Route::Straight, 350, 0);
    assert_eq!(t1, 3500);
    // a second request 0.2 s later conflicts on zone (0,0) and is pushed to
    // the first vehicle's release time there
    let t2 = cm.reserve_path("SST-0002", Direction::South, Route::Straight, 350, 600);
    assert_eq!(t2, t1 + RESERVATION_HOLD_UNITS);
    assert!(t2 >= t1 + ZONE_TIME_UNITS + CAR_OCCUPY_TIME_UNITS + SAFE_GAP_TIME_UNITS);
    // both reservations on (0,0), disjoint and in order
    let list = &cm.grid[0];
    assert_eq!(list.len(), 2);
    assert!(list[0].time_out <= list[1].time_in);
}

#[test]
fn crossing_paths_share_a_zone_without_overlap() {
    let mut cm = CrossingManager::new();
    let te = cm.reserve_path("EST-0001", Direction::East, Route::Straight, 350, 0);
    assert_eq!(te, 3500);
    // East-Straight holds (3,3) as its fourth zone
    let east_in = te + 3 * ZONE_TIME_UNITS;
    let east_out = east_in + RESERVATION_HOLD_UNITS;
    let tn = cm.reserve_path("NST-0001", Direction::North, Route::Straight, 350, 100);
    // North-Straight starts at (3,3); its slot begins exactly when the
    // east vehicle releases the shared zone
    assert_eq!(tn, east_out);
    let list = &cm.grid[15];
    assert_eq!(list.len(), 2);
    assert!(list[0].time_out <= list[1].time_in);
}

#[test]
fn later_admission_may_slot_earlier_yet_stays_disjoint() {
    // an east vehicle delays a north vehicle on the shared zone (3,3); a
    // west vehicle arriving later shares only (0,3) with the north vehicle
    // and fits long before it, so install order and time order differ on
    // (0,3) while every pair of intervals stays disjoint
    let mut cm = CrossingManager::new();
    let te = cm.reserve_path("EST-0001", Direction::East, Route::Straight, 350, 0);
    let tn = cm.reserve_path("NST-0001", Direction::North, Route::Straight, 350, 100);
    let tw = cm.reserve_path("WST-0001", Direction::West, Route::Straight, 350, 200);
    assert_eq!(te, 3500);
    assert_eq!(tn, 6670);
    assert_eq!(tw, 3700);
    assert!(tw < tn);
    // zone (0,3): the north entry was installed first but starts later
    let list = &cm.grid[3];
    assert_eq!(list.len(), 2);
    assert!(list[0].time_in > list[1].time_in);
    assert!(
        list[0].time_out <= list[1].time_in || list[1].time_out <= list[0].time_in
    );
}

#[test]
fn right_turns_install_no_reservations() {
    let mut cm = CrossingManager::new();
    for dir in [Direction::North, Direction::South, Direction::East, Direction::West] {
        let t = cm.reserve_path("XRT-0001", dir, Route::Right, 300, 0);
        assert_eq!(t, 3000);
    }
    for list in &cm.grid {
        assert_eq!(list.len(), 0);
    }
}

#[test]
fn expiry_drops_only_past_reservations() {
    let mut cm = CrossingManager::new();
    let t = cm.reserve_path("WST-0001", Direction::West, Route::Straight, 350, 0);
    // first zone of West-Straight is (0,3)
    let first_out = t + RESERVATION_HOLD_UNITS;
    cm.update(first_out);
    let first = &cm.grid[3];
    assert_eq!(first.len(), 0);
    // the fourth zone is released 3 * ZONE_TIME_UNITS later and survives
    let last = &cm.grid[0];
    assert_eq!(last.len(), 1);
    cm.update(t + 3 * ZONE_TIME_UNITS + RESERVATION_HOLD_UNITS);
    assert_eq!(cm.grid[0].len(), 0);
}

#[test]
fn zone_state_classifies_free_reserved_active() {
    let mut cm = CrossingManager::new();
    assert_eq!(cm.zone_state(0, 0, 0), ZoneState::Free);
    let t = cm.reserve_path("SST-0001", Direction::South, Route::Straight, 350, 0);
    assert_eq!(cm.zone_state(0, 0, 0), ZoneState::Reserved);
    assert_eq!(cm.zone_state(0, 0, t), ZoneState::Active);
    assert_eq!(cm.zone_state(0, 0, t + RESERVATION_HOLD_UNITS - 1), ZoneState::Active);
    assert_eq!(cm.zone_state(0, 0, t - 1), ZoneState::Reserved);
    assert_eq!(cm.zone_state(1, 1, 0), ZoneState::Free);
}

#[test]
fn max_time_out_tracks_latest_release() {
    let mut cm = CrossingManager::new();
    assert_eq!(cm.max_time_out(), 0);
    let t = cm.reserve_path("ELT-0001", Direction::East, Route::Left, 350, 0);
    assert_eq!(cm.max_time_out(), t + 4 * ZONE_TIME_UNITS + RESERVATION_HOLD_UNITS);
}

#[test]
fn all_eight_paths_have_documented_zones() {
    assert_eq!(
        route_to_zone_path(Direction::South, Route::Left),
        vec![(0, 1), (1, 1), (2, 1), (2, 2), (2, 3)]
    );
    assert_eq!(
        route_to_zone_path(Direction::South, Route::Straight),
        vec![(0, 0), (1, 0), (2, 0), (3, 0)]
    );
    assert_eq!(
        route_to_zone_path(Direction::North, Route::Left),
        vec![(3, 2), (2, 2), (1, 2), (1, 1), (1, 0)]
    );
    assert_eq!(
        route_to_zone_path(Direction::North, Route::Straight),
        vec![(3, 3), (2, 3), (1, 3), (0, 3)]
    );
    assert_eq!(
        route_to_zone_path(Direction::East, Route::Left),
        vec![(2, 0), (2, 1), (2, 2), (1, 2), (0, 2)]
    );
    assert_eq!(
        route_to_zone_path(Direction::East, Route::Straight),
        vec![(3, 0), (3, 1), (3, 2), (3, 3)]
    );
    assert_eq!(
        route_to_zone_path(Direction::West, Route::Left),
        vec![(1, 3), (1, 2), (1, 1), (2, 1), (3, 1)]
    );
    assert_eq!(
        route_to_zone_path(Direction::West, Route::Straight),
        vec![(0, 3), (0, 2), (0, 1), (0, 0)]
    );
    for dir in [Direction::North, Direction::South, Direction::East, Direction::West] {
        assert!(route_to_zone_path(dir, Route::Right).is_empty());
    }
}
