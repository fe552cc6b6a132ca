use smart_road::car::Car;
use smart_road::consts::{
    BASE_DELTA_UNITS, CAR_HEIGHT_PX, CAR_WIDTH_PX, SPEED_PX_PER_SEC,
};
use smart_road::intersection::{Direction, Route};
use smart_road::utils::{
    calculate_speed_from_distance_time, calculate_time_difference, get_position_after_turn,
};

fn north_straight_car(y: i32, speed: i32, entry_time: u64) -> Car {
    Car::new(
        String::from("NST-0001"),
        508,
        y,
        CAR_WIDTH_PX,
        CAR_HEIGHT_PX,
        speed,
        Route::Straight,
        entry_time,
        Direction::North,
        0,
    )
}

#[test]
fn due_schedule_accelerates_to_nominal() {
    // scheduled entry equals now: the controller targets nominal speed and
    // accelerates by MAX_ACCELERATION each tick
    let mut c = north_straight_car(900, 5, 0);
    c.update(0, BASE_DELTA_UNITS);
    assert_eq!(c.speed, 35);
    c.update(BASE_DELTA_UNITS, BASE_DELTA_UNITS);
    assert_eq!(c.speed, 65);
    let mut now = 2 * BASE_DELTA_UNITS;
    for _ in 0..20 {
        now += BASE_DELTA_UNITS;
        c.update(now, BASE_DELTA_UNITS);
    }
    assert_eq!(c.speed, SPEED_PX_PER_SEC);
}

#[test]
fn early_vehicle_slows_to_meet_slot() {
    // a vehicle already at speed with a distant slot targets a lower speed
    let mut c = north_straight_car(900, 300, 60_000);
    c.update(0, BASE_DELTA_UNITS);
    // remaining 350 px over 20 s asks for about 18 px/s; one tick of
    // deceleration lowers the speed by MAX_ACCELERATION
    assert_eq!(c.speed, 270);
}

#[test]
fn braking_vehicle_keeps_pose_and_speed() {
    let mut c = north_straight_car(700, 120, 0);
    c.brake = true;
    let (x, y, speed) = (c.x, c.y, c.speed);
    c.update(0, BASE_DELTA_UNITS);
    assert_eq!((c.x, c.y, c.speed), (x, y, speed));
    assert!(!c.exited);
}

#[test]
fn entry_boundary_records_actual_entry_time() {
    let mut c = north_straight_car(550, 300, 0);
    assert!(!c.in_intersection);
    c.update(96, BASE_DELTA_UNITS);
    assert!(c.in_intersection);
    assert_eq!(c.actual_entry_time, Some(96));
}

#[test]
fn vehicle_exits_when_box_leaves_window() {
    let mut c = north_straight_car(-74, 300, 0);
    // at nominal speed one 16 ms tick covers about 5 px; the box fully
    // leaves the window once y + height <= 0
    c.update(1000, BASE_DELTA_UNITS);
    assert!(c.exited);
    assert_eq!(c.time_exit, Some(1000));
}

#[test]
fn eastbound_vehicle_exits_at_the_window_edge() {
    // the box fully leaves the 900-wide window once its left edge reaches
    // x == 900, with no extra vehicle length
    let mut c = Car::new(
        String::from("EST-0001"),
        895,
        508,
        CAR_WIDTH_PX,
        CAR_HEIGHT_PX,
        300,
        Route::Straight,
        0,
        Direction::East,
        0,
    );
    // one 16 ms tick at nominal speed covers 5 px: 895 -> 900
    c.update(1000, BASE_DELTA_UNITS);
    assert_eq!(c.x, 900);
    assert!(c.exited);
    let mut d = Car::new(
        String::from("EST-0002"),
        894,
        508,
        CAR_WIDTH_PX,
        CAR_HEIGHT_PX,
        300,
        Route::Straight,
        0,
        Direction::East,
        0,
    );
    d.update(1000, BASE_DELTA_UNITS);
    assert_eq!(d.x, 899);
    assert!(!d.exited);
}

#[test]
fn predecessor_at_exact_brake_distance_is_not_too_close() {
    let follower = north_straight_car(700, 100, 0);
    // heading north: the predecessor's rear is its bottom edge; the gap is
    // follower.y - (front.y + height)
    let mut front = north_straight_car(612, 100, 0);
    // gap == 10: strictly too close requires gap < 10
    assert_eq!(follower.y - (front.y + front.height as i32), 10);
    assert!(!follower.is_too_close(&front));
    front.y += 1;
    assert_eq!(follower.y - (front.y + front.height as i32), 9);
    assert!(follower.is_too_close(&front));
}

#[test]
fn pivot_at_exact_threshold_keeps_straight_rule() {
    // a north-bound right-turner has covered exactly 350 px at y == 550
    let mut c = north_straight_car(550, 300, 0);
    c.route = Route::Right;
    c.update(1000, BASE_DELTA_UNITS);
    assert_eq!(c.direction, Direction::North);
    assert!(!c.turned);
    // one pixel past the threshold it pivots east onto the y = 558 lane
    let mut d = north_straight_car(549, 300, 0);
    d.route = Route::Right;
    d.update(1000, BASE_DELTA_UNITS);
    assert_eq!(d.direction, Direction::East);
    assert!(d.turned);
    assert_eq!(d.y, 558);
}

#[test]
fn right_turn_route_overrides_target_speed() {
    // right turns never yield time: speed snaps to nominal at once
    let mut c = north_straight_car(900, 7, 1_000_000);
    c.route = Route::Right;
    c.update(0, BASE_DELTA_UNITS);
    assert_eq!(c.speed, SPEED_PX_PER_SEC);
}

#[test]
fn turn_pose_snaps_to_pivot_lane() {
    assert_eq!(
        get_position_after_turn(508, 550, 5, Direction::North, Route::Right),
        (513, 558, Direction::East)
    );
    assert_eq!(
        get_position_after_turn(308, 300, 5, Direction::South, Route::Right),
        (308 - 39 - 5, 308, Direction::West)
    );
    assert_eq!(
        get_position_after_turn(458, 400, 5, Direction::North, Route::Left),
        (458 - 39 - 5, 408, Direction::West)
    );
    assert_eq!(
        get_position_after_turn(900, 408, 5, Direction::West, Route::Left),
        (408, 413, Direction::South)
    );
}

#[test]
fn target_speed_formula_is_exact() {
    // 350 px in 3500 units (7/6 s) asks for exactly 300 px/s
    assert_eq!(calculate_speed_from_distance_time(350, 3500, 300), 300);
    // no time left: the default applies
    assert_eq!(calculate_speed_from_distance_time(100, 0, 300), 300);
    // 100 px in 1000000 units rounds to 0 px/s
    assert_eq!(calculate_speed_from_distance_time(100, 1_000_000, 300), 0);
    // rounding is to nearest: 100 px in 60000 units is 5 px/s exactly
    assert_eq!(calculate_speed_from_distance_time(100, 60_000, 7), 5);
    // 1 px in 2000 units is 1.5 px/s, rounded away from zero
    assert_eq!(calculate_speed_from_distance_time(1, 2000, 7), 2);
}

#[test]
fn time_difference_is_signed() {
    assert_eq!(calculate_time_difference(3500, 4000), 500);
    assert_eq!(calculate_time_difference(4000, 3500), -500);
    assert_eq!(calculate_time_difference(4000, 4000), 0);
}
