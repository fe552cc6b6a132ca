use smart_road::car::Car;
use smart_road::cars_id::CarIdGenerator;
use smart_road::consts::{BASE_DELTA_UNITS, CAR_HEIGHT_PX, CAR_WIDTH_PX, RESERVATION_HOLD_UNITS};
use smart_road::crossing_manager::ZoneState;
use smart_road::intersection::{lane_index, Direction, Intersection, Route};

fn total_alive(w: &Intersection) -> usize {
    w.cars_in.iter().map(|lane| lane.len()).sum()
}

#[test]
fn identifier_mint_pads_and_counts() {
    let mut gen = CarIdGenerator::new();
    assert_eq!(gen.get_next(Direction::North, Route::Left), "NLT-0001");
    assert_eq!(gen.get_next(Direction::East, Route::Right), "ERT-0002");
    assert_eq!(gen.get_next(Direction::South, Route::Straight), "SST-0003");
    assert_eq!(gen.get_next(Direction::West, Route::Left), "WLT-0004");
    let mut worn = CarIdGenerator::new();
    worn.current = 9999;
    assert_eq!(worn.next(), None);
    worn.current = 9998;
    assert_eq!(worn.next(), Some(9999));
}

#[test]
fn single_north_straight_vehicle_crosses_cleanly() {
    let mut w = Intersection::new(7, 0);
    assert!(w.try_add_car(Direction::North, Route::Straight, 0));
    let lane = lane_index(Direction::North, Route::Straight);
    assert_eq!(w.cars_in[lane].len(), 1);
    {
        let c = &w.cars_in[lane][0];
        assert_eq!((c.x, c.y), (508, 900));
        // earliest entry from an empty ledger is the travel time of the
        // 350 px approach at nominal speed
        assert_eq!(c.entry_time, 3500);
    }
    // four reservations, on column 3 from bottom to top
    for (i, z) in [(3usize, 3usize), (2, 3), (1, 3), (0, 3)].iter().enumerate() {
        let list = &w.crossing_manager.grid[z.0 * 4 + z.1];
        assert_eq!(list.len(), 1);
        assert_eq!(list[0].time_in, 3500 + i as u64 * 500);
    }
    let mut now = 0u64;
    let mut steps = 0;
    while total_alive(&w) > 0 && steps < 1000 {
        now += BASE_DELTA_UNITS;
        w.update(now);
        steps += 1;
    }
    assert_eq!(w.cars_out.len(), 1);
    assert_eq!(w.collision_count, 0);
    let done = &w.cars_out[0];
    assert!(done.exited);
    assert!(done.y + done.height as i32 <= 0);
    assert!(done.time_exit.is_some());
}

#[test]
fn two_south_straight_vehicles_follow_without_collision() {
    let mut w = Intersection::new(3, 0);
    assert!(w.try_add_car(Direction::South, Route::Straight, 0));
    let lane = lane_index(Direction::South, Route::Straight);
    let first_entry = w.cars_in[lane][0].entry_time;
    // a second request right behind is refused by the tail-spacing check
    assert!(!w.try_add_car(Direction::South, Route::Straight, 0));
    // step until the lane accepts a second vehicle
    let mut now = 0u64;
    let mut second_entry = None;
    while second_entry.is_none() && now < 60_000 {
        now += BASE_DELTA_UNITS;
        w.update(now);
        if w.try_add_car(Direction::South, Route::Straight, now) {
            second_entry = Some(w.cars_in[lane][1].entry_time);
        }
    }
    let second_entry = second_entry.expect("second vehicle was never admitted");
    assert!(second_entry >= first_entry + RESERVATION_HOLD_UNITS);
    while total_alive(&w) > 0 && now < 120_000 {
        now += BASE_DELTA_UNITS;
        w.update(now);
    }
    assert_eq!(w.cars_out.len(), 2);
    assert_eq!(w.collision_count, 0);
}

#[test]
fn four_simultaneous_right_turns_need_no_reservations() {
    let mut w = Intersection::new(11, 0);
    for dir in [Direction::North, Direction::South, Direction::East, Direction::West] {
        assert!(w.try_add_car(dir, Route::Right, 0));
        let lane = lane_index(dir, Route::Right);
        // scheduled entry is now + travel time, with no delay
        assert_eq!(w.cars_in[lane][0].entry_time, 3000);
    }
    for list in &w.crossing_manager.grid {
        assert_eq!(list.len(), 0);
    }
    let mut now = 0u64;
    while total_alive(&w) > 0 && now < 120_000 {
        now += BASE_DELTA_UNITS;
        w.update(now);
    }
    assert_eq!(w.cars_out.len(), 4);
    assert_eq!(w.collision_count, 0);
}

#[test]
fn fifth_vehicle_in_a_full_lane_is_refused() {
    let mut w = Intersection::new(5, 0);
    let lane = lane_index(Direction::South, Route::Straight);
    // a full lane: four vehicles queued back from the spawn point
    for i in 0..4 {
        let car = Car::new(
            format!("SST-000{}", i + 1),
            358,
            600 - 200 * i,
            CAR_WIDTH_PX,
            CAR_HEIGHT_PX,
            5,
            Route::Straight,
            3500,
            Direction::South,
            0,
        );
        w.cars_in[lane].push(car);
        w.id_generator.current += 1;
    }
    assert_eq!(w.cars_in[lane].len(), 4);
    assert!(!w.try_add_car(Direction::South, Route::Straight, 0));
    assert_eq!(w.cars_in[lane].len(), 4);
    assert_eq!(w.id_generator.current, 4);
}

#[test]
fn tail_too_close_to_spawn_is_refused_without_state_change() {
    let mut w = Intersection::new(5, 0);
    assert!(w.try_add_car(Direction::East, Route::Left, 0));
    let reserved_before: usize = w.crossing_manager.grid.iter().map(|l| l.len()).sum();
    let minted_before = w.id_generator.current;
    assert!(!w.try_add_car(Direction::East, Route::Left, 0));
    let reserved_after: usize = w.crossing_manager.grid.iter().map(|l| l.len()).sum();
    assert_eq!(reserved_before, reserved_after);
    assert_eq!(w.id_generator.current, minted_before);
}

#[test]
fn ten_second_random_soak_has_no_collision() {
    let mut w = Intersection::new(0xC0FFEE, 0);
    let mut now = 0u64;
    for _ in 0..625 {
        now += BASE_DELTA_UNITS;
        if w.id_generator.current < 9999 {
            w.add_car_in_rnd(now);
        }
        w.update(now);
        // conservation holds at every tick
        assert_eq!(
            total_alive(&w) + w.cars_out.len(),
            w.id_generator.current
        );
    }
    assert!(w.id_generator.current > 0);
    assert_eq!(w.collision_count, 0);
}

#[test]
fn same_seed_reproduces_the_same_run() {
    let mut a = Intersection::new(42, 0);
    let mut b = Intersection::new(42, 0);
    let mut now = 0u64;
    for _ in 0..120 {
        now += BASE_DELTA_UNITS;
        a.add_car_in_rnd(now);
        b.add_car_in_rnd(now);
        a.update(now);
        b.update(now);
    }
    assert_eq!(a.id_generator.current, b.id_generator.current);
    assert_eq!(total_alive(&a), total_alive(&b));
    assert_eq!(a.cars_out.len(), b.cars_out.len());
    for (ca, cb) in a.cars_out.iter().zip(b.cars_out.iter()) {
        assert_eq!(ca.id, cb.id);
        assert_eq!((ca.x, ca.y), (cb.x, cb.y));
    }
}

#[test]
fn snapshot_round_trips_the_ledger_classification() {
    let mut w = Intersection::new(9, 0);
    assert!(w.try_add_car(Direction::West, Route::Straight, 0));
    let now = 3600u64;
    w.update(now);
    let snap = w.snapshot(now);
    assert_eq!(snap.len(), 16);
    for row in 0..4usize {
        for col in 0..4usize {
            assert_eq!(snap[row * 4 + col], w.crossing_manager.zone_state(row, col, now));
        }
    }
    // the west vehicle's first zone is active at its scheduled entry
    assert_eq!(snap[3], ZoneState::Active);
}

#[test]
fn random_admission_tries_every_route_order() {
    // over many seeded draws the shuffled route order must vary: a spawner
    // that ignored its random source would always fill the same lane first
    let mut first_lanes = std::collections::HashSet::new();
    for seed in 0..20u64 {
        let mut w = Intersection::new(seed, 0);
        w.add_car_in(Direction::North, 0);
        for (l, lane) in w.cars_in.iter().enumerate() {
            if !lane.is_empty() {
                first_lanes.insert(l);
            }
        }
    }
    assert!(first_lanes.len() >= 2);
}
