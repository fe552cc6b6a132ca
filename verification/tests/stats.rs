use smart_road::car::Car;
use smart_road::consts::{CAR_HEIGHT_PX, CAR_WIDTH_PX};
use smart_road::intersection::{Direction, Intersection, Route};
use smart_road::utils::{calculate_duration_statistics, calculate_speed_statistics};

fn completed_car(dist_route: Route, time_enter: u64, time_exit: Option<u64>) -> Car {
    let mut c = Car::new(
        String::from("SST-0001"),
        358,
        900,
        CAR_WIDTH_PX,
        CAR_HEIGHT_PX,
        300,
        dist_route,
        0,
        Direction::South,
        time_enter,
    );
    c.exited = true;
    c.time_exit = time_exit;
    c
}

#[test]
fn speed_statistics_over_known_transits() {
    // 900 px in 3 s is 300 px/s; 950 px in 9.5 s is 100 px/s
    let cars = vec![
        completed_car(Route::Straight, 0, Some(9_000)),
        completed_car(Route::Left, 0, Some(28_500)),
    ];
    let (min, max, avg) = calculate_speed_statistics(&cars);
    assert_eq!(min, 10_000);
    assert_eq!(max, 30_000);
    assert_eq!(avg, 20_000);
}

#[test]
fn duration_statistics_in_centiseconds() {
    // 3 s and 9.5 s transits
    let cars = vec![
        completed_car(Route::Straight, 0, Some(9_000)),
        completed_car(Route::Left, 0, Some(28_500)),
    ];
    let (min, max, avg) = calculate_duration_statistics(&cars);
    assert_eq!(min, 300);
    assert_eq!(max, 950);
    assert_eq!(avg, 625);
}

#[test]
fn vehicles_without_exit_do_not_count() {
    let cars = vec![
        completed_car(Route::Straight, 0, None),
        completed_car(Route::Straight, 0, Some(9_000)),
    ];
    let (min, max, avg) = calculate_speed_statistics(&cars);
    assert_eq!((min, max, avg), (30_000, 30_000, 30_000));
}

#[test]
fn empty_or_invalid_lists_yield_zeros() {
    let empty: Vec<Car> = Vec::new();
    assert_eq!(calculate_speed_statistics(&empty), (0, 0, 0));
    assert_eq!(calculate_duration_statistics(&empty), (0, 0, 0));
    // a zero-length transit counts for durations but not for speeds
    let cars = vec![completed_car(Route::Straight, 500, Some(500))];
    assert_eq!(calculate_speed_statistics(&cars), (0, 0, 0));
    assert_eq!(calculate_duration_statistics(&cars), (0, 0, 0));
}

#[test]
fn world_statistics_aggregate_the_completed_list() {
    let mut w = Intersection::new(1, 0);
    w.cars_out.push(completed_car(Route::Straight, 0, Some(9_000)));
    w.cars_out.push(completed_car(Route::Left, 0, Some(28_500)));
    w.id_generator.current = 2;
    w.collision_count = 3;
    w.near_miss = 4;
    let stats = w.get_statistics();
    assert_eq!(stats.total, 2);
    assert_eq!(stats.collisions, 3);
    assert_eq!(stats.near_misses, 4);
    assert_eq!(stats.min_speed, 10_000);
    assert_eq!(stats.max_speed, 30_000);
    assert_eq!(stats.avg_speed, 20_000);
    assert_eq!(stats.min_duration, 300);
    assert_eq!(stats.max_duration, 950);
    assert_eq!(stats.avg_duration, 625);
}
