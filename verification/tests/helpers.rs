use rand::rngs::StdRng;
use rand::SeedableRng;
use smart_road::car::Car;
use smart_road::consts::{CAR_HEIGHT_PX, CAR_WIDTH_PX};
use smart_road::intersection::{Direction, Route};
use smart_road::rng::rng_below;
use smart_road::utils::{
    car_spawn_check, create_origin_rect, get_direction_offset_by_direction, get_rnd_direction,
    get_rnd_routes, get_spawn_position, get_color_by_state, is_safe_distance_from_car,
    CarDisplayState,
};

fn parked_car(x: i32, y: i32, direction: Direction) -> Car {
    Car::new(
        String::from("SST-0001"),
        x,
        y,
        CAR_WIDTH_PX,
        CAR_HEIGHT_PX,
        5,
        Route::Straight,
        3500,
        direction,
        0,
    )
}

#[test]
fn display_state_priority_order() {
    assert_eq!(get_color_by_state(true, true, true), CarDisplayState::Collided);
    assert_eq!(get_color_by_state(false, true, true), CarDisplayState::Braking);
    assert_eq!(get_color_by_state(false, false, false), CarDisplayState::Waiting);
    assert_eq!(get_color_by_state(false, false, true), CarDisplayState::Active);
}

#[test]
fn origin_rect_is_centered() {
    let r = create_origin_rect(100, 200, 4);
    assert_eq!((r.x, r.y, r.width, r.height), (98, 198, 4, 4));
}

#[test]
fn rotation_offset_only_for_horizontal_headings() {
    assert_eq!(get_direction_offset_by_direction(Direction::North, 33, 78), (0, 0));
    assert_eq!(get_direction_offset_by_direction(Direction::South, 33, 78), (0, 0));
    assert_eq!(get_direction_offset_by_direction(Direction::East, 33, 78), (22, -22));
    assert_eq!(get_direction_offset_by_direction(Direction::West, 33, 78), (22, -22));
}

#[test]
fn spawn_positions_match_the_lane_table() {
    assert_eq!(get_spawn_position(Direction::South, Route::Left), (408, -80, 5));
    assert_eq!(get_spawn_position(Direction::South, Route::Straight), (358, -80, 5));
    assert_eq!(get_spawn_position(Direction::South, Route::Right), (308, -80, 7));
    assert_eq!(get_spawn_position(Direction::North, Route::Straight), (508, 900, 5));
    assert_eq!(get_spawn_position(Direction::East, Route::Right), (-80, 558, 7));
    assert_eq!(get_spawn_position(Direction::West, Route::Left), (900, 408, 5));
}

#[test]
fn spawn_check_requires_one_car_length() {
    // southbound spawn at (358, -80); the tail's box must start at least
    // height px past the spawned box's far edge
    let lane = vec![parked_car(358, 76, Direction::South)];
    // gap of exactly height: -80 + 78 + 78 == 76 is accepted
    assert!(car_spawn_check(&lane, Direction::South, 358, -80, CAR_HEIGHT_PX as i32));
    let closer = vec![parked_car(358, 75, Direction::South)];
    assert!(!car_spawn_check(&closer, Direction::South, 358, -80, CAR_HEIGHT_PX as i32));
    let empty: Vec<Car> = Vec::new();
    assert!(car_spawn_check(&empty, Direction::South, 358, -80, CAR_HEIGHT_PX as i32));
}

#[test]
fn safe_distance_boundary_is_inclusive() {
    let tail = parked_car(358, 76, Direction::South);
    let bb = tail.bounding_box();
    assert!(is_safe_distance_from_car(Direction::South, 358, -80, 78, &bb, 78));
    assert!(!is_safe_distance_from_car(Direction::South, 358, -79, 78, &bb, 78));
}

#[test]
fn bounded_draws_stay_below_their_bound() {
    let mut rng = StdRng::seed_from_u64(99);
    let mut seen = std::collections::HashSet::new();
    for _ in 0..100 {
        let v = rng_below(&mut rng, 6);
        assert!(v < 6);
        seen.insert(v);
    }
    // a generator that ignored the draw would return one constant
    assert!(seen.len() >= 3);
}

#[test]
fn shuffled_routes_are_a_permutation() {
    let mut rng = StdRng::seed_from_u64(123);
    let mut orders = std::collections::HashSet::new();
    for _ in 0..60 {
        let routes = get_rnd_routes(&mut rng);
        assert_eq!(routes.len(), 3);
        assert!(routes.contains(&Route::Left));
        assert!(routes.contains(&Route::Right));
        assert!(routes.contains(&Route::Straight));
        orders.insert(format!("{:?}", routes));
    }
    // all six orders appear over enough draws
    assert!(orders.len() >= 4);
}

#[test]
fn random_direction_covers_all_four() {
    let mut rng = StdRng::seed_from_u64(7);
    let mut seen = std::collections::HashSet::new();
    for _ in 0..100 {
        seen.insert(format!("{:?}", get_rnd_direction(&mut rng)));
    }
    assert_eq!(seen.len(), 4);
}
