use road_intersection::vehicle::{
    can_spawn, conflict_occupied, first_open_origin, queue_lengths, random_origin_order,
    random_route, VehiclePhase,
};

#[test]
fn random_origin_order_contains_each_direction_once() {
    for _ in 0..32 {
        let mut order = random_origin_order();
        order.sort_unstable();
        assert_eq!(order, [0, 1, 2, 3]);
    }
}

#[test]
fn random_origin_order_is_shuffled() {
    let differs = (0..64).any(|_| random_origin_order() != [0, 1, 2, 3]);
    assert!(differs);
}

#[test]
fn random_route_is_one_of_the_three_routes() {
    let mut seen = [false; 3];
    for _ in 0..300 {
        let route = random_route();
        assert!(route < 3);
        seen[route] = true;
    }
    assert!(seen.iter().all(|seen| *seen));
}

#[test]
fn only_vehicles_before_the_conflict_zone_queue() {
    assert!(VehiclePhase::Approaching.is_before_conflict());
    assert!(VehiclePhase::Waiting.is_before_conflict());
    assert!(!VehiclePhase::Crossing.is_before_conflict());
    assert!(!VehiclePhase::Leaving.is_before_conflict());

    let vehicles = [
        (0, VehiclePhase::Waiting),
        (0, VehiclePhase::Approaching),
        (1, VehiclePhase::Crossing),
        (2, VehiclePhase::Leaving),
        (3, VehiclePhase::Waiting),
        (0, VehiclePhase::Leaving),
    ];
    assert_eq!(queue_lengths(&vehicles), [2, 0, 0, 1]);
    assert_eq!(queue_lengths(&[]), [0, 0, 0, 0]);
}

#[test]
fn conflict_zone_is_occupied_by_a_crossing_vehicle() {
    assert!(!conflict_occupied(&[]));
    assert!(!conflict_occupied(&[VehiclePhase::Waiting, VehiclePhase::Leaving]));
    assert!(conflict_occupied(&[VehiclePhase::Waiting, VehiclePhase::Crossing]));
}

#[test]
fn spawn_is_refused_at_capacity_or_when_the_entry_is_blocked() {
    let queues = [8, 7, 0, 0];
    assert!(!can_spawn(0, &queues, true));
    assert!(can_spawn(1, &queues, true));
    assert!(!can_spawn(2, &queues, false));
    assert!(can_spawn(3, &queues, true));
    assert!(!can_spawn(4, &queues, true));
}

#[test]
fn random_spawn_takes_the_first_open_origin_in_order() {
    assert_eq!(first_open_origin([0, 1, 2, 3], [false, true, true, true]), Some(1));
    assert_eq!(first_open_origin([0, 1, 2, 3], [false, false, true, true]), Some(2));
    assert_eq!(first_open_origin([3, 1, 0, 2], [false; 4]), None);
    assert_eq!(first_open_origin([3, 1, 0, 2], [true; 4]), Some(3));
    assert_eq!(first_open_origin([9, 1, 0, 2], [true; 4]), Some(1));
}

#[test]
fn vehicles_stop_only_before_the_conflict_zone_on_red() {
    assert!(VehiclePhase::Approaching.must_stop(false));
    assert!(VehiclePhase::Waiting.must_stop(false));
    assert!(!VehiclePhase::Waiting.must_stop(true));
    assert!(!VehiclePhase::Crossing.must_stop(false));
    assert!(!VehiclePhase::Leaving.must_stop(false));
}

#[test]
fn phase_after_a_tick_follows_the_lifecycle() {
    assert_eq!(VehiclePhase::after_tick(true, true, false), VehiclePhase::Leaving);
    assert_eq!(VehiclePhase::after_tick(false, true, true), VehiclePhase::Crossing);
    assert_eq!(VehiclePhase::after_tick(false, false, true), VehiclePhase::Waiting);
    assert_eq!(VehiclePhase::after_tick(false, false, false), VehiclePhase::Approaching);
}
