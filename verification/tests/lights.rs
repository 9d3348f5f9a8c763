use road_intersection::fairness::STARVATION_BOUND;
use road_intersection::lights::{
    Lights, Phase, MAX_GREEN_TICKS, MAX_WAIT_TICKS, MIN_CLEAR_TICKS, MIN_GREEN_TICKS,
};

#[test]
fn clearing_waits_for_the_conflict_zone() {
    let mut lights = Lights::new();
    lights.phase = Phase::Clearing;
    let queues = [0, 1, 0, 0];
    for _ in 0..(MIN_CLEAR_TICKS + 20) {
        lights.update(&queues, true);
    }
    assert_eq!(lights.phase, Phase::Clearing);

    lights.update(&queues, false);
    assert_eq!(lights.phase, Phase::Green);
    assert_eq!(lights.green_dir, 1);
}

#[test]
fn every_loaded_direction_eventually_gets_green() {
    let mut lights = Lights::new();
    let queues = [1, 1, 1, 1];
    let mut served = [false; 4];

    for _ in 0..(4 * (MAX_GREEN_TICKS + MIN_CLEAR_TICKS + 10)) {
        lights.update(&queues, false);
        if matches!(lights.phase, Phase::Green) {
            served[lights.green_dir] = true;
        }
        if served.iter().all(|served| *served) {
            break;
        }
    }

    assert!(served.iter().all(|served| *served), "{served:?}");
}

#[test]
fn new_lights_start_green_for_north() {
    let lights = Lights::new();
    assert_eq!(lights.phase, Phase::Green);
    assert!(lights.is_green(0));
    assert!(!lights.is_green(1));
    assert_eq!(lights.wait_ticks, [0; 4]);
}

#[test]
fn only_one_approach_is_green() {
    let mut lights = Lights::new();
    let queues = [2, 3, 1, 4];
    for _ in 0..2000 {
        lights.update(&queues, false);
        let green = (0..4).filter(|&d| lights.is_green(d)).count();
        assert!(green <= 1);
        assert_eq!(green == 1, lights.phase == Phase::Green);
    }
}

#[test]
fn green_holds_the_minimum_time_then_yields() {
    let mut lights = Lights::new();
    let queues = [1, 1, 0, 0];
    for _ in 0..(MIN_GREEN_TICKS - 1) {
        lights.update(&queues, false);
        assert_eq!(lights.phase, Phase::Green);
    }
    lights.update(&queues, false);
    assert_eq!(lights.phase, Phase::Clearing);
    assert_eq!(lights.clear_timer, 0);
}

#[test]
fn green_stays_without_other_demand() {
    let mut lights = Lights::new();
    let queues = [5, 0, 0, 0];
    for _ in 0..(2 * MAX_GREEN_TICKS) {
        lights.update(&queues, true);
    }
    assert_eq!(lights.phase, Phase::Green);
    assert_eq!(lights.green_dir, 0);
}

#[test]
fn critical_green_is_extended_until_the_maximum() {
    let mut lights = Lights::new();
    let queues = [7, 1, 0, 0];
    for _ in 0..(MAX_GREEN_TICKS - 1) {
        lights.update(&queues, false);
        assert_eq!(lights.phase, Phase::Green);
    }
    lights.update(&queues, false);
    assert_eq!(lights.phase, Phase::Clearing);
}

#[test]
fn just_below_critical_green_yields_at_the_minimum() {
    let mut lights = Lights::new();
    let queues = [6, 1, 0, 0];
    for _ in 0..MIN_GREEN_TICKS {
        lights.update(&queues, false);
    }
    assert_eq!(lights.phase, Phase::Clearing);
}

fn clear_and_choose(lights: &mut Lights, queues: &[usize; 4]) {
    lights.phase = Phase::Clearing;
    lights.clear_timer = MIN_CLEAR_TICKS;
    lights.update(queues, false);
    assert_eq!(lights.phase, Phase::Green);
}

#[test]
fn longest_wait_is_served_first() {
    let mut lights = Lights::new();
    lights.wait_ticks = [0, 10, 30, 20];
    clear_and_choose(&mut lights, &[1, 1, 1, 1]);
    assert_eq!(lights.green_dir, 2);
    assert_eq!(lights.wait_ticks[2], 0);
    assert_eq!(lights.wait_ticks[1], 11);
}

#[test]
fn equal_waits_are_resolved_round_robin() {
    let mut lights = Lights::new();
    lights.green_dir = 1;
    lights.round_robin_cursor = 2;
    lights.wait_ticks = [5, 5, 5, 5];
    clear_and_choose(&mut lights, &[1, 1, 1, 1]);
    assert_eq!(lights.green_dir, 2);
    assert_eq!(lights.round_robin_cursor, 3);

    let mut lights = Lights::new();
    lights.green_dir = 1;
    lights.round_robin_cursor = 2;
    lights.wait_ticks = [5, 5, 5, 5];
    clear_and_choose(&mut lights, &[1, 1, 0, 1]);
    assert_eq!(lights.green_dir, 3);
}

#[test]
fn critical_queue_beats_a_longer_wait() {
    let mut lights = Lights::new();
    lights.wait_ticks = [0, 100, 1, 0];
    clear_and_choose(&mut lights, &[0, 1, 7, 0]);
    assert_eq!(lights.green_dir, 2);
}

#[test]
fn overdue_queue_beats_a_critical_queue() {
    let mut lights = Lights::new();
    lights.wait_ticks = [0, MAX_WAIT_TICKS, 1, 0];
    clear_and_choose(&mut lights, &[0, 1, 8, 0]);
    assert_eq!(lights.green_dir, 1);
}

#[test]
fn previous_green_is_not_chosen_while_another_queue_waits() {
    let mut lights = Lights::new();
    lights.green_dir = 2;
    lights.wait_ticks = [0, 0, 500, 0];
    clear_and_choose(&mut lights, &[0, 1, 8, 0]);
    assert_eq!(lights.green_dir, 1);

    let mut lights = Lights::new();
    lights.green_dir = 2;
    clear_and_choose(&mut lights, &[0, 0, 8, 0]);
    assert_eq!(lights.green_dir, 2);
}

#[test]
fn empty_junction_keeps_the_previous_direction() {
    let mut lights = Lights::new();
    lights.green_dir = 3;
    clear_and_choose(&mut lights, &[0, 0, 0, 0]);
    assert_eq!(lights.green_dir, 3);
    assert_eq!(lights.round_robin_cursor, 0);
}

#[test]
fn waiting_time_counts_only_red_queues() {
    let mut lights = Lights::new();
    lights.update(&[1, 1, 0, 3], true);
    assert_eq!(lights.wait_ticks, [0, 1, 0, 1]);
    lights.update(&[1, 0, 0, 3], true);
    assert_eq!(lights.wait_ticks, [0, 0, 0, 2]);
    lights.wait_ticks[3] = u32::MAX;
    lights.update(&[1, 0, 0, 3], true);
    assert_eq!(lights.wait_ticks[3], u32::MAX);
}

#[test]
fn single_vehicle_beside_critical_lanes_is_served_within_the_bound() {
    let mut lights = Lights::new();
    let queues = [8, 8, 8, 1];
    let mut served_at = None;
    for tick in 0..=STARVATION_BOUND {
        if lights.is_green(3) {
            served_at = Some(tick);
            break;
        }
        lights.update(&queues, false);
    }
    let served_at = served_at.expect("approach 3 was starved");
    assert!(served_at > MAX_WAIT_TICKS);
}

#[test]
fn waiting_approach_is_served_despite_traffic_in_the_junction() {
    // The zone is busy during every green phase and for the first `k` ticks
    // of every all-red phase.
    let k: u32 = 30;
    let bound = STARVATION_BOUND + 5 * k;
    let mut lights = Lights::new();
    let queues = [8, 8, 8, 1];
    let mut all_red_ticks = 0;
    let mut served = false;
    for _ in 0..=bound {
        if lights.is_green(3) {
            served = true;
            break;
        }
        let occupied = match lights.phase {
            Phase::Green => {
                all_red_ticks = 0;
                true
            }
            Phase::Clearing => {
                all_red_ticks += 1;
                all_red_ticks <= k
            }
        };
        lights.update(&queues, occupied);
    }
    assert!(served);
}
