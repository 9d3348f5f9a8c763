use road_intersection::geometry::{
    capacity, exit_arm, CAR_LEN, CY, FOLLOW_DISTANCE, GAP, LANE, START, STOP_LINE_COORD, W,
    PANEL_W, WIN_W, CROSSWALK_START,
};

#[test]
fn capacity_is_measured_to_the_physical_stop_line() {
    let expected = ((STOP_LINE_COORD - START) as f64 / FOLLOW_DISTANCE as f64).floor() as usize;
    assert_eq!(capacity(), expected);
}

#[test]
fn capacity_uses_the_subject_formula() {
    let expected = (((CY - LANE) - START) as f64 / (CAR_LEN + GAP) as f64).floor() as usize;
    assert_eq!(capacity(), expected);
    assert_eq!(capacity(), 8);
}

#[test]
fn capacity_fills_the_lane_without_exceeding_it() {
    let c = capacity() as i32;
    assert!(c * FOLLOW_DISTANCE <= STOP_LINE_COORD - START);
    assert!((c + 1) * FOLLOW_DISTANCE > STOP_LINE_COORD - START);
}

#[test]
fn stop_line_is_before_the_crosswalk_and_window_holds_the_panel() {
    assert!(STOP_LINE_COORD < CROSSWALK_START);
    assert_eq!(STOP_LINE_COORD, 319);
    assert_eq!(WIN_W, W + PANEL_W);
}

#[test]
fn exit_arms_follow_the_clockwise_origins() {
    // north, east, south, west; straight, left, right
    assert_eq!(exit_arm(0, 0), 2);
    assert_eq!(exit_arm(0, 1), 1);
    assert_eq!(exit_arm(0, 2), 3);
    assert_eq!(exit_arm(3, 0), 1);
    assert_eq!(exit_arm(3, 1), 0);
    assert_eq!(exit_arm(3, 2), 2);
    assert_eq!(exit_arm(2, 7), 2);
    assert_eq!(exit_arm(usize::MAX, 0), 1);
}

#[test]
fn routes_of_one_origin_leave_by_three_other_arms() {
    for origin in 0..4 {
        let mut exits: Vec<usize> = (0..3).map(|route| exit_arm(origin, route)).collect();
        assert!(!exits.contains(&origin));
        exits.sort_unstable();
        exits.dedup();
        assert_eq!(exits.len(), 3);
        assert_eq!(exit_arm(exit_arm(origin, 0), 0), origin);
    }
}
