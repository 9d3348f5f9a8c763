use road_intersection::lights::Phase;
use road_intersection::render::{approach_name, pause_label, queue_at_capacity, signal_label};
use road_intersection::geometry::{H, W};
use road_intersection::render::{
    control_rects, panel_action_at, turn_signal_lit, PanelAction, Rect, ViewState,
    TURN_SIGNAL_HALF_PERIOD_TICKS,
};

#[test]
fn panel_buttons_map_to_their_actions() {
    for (action, rect) in control_rects() {
        assert_eq!(
            panel_action_at(
                rect.x + rect.width as i32 / 2,
                rect.y + rect.height as i32 / 2
            ),
            Some(action)
        );
    }
}

#[test]
fn scene_click_is_not_a_panel_action() {
    assert_eq!(panel_action_at((W / 2) as i32, (H / 2) as i32), None);
}

#[test]
fn control_layout_matches_the_panel_grid() {
    let controls = control_rects();
    assert_eq!(
        controls[0],
        (PanelAction::Spawn(2), Rect { x: 910, y: 540, width: 100, height: 46 })
    );
    assert_eq!(
        controls[6],
        (PanelAction::Reset, Rect { x: 965, y: 708, width: 155, height: 44 })
    );
    for (_, rect) in controls {
        assert!(rect.x >= W as i32);
        assert!(rect.y + rect.height as i32 <= H as i32);
    }
}

#[test]
fn button_edges_follow_the_half_open_rule() {
    assert_eq!(panel_action_at(910, 540), Some(PanelAction::Spawn(2)));
    assert_eq!(panel_action_at(1009, 585), Some(PanelAction::Spawn(2)));
    assert_eq!(panel_action_at(1010, 540), None);
    assert_eq!(panel_action_at(910, 586), None);
    assert_eq!(panel_action_at(909, 540), None);
    assert_eq!(panel_action_at(800, 708), Some(PanelAction::TogglePause));
    assert_eq!(panel_action_at(955, 708), None);
    assert_eq!(panel_action_at(965, 751), Some(PanelAction::Reset));
    assert_eq!(panel_action_at(i32::MAX, i32::MIN), None);
}

#[test]
fn no_point_lies_in_two_buttons() {
    for x in (780..1140).step_by(3) {
        for y in (500..780).step_by(3) {
            let hits = control_rects()
                .iter()
                .filter(|(_, rect)| rect.contains_point(x, y))
                .count();
            assert!(hits <= 1);
        }
    }
}

#[test]
fn turn_signal_blinks_every_half_period() {
    assert!(turn_signal_lit(0));
    assert!(turn_signal_lit(TURN_SIGNAL_HALF_PERIOD_TICKS - 1));
    assert!(!turn_signal_lit(TURN_SIGNAL_HALF_PERIOD_TICKS));
    assert!(turn_signal_lit(2 * TURN_SIGNAL_HALF_PERIOD_TICKS));
    for tick in 0..500u64 {
        assert_ne!(turn_signal_lit(tick), turn_signal_lit(tick + TURN_SIGNAL_HALF_PERIOD_TICKS));
    }
}

#[test]
fn view_state_is_plain_data() {
    let view = ViewState { visual_tick: 3, paused: true, rejected_origin_mask: 0b0101 };
    let copy = view;
    assert_eq!(copy.visual_tick, 3);
    assert!(copy.paused);
    assert_eq!(copy.rejected_origin_mask & 0b0100, 0b0100);
}

#[test]
fn panel_labels_follow_the_signal_and_queues() {


    assert_eq!(signal_label(Phase::Clearing, 9), "All-red - clearing");
    assert_eq!(signal_label(Phase::Green, 0), "From North");
    assert_eq!(signal_label(Phase::Green, 3), "From West");
    assert_eq!(approach_name(1), "East");
    assert_eq!(approach_name(2), "South");
    assert!(!queue_at_capacity(7));
    assert!(queue_at_capacity(8));
    assert!(queue_at_capacity(9));
    assert_eq!(pause_label(true), "Resume");
    assert_eq!(pause_label(false), "Pause");
}
