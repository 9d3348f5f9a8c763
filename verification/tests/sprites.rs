use road_intersection::sprites::sheet_dimensions_ok;
use road_intersection::render::Rect;
use road_intersection::sprites::{car_frame, route_color, traffic_light_frame};

#[test]
fn car_frames_alternate_every_ten_ticks() {
    assert_eq!(car_frame(0, 0), Rect { x: 0, y: 0, width: 30, height: 17 });
    assert_eq!(car_frame(1, 9), Rect { x: 0, y: 17, width: 30, height: 17 });
    assert_eq!(car_frame(2, 10), Rect { x: 30, y: 34, width: 30, height: 17 });
    assert_eq!(car_frame(2, 20), Rect { x: 0, y: 34, width: 30, height: 17 });
}

#[test]
fn traffic_light_frames_are_red_then_green() {
    assert_eq!(traffic_light_frame(false), Rect { x: 0, y: 0, width: 17, height: 35 });
    assert_eq!(traffic_light_frame(true), Rect { x: 17, y: 0, width: 17, height: 35 });
}

#[test]
fn route_colours_follow_the_legend() {
    assert_eq!(route_color(0), (0x99, 0x71, 0xE4));
    assert_eq!(route_color(1), (0xF0, 0xA3, 0x3A));
    assert_eq!(route_color(2), (0x44, 0xC7, 0xB3));
    assert_eq!(route_color(9), route_color(2));
}

#[test]
fn sheet_dimensions_must_match_exactly() {

    assert!(sheet_dimensions_ok(60, 51, 60, 51));
    assert!(!sheet_dimensions_ok(61, 51, 60, 51));
    assert!(!sheet_dimensions_ok(60, 50, 60, 51));
}
