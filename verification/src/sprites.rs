//! Source-frame selection in the sprite sheets and the route colour code.
//!
//! `cars.bmp` holds one row per route (straight, left, right) with two
//! animation frames each; `traffic_lights.bmp` holds a red and a green frame.

use crate::render::Rect;
use vstd::prelude::*;

verus! {

pub const CAR_FRAME_W: u32 = 30;
pub const CAR_FRAME_H: u32 = 17;
pub const CAR_FRAMES: u32 = 2;
pub const CAR_ROUTES: u32 = 3;
pub const TRAFFIC_LIGHT_FRAME_W: u32 = 17;
pub const TRAFFIC_LIGHT_FRAME_H: u32 = 35;
pub const TRAFFIC_LIGHT_FRAMES: u32 = 2;
/// Ticks for which one car animation frame is shown.
pub const CAR_ANIMATION_TICKS: u64 = 10;

/// Animation frame of a car at `visual_tick`: frames alternate every
/// `CAR_ANIMATION_TICKS` ticks.
pub open spec fn car_frame_index(visual_tick: u64) -> int {
    (visual_tick / CAR_ANIMATION_TICKS) as int % (CAR_FRAMES as int)
}

/// Source rectangle of a car of `route` at `visual_tick` in `cars.bmp`:
/// the row of the route, the column of the animation frame.
pub fn car_frame(route: usize, visual_tick: u64) -> (frame: Rect)
    requires
        route * CAR_FRAME_H <= i32::MAX,
    ensures
        frame.x == car_frame_index(visual_tick) * CAR_FRAME_W,
        frame.y == route * CAR_FRAME_H,
        frame.width == CAR_FRAME_W,
        frame.height == CAR_FRAME_H,
{
    let index = (visual_tick / CAR_ANIMATION_TICKS) % 2;
    let row = route as i32;
    Rect { x: index as i32 * 30, y: row * 17, width: CAR_FRAME_W, height: CAR_FRAME_H }
}

/// Source rectangle of the traffic-light sprite: the red frame, or the
/// green frame to its right.
pub fn traffic_light_frame(green: bool) -> (frame: Rect)
    ensures
        frame.x == (if green { TRAFFIC_LIGHT_FRAME_W as int } else { 0 }),
        frame.y == 0,
        frame.width == TRAFFIC_LIGHT_FRAME_W,
        frame.height == TRAFFIC_LIGHT_FRAME_H,
{
    let column: i32 = if green { 1 } else { 0 };
    Rect { x: column * 17, y: 0, width: TRAFFIC_LIGHT_FRAME_W, height: TRAFFIC_LIGHT_FRAME_H }
}

/// A loaded sprite sheet is accepted only when its dimensions are exactly
/// the expected ones.
pub fn sheet_dimensions_ok(width: u32, height: u32, expected_width: u32, expected_height: u32) -> (ok:
    bool)
    ensures
        ok == (width == expected_width && height == expected_height),
{
    width == expected_width && height == expected_height
}

/// Colour of a route as (red, green, blue): straight is purple `#9971E4`,
/// left is orange `#F0A33A`, right (and any other route) is teal `#44C7B3`.
pub open spec fn route_rgb(route: int) -> (u8, u8, u8) {
    if route == 0 {
        (0x99u8, 0x71u8, 0xE4u8)
    } else if route == 1 {
        (0xF0u8, 0xA3u8, 0x3Au8)
    } else {
        (0x44u8, 0xC7u8, 0xB3u8)
    }
}

/// The vehicle and legend colour of a route.
pub fn route_color(route: usize) -> (rgb: (u8, u8, u8))
    ensures
        rgb == route_rgb(route as int),
{
    match route {
        0 => (0x99, 0x71, 0xE4),
        1 => (0xF0, 0xA3, 0x3A),
        _ => (0x44, 0xC7, 0xB3),
    }
}

/// The three routes are told apart by three different colours.
pub proof fn lemma_route_colors_distinct(a: int, b: int)
    requires
        0 <= a < 3,
        0 <= b < 3,
        a != b,
    ensures
        route_rgb(a) != route_rgb(b),
{
}

/// A car's source frame always lies inside the `cars.bmp` sheet of
/// `CAR_FRAMES` columns and `CAR_ROUTES` rows, for each of the three routes.
pub proof fn lemma_car_frame_inside_sheet(route: int, visual_tick: u64)
    requires
        0 <= route < 3,
    ensures
        0 <= car_frame_index(visual_tick) * CAR_FRAME_W,
        car_frame_index(visual_tick) * CAR_FRAME_W + CAR_FRAME_W <= CAR_FRAME_W * CAR_FRAMES,
        route * CAR_FRAME_H + CAR_FRAME_H <= CAR_FRAME_H * CAR_ROUTES,
{
}

} // verus!
