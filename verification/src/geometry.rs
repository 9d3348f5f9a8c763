//! Geometry constants of the junction, lane capacity and route exits.
//!
//! All lengths are in pixels. Every constant of the scene is a whole number
//! of pixels, so the library keeps them as integers.

use vstd::prelude::*;

verus! {

/// Width of the scene in pixels.
pub const W: u32 = 780;
/// Height of the scene in pixels.
pub const H: u32 = 780;
/// Width of the side panel in pixels.
pub const PANEL_W: u32 = 360;
/// Width of the whole window.
pub const WIN_W: u32 = W + PANEL_W;
/// Horizontal centre of the junction.
pub const CX: i32 = 390;
/// Vertical centre of the junction.
pub const CY: i32 = 390;
/// Width of one road half (one lane).
pub const LANE: i32 = 48;
/// Offset of a lane's centre line from the road's centre line.
pub const OFF: i32 = 24;
/// Progress origin of every path: vehicles appear this far outside the scene.
pub const START: i32 = -40;
/// Vehicle length.
pub const CAR_LEN: i32 = 30;
/// Vehicle width.
pub const CAR_W: i32 = 17;
/// Safety gap between two consecutive vehicles.
pub const GAP: i32 = 13;
/// Minimum distance between the centres of consecutive vehicles.
pub const FOLLOW_DISTANCE: i32 = CAR_LEN + GAP;
/// Depth of a pedestrian crossing.
pub const CROSSWALK_DEPTH: i32 = 18;
/// Coordinate (along the approach) at which the crossing begins.
pub const CROSSWALK_START: i32 = CY - LANE - CROSSWALK_DEPTH;
/// Coordinate of the stop line, just before the crossing.
pub const STOP_LINE_COORD: i32 = CROSSWALK_START - 5;
/// Thickness of the painted stop line.
pub const STOP_LINE_THICKNESS: i32 = 5;
/// Simulation updates per model second.
pub const FIXED_HZ: u32 = 60;
/// Speed of every vehicle, in pixels per model second.
pub const VEHICLE_SPEED: i32 = 96;

/// Length of an entry lane: from the spawn point to the physical stop line.
pub open spec fn lane_length() -> int {
    STOP_LINE_COORD - START
}

/// Number of vehicles that fit in an entry lane:
/// floor(lane length / (vehicle length + safety gap)).
pub open spec fn lane_capacity() -> nat {
    (lane_length() / (FOLLOW_DISTANCE as int)) as nat
}

/// Lane capacity, by the formula floor(lane length / (vehicle length + gap)).
pub fn capacity() -> (c: usize)
    ensures
        c == lane_capacity(),
        c * FOLLOW_DISTANCE <= lane_length(),
        lane_length() < (c + 1) * FOLLOW_DISTANCE,
{
    let length: i32 = STOP_LINE_COORD - START;
    assert(length == 359);
    let c: i32 = length / FOLLOW_DISTANCE;
    assert(c == 8);
    c as usize
}

/// The arm by which a vehicle from `origin` leaves on `route`.
/// Origins rotate clockwise as north, east, south and west; routes are
/// straight (0), left (1) and right (2). Any other route stays on its arm.
pub open spec fn exit_arm_of(origin: int, route: int) -> int {
    if route == 0 {
        (origin + 2) % 4
    } else if route == 1 {
        (origin + 1) % 4
    } else if route == 2 {
        (origin + 3) % 4
    } else {
        origin
    }
}

/// Returns the destination arm for origin `0..=3` and route `0..=2`.
///
/// Origins rotate clockwise as north, east, south and west. Routes are
/// straight, left and right.
pub fn exit_arm(origin: usize, route: usize) -> (arm: usize)
    ensures
        arm == exit_arm_of(origin as int, route as int),
{
    let base: usize = origin % 4;
    assert((base + 2) % 4 == (origin + 2) % 4) by (nonlinear_arith)
        requires base == origin % 4;
    assert((base + 1) % 4 == (origin + 1) % 4) by (nonlinear_arith)
        requires base == origin % 4;
    assert((base + 3) % 4 == (origin + 3) % 4) by (nonlinear_arith)
        requires base == origin % 4;
    match route {
        0 => (base + 2) % 4,
        1 => (base + 1) % 4,
        2 => (base + 3) % 4,
        _ => origin,
    }
}

/// Every route of an approach leaves the junction by another arm, and the
/// three routes of one approach leave by three different arms.
pub proof fn lemma_routes_leave_by_distinct_arms(origin: int, r1: int, r2: int)
    requires
        0 <= origin < 4,
        0 <= r1 < 3,
        0 <= r2 < 3,
    ensures
        0 <= exit_arm_of(origin, r1) < 4,
        exit_arm_of(origin, r1) != origin,
        r1 != r2 ==> exit_arm_of(origin, r1) != exit_arm_of(origin, r2),
{
}

/// Going straight twice brings a vehicle back to the arm it came from:
/// the straight exit of an approach is the opposite arm.
pub proof fn lemma_straight_is_opposite(origin: int)
    requires
        0 <= origin < 4,
    ensures
        exit_arm_of(exit_arm_of(origin, 0), 0) == origin,
{
}

/// Exits turn with the junction: rotating an approach a quarter turn
/// clockwise rotates each of its exits a quarter turn clockwise, for every
/// route. Together with the north approach (straight to the south, left to
/// the east, right to the west) this fixes every exit.
pub proof fn lemma_exits_rotate_with_the_junction(origin: int, route: int)
    requires
        0 <= origin < 4,
        0 <= route < 3,
    ensures
        exit_arm_of((origin + 1) % 4, route) == (exit_arm_of(origin, route) + 1) % 4,
        exit_arm_of(0, 0) == 2,
        exit_arm_of(0, 1) == 1,
        exit_arm_of(0, 2) == 3,
{
}

/// Only the origin's position on the compass matters: origins four apart
/// have the same exits.
pub proof fn lemma_exits_depend_on_origin_modulo_four(origin: int, route: int)
    requires
        0 <= origin,
        0 <= route < 3,
    ensures
        exit_arm_of(origin, route) == exit_arm_of(origin % 4, route),
{
    assert((origin % 4 + 2) % 4 == (origin + 2) % 4) by (nonlinear_arith)
        requires origin >= 0;
    assert((origin % 4 + 1) % 4 == (origin + 1) % 4) by (nonlinear_arith)
        requires origin >= 0;
    assert((origin % 4 + 3) % 4 == (origin + 3) % 4) by (nonlinear_arith)
        requires origin >= 0;
}

} // verus!
