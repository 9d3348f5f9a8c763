//! Side-panel layout and hit testing, and the blinking of turn signals.
//!
//! The panel sits to the right of the 780-pixel scene. Its controls are a
//! direction pad (north, east, south and west spawn buttons around a random
//! spawn button) above a row with the pause and reset buttons.

use crate::geometry::{capacity, lane_capacity};
use crate::lights::Phase;
use vstd::prelude::*;

verus! {

/// Left edge of the panel content (scene width plus a 20-pixel margin).
pub const PANEL_CONTENT_X: i32 = 800;
/// Width of the panel content (panel width minus two 20-pixel margins).
pub const PANEL_CONTENT_WIDTH: i32 = 320;
pub const CONTROL_TOP_Y: i32 = 540;
pub const CONTROL_ROW_GAP: i32 = 10;
pub const CONTROL_BUTTON_HEIGHT: i32 = 46;
pub const CONTROL_COLUMN_GAP: i32 = 10;
/// Width of a direction-pad column: a third of the content width left by two gaps.
pub const CONTROL_COLUMN_WIDTH: i32 = 100;
pub const CONTROL_BOTTOM_Y: i32 = CONTROL_TOP_Y + 3 * (CONTROL_BUTTON_HEIGHT + CONTROL_ROW_GAP);
pub const CONTROL_BOTTOM_HEIGHT: i32 = 44;
/// Half period of a blinking turn signal, in ticks (a third of a model second).
pub const TURN_SIGNAL_HALF_PERIOD_TICKS: u64 = 20;

#[derive(Clone, Copy, Debug, PartialEq, Eq, Structural)]
pub enum PanelAction {
    Spawn(usize),
    SpawnRandom,
    TogglePause,
    Reset,
}

#[derive(Clone, Copy, Debug)]
pub struct ViewState {
    pub visual_tick: u64,
    pub paused: bool,
    pub rejected_origin_mask: u8,
}

/// An axis-aligned rectangle: `x` and `y` are the top-left corner.
#[derive(Clone, Copy, Debug, PartialEq, Eq, Structural)]
pub struct Rect {
    pub x: i32,
    pub y: i32,
    pub width: u32,
    pub height: u32,
}

impl Rect {
    /// The point lies in the rectangle: left and top edges included, right
    /// and bottom edges excluded.
    pub open spec fn holds(self, x: int, y: int) -> bool {
        &&& self.x <= x < self.x + self.width
        &&& self.y <= y < self.y + self.height
    }

    pub fn contains_point(&self, x: i32, y: i32) -> (inside: bool)
        ensures
            inside == self.holds(x as int, y as int),
    {
        let right: i64 = self.x as i64 + self.width as i64;
        let bottom: i64 = self.y as i64 + self.height as i64;
        x >= self.x && (x as i64) < right && y >= self.y && (y as i64) < bottom
    }
}

pub open spec fn rect(x: int, y: int, width: int, height: int) -> Rect {
    Rect { x: x as i32, y: y as i32, width: width as u32, height: height as u32 }
}

/// The panel controls, in the order in which hit testing visits them.
pub open spec fn control_layout() -> Seq<(PanelAction, Rect)> {
    seq![
        (PanelAction::Spawn(2), rect(910, 540, 100, 46)),
        (PanelAction::Spawn(1), rect(800, 596, 100, 46)),
        (PanelAction::SpawnRandom, rect(910, 596, 100, 46)),
        (PanelAction::Spawn(3), rect(1020, 596, 100, 46)),
        (PanelAction::Spawn(0), rect(910, 652, 100, 46)),
        (PanelAction::TogglePause, rect(800, 708, 155, 44)),
        (PanelAction::Reset, rect(965, 708, 155, 44)),
    ]
}

/// The action of the first control from index `i` on that holds the point.
pub open spec fn action_from(i: int, x: int, y: int) -> Option<PanelAction>
    decreases 7 - i,
{
    if i < 0 || i >= 7 {
        None
    } else if control_layout()[i].1.holds(x, y) {
        Some(control_layout()[i].0)
    } else {
        action_from(i + 1, x, y)
    }
}

/// The panel action under the point `(x, y)`, if any.
pub open spec fn action_at(x: int, y: int) -> Option<PanelAction> {
    action_from(0, x, y)
}

/// Every panel control with its rectangle: the direction pad (south, east,
/// random, west, north), then pause and reset.
pub fn control_rects() -> (controls: [(PanelAction, Rect); 7])
    ensures
        controls@ == control_layout(),
{
    let left_x = PANEL_CONTENT_X;
    let center_x = left_x + CONTROL_COLUMN_WIDTH + CONTROL_COLUMN_GAP;
    let right_x = center_x + CONTROL_COLUMN_WIDTH + CONTROL_COLUMN_GAP;
    let row_step = CONTROL_BUTTON_HEIGHT + CONTROL_ROW_GAP;
    let bottom_width = (PANEL_CONTENT_WIDTH - CONTROL_COLUMN_GAP) / 2;
    let column_width = CONTROL_COLUMN_WIDTH as u32;
    let button_height = CONTROL_BUTTON_HEIGHT as u32;

    let controls = [
        (PanelAction::Spawn(2), Rect { x: center_x, y: CONTROL_TOP_Y, width: column_width, height: button_height }),
        (PanelAction::Spawn(1), Rect { x: left_x, y: CONTROL_TOP_Y + row_step, width: column_width, height: button_height }),
        (PanelAction::SpawnRandom, Rect { x: center_x, y: CONTROL_TOP_Y + row_step, width: column_width, height: button_height }),
        (PanelAction::Spawn(3), Rect { x: right_x, y: CONTROL_TOP_Y + row_step, width: column_width, height: button_height }),
        (PanelAction::Spawn(0), Rect { x: center_x, y: CONTROL_TOP_Y + 2 * row_step, width: column_width, height: button_height }),
        (PanelAction::TogglePause, Rect { x: left_x, y: CONTROL_BOTTOM_Y, width: bottom_width as u32, height: CONTROL_BOTTOM_HEIGHT as u32 }),
        (PanelAction::Reset, Rect { x: left_x + bottom_width + CONTROL_COLUMN_GAP, y: CONTROL_BOTTOM_Y, width: bottom_width as u32, height: CONTROL_BOTTOM_HEIGHT as u32 }),
    ];
    assert(controls@ =~= control_layout());
    controls
}

/// The panel action whose button holds the point `(x, y)`, if any.
pub fn panel_action_at(x: i32, y: i32) -> (action: Option<PanelAction>)
    ensures
        action == action_at(x as int, y as int),
{
    let controls = control_rects();
    let mut i: usize = 7;
    let mut found: Option<PanelAction> = None;
    while i > 0
        invariant
            i <= 7,
            controls@ == control_layout(),
            found == action_from(i as int, x as int, y as int),
        decreases i,
    {
        i -= 1;
        let (action, area) = controls[i];
        if area.contains_point(x, y) {
            found = Some(action);
        }
    }
    found
}

/// Whether a blinking turn signal is lit at `visual_tick`: lit during the
/// first half of each period.
pub fn turn_signal_lit(visual_tick: u64) -> (lit: bool)
    ensures
        lit == ((visual_tick / TURN_SIGNAL_HALF_PERIOD_TICKS) % 2 == 0),
{
    (visual_tick / TURN_SIGNAL_HALF_PERIOD_TICKS) % 2 == 0
}

/// Name of an approach in the panel.
pub open spec fn approach_name_of(origin: int) -> Seq<char> {
    if origin == 0 {
        "North"@
    } else if origin == 1 {
        "East"@
    } else if origin == 2 {
        "South"@
    } else {
        "West"@
    }
}

/// The name of approach `origin`: north, east, south or west.
pub fn approach_name(origin: usize) -> (name: &'static str)
    requires
        origin < 4,
    ensures
        name@ == approach_name_of(origin as int),
{
    match origin {
        0 => "North",
        1 => "East",
        2 => "South",
        _ => "West",
    }
}

/// Label of the active signal: the green approach, or the all-red phase.
pub open spec fn signal_label_of(phase: Phase, green_dir: int) -> Seq<char> {
    match phase {
        Phase::Clearing => "All-red - clearing"@,
        Phase::Green => "From "@ + approach_name_of(green_dir),
    }
}

/// The label of the active signal shown in the panel.
pub fn signal_label(phase: Phase, green_dir: usize) -> (label: String)
    requires
        phase == Phase::Green ==> green_dir < 4,
    ensures
        label@ == signal_label_of(phase, green_dir as int),
{
    match phase {
        Phase::Clearing => String::from_str("All-red - clearing"),
        Phase::Green => {
            let mut label = String::from_str("From ");
            label.append(approach_name(green_dir));
            label
        },
    }
}

/// A queue is shown as full once it has reached the lane capacity.
pub fn queue_at_capacity(queue: usize) -> (full: bool)
    ensures
        full == (queue >= lane_capacity()),
{
    queue >= capacity()
}

/// Label of the pause button: "Resume" while paused, "Pause" otherwise.
pub fn pause_label(paused: bool) -> (label: &'static str)
    ensures
        label@ == (if paused { "Resume"@ } else { "Pause"@ }),
{
    if paused {
        "Resume"
    } else {
        "Pause"
    }
}

/// No two panel buttons overlap, so a point selects at most one action.
pub proof fn lemma_controls_disjoint(i: int, j: int, x: int, y: int)
    requires
        0 <= i < 7,
        0 <= j < 7,
        i != j,
    ensures
        !(control_layout()[i].1.holds(x, y) && control_layout()[j].1.holds(x, y)),
{
}

/// A click inside the scene, left of the panel at x = 780, is never a panel action.
pub proof fn lemma_scene_click_is_not_a_panel_action(x: int, y: int)
    requires
        x < 780,
    ensures
        action_at(x, y) is None,
{
    reveal_with_fuel(action_from, 8);
}

/// Every button's own area maps to its own action.
pub proof fn lemma_button_area_selects_its_action(i: int, x: int, y: int)
    requires
        0 <= i < 7,
        control_layout()[i].1.holds(x, y),
    ensures
        action_at(x, y) == Some(control_layout()[i].0),
{
    reveal_with_fuel(action_from, 8);
}

/// A point outside every button selects no action, and a point inside a
/// button never selects another button's action.
pub proof fn lemma_points_outside_buttons_select_nothing(x: int, y: int)
    ensures
        (forall|i: int| 0 <= i < 7 ==> !#[trigger] control_layout()[i].1.holds(x, y))
            ==> action_at(x, y) is None,
        action_at(x, y) matches Some(a) ==> exists|i: int|
            0 <= i < 7 && control_layout()[i].0 == a && #[trigger] control_layout()[i].1.holds(
                x,
                y,
            ),
{
    reveal_with_fuel(action_from, 8);
    assert(control_layout()[0].1.holds(x, y) == control_layout()[0].1.holds(x, y));
    if forall|i: int| 0 <= i < 7 ==> !#[trigger] control_layout()[i].1.holds(x, y) {
        assert(!control_layout()[0].1.holds(x, y));
        assert(!control_layout()[1].1.holds(x, y));
        assert(!control_layout()[2].1.holds(x, y));
        assert(!control_layout()[3].1.holds(x, y));
        assert(!control_layout()[4].1.holds(x, y));
        assert(!control_layout()[5].1.holds(x, y));
        assert(!control_layout()[6].1.holds(x, y));
    }
    if control_layout()[0].1.holds(x, y) {
    } else if control_layout()[1].1.holds(x, y) {
    } else if control_layout()[2].1.holds(x, y) {
    } else if control_layout()[3].1.holds(x, y) {
    } else if control_layout()[4].1.holds(x, y) {
    } else if control_layout()[5].1.holds(x, y) {
    } else if control_layout()[6].1.holds(x, y) {
    }
}

/// A blinking signal alternates every half period and repeats every full period.
pub proof fn lemma_turn_signal_alternates(t: int)
    requires
        t >= 0,
    ensures
        ((t / 20) % 2 == 0) != (((t + 20) / 20) % 2 == 0),
        ((t / 20) % 2 == 0) == (((t + 40) / 20) % 2 == 0),
{
    assert((t + 20) / 20 == t / 20 + 1);
    assert((t + 40) / 20 == t / 20 + 2);
}

} // verus!
