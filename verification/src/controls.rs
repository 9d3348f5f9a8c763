//! Keyboard and panel controls and the commands they issue.
//!
//! The arrow keys spawn from the side the vehicle drives away from:
//! Up spawns from the south, Down from the north, Left from the east and
//! Right from the west. `R` spawns from a random side, Space pauses or
//! resumes, Backspace resets and Esc closes the simulation.

use crate::render::PanelAction;
use vstd::prelude::*;

verus! {

/// The keys the simulation reacts to.
#[derive(Clone, Copy, Debug, PartialEq, Eq, Structural)]
pub enum Key {
    Escape,
    Up,
    Down,
    Left,
    Right,
    R,
    Space,
    Backspace,
    Other,
}

/// What the application does in response to an input.
#[derive(Clone, Copy, Debug, PartialEq, Eq, Structural)]
pub enum Command {
    Exit,
    Spawn(usize),
    SpawnRandom,
    TogglePause,
    Reset,
    Ignore,
}

pub open spec fn key_command(key: Key) -> Command {
    match key {
        Key::Escape => Command::Exit,
        Key::Up => Command::Spawn(2),
        Key::Down => Command::Spawn(0),
        Key::Left => Command::Spawn(1),
        Key::Right => Command::Spawn(3),
        Key::R => Command::SpawnRandom,
        Key::Space => Command::TogglePause,
        Key::Backspace => Command::Reset,
        Key::Other => Command::Ignore,
    }
}

pub open spec fn panel_command(action: PanelAction) -> Command {
    match action {
        PanelAction::Spawn(origin) => Command::Spawn(origin),
        PanelAction::SpawnRandom => Command::SpawnRandom,
        PanelAction::TogglePause => Command::TogglePause,
        PanelAction::Reset => Command::Reset,
    }
}

/// The command issued by a key press.
pub fn command_for_key(key: Key) -> (command: Command)
    ensures
        command == key_command(key),
{
    match key {
        Key::Escape => Command::Exit,
        // Up = south, Down = north, Left = east, Right = west.
        Key::Up => Command::Spawn(2),
        Key::Down => Command::Spawn(0),
        Key::Left => Command::Spawn(1),
        Key::Right => Command::Spawn(3),
        Key::R => Command::SpawnRandom,
        Key::Space => Command::TogglePause,
        Key::Backspace => Command::Reset,
        Key::Other => Command::Ignore,
    }
}

/// The command issued by a click on a panel button.
pub fn command_for_panel(action: PanelAction) -> (command: Command)
    ensures
        command == panel_command(action),
{
    match action {
        PanelAction::Spawn(origin) => Command::Spawn(origin),
        PanelAction::SpawnRandom => Command::SpawnRandom,
        PanelAction::TogglePause => Command::TogglePause,
        PanelAction::Reset => Command::Reset,
    }
}

/// Every key other than Esc keeps the simulation running, and every spawn
/// key names one of the four origins.
pub proof fn lemma_only_escape_exits(key: Key)
    ensures
        (key_command(key) == Command::Exit) <==> key == Key::Escape,
        key_command(key) matches Command::Spawn(origin) ==> origin < 4,
{
}

/// Each spawning key and its panel button issue the same command: the
/// direction pad mirrors the arrow keys, and the `R`, pause and reset
/// buttons mirror their keys.
pub proof fn lemma_keys_and_buttons_agree()
    ensures
        key_command(Key::Up) == panel_command(PanelAction::Spawn(2)),
        key_command(Key::Down) == panel_command(PanelAction::Spawn(0)),
        key_command(Key::Left) == panel_command(PanelAction::Spawn(1)),
        key_command(Key::Right) == panel_command(PanelAction::Spawn(3)),
        key_command(Key::R) == panel_command(PanelAction::SpawnRandom),
        key_command(Key::Space) == panel_command(PanelAction::TogglePause),
        key_command(Key::Backspace) == panel_command(PanelAction::Reset),
{
}

} // verus!
