use road_intersection::controls::{command_for_key, command_for_panel, Command, Key};
use road_intersection::render::PanelAction;

#[test]
fn escape_requests_exit() {
    assert_eq!(command_for_key(Key::Escape), Command::Exit);
}

#[test]
fn arrow_keys_map_to_the_required_origins() {
    for (key, expected_origin) in [(Key::Up, 2), (Key::Down, 0), (Key::Left, 1), (Key::Right, 3)] {
        assert_eq!(command_for_key(key), Command::Spawn(expected_origin));
    }
}

#[test]
fn r_spawns_from_a_random_origin() {
    assert_eq!(command_for_key(Key::R), Command::SpawnRandom);
}

#[test]
fn pause_reset_and_other_keys() {
    assert_eq!(command_for_key(Key::Space), Command::TogglePause);
    assert_eq!(command_for_key(Key::Backspace), Command::Reset);
    assert_eq!(command_for_key(Key::Other), Command::Ignore);
}

#[test]
fn panel_buttons_issue_the_same_commands_as_keys() {
    assert_eq!(command_for_panel(PanelAction::Spawn(2)), command_for_key(Key::Up));
    assert_eq!(command_for_panel(PanelAction::Spawn(0)), command_for_key(Key::Down));
    assert_eq!(command_for_panel(PanelAction::Spawn(1)), command_for_key(Key::Left));
    assert_eq!(command_for_panel(PanelAction::Spawn(3)), command_for_key(Key::Right));
    assert_eq!(command_for_panel(PanelAction::SpawnRandom), command_for_key(Key::R));
    assert_eq!(command_for_panel(PanelAction::TogglePause), command_for_key(Key::Space));
    assert_eq!(command_for_panel(PanelAction::Reset), command_for_key(Key::Backspace));
}
