use archon::config::Keybinds;
use archon::keybind::Mods;
use archon::keymap::{Action, Keymap};

#[test]
fn default_bindings_resolve() {
    let km = Keymap::from_config(&Keybinds::default());
    let supershift = Mods { logo: true, shift: true, ..Mods::none() };
    let just_super = Mods { logo: true, ..Mods::none() };

    assert_eq!(km.action_for(just_super, "return"), Some(&Action::LaunchTerminal));
    assert_eq!(km.action_for(just_super, "q"), Some(&Action::CloseWindow));
    assert_eq!(km.action_for(just_super, "l"), Some(&Action::Lock));
    // A binding that needs shift must not fire without it.
    assert_eq!(km.action_for(supershift, "return"), None);
}

#[test]
fn numeric_workspace_bindings_exist() {
    let km = Keymap::from_config(&Keybinds::default());
    let just_super = Mods { logo: true, ..Mods::none() };
    assert_eq!(km.action_for(just_super, "1"), Some(&Action::SwitchWorkspace(0)));
    assert_eq!(km.action_for(just_super, "9"), Some(&Action::SwitchWorkspace(8)));
}

#[test]
fn unknown_combo_returns_none() {
    let km = Keymap::from_config(&Keybinds::default());
    assert_eq!(km.action_for(Mods::none(), "z"), None);
}

#[test]
fn every_default_action_is_reachable() {
    let km = Keymap::from_config(&Keybinds::default());
    let s = Mods { logo: true, ..Mods::none() };
    assert_eq!(km.action_for(s, "d"), Some(&Action::ToggleDock));
    assert_eq!(km.action_for(s, "space"), Some(&Action::ToggleWheel));
    assert_eq!(km.action_for(s, "f12"), Some(&Action::ToggleFpsOverlay));
    assert_eq!(km.action_for(s, "right"), Some(&Action::NextWorkspace));
    assert_eq!(km.action_for(s, "left"), Some(&Action::PrevWorkspace));
    assert_eq!(km.action_for(s, "t"), Some(&Action::ToggleTiling));
    assert_eq!(km.action_for(s, "f"), Some(&Action::Fullscreen));
    assert_eq!(km.action_for(s, "5"), Some(&Action::SwitchWorkspace(4)));
    assert_eq!(km.action_for(s, "0"), None);
}
