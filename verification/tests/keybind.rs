use archon::config::Keybinds;
use archon::keybind::{Keybind, KeybindParseError};

#[test]
fn parses_modifiers_and_key() {
    let kb = Keybind::parse("Super+Shift+Q").unwrap();
    assert!(kb.mods.logo && kb.mods.shift);
    assert!(!kb.mods.ctrl && !kb.mods.alt);
    assert_eq!(kb.key, "q");
}

#[test]
fn accepts_aliases() {
    let kb = Keybind::parse("win + control + return").unwrap();
    assert!(kb.mods.logo && kb.mods.ctrl);
    assert_eq!(kb.key, "return");
}

#[test]
fn canonical_roundtrip() {
    let kb = Keybind::parse("alt+f4").unwrap();
    assert_eq!(kb.to_string_canonical(), "Alt+F4");
    assert_eq!(Keybind::parse(&kb.to_string_canonical()).unwrap(), kb);
}

#[test]
fn rejects_missing_or_extra_keys() {
    assert_eq!(Keybind::parse("Super+Shift"), Err(KeybindParseError::NoKey("Super+Shift".into())));
    assert!(matches!(Keybind::parse("a+b"), Err(KeybindParseError::MultipleKeys(_))));
}

#[test]
fn canonical_form_orders_modifiers() {
    let kb = Keybind::parse("shift+ctrl+alt+super+space").unwrap();
    assert_eq!(kb.to_string_canonical(), "Super+Ctrl+Alt+Shift+Space");
    assert_eq!(Keybind::parse("").unwrap_err(), KeybindParseError::NoKey("".into()));
    assert_eq!(
        Keybind::parse("a+b").unwrap_err(),
        KeybindParseError::MultipleKeys("a+b".into())
    );
}

#[test]
fn default_keybinds_are_their_documented_strings() {
    let k = Keybinds::default();
    let p = |s: &str| Keybind::parse(s).unwrap();
    assert_eq!(k.launch_terminal, p("Super+Return"));
    assert_eq!(k.close_window, p("Super+Q"));
    assert_eq!(k.toggle_dock, p("Super+D"));
    assert_eq!(k.toggle_wheel, p("Super+Space"));
    assert_eq!(k.lock, p("Super+L"));
    assert_eq!(k.toggle_fps_overlay, p("Super+F12"));
    assert_eq!(k.next_workspace, p("Super+Right"));
    assert_eq!(k.prev_workspace, p("Super+Left"));
    assert_eq!(k.toggle_tiling, p("Super+T"));
    assert_eq!(k.fullscreen, p("Super+F"));
}
