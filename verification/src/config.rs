//! Typed configuration values for the desktop. Everything has a default, so a
//! fresh install needs no configuration file at all.
use vstd::prelude::*;
use crate::keybind::{
    Keybind, Mods, canonical, is_parsed_key, law_canonical_parses, modifier_kind, parsed_keys, parsed_mods,
};
use crate::text::lower;
use crate::text::string_from;

verus! {

/// Which screen edge a panel/dock lives on.
#[derive(Clone, Copy, Debug, PartialEq, Eq, Structural)]
pub enum Edge {
    Left,
    Right,
    Bottom,
    Top,
}

impl Default for Edge {
    fn default() -> (e: Edge)
        ensures
            e == Edge::Left,
    {
        Edge::Left
    }
}

/// Placement and behaviour of the dock.
#[derive(Clone, Copy, Debug, PartialEq, Eq, Structural)]
pub struct DockConfig {
    pub edge: Edge,
    /// Pixels from the edge that trigger reveal.
    pub reveal_zone: u32,
    /// Auto-hide the dock when not hovered.
    pub auto_hide: bool,
    /// Thickness of the dock in logical pixels.
    pub thickness: u32,
}

impl Default for DockConfig {
    fn default() -> (c: DockConfig)
        ensures
            c == (DockConfig { edge: Edge::Left, reveal_zone: 6, auto_hide: true, thickness: 64 }),
    {
        DockConfig { edge: Edge::Left, reveal_zone: 6, auto_hide: true, thickness: 64 }
    }
}

/// How the accent color is chosen.
#[derive(Clone, Debug, PartialEq, Eq)]
pub struct ThemeConfig {
    /// One of `signature`, `harmonize`, `contrast`.
    pub accent_mode: String,
    /// Optional manual accent override as `#rrggbb`; empty means "auto".
    pub accent_override: String,
}

impl Default for ThemeConfig {
    fn default() -> (c: ThemeConfig)
        ensures
            c.accent_mode@ == "harmonize"@,
            c.accent_override@ == Seq::<char>::empty(),
    {
        ThemeConfig { accent_mode: string_from("harmonize"), accent_override: String::new() }
    }
}

/// Gaming toggles.
#[derive(Clone, Copy, Debug, PartialEq, Eq, Structural)]
pub struct GamingConfig {
    /// Automatically engage Game Mode when a fullscreen game is focused.
    pub auto_game_mode: bool,
    /// Allow screen tearing for fullscreen games (lower latency).
    pub allow_tearing: bool,
    /// Show the FPS overlay by default.
    pub fps_overlay: bool,
}

impl Default for GamingConfig {
    fn default() -> (c: GamingConfig)
        ensures
            c == (GamingConfig { auto_game_mode: true, allow_tearing: true, fps_overlay: false }),
    {
        GamingConfig { auto_game_mode: true, allow_tearing: true, fps_overlay: false }
    }
}

/// The binding of each compositor action.
#[derive(Clone, Debug, PartialEq, Eq)]
pub struct Keybinds {
    pub launch_terminal: Keybind,
    pub close_window: Keybind,
    pub toggle_dock: Keybind,
    pub toggle_wheel: Keybind,
    pub lock: Keybind,
    pub toggle_fps_overlay: Keybind,
    pub next_workspace: Keybind,
    pub prev_workspace: Keybind,
    pub toggle_tiling: Keybind,
    pub fullscreen: Keybind,
}

/// Only the Super modifier held.
pub open spec fn super_only() -> Mods {
    Mods { logo: true, ctrl: false, alt: false, shift: false }
}

/// `kb` is Super plus the key named `key`.
pub open spec fn is_super_bind(kb: Keybind, key: Seq<char>) -> bool {
    kb.mods == super_only() && kb.key@ == key
}

fn super_bind(key: &str) -> (kb: Keybind)
    ensures
        is_super_bind(kb, key@),
{
    Keybind { mods: Mods { logo: true, ctrl: false, alt: false, shift: false }, key: string_from(key) }
}

impl Default for Keybinds {
    /// Super+Return terminal, Super+Q close, Super+D dock, Super+Space wheel,
    /// Super+L lock, Super+F12 FPS overlay, Super+Right / Super+Left next and
    /// previous workspace, Super+T tiling, Super+F fullscreen.
    fn default() -> (k: Keybinds)
        ensures
            is_super_bind(k.launch_terminal, "return"@),
            is_super_bind(k.close_window, "q"@),
            is_super_bind(k.toggle_dock, "d"@),
            is_super_bind(k.toggle_wheel, "space"@),
            is_super_bind(k.lock, "l"@),
            is_super_bind(k.toggle_fps_overlay, "f12"@),
            is_super_bind(k.next_workspace, "right"@),
            is_super_bind(k.prev_workspace, "left"@),
            is_super_bind(k.toggle_tiling, "t"@),
            is_super_bind(k.fullscreen, "f"@),
    {
        Keybinds {
            launch_terminal: super_bind("return"),
            close_window: super_bind("q"),
            toggle_dock: super_bind("d"),
            toggle_wheel: super_bind("space"),
            lock: super_bind("l"),
            toggle_fps_overlay: super_bind("f12"),
            next_workspace: super_bind("right"),
            prev_workspace: super_bind("left"),
            toggle_tiling: super_bind("t"),
            fullscreen: super_bind("f"),
        }
    }
}

/// A key name of lowercase ASCII letters and digits that names no modifier
/// is a key as the parser produces it.
proof fn lemma_plain_key(k: Seq<char>)
    requires
        k.len() > 0,
        forall|i: int| 0 <= i < k.len() ==> ('a' <= #[trigger] k[i] && k[i] <= 'z') || ('0' <= k[i] && k[i] <= '9'),
        modifier_kind(k) == 0,
    ensures
        is_parsed_key(k),
{
    assert(lower(k) =~= k);
}

/// Each default binding is what parsing its documented text (such as
/// `"Super+Return"`) gives: Super alone, and the key in lowercase.
pub proof fn law_default_bindings_parse()
    ensures
        parsed_mods("Super+Return"@) == super_only() && parsed_keys("Super+Return"@) == seq!["return"@],
        parsed_mods("Super+Q"@) == super_only() && parsed_keys("Super+Q"@) == seq!["q"@],
        parsed_mods("Super+D"@) == super_only() && parsed_keys("Super+D"@) == seq!["d"@],
        parsed_mods("Super+Space"@) == super_only() && parsed_keys("Super+Space"@) == seq!["space"@],
        parsed_mods("Super+L"@) == super_only() && parsed_keys("Super+L"@) == seq!["l"@],
        parsed_mods("Super+F12"@) == super_only() && parsed_keys("Super+F12"@) == seq!["f12"@],
        parsed_mods("Super+Right"@) == super_only() && parsed_keys("Super+Right"@) == seq!["right"@],
        parsed_mods("Super+Left"@) == super_only() && parsed_keys("Super+Left"@) == seq!["left"@],
        parsed_mods("Super+T"@) == super_only() && parsed_keys("Super+T"@) == seq!["t"@],
        parsed_mods("Super+F"@) == super_only() && parsed_keys("Super+F"@) == seq!["f"@],
{
    reveal_strlit("super");
    reveal_strlit("win");
    reveal_strlit("logo");
    reveal_strlit("meta");
    reveal_strlit("cmd");
    reveal_strlit("ctrl");
    reveal_strlit("control");
    reveal_strlit("alt");
    reveal_strlit("mod1");
    reveal_strlit("option");
    reveal_strlit("shift");
    reveal_strlit("Super");
    reveal_strlit("return");
    reveal_strlit("q");
    reveal_strlit("d");
    reveal_strlit("space");
    reveal_strlit("l");
    reveal_strlit("f12");
    reveal_strlit("right");
    reveal_strlit("left");
    reveal_strlit("t");
    reveal_strlit("f");
    reveal_strlit("Super+Return");
    reveal_strlit("Super+Q");
    reveal_strlit("Super+D");
    reveal_strlit("Super+Space");
    reveal_strlit("Super+L");
    reveal_strlit("Super+F12");
    reveal_strlit("Super+Right");
    reveal_strlit("Super+Left");
    reveal_strlit("Super+T");
    reveal_strlit("Super+F");
    let m = super_only();
    assert("super"@.len() == 5 && "win"@.len() == 3 && "logo"@.len() == 4 && "meta"@.len() == 4);
    assert("cmd"@.len() == 3 && "ctrl"@.len() == 4 && "control"@.len() == 7 && "alt"@.len() == 3);
    assert("mod1"@.len() == 4 && "option"@.len() == 6 && "shift"@.len() == 5);
    assert("return"@.len() == 6 && "q"@.len() == 1 && "d"@.len() == 1 && "space"@.len() == 5);
    assert("l"@.len() == 1 && "f12"@.len() == 3 && "right"@.len() == 5 && "left"@.len() == 4);
    assert("t"@.len() == 1 && "f"@.len() == 1);
    assert("return"@ != "option"@ && "return"@ != "control"@ && "return"@ != "super"@ && "return"@ != "shift"@) by {
        assert("return"@[0] != "option"@[0]);
    }
    assert("space"@ != "super"@ && "space"@ != "shift"@) by {
        assert("space"@[1] != "super"@[1]);
        assert("space"@[1] != "shift"@[1]);
    }
    assert("right"@ != "super"@ && "right"@ != "shift"@ && "right"@ != "mod1"@) by {
        assert("right"@[0] != "super"@[0]);
    }
    assert("left"@ != "logo"@ && "left"@ != "meta"@ && "left"@ != "ctrl"@ && "left"@ != "mod1"@) by {
        assert("left"@[1] != "logo"@[1]);
        assert("left"@[0] != "meta"@[0]);
    }
    assert("f12"@ != "win"@ && "f12"@ != "cmd"@ && "f12"@ != "alt"@) by {
        assert("f12"@[0] != "win"@[0]);
        assert("f12"@[0] != "cmd"@[0]);
        assert("f12"@[0] != "alt"@[0]);
    }
    lemma_plain_key("return"@);
    lemma_plain_key("q"@);
    lemma_plain_key("d"@);
    lemma_plain_key("space"@);
    lemma_plain_key("l"@);
    lemma_plain_key("f12"@);
    lemma_plain_key("right"@);
    lemma_plain_key("left"@);
    lemma_plain_key("t"@);
    lemma_plain_key("f"@);
    law_canonical_parses(m, "return"@);
    law_canonical_parses(m, "q"@);
    law_canonical_parses(m, "d"@);
    law_canonical_parses(m, "space"@);
    law_canonical_parses(m, "l"@);
    law_canonical_parses(m, "f12"@);
    law_canonical_parses(m, "right"@);
    law_canonical_parses(m, "left"@);
    law_canonical_parses(m, "t"@);
    law_canonical_parses(m, "f"@);
    assert(canonical(m, "return"@) =~= "Super+Return"@);
    assert(canonical(m, "q"@) =~= "Super+Q"@);
    assert(canonical(m, "d"@) =~= "Super+D"@);
    assert(canonical(m, "space"@) =~= "Super+Space"@);
    assert(canonical(m, "l"@) =~= "Super+L"@);
    assert(canonical(m, "f12"@) =~= "Super+F12"@);
    assert(canonical(m, "right"@) =~= "Super+Right"@);
    assert(canonical(m, "left"@) =~= "Super+Left"@);
    assert(canonical(m, "t"@) =~= "Super+T"@);
    assert(canonical(m, "f"@) =~= "Super+F"@);
}

} // verus!
