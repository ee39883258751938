//! The compositor's view of a window, independent of any display protocol.
//!
//! Each toplevel surface maps to one [`Window`]; the window-management logic
//! (focus, tiling, snapping, workspace assignment) works on these values.
use vstd::prelude::*;
use crate::text::{chars_of, contains_sub, has_prefix, has_sub, lower, starts_with, to_lower};

verus! {

/// A stable identifier for a managed window.
#[derive(Clone, Copy, Debug, PartialEq, Eq, Structural, Hash, PartialOrd, Ord)]
pub struct WindowId(pub u64);

/// An integer rectangle in output-local logical pixels.
#[derive(Clone, Copy, Debug, PartialEq, Eq, Structural)]
pub struct Geometry {
    pub x: i32,
    pub y: i32,
    pub w: i32,
    pub h: i32,
}

/// Integer division by two that rounds toward zero, as Rust's `/` does.
pub open spec fn half(v: int) -> int {
    if v >= 0 { v / 2 } else { -((-v) / 2) }
}

/// `g` shrunk by `gap` on every side, never narrower or shorter than one
/// pixel.
pub open spec fn inset_spec(g: Geometry, gap: i32) -> Geometry {
    Geometry {
        x: (g.x + gap) as i32,
        y: (g.y + gap) as i32,
        w: (if g.w - 2 * gap >= 1 { g.w - 2 * gap } else { 1 }) as i32,
        h: (if g.h - 2 * gap >= 1 { g.h - 2 * gap } else { 1 }) as i32,
    }
}

/// `inset_spec(g, gap)` can be computed without leaving `i32`.
pub open spec fn inset_fits(g: Geometry, gap: i32) -> bool {
    &&& i32::MIN <= g.x + gap <= i32::MAX
    &&& i32::MIN <= g.y + gap <= i32::MAX
    &&& i32::MIN <= 2 * gap <= i32::MAX
    &&& i32::MIN <= g.w - 2 * gap <= i32::MAX
    &&& i32::MIN <= g.h - 2 * gap <= i32::MAX
}

/// Whether the point lies inside `g`; the rectangle is half open.
pub open spec fn contains_spec(g: Geometry, px: int, py: int) -> bool {
    px >= g.x && px < g.x + g.w && py >= g.y && py < g.y + g.h
}

impl Geometry {
    pub fn new(x: i32, y: i32, w: i32, h: i32) -> (g: Geometry)
        ensures
            g == (Geometry { x, y, w, h }),
    {
        Geometry { x, y, w, h }
    }

    pub fn center(&self) -> (c: (i32, i32))
        requires
            i32::MIN <= self.x + half(self.w as int) <= i32::MAX,
            i32::MIN <= self.y + half(self.h as int) <= i32::MAX,
        ensures
            c.0 == self.x + half(self.w as int),
            c.1 == self.y + half(self.h as int),
    {
        (self.x + self.w / 2, self.y + self.h / 2)
    }

    /// Shrink by `gap` on every side (used to inset tiled windows).
    pub fn inset(self, gap: i32) -> (g: Geometry)
        requires
            inset_fits(self, gap),
        ensures
            g == inset_spec(self, gap),
    {
        let w = self.w - 2 * gap;
        let h = self.h - 2 * gap;
        Geometry {
            x: self.x + gap,
            y: self.y + gap,
            w: if w >= 1 { w } else { 1 },
            h: if h >= 1 { h } else { 1 },
        }
    }

    pub fn contains(&self, px: i32, py: i32) -> (b: bool)
        ensures
            b == contains_spec(*self, px as int, py as int),
    {
        let (x, y, w, h) = (self.x as i64, self.y as i64, self.w as i64, self.h as i64);
        let (px, py) = (px as i64, py as i64);
        px >= x && px < x + w && py >= y && py < y + h
    }
}

/// How a window is currently arranged.
#[derive(Clone, Copy, Debug, PartialEq, Eq, Structural, Default)]
pub enum WindowState {
    /// Free-floating; the user positions it.
    #[default]
    Floating,
    /// Managed by the active tiling layout.
    Tiled,
    /// Covers the whole output (no decorations, candidate for direct scanout).
    Fullscreen,
    /// Fills the work area but keeps the panel/dock reachable.
    Maximized,
}

/// A managed window.
#[derive(Clone, Debug, PartialEq)]
pub struct Window {
    pub id: WindowId,
    pub geometry: Geometry,
    pub state: WindowState,
    /// Application id (e.g. `"steam"`, `"org.kde.konsole"`), used for game
    /// detection and per-app rules.
    pub app_id: String,
    pub title: String,
    /// Geometry to restore to when leaving fullscreen/maximized/tiled.
    pub saved_floating: Option<Geometry>,
}

/// Whether an application id marks a game: Steam's `steam_app_<id>` pattern,
/// Riot's clients, or gamescope, compared case-insensitively (ASCII).
pub open spec fn is_game_app(app_id: Seq<char>) -> bool {
    let a = lower(app_id);
    ||| starts_with(a, "steam_app_"@)
    ||| contains_sub(a, "valorant"@)
    ||| contains_sub(a, "riotclient"@)
    ||| a == "gamescope"@
}

impl Window {
    pub fn new(id: WindowId, geometry: Geometry, app_id: &str) -> (w: Window)
        ensures
            w.id == id,
            w.geometry == geometry,
            w.state == WindowState::Floating,
            w.app_id@ == app_id@,
            w.title@ == Seq::<char>::empty(),
            w.saved_floating == None::<Geometry>,
    {
        Window {
            id,
            geometry,
            state: WindowState::Floating,
            app_id: app_id.to_owned(),
            title: String::new(),
            saved_floating: None,
        }
    }

    /// Heuristic: should this window be treated as a game for Game Mode?
    pub fn is_game(&self) -> (b: bool)
        ensures
            b == is_game_app(self.app_id@),
    {
        let a = to_lower(&chars_of(self.app_id.as_str()));
        let eq = {
            let g = chars_of("gamescope");
            a.len() == g.len() && has_prefix(&a, "gamescope")
        };
        proof {
            assert(a@.subrange(0, a@.len() as int) =~= a@);
        }
        has_prefix(&a, "steam_app_") || has_sub(&a, "valorant") || has_sub(&a, "riotclient") || eq
    }

    /// Remember the current geometry as the floating one, if not already saved
    /// and the window is floating.
    pub fn save_floating(&mut self)
        ensures
            final(self).id == old(self).id,
            final(self).geometry == old(self).geometry,
            final(self).state == old(self).state,
            final(self).app_id == old(self).app_id,
            final(self).title == old(self).title,
            final(self).saved_floating == (if old(self).saved_floating.is_none()
                && old(self).state == WindowState::Floating {
                Some(old(self).geometry)
            } else {
                old(self).saved_floating
            }),
    {
        if self.saved_floating.is_none() && self.state == WindowState::Floating {
            self.saved_floating = Some(self.geometry);
        }
    }
}

} // verus!
