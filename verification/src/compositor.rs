//! The window-management core of the compositor: windows, workspaces, tiling,
//! snapping, fullscreen and Game Mode triggering, driven by key combinations.
//! It returns the side effects for the runtime to carry out instead of acting
//! on any display itself.
use vstd::prelude::*;
use crate::config::{GamingConfig, Keybinds};
use crate::gaming::GameMode;
use crate::keybind::Mods;
use crate::keymap::{Action, Keymap, keymap_spec, lookup};
use crate::layout::{
    SnapTarget, TilingMode, lemma_modest_area_fits, modest, resolve_fits, resolve_spec, tile,
    tile_fits, tile_spec,
};
use crate::text::string_from;
use crate::window::{Geometry, Window, WindowId, WindowState, is_game_app};
use crate::workspace::{
    SpaceView, Workspaces, cycled, lemma_without, remove_everywhere, space_add, space_wf, spaces_wf,
};

verus! {

/// A side effect the runtime should carry out after the core processes input.
#[derive(Clone, Debug, PartialEq, Eq)]
pub enum Effect {
    /// Spawn a process (e.g. the terminal).
    Spawn(String),
    /// Ask the focused client to close.
    CloseFocused,
    /// Show/hide the dock (handled by the shell).
    ToggleDock,
    /// Show/hide the control wheel (handled by the shell).
    ToggleWheel,
    /// Lock the session.
    Lock,
    /// Toggle the FPS overlay.
    ToggleFpsOverlay,
    /// Re-tile the active workspace because layout state changed.
    Relayout,
    /// Game Mode changed; the value is the new active state.
    GameModeChanged(bool),
}

/// The index of the first window with `id`.
pub open spec fn find_win(ws: Seq<Window>, id: WindowId) -> Option<int>
    decreases ws.len(),
{
    if ws.len() == 0 {
        None
    } else if ws[0].id == id {
        Some(0)
    } else {
        match find_win(ws.drop_first(), id) {
            Some(j) => Some(j + 1),
            None => None,
        }
    }
}

/// No two windows share an id.
pub open spec fn ids_unique(ws: Seq<Window>) -> bool {
    forall|i: int, j: int| 0 <= i < ws.len() && 0 <= j < ws.len() && i != j ==> ws[i].id != ws[j].id
}

/// The windows of `order` (a workspace's list) that exist in `ws` and are
/// tiled, in workspace order.
pub open spec fn tiled_of(order: Seq<WindowId>, ws: Seq<Window>) -> Seq<WindowId>
    decreases order.len(),
{
    if order.len() == 0 {
        Seq::empty()
    } else {
        let rest = tiled_of(order.drop_last(), ws);
        match find_win(ws, order.last()) {
            Some(j) => if ws[j].state == WindowState::Tiled { rest.push(order.last()) } else { rest },
            None => rest,
        }
    }
}

/// Position of the first occurrence of `id` in `ids`.
pub open spec fn pos_of(ids: Seq<WindowId>, id: WindowId) -> int
    decreases ids.len(),
{
    if ids.len() == 0 {
        0
    } else if ids[0] == id {
        0
    } else {
        1 + pos_of(ids.drop_first(), id)
    }
}

/// `ws` with each window listed in `ids` moved to the matching geometry.
pub open spec fn placed(ws: Seq<Window>, ids: Seq<WindowId>, geoms: Seq<Geometry>) -> Seq<Window> {
    ws.map_values(
        |w: Window|
            if ids.contains(w.id) {
                Window { geometry: geoms[pos_of(ids, w.id)], ..w }
            } else {
                w
            },
    )
}

/// What `relayout` makes of `ws`: the tiled windows of the active workspace
/// `order` get the geometries `tile` computes for them, in workspace order.
pub open spec fn laid_out(
    ws: Seq<Window>,
    order: Seq<WindowId>,
    area: Geometry,
    mode: TilingMode,
    gap: i32,
    ratio: u32,
) -> Seq<Window> {
    let t = tiled_of(order, ws);
    placed(ws, t, tile_spec(area, t.len() as int, mode, gap, ratio as int))
}

/// Every layout of any number of windows on `area` stays within `i32`, and
/// so does snapping.
pub open spec fn layout_ok(area: Geometry, gap: i32, ratio: u32) -> bool {
    &&& resolve_fits(area)
    &&& forall|c: int, m: TilingMode| 0 <= c <= i32::MAX ==> #[trigger] tile_fits(area, c, m, gap, ratio as int)
}

proof fn lemma_find_win(ws: Seq<Window>, id: WindowId)
    ensures
        match find_win(ws, id) {
            Some(j) => 0 <= j < ws.len() && ws[j].id == id && forall|k: int| 0 <= k < j ==> (#[trigger] ws[k]).id != id,
            None => forall|k: int| 0 <= k < ws.len() ==> (#[trigger] ws[k]).id != id,
        },
    decreases ws.len(),
{
    if ws.len() > 0 && ws[0].id != id {
        let rest = ws.drop_first();
        lemma_find_win(rest, id);
        assert forall|k: int| 0 < k < ws.len() implies #[trigger] ws[k] == rest[k - 1] by {}
    }
}

/// With unique ids, the window holding `id` is the one `find_win` finds.
proof fn lemma_find_unique(ws: Seq<Window>, id: WindowId, j: int)
    requires
        ids_unique(ws),
        0 <= j < ws.len(),
        ws[j].id == id,
    ensures
        find_win(ws, id) == Some(j),
{
    lemma_find_win(ws, id);
}

proof fn lemma_tiled_of(order: Seq<WindowId>, ws: Seq<Window>)
    ensures
        tiled_of(order, ws).len() <= order.len(),
        forall|x: WindowId| #[trigger] tiled_of(order, ws).contains(x) ==> order.contains(x) && find_win(ws, x) is Some,
        order.no_duplicates() ==> tiled_of(order, ws).no_duplicates(),
    decreases order.len(),
{
    if order.len() > 0 {
        let init = order.drop_last();
        let a = order.last();
        lemma_tiled_of(init, ws);
        let rest = tiled_of(init, ws);
        let t = tiled_of(order, ws);
        assert forall|x: WindowId| #[trigger] t.contains(x) implies order.contains(x) && find_win(ws, x) is Some by {
            let i = choose|i: int| 0 <= i < t.len() && t[i] == x;
            if i < rest.len() {
                assert(rest[i] == x);
                assert(rest.contains(x));
                let q = choose|q: int| 0 <= q < init.len() && init[q] == x;
                assert(order[q] == x);
            } else {
                assert(order[order.len() - 1] == x);
            }
        }
        if order.no_duplicates() {
            assert(init.no_duplicates()) by {
                assert forall|p: int, q: int| 0 <= p < init.len() && 0 <= q < init.len() && p != q implies init[p] != init[q] by {
                    assert(init[p] == order[p] && init[q] == order[q]);
                }
            }
            if t != rest {
                assert(!rest.contains(a)) by {
                    if rest.contains(a) {
                        let q = choose|q: int| 0 <= q < init.len() && init[q] == a;
                        assert(order[q] == order[order.len() - 1]);
                    }
                }
                assert forall|p: int, q: int| 0 <= p < t.len() && 0 <= q < t.len() && p != q implies t[p] != t[q] by {
                    if p < rest.len() && q < rest.len() {
                    } else if p < rest.len() {
                        assert(rest.contains(rest[p]));
                    } else {
                        assert(rest.contains(rest[q]));
                    }
                }
            }
        }
    }
}

proof fn lemma_pos_of(ids: Seq<WindowId>, k: int)
    requires
        ids.no_duplicates(),
        0 <= k < ids.len(),
    ensures
        pos_of(ids, ids[k]) == k,
    decreases k,
{
    if k > 0 {
        let rest = ids.drop_first();
        assert(ids[0] != ids[k]);
        assert(rest[k - 1] == ids[k]);
        assert(rest.no_duplicates()) by {
            assert forall|p: int, q: int| 0 <= p < rest.len() && 0 <= q < rest.len() && p != q implies rest[p] != rest[q] by {
                assert(rest[p] == ids[p + 1] && rest[q] == ids[q + 1]);
            }
        }
        lemma_pos_of(rest, k - 1);
    }
}

/// `ws` without the window holding `id`.
pub open spec fn dropped(ws: Seq<Window>, id: WindowId) -> Seq<Window> {
    match find_win(ws, id) {
        Some(j) => ws.remove(j),
        None => ws,
    }
}

/// `w` snapped to `t` on `area`: its floating geometry saved, floating,
/// and covering the target's rectangle.
pub open spec fn snapped(w: Window, t: SnapTarget, area: Geometry) -> Window {
    Window { saved_floating: saved(w), state: WindowState::Floating, geometry: resolve_spec(t, area), ..w }
}

/// The windows of `ws` listed in `order` put in state `st`.
pub open spec fn restated(ws: Seq<Window>, order: Seq<WindowId>, st: WindowState) -> Seq<Window> {
    ws.map_values(|w: Window| if order.contains(w.id) { Window { state: st, ..w } } else { w })
}

/// A single effect.
fn just(e: Effect) -> (v: Vec<Effect>)
    ensures
        v@ == seq![e],
{
    let mut v: Vec<Effect> = Vec::new();
    v.push(e);
    v
}

/// The effect of launching the terminal.
fn spawn_terminal() -> (v: Vec<Effect>)
    ensures
        v@.len() == 1,
        v@[0] is Spawn,
        v@[0]->Spawn_0@ == "foot"@,
{
    let mut v: Vec<Effect> = Vec::new();
    v.push(Effect::Spawn(string_from("foot")));
    v
}

/// The whole compositor's window-management state.
pub struct CompositorCore {
    pub windows: Vec<Window>,
    pub workspaces: Workspaces,
    pub keymap: Keymap,
    pub tiling: bool,
    pub tiling_mode: TilingMode,
    pub game_mode: GameMode,
    /// The usable work area (output minus reserved panel space).
    pub work_area: Geometry,
    /// Gap between tiled windows, in logical pixels.
    pub gap: i32,
    /// Master column fraction for [`TilingMode::MasterStack`], in
    /// thousandths.
    pub master_ratio: u32,
    /// The id the next added window receives.
    pub next_id: u64,
    /// Engage Game Mode automatically when a fullscreen game gets focus.
    pub auto_game_mode: bool,
}

/// The window `focused` names, with its index.
pub open spec fn focused_window(ws: Seq<Window>, focused: Option<WindowId>) -> Option<int> {
    match focused {
        Some(id) => find_win(ws, id),
        None => None,
    }
}

/// The focused window is a fullscreen game.
pub open spec fn fullscreen_game(ws: Seq<Window>, focused: Option<WindowId>) -> bool {
    match focused_window(ws, focused) {
        Some(j) => is_game_app(ws[j].app_id@) && ws[j].state == WindowState::Fullscreen,
        None => false,
    }
}

/// `w` after `save_floating`.
pub open spec fn saved(w: Window) -> Option<Geometry> {
    if w.saved_floating.is_none() && w.state == WindowState::Floating {
        Some(w.geometry)
    } else {
        w.saved_floating
    }
}

/// `w` after a fullscreen toggle on a work area `area`: leaving fullscreen
/// restores the saved floating geometry (if any) and floats it; entering
/// saves the floating geometry and covers the area.
pub open spec fn fullscreen_flipped(w: Window, area: Geometry) -> Window {
    if w.state == WindowState::Fullscreen {
        Window {
            state: WindowState::Floating,
            geometry: match w.saved_floating {
                Some(g) => g,
                None => w.geometry,
            },
            saved_floating: None,
            ..w
        }
    } else {
        Window { saved_floating: saved(w), state: WindowState::Fullscreen, geometry: area, ..w }
    }
}

impl CompositorCore {
    /// Windows of the active workspace, in order.
    pub open spec fn active_order(&self) -> Seq<WindowId> {
        self.workspaces@.spaces[self.workspaces@.active].0
    }

    /// The state the core keeps consistent: workspaces well formed, window
    /// ids unique and below the next id to hand out, and a work area on which
    /// every layout and snap stays in range.
    pub open spec fn wf(&self) -> bool {
        &&& self.workspaces.wf()
        &&& ids_unique(self.windows@)
        &&& forall|i: int| 0 <= i < self.windows@.len() ==> (#[trigger] self.windows@[i]).id.0 < self.next_id
        &&& layout_ok(self.work_area, self.gap, self.master_ratio)
        &&& forall|i: int| 0 <= i < self.workspaces@.spaces.len() ==> (#[trigger] self.workspaces@.spaces[i]).0.len() <= i32::MAX
    }

    /// The parts of the core that no operation changes.
    pub open spec fn same_setup(&self, other: &CompositorCore) -> bool {
        &&& self.keymap@ == other.keymap@
        &&& self.tiling_mode == other.tiling_mode
        &&& self.work_area == other.work_area
        &&& self.gap == other.gap
        &&& self.master_ratio == other.master_ratio
        &&& self.auto_game_mode == other.auto_game_mode
    }

    /// The focused window of the active workspace, if any.
    pub open spec fn focus(&self) -> Option<WindowId> {
        self.workspaces@.spaces[self.workspaces@.active].1
    }

    /// Everything but the workspaces is as in `other`.
    pub open spec fn only_workspaces_differ(&self, other: &CompositorCore) -> bool {
        &&& self.same_setup(other)
        &&& self.windows == other.windows
        &&& self.tiling == other.tiling
        &&& self.game_mode == other.game_mode
        &&& self.next_id == other.next_id
    }

    /// What a fullscreen toggle does, from `self` to `after` with effects
    /// `r`: the focused window (if managed) enters or leaves fullscreen; with
    /// automatic Game Mode on and a focused window, Game Mode is brought in
    /// line with whether that window is now a fullscreen game, reporting the
    /// change.
    pub open spec fn fullscreen_toggled(&self, after: &CompositorCore, r: Seq<Effect>) -> bool {
        let f = self.focus();
        let want = fullscreen_game(after.windows@, f);
        &&& after.same_setup(self)
        &&& after.workspaces == self.workspaces
        &&& after.tiling == self.tiling
        &&& after.next_id == self.next_id
        &&& after.windows@ == match focused_window(self.windows@, f) {
            Some(j) => self.windows@.update(j, fullscreen_flipped(self.windows@[j], self.work_area)),
            None => self.windows@,
        }
        &&& if f is Some && self.auto_game_mode && want != self.game_mode.active {
            after.game_mode.active == want && r == seq![Effect::GameModeChanged(want)]
        } else {
            after.game_mode == self.game_mode && r.len() == 0
        }
    }

    /// What `handle_key` does for `action`, from `self` to `after` with
    /// effects `r`.
    pub open spec fn key_handled(&self, action: Action, after: &CompositorCore, r: Seq<Effect>) -> bool {
        match action {
            Action::LaunchTerminal => *after == *self && r.len() == 1
                && r[0] is Spawn && r[0]->Spawn_0@ == "foot"@,
            Action::CloseWindow => *after == *self && r == seq![Effect::CloseFocused],
            Action::ToggleDock => *after == *self && r == seq![Effect::ToggleDock],
            Action::ToggleWheel => *after == *self && r == seq![Effect::ToggleWheel],
            Action::Lock => *after == *self && r == seq![Effect::Lock],
            Action::ToggleFpsOverlay => *after == *self && r == seq![Effect::ToggleFpsOverlay],
            Action::NextWorkspace => after.only_workspaces_differ(self) && r == seq![Effect::Relayout]
                && after.workspaces@.spaces == self.workspaces@.spaces
                && after.workspaces@.active == cycled(self.workspaces@.active, self.workspaces@.spaces.len() as int, true),
            Action::PrevWorkspace => after.only_workspaces_differ(self) && r == seq![Effect::Relayout]
                && after.workspaces@.spaces == self.workspaces@.spaces
                && after.workspaces@.active == cycled(self.workspaces@.active, self.workspaces@.spaces.len() as int, false),
            Action::SwitchWorkspace(n) => after.only_workspaces_differ(self) && r == seq![Effect::Relayout]
                && after.workspaces@.spaces == self.workspaces@.spaces
                && after.workspaces@.active == if n < self.workspaces@.spaces.len() { n as int } else { self.workspaces@.active },
            Action::ToggleTiling => {
                let st = if self.tiling { WindowState::Floating } else { WindowState::Tiled };
                let ws = restated(self.windows@, self.active_order(), st);
                &&& after.same_setup(self)
                &&& after.workspaces == self.workspaces
                &&& after.game_mode == self.game_mode
                &&& after.next_id == self.next_id
                &&& after.tiling == !self.tiling
                &&& after.windows@ == if after.tiling { self.relaid(ws) } else { ws }
                &&& r == seq![Effect::Relayout]
            },
            Action::Fullscreen => self.fullscreen_toggled(after, r),
        }
    }

    /// The windows after `relayout`.
    pub open spec fn relaid(&self, ws: Seq<Window>) -> Seq<Window> {
        laid_out(ws, self.active_order(), self.work_area, self.tiling_mode, self.gap, self.master_ratio)
    }

    /// Build the core from the user's key bindings and gaming settings: nine
    /// empty workspaces, floating windows, master/stack tiling with an 8px gap
    /// and a 0.6 master ratio, on a 1920x1080 work area.
    pub fn new(keybinds: &Keybinds, gaming: &GamingConfig) -> (c: CompositorCore)
        ensures
            c.wf(),
            c.windows@.len() == 0,
            c.workspaces@.spaces.len() == 9,
            c.workspaces@.active == 0,
            forall|i: int| 0 <= i < 9 ==> #[trigger] c.workspaces@.spaces[i] == (Seq::<WindowId>::empty(), None::<WindowId>),
            c.keymap@ == keymap_spec(*keybinds),
            !c.tiling,
            c.tiling_mode == TilingMode::MasterStack,
            !c.game_mode.active,
            c.work_area == (Geometry { x: 0, y: 0, w: 1920, h: 1080 }),
            c.gap == 8,
            c.master_ratio == 600,
            c.next_id == 1,
            c.auto_game_mode == gaming.auto_game_mode,
    {
        let c = CompositorCore {
            windows: Vec::new(),
            workspaces: Workspaces::new(9),
            keymap: Keymap::from_config(keybinds),
            tiling: false,
            tiling_mode: TilingMode::MasterStack,
            game_mode: GameMode::new(),
            work_area: Geometry::new(0, 0, 1920, 1080),
            gap: 8,
            master_ratio: 600,
            next_id: 1,
            auto_game_mode: gaming.auto_game_mode,
        };
        proof {
            assert forall|n: int, m: TilingMode| 0 <= n <= i32::MAX implies #[trigger] tile_fits(c.work_area, n, m, c.gap, c.master_ratio as int) by {
                if n >= 1 {
                    lemma_modest_area_fits(c.work_area, n, m, c.gap, c.master_ratio as int);
                }
            }
        }
        c
    }

    /// Index of the first window with `id`.
    fn find_index(&self, id: WindowId) -> (r: Option<usize>)
        ensures
            match r {
                Some(j) => find_win(self.windows@, id) == Some(j as int),
                None => find_win(self.windows@, id) is None,
            },
    {
        let mut i: usize = 0;
        while i < self.windows.len()
            invariant
                i <= self.windows@.len(),
                forall|k: int| 0 <= k < i ==> (#[trigger] self.windows@[k]).id != id,
            decreases self.windows.len() - i,
        {
            if self.windows[i].id == id {
                proof {
                    lemma_find_win(self.windows@, id);
                }
                return Some(i);
            }
            i += 1;
        }
        proof {
            lemma_find_win(self.windows@, id);
        }
        None
    }

    /// The window with `id`, if it is managed.
    pub fn window(&self, id: WindowId) -> (r: Option<&Window>)
        ensures
            match find_win(self.windows@, id) {
                Some(j) => r == Some(&self.windows@[j]),
                None => r is None,
            },
    {
        proof {
            lemma_find_win(self.windows@, id);
        }
        match self.find_index(id) {
            Some(j) => Some(&self.windows[j]),
            None => None,
        }
    }

    /// Whether the currently focused window is a fullscreen game: the signal
    /// the runtime uses to engage direct scanout and (optionally) Game Mode.
    pub fn focused_is_fullscreen_game(&self) -> (b: bool)
        requires
            self.wf(),
        ensures
            b == fullscreen_game(self.windows@, self.workspaces@.spaces[self.workspaces@.active].1),
    {
        match self.workspaces.focused() {
            Some(id) => match self.window(id) {
                Some(w) => w.is_game() && w.state == WindowState::Fullscreen,
                None => false,
            },
            None => false,
        }
    }

    /// Recompute geometries for the tiled windows on the active workspace,
    /// writing the results back into each [`Window`].
    pub fn relayout(&mut self)
        requires
            old(self).wf(),
        ensures
            final(self).wf(),
            final(self).same_setup(old(self)),
            final(self).windows@ == old(self).relaid(old(self).windows@),
            final(self).workspaces == old(self).workspaces,
            final(self).tiling == old(self).tiling,
            final(self).game_mode == old(self).game_mode,
            final(self).next_id == old(self).next_id,
    {
        let ghost w0 = self.windows@;
        proof {
            self.workspaces.lemma_view_wf();
            assert(space_wf(self.workspaces@.spaces[self.workspaces@.active]));
        }
        let mut ids: Vec<WindowId> = Vec::new();
        {
            let order = &self.workspaces.active().windows;
            let n = order.len();
            let mut i: usize = 0;
            while i < n
                invariant
                    n == order@.len(),
                    i <= n,
                    self.windows@ == w0,
                    ids@ == tiled_of(order@.take(i as int), w0),
                decreases n - i,
            {
                let id = order[i];
                proof {
                    assert(order@.take(i as int + 1).drop_last() =~= order@.take(i as int));
                    assert(order@.take(i as int + 1).last() == id);
                }
                proof {
                    lemma_find_win(w0, id);
                }
                match self.find_index(id) {
                    Some(j) => {
                        if self.windows[j].state == WindowState::Tiled {
                            ids.push(id);
                        }
                    },
                    None => {},
                }
                i += 1;
            }
            proof {
                assert(order@.take(n as int) =~= order@);
            }
        }
        let ghost order = self.active_order();
        proof {
            lemma_tiled_of(order, w0);
            assert(tile_fits(self.work_area, ids@.len() as int, self.tiling_mode, self.gap, self.master_ratio as int));
        }
        let geoms = tile(self.work_area, ids.len(), self.tiling_mode, self.gap, self.master_ratio);
        let m = ids.len();
        let mut k: usize = 0;
        while k < m
            invariant
                m == ids@.len(),
                k <= m,
                self.workspaces == old(self).workspaces,
                self.keymap == old(self).keymap,
                self.tiling == old(self).tiling,
                self.tiling_mode == old(self).tiling_mode,
                self.game_mode == old(self).game_mode,
                self.work_area == old(self).work_area,
                self.gap == old(self).gap,
                self.master_ratio == old(self).master_ratio,
                self.next_id == old(self).next_id,
                self.auto_game_mode == old(self).auto_game_mode,
                w0 == old(self).windows@,
                geoms@.len() == m,
                ids@.no_duplicates(),
                ids_unique(w0),
                forall|x: WindowId| #[trigger] ids@.contains(x) ==> find_win(w0, x) is Some,
                self.windows@.len() == w0.len(),
                forall|j: int| 0 <= j < w0.len() ==> #[trigger] self.windows@[j] == if ids@.take(k as int).contains(w0[j].id) {
                    Window { geometry: geoms@[pos_of(ids@, w0[j].id)], ..w0[j] }
                } else {
                    w0[j]
                },
            decreases m - k,
        {
            let id = ids[k];
            proof {
                assert(ids@.contains(id));
                lemma_find_win(w0, id);
                lemma_pos_of(ids@, k as int);
            }
            let ghost jj = find_win(w0, id)->0;
            proof {
                assert(self.windows@[jj].id == id);
                assert forall|p: int, q: int| 0 <= p < self.windows@.len() && 0 <= q < self.windows@.len() && p != q
                    implies self.windows@[p].id != self.windows@[q].id by {
                    assert(self.windows@[p].id == w0[p].id && self.windows@[q].id == w0[q].id);
                }
                lemma_find_unique(self.windows@, id, jj);
            }
            match self.find_index(id) {
                Some(j) => {
                    self.windows[j].geometry = geoms[k];
                },
                None => {},
            }
            proof {
                assert forall|j: int| 0 <= j < w0.len() implies #[trigger] self.windows@[j] == if ids@.take(k as int + 1).contains(w0[j].id) {
                    Window { geometry: geoms@[pos_of(ids@, w0[j].id)], ..w0[j] }
                } else {
                    w0[j]
                } by {
                    let t0 = ids@.take(k as int);
                    let t1 = ids@.take(k as int + 1);
                    assert(t1 =~= t0.push(id));
                    if j == jj {
                        assert(t1[k as int] == id);
                        assert(t1.contains(id));
                    } else {
                        assert(w0[j].id != id);
                        if t1.contains(w0[j].id) {
                            let q = choose|q: int| 0 <= q < t1.len() && t1[q] == w0[j].id;
                            assert(q < k);
                            assert(t0[q] == w0[j].id);
                        }
                        if t0.contains(w0[j].id) {
                            let q = choose|q: int| 0 <= q < t0.len() && t0[q] == w0[j].id;
                            assert(t1[q] == w0[j].id);
                        }
                    }
                }
            }
            k += 1;
        }
        proof {
            assert(ids@.take(m as int) =~= ids@);
            assert(self.windows@ =~= placed(w0, ids@, geoms@));
        }
    }

    /// Register a newly mapped window and return its id. Adds it to the active
    /// workspace, focuses it, and re-tiles if tiling is on.
    pub fn add_window(&mut self, app_id: &str, geometry: Geometry) -> (id: WindowId)
        requires
            old(self).wf(),
            old(self).next_id < u64::MAX,
            old(self).active_order().len() < i32::MAX,
        ensures
            final(self).wf(),
            final(self).same_setup(old(self)),
            id == WindowId(old(self).next_id),
            final(self).next_id == old(self).next_id + 1,
            final(self).tiling == old(self).tiling,
            final(self).game_mode == old(self).game_mode,
            final(self).workspaces@.active == old(self).workspaces@.active,
            final(self).workspaces@.spaces == old(self).workspaces@.spaces.update(
                old(self).workspaces@.active,
                space_add(old(self).workspaces@.spaces[old(self).workspaces@.active], id),
            ),
            final(self).windows@.len() == old(self).windows@.len() + 1,
            ({
                let w = final(self).windows@.last();
                &&& w.id == id
                &&& w.app_id@ == app_id@
                &&& w.title@.len() == 0
                &&& w.saved_floating is None
                &&& w.state == if old(self).tiling { WindowState::Tiled } else { WindowState::Floating }
            }),
            !old(self).tiling ==> final(self).windows@ == old(self).windows@.push(final(self).windows@.last())
                && final(self).windows@.last().geometry == geometry,
            old(self).tiling ==> final(self).windows@ == final(self).relaid(
                old(self).windows@.push(Window { geometry, ..final(self).windows@.last() }),
            ),
    {
        let id = WindowId(self.next_id);
        self.next_id = self.next_id + 1;
        let mut win = Window::new(id, geometry, app_id);
        if self.tiling {
            win.state = WindowState::Tiled;
        }
        let ghost pushed = win;
        self.windows.push(win);
        proof {
            old(self).workspaces.lemma_view_wf();
        }
        self.workspaces.add_window(id);
        proof {
            let n = old(self).windows@.len();
            assert(self.windows@[n as int] == pushed);
            assert forall|i: int| 0 <= i < self.windows@.len() implies (#[trigger] self.windows@[i]).id.0 < self.next_id by {
                if i < n {
                    assert(self.windows@[i] == old(self).windows@[i]);
                }
            }
            assert forall|i: int, j: int| 0 <= i < self.windows@.len() && 0 <= j < self.windows@.len() && i != j
                implies self.windows@[i].id != self.windows@[j].id by {
                if i < n {
                    assert(self.windows@[i] == old(self).windows@[i]);
                }
                if j < n {
                    assert(self.windows@[j] == old(self).windows@[j]);
                }
            }
            let a = old(self).workspaces@.active;
            assert forall|i: int| 0 <= i < self.workspaces@.spaces.len() implies (#[trigger] self.workspaces@.spaces[i]).0.len() <= i32::MAX by {
                if i != a {
                    assert(self.workspaces@.spaces[i] == old(self).workspaces@.spaces[i]);
                }
            }
        }
        if self.tiling {
            self.relayout();
        }
        id
    }

    /// Remove a window (it was unmapped or closed).
    pub fn remove_window(&mut self, id: WindowId)
        requires
            old(self).wf(),
        ensures
            final(self).wf(),
            final(self).same_setup(old(self)),
            final(self).next_id == old(self).next_id,
            final(self).tiling == old(self).tiling,
            final(self).game_mode == old(self).game_mode,
            final(self).workspaces@.active == old(self).workspaces@.active,
            final(self).workspaces@.spaces == remove_everywhere(old(self).workspaces@.spaces, id),
            forall|k: int| 0 <= k < final(self).windows@.len() ==> (#[trigger] final(self).windows@[k]).id != id,
            !old(self).tiling ==> final(self).windows@ == dropped(old(self).windows@, id),
            old(self).tiling ==> final(self).windows@ == final(self).relaid(dropped(old(self).windows@, id)),
    {
        proof {
            lemma_find_win(self.windows@, id);
        }
        match self.find_index(id) {
            Some(j) => {
                self.windows.remove(j);
            },
            None => {},
        }
        proof {
            old(self).workspaces.lemma_view_wf();
        }
        self.workspaces.remove_window(id);
        proof {
            let w0 = old(self).windows@;
            let w1 = self.windows@;
            assert(w1 == dropped(w0, id));
            if let Some(j) = find_win(w0, id) {
                assert forall|k: int| 0 <= k < w1.len() implies #[trigger] w1[k] == if k < j { w0[k] } else { w0[k + 1] } by {}
                assert forall|p: int, q: int| 0 <= p < w1.len() && 0 <= q < w1.len() && p != q implies w1[p].id != w1[q].id by {
                    assert(w1[p] == if p < j { w0[p] } else { w0[p + 1] });
                    assert(w1[q] == if q < j { w0[q] } else { w0[q + 1] });
                }
                assert forall|k: int| 0 <= k < w1.len() implies (#[trigger] w1[k]).id.0 < self.next_id && w1[k].id != id by {
                    assert(w1[k] == if k < j { w0[k] } else { w0[k + 1] });
                }
            }
            assert forall|i: int| 0 <= i < self.workspaces@.spaces.len() implies (#[trigger] self.workspaces@.spaces[i]).0.len() <= i32::MAX by {
                lemma_without(old(self).workspaces@.spaces[i].0, id);
            }
        }
        if self.tiling {
            self.relayout();
        }
    }

    /// Mutable access to the window with `id`, if it is managed.
    pub fn window_mut(&mut self, id: WindowId) -> (r: Option<&mut Window>)
        ensures
            match find_win(old(self).windows@, id) {
                Some(j) => r matches Some(w) && *w == old(self).windows@[j]
                    && final(self).windows@ == old(self).windows@.update(j, *final(w)),
                None => r is None && final(self).windows@ == old(self).windows@,
            },
            final(self).workspaces == old(self).workspaces,
            final(self).keymap == old(self).keymap,
            final(self).tiling == old(self).tiling,
            final(self).tiling_mode == old(self).tiling_mode,
            final(self).game_mode == old(self).game_mode,
            final(self).work_area == old(self).work_area,
            final(self).gap == old(self).gap,
            final(self).master_ratio == old(self).master_ratio,
            final(self).next_id == old(self).next_id,
            final(self).auto_game_mode == old(self).auto_game_mode,
    {
        proof {
            lemma_find_win(self.windows@, id);
        }
        match self.find_index(id) {
            Some(j) => Some(&mut self.windows[j]),
            None => None,
        }
    }

    /// Snap the focused window to `target`.
    pub fn snap_focused(&mut self, target: SnapTarget)
        requires
            old(self).wf(),
        ensures
            final(self).wf(),
            final(self).same_setup(old(self)),
            final(self).workspaces == old(self).workspaces,
            final(self).tiling == old(self).tiling,
            final(self).game_mode == old(self).game_mode,
            final(self).next_id == old(self).next_id,
            final(self).windows@ == match focused_window(old(self).windows@, old(self).focus()) {
                Some(j) => old(self).windows@.update(j, snapped(old(self).windows@[j], target, old(self).work_area)),
                None => old(self).windows@,
            },
    {
        let area = self.work_area;
        if let Some(id) = self.workspaces.focused() {
            proof {
                lemma_find_win(self.windows@, id);
            }
            if let Some(j) = self.find_index(id) {
                let g = target.resolve(area);
                self.windows[j].save_floating();
                self.windows[j].state = WindowState::Floating;
                self.windows[j].geometry = g;
                proof {
                    let w0 = old(self).windows@;
                    assert forall|p: int, q: int| 0 <= p < w0.len() && 0 <= q < w0.len() && p != q
                        implies self.windows@[p].id != self.windows@[q].id by {
                        assert(self.windows@[p].id == w0[p].id && self.windows@[q].id == w0[q].id);
                    }
                    assert forall|i: int| 0 <= i < w0.len() implies (#[trigger] self.windows@[i]).id.0 < self.next_id by {
                        assert(self.windows@[i].id == w0[i].id);
                    }
                    assert(self.windows@ =~= w0.update(j as int, snapped(w0[j as int], target, area)));
                }
            }
        }
    }

    /// Toggle fullscreen on the focused window, possibly flipping Game Mode.
    pub fn toggle_fullscreen(&mut self) -> (r: Vec<Effect>)
        requires
            old(self).wf(),
        ensures
            final(self).wf(),
            old(self).fullscreen_toggled(final(self), r@),
    {
        let area = self.work_area;
        let id = match self.workspaces.focused() {
            Some(id) => id,
            None => return Vec::new(),
        };
        let mut effects: Vec<Effect> = Vec::new();
        proof {
            lemma_find_win(self.windows@, id);
        }
        if let Some(j) = self.find_index(id) {
            if self.windows[j].state == WindowState::Fullscreen {
                let s = self.windows[j].saved_floating;
                self.windows[j].state = WindowState::Floating;
                if let Some(g) = s {
                    self.windows[j].geometry = g;
                }
                self.windows[j].saved_floating = None;
            } else {
                self.windows[j].save_floating();
                self.windows[j].state = WindowState::Fullscreen;
                self.windows[j].geometry = area;
            }
            proof {
                let w0 = old(self).windows@;
                assert forall|p: int, q: int| 0 <= p < w0.len() && 0 <= q < w0.len() && p != q
                    implies self.windows@[p].id != self.windows@[q].id by {
                    assert(self.windows@[p].id == w0[p].id && self.windows@[q].id == w0[q].id);
                }
                assert forall|i: int| 0 <= i < w0.len() implies (#[trigger] self.windows@[i]).id.0 < self.next_id by {
                    assert(self.windows@[i].id == w0[i].id);
                }
                assert(self.windows@ =~= w0.update(j as int, fullscreen_flipped(w0[j as int], area)));
            }
        }
        if self.auto_game_mode {
            let want = self.focused_is_fullscreen_game();
            if want != self.game_mode.active {
                self.game_mode.toggle();
                effects.push(Effect::GameModeChanged(self.game_mode.active));
            }
        }
        proof {
            assert(effects@ =~= seq![Effect::GameModeChanged(self.game_mode.active)] || effects@.len() == 0);
        }
        effects
    }

    /// Put every window of the active workspace in state `st`.
    fn restate_active(&mut self, st: WindowState)
        requires
            old(self).wf(),
        ensures
            final(self).wf(),
            final(self).same_setup(old(self)),
            final(self).workspaces == old(self).workspaces,
            final(self).tiling == old(self).tiling,
            final(self).game_mode == old(self).game_mode,
            final(self).next_id == old(self).next_id,
            final(self).windows@ == restated(old(self).windows@, old(self).active_order(), st),
    {
        let ghost w0 = self.windows@;
        let ghost order = self.active_order();
        let mut ids: Vec<WindowId> = Vec::new();
        {
            let src = &self.workspaces.active().windows;
            let mut i: usize = 0;
            while i < src.len()
                invariant
                    i <= src@.len(),
                    ids@ == src@.take(i as int),
                decreases src.len() - i,
            {
                ids.push(src[i]);
                proof {
                    assert(src@.take(i as int + 1) =~= src@.take(i as int).push(src@[i as int]));
                }
                i += 1;
            }
            proof {
                assert(src@.take(src@.len() as int) =~= src@);
            }
        }
        let m = ids.len();
        let mut k: usize = 0;
        while k < m
            invariant
                m == ids@.len(),
                ids@ == order,
                k <= m,
                self.workspaces == old(self).workspaces,
                self.keymap == old(self).keymap,
                self.tiling == old(self).tiling,
                self.tiling_mode == old(self).tiling_mode,
                self.game_mode == old(self).game_mode,
                self.work_area == old(self).work_area,
                self.gap == old(self).gap,
                self.master_ratio == old(self).master_ratio,
                self.next_id == old(self).next_id,
                self.auto_game_mode == old(self).auto_game_mode,
                w0 == old(self).windows@,
                ids_unique(w0),
                self.windows@.len() == w0.len(),
                forall|j: int| 0 <= j < w0.len() ==> #[trigger] self.windows@[j] == if ids@.take(k as int).contains(w0[j].id) {
                    Window { state: st, ..w0[j] }
                } else {
                    w0[j]
                },
            decreases m - k,
        {
            let id = ids[k];
            proof {
                lemma_find_win(w0, id);
                lemma_find_win(self.windows@, id);
                assert forall|j: int| 0 <= j < w0.len() implies (#[trigger] self.windows@[j]).id == w0[j].id by {}
            }
            match self.find_index(id) {
                Some(j) => {
                    self.windows[j].state = st;
                },
                None => {},
            }
            proof {
                assert forall|j: int| 0 <= j < w0.len() implies #[trigger] self.windows@[j] == if ids@.take(k as int + 1).contains(w0[j].id) {
                    Window { state: st, ..w0[j] }
                } else {
                    w0[j]
                } by {
                    let t0 = ids@.take(k as int);
                    let t1 = ids@.take(k as int + 1);
                    assert(t1 =~= t0.push(id));
                    if w0[j].id == id {
                        assert(t1[k as int] == id);
                        assert(t1.contains(id));
                        if let Some(jj) = find_win(w0, id) {
                            assert(jj == j);
                        }
                    } else {
                        if t1.contains(w0[j].id) {
                            let q = choose|q: int| 0 <= q < t1.len() && t1[q] == w0[j].id;
                            assert(q < k);
                            assert(t0[q] == w0[j].id);
                        }
                        if t0.contains(w0[j].id) {
                            let q = choose|q: int| 0 <= q < t0.len() && t0[q] == w0[j].id;
                            assert(t1[q] == w0[j].id);
                        }
                    }
                }
            }
            k += 1;
        }
        proof {
            assert(ids@.take(m as int) =~= ids@);
            assert(self.windows@ =~= restated(w0, order, st));
            assert forall|p: int, q: int| 0 <= p < w0.len() && 0 <= q < w0.len() && p != q
                implies self.windows@[p].id != self.windows@[q].id by {
                assert(self.windows@[p].id == w0[p].id && self.windows@[q].id == w0[q].id);
            }
            assert forall|i: int| 0 <= i < w0.len() implies (#[trigger] self.windows@[i]).id.0 < self.next_id by {
                assert(self.windows@[i].id == w0[i].id);
            }
        }
    }

    /// Translate a pressed key combination into effects, changing the state
    /// directly for the internal actions (workspace switch, tiling toggle,
    /// fullscreen). `key` is the key name, lowercased by the caller.
    pub fn handle_key(&mut self, mods: Mods, key: &str) -> (r: Vec<Effect>)
        requires
            old(self).wf(),
        ensures
            final(self).wf(),
            match lookup(old(self).keymap@, mods, key@) {
                Some(a) => old(self).key_handled(a, final(self), r@),
                None => *final(self) == *old(self) && r@.len() == 0,
            },
    {
        let action = match self.keymap.action_for(mods, key) {
            Some(a) => *a,
            None => return Vec::new(),
        };
        proof {
            self.workspaces.lemma_view_wf();
        }
        match action {
            Action::LaunchTerminal => spawn_terminal(),
            Action::CloseWindow => just(Effect::CloseFocused),
            Action::ToggleDock => just(Effect::ToggleDock),
            Action::ToggleWheel => just(Effect::ToggleWheel),
            Action::Lock => just(Effect::Lock),
            Action::ToggleFpsOverlay => just(Effect::ToggleFpsOverlay),
            Action::NextWorkspace => {
                self.workspaces.cycle(true);
                just(Effect::Relayout)
            },
            Action::PrevWorkspace => {
                self.workspaces.cycle(false);
                just(Effect::Relayout)
            },
            Action::SwitchWorkspace(n) => {
                self.workspaces.switch_to(n as usize);
                just(Effect::Relayout)
            },
            Action::ToggleTiling => {
                self.tiling = !self.tiling;
                let tiling = self.tiling;
                self.restate_active(if tiling { WindowState::Tiled } else { WindowState::Floating });
                if tiling {
                    self.relayout();
                }
                just(Effect::Relayout)
            },
            Action::Fullscreen => self.toggle_fullscreen(),
        }
    }
}

/// Whether `area` and `gap` are small enough (every coordinate within
/// `2^28`) that every layout and snap on them stays in range: the check a
/// caller makes before handing the core a new work area or gap.
pub fn workable_area(area: Geometry, gap: i32) -> (b: bool)
    ensures
        b == modest(area, gap),
        b ==> forall|ratio: u32| #[trigger] layout_ok(area, gap, ratio),
{
    let b: i32 = 0x1000_0000;
    let ok = -b <= area.x && area.x <= b && -b <= area.y && area.y <= b && -b <= area.w && area.w <= b
        && -b <= area.h && area.h <= b && -b <= gap && gap <= b;
    proof {
        if ok {
            assert forall|ratio: u32| #[trigger] layout_ok(area, gap, ratio) by {
                assert forall|n: int, m: TilingMode| 0 <= n <= i32::MAX implies #[trigger] tile_fits(area, n, m, gap, ratio as int) by {
                    if n >= 1 {
                        lemma_modest_area_fits(area, n, m, gap, ratio as int);
                    }
                }
            }
        }
    }
    ok
}

/// Toggling fullscreen twice on a floating window with no saved geometry
/// gives the window back exactly as it was.
pub proof fn law_fullscreen_round_trip(w: Window, area: Geometry)
    requires
        w.state == WindowState::Floating,
        w.saved_floating is None,
    ensures
        fullscreen_flipped(fullscreen_flipped(w, area), area) == w,
{
}

/// Removing the window that was just added leaves the other windows as they
/// were.
pub proof fn law_remove_undoes_add(ws: Seq<Window>, w: Window)
    requires
        forall|k: int| 0 <= k < ws.len() ==> (#[trigger] ws[k]).id != w.id,
    ensures
        dropped(ws.push(w), w.id) == ws,
{
    let p = ws.push(w);
    lemma_find_win(p, w.id);
    assert forall|k: int| 0 <= k < ws.len() implies (#[trigger] p[k]).id != w.id by {
        assert(p[k] == ws[k]);
    }
    assert(p[ws.len() as int] == w);
    if let Some(j) = find_win(p, w.id) {
        assert(j == ws.len());
    }
    assert(find_win(p, w.id) == Some(ws.len() as int));
    assert(p.remove(ws.len() as int) =~= ws);
}

} // verus!
