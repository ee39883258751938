//! Workspaces: independent groups of windows the user switches between.
//!
//! A [`Workspaces`] owns a fixed set of [`Workspace`]s and tracks which one is
//! active and which window has focus. It is bookkeeping over [`WindowId`]s
//! only; the runtime maps the focus/visibility decisions onto real surfaces.
use vstd::prelude::*;
use crate::window::WindowId;

verus! {

/// What a workspace holds: its windows in order, and the focused one.
pub type SpaceView = (Seq<WindowId>, Option<WindowId>);

/// A single workspace: an ordered list of windows plus the focused one.
#[derive(Clone, Debug, Default, PartialEq)]
pub struct Workspace {
    pub windows: Vec<WindowId>,
    pub focused: Option<WindowId>,
}

impl View for Workspace {
    type V = SpaceView;

    open spec fn view(&self) -> SpaceView {
        (self.windows@, self.focused)
    }
}

/// A workspace is consistent when no window is listed twice and the focus,
/// if any, is one of its windows.
pub open spec fn space_wf(s: SpaceView) -> bool {
    &&& s.0.no_duplicates()
    &&& s.1 matches Some(f) ==> s.0.contains(f)
}

/// `id` added to a workspace (at the end, unless already there) and focused.
pub open spec fn space_add(s: SpaceView, id: WindowId) -> SpaceView {
    (if s.0.contains(id) { s.0 } else { s.0.push(id) }, Some(id))
}

/// The windows of `ws` other than `id`, in order.
pub open spec fn without(ws: Seq<WindowId>, id: WindowId) -> Seq<WindowId>
    decreases ws.len(),
{
    if ws.len() == 0 {
        ws
    } else if ws.last() == id {
        without(ws.drop_last(), id)
    } else {
        without(ws.drop_last(), id).push(ws.last())
    }
}

/// `id` removed from a workspace; if it had focus, focus falls back to the
/// most recently added remaining window.
pub open spec fn space_remove(s: SpaceView, id: WindowId) -> SpaceView {
    let ws = without(s.0, id);
    (ws, if s.1 == Some(id) {
        if ws.len() > 0 { Some(ws.last()) } else { None }
    } else {
        s.1
    })
}

/// Position of the first occurrence of `id` in `ws`, or `ws.len()`.
pub open spec fn position(ws: Seq<WindowId>, id: WindowId) -> int
    decreases ws.len(),
{
    if ws.len() == 0 {
        0
    } else if ws[0] == id {
        0
    } else {
        1 + position(ws.drop_first(), id)
    }
}

/// Focus moved to the window after the focused one, wrapping around; with no
/// focus (or a focus not in the list) the window after the first.
pub open spec fn space_focus_next(s: SpaceView) -> SpaceView {
    if s.0.len() == 0 {
        s
    } else {
        let cur = match s.1 {
            Some(f) => if s.0.contains(f) { position(s.0, f) } else { 0 },
            None => 0,
        };
        (s.0, Some(s.0[(cur + 1) % (s.0.len() as int)]))
    }
}

proof fn lemma_push_contains(s: Seq<WindowId>, a: WindowId, x: WindowId)
    ensures
        s.push(a).contains(x) == (s.contains(x) || a == x),
{
    if s.contains(x) {
        let i = choose|i: int| 0 <= i < s.len() && s[i] == x;
        assert(s.push(a)[i] == x);
    }
    if a == x {
        assert(s.push(a)[s.len() as int] == x);
    }
    if s.push(a).contains(x) && a != x {
        let i = choose|i: int| 0 <= i < s.push(a).len() && s.push(a)[i] == x;
        assert(i < s.len());
        assert(s[i] == x);
    }
}

pub proof fn lemma_without(ws: Seq<WindowId>, id: WindowId)
    ensures
        !without(ws, id).contains(id),
        forall|x: WindowId| x != id ==> (#[trigger] without(ws, id).contains(x) == ws.contains(x)),
        ws.no_duplicates() ==> without(ws, id).no_duplicates(),
        without(ws, id).len() <= ws.len(),
        !ws.contains(id) ==> without(ws, id) == ws,
    decreases ws.len(),
{
    if ws.len() > 0 {
        let rest = ws.drop_last();
        let a = ws.last();
        lemma_without(rest, id);
        assert(ws =~= rest.push(a));
        let wr = without(rest, id);
        assert forall|x: WindowId| x != id implies (#[trigger] without(ws, id).contains(x) == ws.contains(x)) by {
            lemma_push_contains(rest, a, x);
            if a != id {
                lemma_push_contains(wr, a, x);
            }
        }
        if a != id {
            lemma_push_contains(wr, a, id);
        }
        if ws.no_duplicates() {
            assert(rest.no_duplicates());
            if a != id {
                assert(!rest.contains(a));
                assert(!wr.contains(a));
                assert(wr.push(a).no_duplicates());
            }
        }
        if !ws.contains(id) {
            assert(!rest.contains(id)) by {
                lemma_push_contains(rest, a, id);
            }
            assert(a != id);
        }
    }
}

proof fn lemma_position(ws: Seq<WindowId>, id: WindowId)
    requires
        ws.contains(id),
    ensures
        0 <= position(ws, id) < ws.len(),
        ws[position(ws, id)] == id,
        forall|j: int| 0 <= j < position(ws, id) ==> ws[j] != id,
    decreases ws.len(),
{
    if ws[0] != id {
        let i = choose|i: int| 0 <= i < ws.len() && ws[i] == id;
        assert(ws.drop_first()[i - 1] == id);
        lemma_position(ws.drop_first(), id);
        assert forall|j: int| 0 <= j < position(ws, id) implies ws[j] != id by {
            if j > 0 {
                assert(ws[j] == ws.drop_first()[j - 1]);
            }
        }
    }
}

impl Workspace {
    /// Add a window (at the end, unless already present) and focus it.
    fn add(&mut self, id: WindowId)
        requires
            space_wf(old(self)@),
        ensures
            final(self)@ == space_add(old(self)@, id),
            space_wf(final(self)@),
    {
        let mut i: usize = 0;
        let mut present = false;
        while i < self.windows.len()
            invariant
                i <= self.windows@.len(),
                present == (exists|j: int| 0 <= j < i && self.windows@[j] == id),
            decreases self.windows.len() - i,
        {
            if self.windows[i] == id {
                present = true;
            }
            i += 1;
        }
        proof {
            if present {
                let j = choose|j: int| 0 <= j < self.windows@.len() && self.windows@[j] == id;
                assert(self.windows@.contains(id));
            }
            lemma_push_contains(self.windows@, id, id);
        }
        if !present {
            self.windows.push(id);
        }
        self.focused = Some(id);
    }

    /// Remove a window; focus falls back to the most recently added remaining
    /// window if the removed one had it.
    fn remove(&mut self, id: WindowId)
        requires
            space_wf(old(self)@),
        ensures
            final(self)@ == space_remove(old(self)@, id),
            space_wf(final(self)@),
    {
        let mut kept: Vec<WindowId> = Vec::new();
        let mut i: usize = 0;
        while i < self.windows.len()
            invariant
                i <= self.windows@.len(),
                kept@ == without(self.windows@.subrange(0, i as int), id),
            decreases self.windows.len() - i,
        {
            proof {
                assert(self.windows@.subrange(0, i + 1).drop_last() =~= self.windows@.subrange(0, i as int));
            }
            if self.windows[i] != id {
                kept.push(self.windows[i]);
            }
            i += 1;
        }
        proof {
            assert(self.windows@.subrange(0, self.windows@.len() as int) =~= self.windows@);
            lemma_without(self.windows@, id);
        }
        let refocus = match self.focused {
            Some(f) => f == id,
            None => false,
        };
        self.windows = kept;
        if refocus {
            self.focused = if self.windows.len() > 0 {
                Some(self.windows[self.windows.len() - 1])
            } else {
                None
            };
        }
    }

    /// Whether `id` is one of this workspace's windows.
    fn holds(&self, id: WindowId) -> (b: bool)
        ensures
            b == self.windows@.contains(id),
    {
        let mut i: usize = 0;
        while i < self.windows.len()
            invariant
                i <= self.windows@.len(),
                forall|j: int| 0 <= j < i ==> self.windows@[j] != id,
            decreases self.windows.len() - i,
        {
            if self.windows[i] == id {
                return true;
            }
            i += 1;
        }
        false
    }
}

/// The full set of workspaces for an output (or the session).
#[derive(Clone, Debug, PartialEq)]
pub struct Workspaces {
    spaces: Vec<Workspace>,
    active: usize,
}

/// What a set of workspaces holds: each workspace, and the active index.
pub struct WorkspacesView {
    pub spaces: Seq<SpaceView>,
    pub active: int,
}

impl View for Workspaces {
    type V = WorkspacesView;

    closed spec fn view(&self) -> WorkspacesView {
        WorkspacesView { spaces: self.spaces@.map_values(|w: Workspace| w@), active: self.active as int }
    }
}

/// At least one workspace, a valid active index, and every workspace
/// consistent.
pub open spec fn spaces_wf(v: WorkspacesView) -> bool {
    &&& v.spaces.len() >= 1
    &&& 0 <= v.active < v.spaces.len()
    &&& forall|i: int| 0 <= i < v.spaces.len() ==> space_wf(#[trigger] v.spaces[i])
}

/// The index of the first workspace holding `id`, if any.
pub open spec fn workspace_of_spec(spaces: Seq<SpaceView>, id: WindowId) -> Option<int>
    decreases spaces.len(),
{
    if spaces.len() == 0 {
        None
    } else if spaces[0].0.contains(id) {
        Some(0)
    } else {
        match workspace_of_spec(spaces.drop_first(), id) {
            Some(i) => Some(i + 1),
            None => None,
        }
    }
}

/// Every workspace with `id` removed.
pub open spec fn remove_everywhere(spaces: Seq<SpaceView>, id: WindowId) -> Seq<SpaceView> {
    spaces.map_values(|s: SpaceView| space_remove(s, id))
}

/// The active index after one step forward or back, wrapping around.
pub open spec fn cycled(active: int, n: int, forward: bool) -> int {
    if forward { (active + 1) % n } else { (active + n - 1) % n }
}

impl Workspaces {
    pub closed spec fn wf(&self) -> bool {
        &&& spaces_wf(self@)
        &&& self.spaces@.len() == self@.spaces.len()
    }

    /// What well-formedness means for the view.
    pub proof fn lemma_view_wf(&self)
        requires
            self.wf(),
        ensures
            spaces_wf(self@),
    {
    }

    /// Create `count` empty workspaces (at least one), with the first active.
    pub fn new(count: usize) -> (w: Workspaces)
        ensures
            w.wf(),
            w@.spaces.len() == if count >= 1 { count as int } else { 1 },
            w@.active == 0,
            forall|i: int| 0 <= i < w@.spaces.len() ==> #[trigger] w@.spaces[i] == (Seq::<WindowId>::empty(), None::<WindowId>),
    {
        let n = if count >= 1 { count } else { 1 };
        let mut spaces: Vec<Workspace> = Vec::new();
        let mut i: usize = 0;
        while i < n
            invariant
                i <= n,
                spaces@.len() == i,
                forall|k: int| 0 <= k < i ==> #[trigger] spaces@[k]@ == (Seq::<WindowId>::empty(), None::<WindowId>),
            decreases n - i,
        {
            spaces.push(Workspace { windows: Vec::new(), focused: None });
            i += 1;
        }
        let w = Workspaces { spaces, active: 0 };
        assert(forall|k: int| 0 <= k < w@.spaces.len() ==> #[trigger] w@.spaces[k] == w.spaces@[k]@);
        w
    }

    pub fn count(&self) -> (n: usize)
        requires
            self.wf(),
        ensures
            n == self@.spaces.len(),
    {
        self.spaces.len()
    }

    pub fn active_index(&self) -> (i: usize)
        requires
            self.wf(),
        ensures
            i == self@.active,
    {
        self.active
    }

    pub fn active(&self) -> (w: &Workspace)
        requires
            self.wf(),
        ensures
            w@ == self@.spaces[self@.active],
    {
        &self.spaces[self.active]
    }

    pub fn focused(&self) -> (f: Option<WindowId>)
        requires
            self.wf(),
        ensures
            f == self@.spaces[self@.active].1,
    {
        self.spaces[self.active].focused
    }

    /// Add a window to the active workspace and focus it.
    pub fn add_window(&mut self, id: WindowId)
        requires
            old(self).wf(),
        ensures
            final(self).wf(),
            final(self)@.active == old(self)@.active,
            final(self)@.spaces == old(self)@.spaces.update(
                old(self)@.active,
                space_add(old(self)@.spaces[old(self)@.active], id),
            ),
    {
        let a = self.active;
        assert(self.spaces@[a as int]@ == self@.spaces[a as int]);
        self.spaces[a].add(id);
        assert(self@.spaces =~= old(self)@.spaces.update(a as int, space_add(old(self)@.spaces[a as int], id)));
    }

    /// Remove a window from whichever workspace holds it.
    pub fn remove_window(&mut self, id: WindowId)
        requires
            old(self).wf(),
        ensures
            final(self).wf(),
            final(self)@.active == old(self)@.active,
            final(self)@.spaces == remove_everywhere(old(self)@.spaces, id),
    {
        assert forall|k: int| 0 <= k < self.spaces@.len() implies space_wf(#[trigger] self.spaces@[k]@) by {
            assert(self@.spaces[k] == self.spaces@[k]@);
        }
        let mut i: usize = 0;
        while i < self.spaces.len()
            invariant
                i <= self.spaces@.len(),
                self.spaces@.len() == old(self).spaces@.len(),
                self.active == old(self).active,
                old(self).wf(),
                forall|k: int| 0 <= k < i ==> #[trigger] self.spaces@[k]@ == space_remove(old(self)@.spaces[k], id),
                forall|k: int| i <= k < self.spaces@.len() ==> #[trigger] self.spaces@[k] == old(self).spaces@[k],
                forall|k: int| 0 <= k < self.spaces@.len() ==> space_wf(#[trigger] self.spaces@[k]@),
            decreases self.spaces.len() - i,
        {
            assert(old(self).spaces@[i as int]@ == old(self)@.spaces[i as int]);
            self.spaces[i].remove(id);
            i += 1;
        }
        assert(self@.spaces =~= remove_everywhere(old(self)@.spaces, id));
    }

    /// Which workspace currently holds `id`, if any (the first one).
    pub fn workspace_of(&self, id: WindowId) -> (r: Option<usize>)
        requires
            self.wf(),
        ensures
            r matches Some(i) ==> workspace_of_spec(self@.spaces, id) == Some(i as int),
            r is None ==> workspace_of_spec(self@.spaces, id) is None,
    {
        let mut i: usize = 0;
        while i < self.spaces.len()
            invariant
                self.wf(),
                i <= self.spaces@.len(),
                forall|k: int| 0 <= k < i ==> !(#[trigger] self@.spaces[k]).0.contains(id),
            decreases self.spaces.len() - i,
        {
            assert(self.spaces@[i as int]@ == self@.spaces[i as int]);
            if self.spaces[i].holds(id) {
                proof {
                    lemma_workspace_of_first(self@.spaces, id, i as int);
                }
                return Some(i);
            }
            i += 1;
        }
        proof {
            lemma_workspace_of_none(self@.spaces, id);
        }
        None
    }

    /// Switch to workspace `index`. Returns false, changing nothing, if it is
    /// out of range.
    pub fn switch_to(&mut self, index: usize) -> (ok: bool)
        requires
            old(self).wf(),
        ensures
            final(self).wf(),
            ok == (index < old(self)@.spaces.len()),
            final(self)@.spaces == old(self)@.spaces,
            final(self)@.active == if ok { index as int } else { old(self)@.active },
    {
        if index < self.spaces.len() {
            self.active = index;
            true
        } else {
            false
        }
    }

    /// Switch to the next/previous workspace, wrapping around.
    pub fn cycle(&mut self, forward: bool)
        requires
            old(self).wf(),
        ensures
            final(self).wf(),
            final(self)@.spaces == old(self)@.spaces,
            final(self)@.active == cycled(old(self)@.active, old(self)@.spaces.len() as int, forward),
    {
        let n = self.spaces.len();
        proof {
            let a = self.active as int;
            if a > 0 {
                assert((a + n - 1) % (n as int) == a - 1) by (nonlinear_arith)
                    requires 0 < a < n;
            } else {
                assert((a + n - 1) % (n as int) == n - 1) by (nonlinear_arith)
                    requires a == 0, n >= 1;
            }
        }
        self.active = if forward {
            (self.active + 1) % n
        } else {
            if self.active == 0 { n - 1 } else { self.active - 1 }
        };
    }

    /// Move `id` to workspace `target`, keeping it focused there. Whether the
    /// view follows the window is the caller's decision; this only moves the
    /// bookkeeping. Returns false, changing nothing, if `target` is out of
    /// range or no workspace holds `id`.
    pub fn move_window_to(&mut self, id: WindowId, target: usize) -> (ok: bool)
        requires
            old(self).wf(),
        ensures
            final(self).wf(),
            ok == (target < old(self)@.spaces.len() && workspace_of_spec(old(self)@.spaces, id) is Some),
            final(self)@.active == old(self)@.active,
            ok ==> final(self)@.spaces == ({
                let removed = remove_everywhere(old(self)@.spaces, id);
                removed.update(target as int, space_add(removed[target as int], id))
            }),
            !ok ==> final(self)@.spaces == old(self)@.spaces,
    {
        if target >= self.spaces.len() || self.workspace_of(id).is_none() {
            return false;
        }
        self.remove_window(id);
        assert(self.spaces@[target as int]@ == self@.spaces[target as int]);
        self.spaces[target].add(id);
        assert(self@.spaces =~= ({
            let removed = remove_everywhere(old(self)@.spaces, id);
            removed.update(target as int, space_add(removed[target as int], id))
        }));
        true
    }

    /// Cycle focus within the active workspace.
    pub fn focus_next(&mut self)
        requires
            old(self).wf(),
        ensures
            final(self).wf(),
            final(self)@.active == old(self)@.active,
            final(self)@.spaces == old(self)@.spaces.update(
                old(self)@.active,
                space_focus_next(old(self)@.spaces[old(self)@.active]),
            ),
    {
        let a = self.active;
        assert(self.spaces@[a as int]@ == self@.spaces[a as int]);
        let n = self.spaces[a].windows.len();
        if n == 0 {
            assert(self@.spaces =~= old(self)@.spaces.update(a as int, space_focus_next(old(self)@.spaces[a as int])));
            return;
        }
        let mut cur: usize = 0;
        if let Some(f) = self.spaces[a].focused {
            let mut i: usize = 0;
            while i < n
                invariant
                    (a as int) < self.spaces@.len(),
                    n == self.spaces@[a as int].windows@.len(),
                    i <= n,
                    forall|j: int| 0 <= j < i ==> self.spaces@[a as int].windows@[j] != f,
                ensures
                    i <= n,
                    forall|j: int| 0 <= j < i ==> self.spaces@[a as int].windows@[j] != f,
                    i < n ==> self.spaces@[a as int].windows@[i as int] == f,
                decreases n - i,
            {
                if self.spaces[a].windows[i] == f {
                    break;
                }
                i += 1;
            }
            proof {
                let ws = self.spaces@[a as int].windows@;
                if ws.contains(f) {
                    lemma_position(ws, f);
                    if i == n {
                        let p = position(ws, f);
                        assert(ws[p] != f);
                    }
                    assert(i as int == position(ws, f));
                } else {
                    if i < n {
                        assert(ws.contains(f));
                    }
                }
            }
            if i < n {
                cur = i;
            }
        }
        let next = (cur + 1) % n;
        let w = self.spaces[a].windows[next];
        self.spaces[a].focused = Some(w);
        assert(self@.spaces =~= old(self)@.spaces.update(a as int, space_focus_next(old(self)@.spaces[a as int])));
    }
}

proof fn lemma_workspace_of_first(spaces: Seq<SpaceView>, id: WindowId, i: int)
    requires
        0 <= i < spaces.len(),
        spaces[i].0.contains(id),
        forall|k: int| 0 <= k < i ==> !(#[trigger] spaces[k]).0.contains(id),
    ensures
        workspace_of_spec(spaces, id) == Some(i),
    decreases i,
{
    if i > 0 {
        assert(!spaces[0].0.contains(id));
        let rest = spaces.drop_first();
        assert forall|k: int| 0 <= k < i - 1 implies !(#[trigger] rest[k]).0.contains(id) by {
            assert(rest[k] == spaces[k + 1]);
        }
        lemma_workspace_of_first(rest, id, i - 1);
    }
}

proof fn lemma_workspace_of_none(spaces: Seq<SpaceView>, id: WindowId)
    requires
        forall|k: int| 0 <= k < spaces.len() ==> !(#[trigger] spaces[k]).0.contains(id),
    ensures
        workspace_of_spec(spaces, id) is None,
    decreases spaces.len(),
{
    if spaces.len() > 0 {
        let rest = spaces.drop_first();
        assert forall|k: int| 0 <= k < rest.len() implies !(#[trigger] rest[k]).0.contains(id) by {
            assert(rest[k] == spaces[k + 1]);
        }
        lemma_workspace_of_none(rest, id);
    }
}


/// Adding a window focuses it and puts it on the workspace it was added to.
pub proof fn law_add_focuses(s: SpaceView, id: WindowId)
    ensures
        space_add(s, id).1 == Some(id),
        space_add(s, id).0.contains(id),
        forall|x: WindowId| s.0.contains(x) ==> space_add(s, id).0.contains(x),
{
    lemma_push_contains(s.0, id, id);
    assert forall|x: WindowId| s.0.contains(x) implies space_add(s, id).0.contains(x) by {
        lemma_push_contains(s.0, id, x);
    }
}

/// After a window is removed, no workspace holds it any more, every other
/// window stays where it was, and `workspace_of` finds nothing for it.
pub proof fn law_remove_is_total(spaces: Seq<SpaceView>, id: WindowId)
    ensures
        forall|k: int| 0 <= k < spaces.len() ==> !(#[trigger] remove_everywhere(spaces, id)[k]).0.contains(id),
        forall|k: int, x: WindowId| 0 <= k < spaces.len() && x != id ==> #[trigger] remove_everywhere(spaces, id)[k].0.contains(x)
            == spaces[k].0.contains(x),
        workspace_of_spec(remove_everywhere(spaces, id), id) is None,
{
    let r = remove_everywhere(spaces, id);
    assert forall|k: int| 0 <= k < spaces.len() implies !(#[trigger] r[k]).0.contains(id) by {
        lemma_without(spaces[k].0, id);
    }
    assert forall|k: int, x: WindowId| 0 <= k < spaces.len() && x != id implies #[trigger] r[k].0.contains(x)
        == spaces[k].0.contains(x) by {
        lemma_without(spaces[k].0, id);
    }
    lemma_workspace_of_none(r, id);
}

/// A successful move leaves the window on the target workspace only, focused
/// there.
pub proof fn law_move_relocates(spaces: Seq<SpaceView>, id: WindowId, target: int)
    requires
        0 <= target < spaces.len(),
    ensures
        ({
            let removed = remove_everywhere(spaces, id);
            let moved = removed.update(target, space_add(removed[target], id));
            &&& moved[target].1 == Some(id)
            &&& moved[target].0.contains(id)
            &&& forall|k: int| 0 <= k < spaces.len() && k != target ==> !(#[trigger] moved[k]).0.contains(id)
        }),
{
    let removed = remove_everywhere(spaces, id);
    let moved = removed.update(target, space_add(removed[target], id));
    law_remove_is_total(spaces, id);
    lemma_push_contains(removed[target].0, id, id);
    assert forall|k: int| 0 <= k < spaces.len() && k != target implies !(#[trigger] moved[k]).0.contains(id) by {
        assert(moved[k] == removed[k]);
    }
}

/// After a successful move, `workspace_of` reports the target workspace.
pub proof fn law_move_found_at_target(spaces: Seq<SpaceView>, id: WindowId, target: int)
    requires
        0 <= target < spaces.len(),
    ensures
        ({
            let removed = remove_everywhere(spaces, id);
            workspace_of_spec(removed.update(target, space_add(removed[target], id)), id) == Some(target)
        }),
{
    let removed = remove_everywhere(spaces, id);
    let moved = removed.update(target, space_add(removed[target], id));
    law_move_relocates(spaces, id, target);
    assert forall|k: int| 0 <= k < target implies !(#[trigger] moved[k]).0.contains(id) by {}
    lemma_workspace_of_first(moved, id, target);
}

/// Cycling forward and then back (or back and then forward) returns to the
/// workspace one started on.
pub proof fn law_cycle_round_trip(active: int, n: int)
    requires
        0 <= active < n,
    ensures
        cycled(cycled(active, n, true), n, false) == active,
        cycled(cycled(active, n, false), n, true) == active,
        0 <= cycled(active, n, true) < n,
        0 <= cycled(active, n, false) < n,
{
    let f = cycled(active, n, true);
    let b = cycled(active, n, false);
    assert(f == if active + 1 == n { 0 } else { active + 1 }) by (nonlinear_arith)
        requires f == (active + 1) % n, 0 <= active < n;
    assert(b == if active == 0 { n - 1 } else { active - 1 }) by (nonlinear_arith)
        requires b == (active + n - 1) % n, 0 <= active < n;
    let fb = cycled(f, n, false);
    let bf = cycled(b, n, true);
    assert(fb == if f == 0 { n - 1 } else { f - 1 }) by (nonlinear_arith)
        requires fb == (f + n - 1) % n, 0 <= f < n;
    assert(bf == if b + 1 == n { 0 } else { b + 1 }) by (nonlinear_arith)
        requires bf == (b + 1) % n, 0 <= b < n;
}

/// Moving focus keeps it on one of the workspace's own windows, and with more
/// than one window it lands on a different window than before.
pub proof fn law_focus_next_stays_inside(s: SpaceView)
    requires
        space_wf(s),
        s.0.len() > 0,
    ensures
        space_focus_next(s).1 matches Some(f) && s.0.contains(f),
        s.0.len() > 1 && s.1 is Some ==> space_focus_next(s).1 != s.1,
{
    let n = s.0.len() as int;
    let cur = match s.1 {
        Some(f) => if s.0.contains(f) { position(s.0, f) } else { 0 },
        None => 0,
    };
    if let Some(f) = s.1 {
        lemma_position(s.0, f);
    }
    let nx = (cur + 1) % n;
    assert(0 <= nx < n) by (nonlinear_arith) requires nx == (cur + 1) % n, n > 0;
    assert(s.0.contains(s.0[nx]));
    if n > 1 && s.1 is Some {
        assert(nx != cur) by (nonlinear_arith) requires nx == (cur + 1) % n, n > 1, 0 <= cur < n;
    }
}

/// Removing a window moves a workspace's focus only if that window had it,
/// and then to the most recently added window still there (or to none);
/// every other workspace's focus, and every other window, stays put.
pub proof fn law_remove_moves_focus_only_from_the_removed(spaces: Seq<SpaceView>, id: WindowId)
    ensures
        forall|k: int|
            0 <= k < spaces.len() && spaces[k].1 != Some(id) ==> (#[trigger] remove_everywhere(spaces, id)[k]).1
                == spaces[k].1,
        forall|k: int|
            0 <= k < spaces.len() && spaces[k].1 == Some(id) ==> {
                let w = (#[trigger] remove_everywhere(spaces, id)[k]).0;
                &&& w.len() > 0 ==> remove_everywhere(spaces, id)[k].1 == Some(w.last())
                &&& w.len() == 0 ==> remove_everywhere(spaces, id)[k].1 is None
            },
        forall|k: int, x: WindowId|
            0 <= k < spaces.len() && x != id ==> #[trigger] remove_everywhere(spaces, id)[k].0.contains(x)
                == spaces[k].0.contains(x),
{
    law_remove_is_total(spaces, id);
}

} // verus!
