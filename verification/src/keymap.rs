//! Mapping key events to compositor actions.
//!
//! [`Keymap`] turns the user's [`Keybinds`] into a lookup table from a pressed
//! combination to the [`Action`] the runtime executes, built once so matching
//! on the input path does no parsing.
use vstd::prelude::*;
use crate::config::Keybinds;
use crate::keybind::{Keybind, Mods};
use crate::text::{chars_of, eq_str, push_char};

verus! {

/// Everything the compositor can do in response to a keybinding.
#[derive(Clone, Copy, Debug, PartialEq, Eq, Structural)]
pub enum Action {
    LaunchTerminal,
    CloseWindow,
    ToggleDock,
    ToggleWheel,
    Lock,
    ToggleFpsOverlay,
    NextWorkspace,
    PrevWorkspace,
    ToggleTiling,
    Fullscreen,
    /// Switch directly to a workspace by index (0-based).
    SwitchWorkspace(u32),
}

/// A resolved key combination paired with the action it triggers.
pub struct Keymap {
    bindings: Vec<(Keybind, Action)>,
}

/// One binding as the lookup sees it: modifiers, key name, action.
pub type BindingView = (Mods, Seq<char>, Action);

impl View for Keymap {
    type V = Seq<BindingView>;

    closed spec fn view(&self) -> Seq<BindingView> {
        self.bindings@.map_values(|b: (Keybind, Action)| (b.0.mods, b.0.key@, b.1))
    }
}

pub open spec fn bind_view(kb: Keybind, a: Action) -> BindingView {
    (kb.mods, kb.key@, a)
}

/// The key name of the digit `n` (`1..=9`).
pub open spec fn digit_key(n: int) -> Seq<char> {
    seq![(('0' as int) + n) as char]
}

/// The table built from `kb`: the ten configured actions in declaration
/// order, then `Super+1` .. `Super+9` switching to workspaces 0 .. 8.
pub open spec fn keymap_spec(kb: Keybinds) -> Seq<BindingView> {
    seq![
        bind_view(kb.launch_terminal, Action::LaunchTerminal),
        bind_view(kb.close_window, Action::CloseWindow),
        bind_view(kb.toggle_dock, Action::ToggleDock),
        bind_view(kb.toggle_wheel, Action::ToggleWheel),
        bind_view(kb.lock, Action::Lock),
        bind_view(kb.toggle_fps_overlay, Action::ToggleFpsOverlay),
        bind_view(kb.next_workspace, Action::NextWorkspace),
        bind_view(kb.prev_workspace, Action::PrevWorkspace),
        bind_view(kb.toggle_tiling, Action::ToggleTiling),
        bind_view(kb.fullscreen, Action::Fullscreen),
    ] + Seq::new(
        9,
        |i: int|
            (
                Mods { logo: true, ctrl: false, alt: false, shift: false },
                digit_key(i + 1),
                Action::SwitchWorkspace(i as u32),
            ),
    )
}

/// The action of the first binding whose modifiers and key match exactly.
pub open spec fn lookup(binds: Seq<BindingView>, mods: Mods, key: Seq<char>) -> Option<Action>
    decreases binds.len(),
{
    if binds.len() == 0 {
        None
    } else if binds[0].0 == mods && binds[0].1 == key {
        Some(binds[0].2)
    } else {
        lookup(binds.drop_first(), mods, key)
    }
}

fn copy_bind(kb: &Keybind) -> (r: Keybind)
    ensures
        r.mods == kb.mods,
        r.key@ == kb.key@,
{
    Keybind { mods: kb.mods, key: kb.key.clone() }
}

proof fn lemma_lookup_first(binds: Seq<BindingView>, mods: Mods, key: Seq<char>, i: int)
    requires
        0 <= i < binds.len(),
        binds[i].0 == mods && binds[i].1 == key,
        forall|j: int| 0 <= j < i ==> !(#[trigger] binds[j].0 == mods && binds[j].1 == key),
    ensures
        lookup(binds, mods, key) == Some(binds[i].2),
    decreases i,
{
    if i > 0 {
        let rest = binds.drop_first();
        assert(!(binds[0].0 == mods && binds[0].1 == key));
        assert forall|j: int| 0 <= j < i - 1 implies !(#[trigger] rest[j].0 == mods && rest[j].1 == key) by {
            assert(rest[j] == binds[j + 1]);
        }
        lemma_lookup_first(rest, mods, key, i - 1);
    }
}

proof fn lemma_lookup_none(binds: Seq<BindingView>, mods: Mods, key: Seq<char>)
    requires
        forall|j: int| 0 <= j < binds.len() ==> !(#[trigger] binds[j].0 == mods && binds[j].1 == key),
    ensures
        lookup(binds, mods, key) is None,
    decreases binds.len(),
{
    if binds.len() > 0 {
        let rest = binds.drop_first();
        assert forall|j: int| 0 <= j < rest.len() implies !(#[trigger] rest[j].0 == mods && rest[j].1 == key) by {
            assert(rest[j] == binds[j + 1]);
        }
        lemma_lookup_none(rest, mods, key);
    }
}

impl Keymap {
    /// Build the map from the user's configured bindings, plus the implicit
    /// `Super+1..=9` workspace-switch bindings.
    pub fn from_config(kb: &Keybinds) -> (m: Keymap)
        ensures
            m@ == keymap_spec(*kb),
    {
        let mut bindings: Vec<(Keybind, Action)> = Vec::new();
        bindings.push((copy_bind(&kb.launch_terminal), Action::LaunchTerminal));
        bindings.push((copy_bind(&kb.close_window), Action::CloseWindow));
        bindings.push((copy_bind(&kb.toggle_dock), Action::ToggleDock));
        bindings.push((copy_bind(&kb.toggle_wheel), Action::ToggleWheel));
        bindings.push((copy_bind(&kb.lock), Action::Lock));
        bindings.push((copy_bind(&kb.toggle_fps_overlay), Action::ToggleFpsOverlay));
        bindings.push((copy_bind(&kb.next_workspace), Action::NextWorkspace));
        bindings.push((copy_bind(&kb.prev_workspace), Action::PrevWorkspace));
        bindings.push((copy_bind(&kb.toggle_tiling), Action::ToggleTiling));
        bindings.push((copy_bind(&kb.fullscreen), Action::Fullscreen));
        let ghost fixed = bindings@.map_values(|b: (Keybind, Action)| (b.0.mods, b.0.key@, b.1));
        assert(fixed =~= keymap_spec(*kb).subrange(0, 10));
        let mut n: u32 = 1;
        while n <= 9
            invariant
                1 <= n <= 10,
                bindings@.len() == 9 + n,
                bindings@.map_values(|b: (Keybind, Action)| (b.0.mods, b.0.key@, b.1)) =~= keymap_spec(*kb).subrange(0, 9 + n),
            decreases 10 - n,
        {
            let mut key = String::new();
            let d: u8 = 48 + (n as u8);
            push_char(&mut key, d as char);
            assert(key@ =~= digit_key(n as int));
            bindings.push((Keybind { mods: Mods { logo: true, ctrl: false, alt: false, shift: false }, key }, Action::SwitchWorkspace(n - 1)));
            assert(bindings@.map_values(|b: (Keybind, Action)| (b.0.mods, b.0.key@, b.1)) =~= keymap_spec(*kb).subrange(0, 9 + n + 1));
            n += 1;
        }
        assert(keymap_spec(*kb).subrange(0, 19) =~= keymap_spec(*kb));
        Keymap { bindings }
    }

    /// Look up the action for a pressed combination, if any. `key` is the
    /// key name, lowercased by the caller.
    pub fn action_for(&self, mods: Mods, key: &str) -> (r: Option<&Action>)
        ensures
            r matches Some(a) ==> lookup(self@, mods, key@) == Some(*a),
            r is None ==> lookup(self@, mods, key@) is None,
    {
        let mut i: usize = 0;
        while i < self.bindings.len()
            invariant
                i <= self.bindings@.len(),
                forall|j: int| 0 <= j < i ==> !(#[trigger] self@[j].0 == mods && self@[j].1 == key@),
            decreases self.bindings.len() - i,
        {
            let b = &self.bindings[i];
            assert(self@[i as int] == (b.0.mods, b.0.key@, b.1));
            if b.0.mods == mods && eq_str(&chars_of(b.0.key.as_str()), key) {
                proof {
                    lemma_lookup_first(self@, mods, key@, i as int);
                }
                return Some(&b.1);
            }
            i += 1;
        }
        proof {
            lemma_lookup_none(self@, mods, key@);
        }
        None
    }
}

/// A key combination fires only a binding with exactly its modifiers and key
/// (one needing Shift does not fire without it, nor with extra modifiers),
/// and when several match, the first one listed wins.
pub proof fn law_lookup_is_exact(binds: Seq<BindingView>, mods: Mods, key: Seq<char>)
    ensures
        lookup(binds, mods, key) matches Some(a) ==> exists|i: int|
            0 <= i < binds.len() && binds[i] == (mods, key, a) && forall|j: int|
                0 <= j < i ==> !(#[trigger] binds[j].0 == mods && binds[j].1 == key),
        lookup(binds, mods, key) is None ==> forall|i: int|
            0 <= i < binds.len() ==> !(#[trigger] binds[i].0 == mods && binds[i].1 == key),
    decreases binds.len(),
{
    if binds.len() > 0 {
        let rest = binds.drop_first();
        law_lookup_is_exact(rest, mods, key);
        if !(binds[0].0 == mods && binds[0].1 == key) {
            if let Some(a) = lookup(rest, mods, key) {
                let i = choose|i: int|
                    0 <= i < rest.len() && rest[i] == (mods, key, a) && forall|j: int|
                        0 <= j < i ==> !(#[trigger] rest[j].0 == mods && rest[j].1 == key);
                assert(binds[i + 1] == rest[i]);
                assert forall|j: int| 0 <= j < i + 1 implies !(#[trigger] binds[j].0 == mods && binds[j].1 == key) by {
                    if j > 0 {
                        assert(binds[j] == rest[j - 1]);
                    }
                }
            } else {
                assert forall|i: int| 0 <= i < binds.len() implies !(#[trigger] binds[i].0 == mods && binds[i].1 == key) by {
                    if i > 0 {
                        assert(binds[i] == rest[i - 1]);
                    }
                }
            }
        } else {
            assert(binds[0] == (mods, key, binds[0].2));
        }
    }
}

} // verus!
