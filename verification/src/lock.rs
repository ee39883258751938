//! The lock screen's state machine: idle, swiping, typing a password, and
//! unlocked.
//!
//! The user unlocks either with the edge-swipe gesture (whose geometry the
//! presentation layer tracks, reporting when a swipe is armed and how it
//! ended) or by typing a password or PIN that an [`Authenticator`] checks.
use vstd::prelude::*;
use crate::text::{chars_of, eq_str, push_char, string_of};

verus! {

/// Pluggable credential check, so the lock screen never touches the system
/// authentication stack directly (and tests can inject a mock).
pub trait Authenticator {
    /// Return true if `secret` authenticates `user`.
    fn authenticate(&mut self, user: &str, secret: &str) -> (ok: bool);
}

/// An authenticator that accepts a single known user and secret. Used in
/// tests and as a safe default when no system authentication is built in.
pub struct MockAuthenticator {
    pub user: String,
    pub secret: String,
}

impl Authenticator for MockAuthenticator {
    fn authenticate(&mut self, user: &str, secret: &str) -> (ok: bool)
        ensures
            ok == (user@ == old(self).user@ && secret@ == old(self).secret@),
            *final(self) == *old(self),
    {
        eq_str(&chars_of(user), self.user.as_str()) && eq_str(&chars_of(secret), self.secret.as_str())
    }
}

/// What the lock screen is currently doing.
#[derive(Clone, Copy, Debug, PartialEq, Eq, Structural)]
pub enum Phase {
    /// Showing the clock/title; waiting for a swipe or a key to type.
    Idle,
    /// An edge swipe is in progress.
    Swiping,
    /// The password field is focused and accepting input.
    PasswordEntry,
    /// Credentials accepted: the compositor can tear the lock down.
    Unlocked,
}

/// Outcome of releasing the pointer mid-gesture.
#[derive(Clone, Copy, Debug, PartialEq, Eq, Structural)]
pub enum SwipeRelease {
    /// Travelled past the threshold: unlock.
    Unlocked,
    /// Released early: the dot springs back and the screen stays locked.
    Reset,
}

/// Whether `c` is a control character (Unicode general category `Cc`).
pub open spec fn is_control_char(c: char) -> bool {
    c <= '\u{1f}' || ('\u{7f}' <= c && c <= '\u{9f}')
}

/// The lock screen's state: the phase, the typed secret and whether the last
/// attempt failed.
pub struct LockState {
    phase: Phase,
    /// Typed password/PIN (never logged or rendered as plain text).
    secret: Vec<char>,
    /// Whether a completed swipe unlocks (otherwise it reveals the password
    /// field).
    swipe_to_unlock: bool,
    /// Set when the last password attempt failed, to flash the field.
    pub auth_failed: bool,
}

/// The lock state as contracts see it.
pub struct LockView {
    pub phase: Phase,
    pub secret: Seq<char>,
    pub swipe_to_unlock: bool,
    pub auth_failed: bool,
}

impl View for LockState {
    type V = LockView;

    closed spec fn view(&self) -> LockView {
        LockView {
            phase: self.phase,
            secret: self.secret@,
            swipe_to_unlock: self.swipe_to_unlock,
            auth_failed: self.auth_failed,
        }
    }
}

/// The state after a typed character.
pub open spec fn typed(s: LockView, c: char) -> LockView {
    if is_control_char(c) || s.phase == Phase::Unlocked {
        s
    } else {
        LockView { phase: Phase::PasswordEntry, secret: s.secret.push(c), auth_failed: false, ..s }
    }
}

/// The state after the pointer is released with outcome `out`.
pub open spec fn released(s: LockView, out: SwipeRelease) -> LockView {
    if s.phase != Phase::Swiping {
        s
    } else {
        match out {
            SwipeRelease::Unlocked => LockView {
                phase: if s.swipe_to_unlock { Phase::Unlocked } else { Phase::PasswordEntry },
                ..s
            },
            SwipeRelease::Reset => LockView { phase: Phase::Idle, ..s },
        }
    }
}

/// The state after a password attempt the authenticator answered `ok`.
pub open spec fn judged(s: LockView, ok: bool) -> LockView {
    if s.phase != Phase::PasswordEntry {
        s
    } else if ok {
        LockView { phase: Phase::Unlocked, secret: Seq::empty(), ..s }
    } else {
        LockView { auth_failed: true, secret: Seq::empty(), ..s }
    }
}

impl LockState {
    /// A locked screen showing its title; `swipe_to_unlock` says whether a
    /// completed swipe unlocks or only reveals the password field.
    pub fn new(swipe_to_unlock: bool) -> (s: LockState)
        ensures
            s@.phase == Phase::Idle,
            s@.secret.len() == 0,
            s@.swipe_to_unlock == swipe_to_unlock,
            !s@.auth_failed,
    {
        LockState { phase: Phase::Idle, secret: Vec::new(), swipe_to_unlock, auth_failed: false }
    }

    pub fn phase(&self) -> (p: Phase)
        ensures
            p == self@.phase,
    {
        self.phase
    }

    pub fn is_unlocked(&self) -> (b: bool)
        ensures
            b == (self@.phase == Phase::Unlocked),
    {
        self.phase == Phase::Unlocked
    }

    /// How many characters have been typed (for the masked field).
    pub fn secret_len(&self) -> (n: usize)
        ensures
            n == self@.secret.len(),
    {
        self.secret.len()
    }

    /// The password field's text: one bullet (U+2022) per typed character,
    /// at most 24, so the secret itself is never shown.
    pub fn masked_secret(&self) -> (s: String)
        ensures
            s@ == Seq::new(
                if self@.secret.len() < 24 { self@.secret.len() } else { 24 },
                |i: int| '\u{2022}',
            ),
    {
        let n: usize = if self.secret.len() < 24 { self.secret.len() } else { 24 };
        let mut s = String::new();
        let mut i: usize = 0;
        while i < n
            invariant
                i <= n,
                s@ == Seq::new(i as nat, |k: int| '\u{2022}'),
            decreases n - i,
        {
            push_char(&mut s, '\u{2022}');
            i += 1;
            assert(s@ =~= Seq::new(i as nat, |k: int| '\u{2022}'));
        }
        s
    }

    /// Pointer pressed; `armed` says whether the press began a swipe at the
    /// edge. An armed press on the idle screen starts swiping.
    pub fn on_press(&mut self, armed: bool)
        ensures
            final(self)@ == if old(self)@.phase == Phase::Idle && armed {
                LockView { phase: Phase::Swiping, ..old(self)@ }
            } else {
                old(self)@
            },
    {
        if self.phase == Phase::Idle && armed {
            self.phase = Phase::Swiping;
        }
    }

    /// Pointer released during a swipe, which ended as `out`: past the
    /// threshold it unlocks (or, with swipe-to-unlock off, reveals the
    /// password field); released early it returns to idle.
    pub fn on_release(&mut self, out: SwipeRelease)
        ensures
            final(self)@ == released(old(self)@, out),
    {
        if self.phase != Phase::Swiping {
            return;
        }
        match out {
            SwipeRelease::Unlocked => {
                if self.swipe_to_unlock {
                    self.phase = Phase::Unlocked;
                } else {
                    self.phase = Phase::PasswordEntry;
                }
            },
            SwipeRelease::Reset => self.phase = Phase::Idle,
        }
    }

    /// A character was typed: control characters are left to other
    /// handlers; otherwise typing switches to password entry and appends to
    /// the secret.
    pub fn on_char(&mut self, c: char)
        ensures
            final(self)@ == typed(old(self)@, c),
    {
        if c <= '\u{1f}' || ('\u{7f}' <= c && c <= '\u{9f}') {
            return;
        }
        if self.phase == Phase::Idle || self.phase == Phase::Swiping {
            self.phase = Phase::PasswordEntry;
        }
        if self.phase == Phase::PasswordEntry {
            self.auth_failed = false;
            self.secret.push(c);
        }
    }

    /// Backspace in the password field.
    pub fn on_backspace(&mut self)
        ensures
            final(self)@ == if old(self)@.phase == Phase::PasswordEntry && old(self)@.secret.len() > 0 {
                LockView { secret: old(self)@.secret.drop_last(), ..old(self)@ }
            } else {
                old(self)@
            },
    {
        if self.phase == Phase::PasswordEntry {
            let _ = self.secret.pop();
        }
    }

    /// Take the authenticator's answer to the typed secret: on success the
    /// screen unlocks; on failure `auth_failed` is set. Either way the
    /// secret is cleared. Outside password entry nothing changes.
    pub fn apply_auth(&mut self, ok: bool)
        ensures
            final(self)@ == judged(old(self)@, ok),
    {
        if self.phase != Phase::PasswordEntry {
            return;
        }
        if ok {
            self.phase = Phase::Unlocked;
        } else {
            self.auth_failed = true;
        }
        self.secret = Vec::new();
    }

    /// Submit the typed secret for `user` to `auth`, and take its answer as
    /// [`LockState::apply_auth`] does. Outside password entry `auth` is not
    /// asked.
    pub fn submit<A: Authenticator>(&mut self, user: &str, auth: &mut A)
        ensures
            old(self)@.phase != Phase::PasswordEntry ==> final(self)@ == old(self)@,
            old(self)@.phase == Phase::PasswordEntry ==> final(self)@ == judged(old(self)@, true)
                || final(self)@ == judged(old(self)@, false),
    {
        if self.phase != Phase::PasswordEntry {
            return;
        }
        let secret = string_of(&self.secret);
        let ok = auth.authenticate(user, secret.as_str());
        self.apply_auth(ok);
    }
}

/// Typing and then releasing no swipe never unlocks the screen: only a
/// completed swipe with swipe-to-unlock on, or an accepted password, does.
pub proof fn law_unlock_needs_consent(s: LockView, c: char, out: SwipeRelease)
    requires
        s.phase != Phase::Unlocked,
    ensures
        typed(s, c).phase != Phase::Unlocked,
        released(s, out).phase == Phase::Unlocked <==> (s.phase == Phase::Swiping && out
            == SwipeRelease::Unlocked && s.swipe_to_unlock),
        judged(s, false).phase != Phase::Unlocked,
        judged(s, true).phase == Phase::Unlocked <==> s.phase == Phase::PasswordEntry,
{
}

/// Every password attempt clears the typed secret; a refused one keeps the
/// password field open and flags the failure, which the next typed
/// character clears.
pub proof fn law_attempt_clears_secret(s: LockView, ok: bool, c: char)
    requires
        s.phase == Phase::PasswordEntry,
    ensures
        judged(s, ok).secret.len() == 0,
        !ok ==> judged(s, ok).phase == Phase::PasswordEntry && judged(s, ok).auth_failed,
        !ok && !is_control_char(c) ==> !typed(judged(s, ok), c).auth_failed
            && typed(judged(s, ok), c).secret == seq![c],
{
}

} // verus!
