use archon::lock::{Authenticator, LockState, MockAuthenticator, Phase, SwipeRelease};

fn screen() -> LockState {
    LockState::new(true)
}

#[test]
fn typing_switches_to_password_entry() {
    let mut s = screen();
    s.on_char('h');
    s.on_char('i');
    assert_eq!(s.phase(), Phase::PasswordEntry);
    s.on_backspace();
    // Wrong password flags failure, right one unlocks.
    let mut auth = MockAuthenticator { user: "archon".into(), secret: "hunter2".into() };
    s.submit("archon", &mut auth);
    assert!(s.auth_failed);
    for c in "hunter2".chars() {
        s.on_char(c);
    }
    s.submit("archon", &mut auth);
    assert!(s.is_unlocked());
}

#[test]
fn completed_swipe_unlocks_when_enabled() {
    let mut s = screen();
    s.on_press(true);
    assert_eq!(s.phase(), Phase::Swiping);
    s.on_release(SwipeRelease::Unlocked);
    assert!(s.is_unlocked());
}

#[test]
fn completed_swipe_reveals_password_when_disabled() {
    let mut s = LockState::new(false);
    s.on_press(true);
    s.on_release(SwipeRelease::Unlocked);
    assert_eq!(s.phase(), Phase::PasswordEntry);
}

#[test]
fn early_release_returns_to_idle() {
    let mut s = screen();
    s.on_press(true);
    s.on_release(SwipeRelease::Reset);
    assert_eq!(s.phase(), Phase::Idle);
    assert!(!s.is_unlocked());
    // A press away from the edge does not start a swipe.
    s.on_press(false);
    assert_eq!(s.phase(), Phase::Idle);
    s.on_release(SwipeRelease::Unlocked);
    assert_eq!(s.phase(), Phase::Idle);
}

#[test]
fn control_characters_are_ignored() {
    let mut s = screen();
    s.on_char('\n');
    s.on_char('\u{7f}');
    s.on_char('\u{9f}');
    assert_eq!(s.phase(), Phase::Idle);
    assert_eq!(s.secret_len(), 0);
    s.on_char('\u{a0}');
    assert_eq!(s.secret_len(), 1);
}

#[test]
fn failed_attempt_clears_and_typing_resets_the_flag() {
    let mut s = screen();
    let mut auth = MockAuthenticator { user: "archon".into(), secret: "pw".into() };
    s.on_char('x');
    s.submit("someone", &mut auth);
    assert!(s.auth_failed);
    assert_eq!(s.secret_len(), 0);
    assert_eq!(s.phase(), Phase::PasswordEntry);
    s.on_char('p');
    assert!(!s.auth_failed);
    // Submitting outside password entry asks nobody.
    let mut idle = screen();
    idle.submit("archon", &mut auth);
    assert_eq!(idle.phase(), Phase::Idle);
}

#[test]
fn mock_authenticator_checks_both_fields() {
    let mut auth = MockAuthenticator { user: "u".into(), secret: "s".into() };
    assert!(auth.authenticate("u", "s"));
    assert!(!auth.authenticate("u", "x"));
    assert!(!auth.authenticate("x", "s"));
}

#[test]
fn unlocked_screen_ignores_input() {
    let mut s = screen();
    s.apply_auth(true);
    assert_eq!(s.phase(), Phase::Idle);
    s.on_press(true);
    s.on_release(SwipeRelease::Unlocked);
    s.on_char('a');
    s.on_backspace();
    assert!(s.is_unlocked());
    assert_eq!(s.secret_len(), 0);
}

#[test]
fn password_field_shows_bullets_capped_at_24() {
    let mut s = screen();
    assert_eq!(s.masked_secret(), "");
    for c in "hunter2".chars() {
        s.on_char(c);
    }
    assert_eq!(s.masked_secret(), "•••••••");
    for _ in 0..30 {
        s.on_char('x');
    }
    assert_eq!(s.masked_secret(), "•".repeat(24));
}
