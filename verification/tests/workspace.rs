use archon::window::WindowId;
use archon::workspace::Workspaces;

fn id(n: u64) -> WindowId {
    WindowId(n)
}

#[test]
fn add_focuses_new_window() {
    let mut w = Workspaces::new(4);
    w.add_window(id(1));
    w.add_window(id(2));
    assert_eq!(w.focused(), Some(id(2)));
    assert_eq!(w.active().windows.len(), 2);
}

#[test]
fn switch_changes_active_and_isolates_windows() {
    let mut w = Workspaces::new(3);
    w.add_window(id(1));
    w.switch_to(1);
    assert!(w.active().windows.is_empty());
    w.add_window(id(2));
    assert_eq!(w.active().windows, vec![id(2)]);
    w.switch_to(0);
    assert_eq!(w.active().windows, vec![id(1)]);
}

#[test]
fn remove_refocuses_remaining() {
    let mut w = Workspaces::new(1);
    w.add_window(id(1));
    w.add_window(id(2));
    w.remove_window(id(2));
    assert_eq!(w.focused(), Some(id(1)));
}

#[test]
fn move_window_relocates_and_focuses() {
    let mut w = Workspaces::new(3);
    w.add_window(id(1));
    assert!(w.move_window_to(id(1), 2));
    assert_eq!(w.workspace_of(id(1)), Some(2));
    assert!(w.active().windows.is_empty()); // gone from workspace 0
    // Workspace 2 now holds the window, focused.
    assert!(w.switch_to(2));
    assert_eq!(w.focused(), Some(id(1)));
}

#[test]
fn move_to_bad_target_fails() {
    let mut w = Workspaces::new(2);
    w.add_window(id(1));
    assert!(!w.move_window_to(id(1), 9));
    assert!(!w.move_window_to(id(42), 1)); // unknown window
}

#[test]
fn cycle_wraps_both_ways() {
    let mut w = Workspaces::new(3);
    w.cycle(false); // 0 -> 2
    assert_eq!(w.active_index(), 2);
    w.cycle(true); // 2 -> 0
    assert_eq!(w.active_index(), 0);
}

#[test]
fn focus_next_cycles_within_workspace() {
    let mut w = Workspaces::new(1);
    w.add_window(id(1));
    w.add_window(id(2));
    w.add_window(id(3)); // focused = 3
    w.focus_next(); // 3 -> wraps to 1
    assert_eq!(w.focused(), Some(id(1)));
    w.focus_next();
    assert_eq!(w.focused(), Some(id(2)));
}

#[test]
fn zero_workspaces_means_one() {
    let w = Workspaces::new(0);
    assert_eq!(w.count(), 1);
    assert_eq!(w.active_index(), 0);
    assert_eq!(w.focused(), None);
}

#[test]
fn readding_keeps_one_entry_and_refocuses() {
    let mut w = Workspaces::new(1);
    w.add_window(id(1));
    w.add_window(id(2));
    w.add_window(id(1));
    assert_eq!(w.active().windows, vec![id(1), id(2)]);
    assert_eq!(w.focused(), Some(id(1)));
}

#[test]
fn switch_out_of_range_changes_nothing() {
    let mut w = Workspaces::new(2);
    assert!(!w.switch_to(2));
    assert_eq!(w.active_index(), 0);
    assert_eq!(w.workspace_of(id(7)), None);
}

#[test]
fn removing_the_last_window_clears_focus() {
    let mut w = Workspaces::new(1);
    w.add_window(id(5));
    w.remove_window(id(5));
    assert_eq!(w.focused(), None);
    w.focus_next();
    assert_eq!(w.focused(), None);
}
