use archon::ipc::Request;
use archon::shell::{default_items, dock_shown, wheel_action_to_request, wheel_slot, WheelAction, WheelItem};

#[test]
fn lock_action_maps_to_lock_request() {
    assert_eq!(wheel_action_to_request(&WheelAction::Lock), Some(Request::Lock));
    assert_eq!(wheel_action_to_request(&WheelAction::Settings), None);
}

#[test]
fn every_wheel_action_maps_as_documented() {
    assert_eq!(wheel_action_to_request(&WheelAction::GameMode), Some(Request::SetGameMode(true)));
    assert_eq!(wheel_action_to_request(&WheelAction::Notifications), None);
    assert_eq!(wheel_action_to_request(&WheelAction::Power), None);
    assert_eq!(wheel_action_to_request(&WheelAction::Launch("foot".into())), None);
}

#[test]
fn default_items_are_the_seven_wheel_entries() {
    let items = default_items();
    assert_eq!(items.len(), 7);
    assert_eq!(items[0].label, "Power");
    assert_eq!(items[5].icon, "applications-games");
    assert_eq!(items[6].action, WheelAction::Lock);
    let w = WheelItem::new("L", "i", WheelAction::Widgets);
    assert_eq!((w.label.as_str(), w.icon.as_str()), ("L", "i"));
}

#[test]
fn dock_shows_when_wanted_or_not_hiding() {
    assert!(dock_shown(true, false, false, false, true));
    assert!(dock_shown(false, true, false, false, true));
    assert!(dock_shown(false, false, true, true, true));
    assert!(!dock_shown(false, false, true, false, true));
    assert!(!dock_shown(false, false, false, false, true));
    assert!(dock_shown(false, false, false, false, false));
}

#[test]
fn wheel_slot_wraps_both_ways() {
    assert_eq!(wheel_slot(2, 7), 2);
    assert_eq!(wheel_slot(-1, 7), 6);
    assert_eq!(wheel_slot(15, 7), 1);
    assert_eq!(wheel_slot(-15, 7), 6);
    assert_eq!(wheel_slot(5, 0), 0);
}
