//! The shell's control wheel items and how their actions reach the
//! compositor.
use vstd::prelude::*;
use crate::ipc::Request;
use crate::text::string_from;

verus! {

/// What a wheel item does when activated.
#[derive(Clone, Debug, PartialEq, Eq)]
pub enum WheelAction {
    Power,
    Settings,
    Notifications,
    Workspaces,
    Widgets,
    GameMode,
    Lock,
    /// Launch an arbitrary command.
    Launch(String),
}

/// One entry on the wheel.
#[derive(Clone, Debug)]
pub struct WheelItem {
    pub label: String,
    /// Icon name (freedesktop icon theme) the renderer resolves.
    pub icon: String,
    pub action: WheelAction,
}

impl WheelItem {
    pub fn new(label: &str, icon: &str, action: WheelAction) -> (w: WheelItem)
        ensures
            w.label@ == label@,
            w.icon@ == icon@,
            w.action == action,
    {
        WheelItem { label: string_from(label), icon: string_from(icon), action }
    }
}

/// The default wheel, clockwise from the top: label, icon and action.
pub open spec fn default_wheel() -> Seq<(Seq<char>, Seq<char>, WheelAction)> {
    seq![
        ("Power"@, "system-shutdown"@, WheelAction::Power),
        ("Settings"@, "configure"@, WheelAction::Settings),
        ("Notifications"@, "notifications"@, WheelAction::Notifications),
        ("Workspaces"@, "view-grid"@, WheelAction::Workspaces),
        ("Widgets"@, "widget"@, WheelAction::Widgets),
        ("Game Mode"@, "applications-games"@, WheelAction::GameMode),
        ("Lock"@, "system-lock-screen"@, WheelAction::Lock),
    ]
}

/// What a wheel item shows and does.
pub open spec fn item_view(w: WheelItem) -> (Seq<char>, Seq<char>, WheelAction) {
    (w.label@, w.icon@, w.action)
}

/// The default ArchonSync control wheel.
pub fn default_items() -> (v: Vec<WheelItem>)
    ensures
        v@.map_values(|w: WheelItem| item_view(w)) == default_wheel(),
{
    let mut v: Vec<WheelItem> = Vec::new();
    v.push(WheelItem::new("Power", "system-shutdown", WheelAction::Power));
    v.push(WheelItem::new("Settings", "configure", WheelAction::Settings));
    v.push(WheelItem::new("Notifications", "notifications", WheelAction::Notifications));
    v.push(WheelItem::new("Workspaces", "view-grid", WheelAction::Workspaces));
    v.push(WheelItem::new("Widgets", "widget", WheelAction::Widgets));
    v.push(WheelItem::new("Game Mode", "applications-games", WheelAction::GameMode));
    v.push(WheelItem::new("Lock", "system-lock-screen", WheelAction::Lock));
    assert(v@.map_values(|w: WheelItem| item_view(w)) =~= default_wheel());
    v
}

/// The request that carries out `action`, where there is a direct mapping.
/// Actions handled entirely inside the shell (the power menu, settings, the
/// notification center, the workspaces overview, widgets, launching) have
/// none.
pub open spec fn wheel_request(action: WheelAction) -> Option<Request> {
    match action {
        WheelAction::Lock => Some(Request::Lock),
        WheelAction::GameMode => Some(Request::SetGameMode(true)),
        _ => None,
    }
}

/// Translate a wheel action into the request that realises it, when there
/// is a direct mapping.
pub fn wheel_action_to_request(action: &WheelAction) -> (r: Option<Request>)
    ensures
        r == wheel_request(*action),
{
    match action {
        WheelAction::Lock => Some(Request::Lock),
        WheelAction::GameMode => Some(Request::SetGameMode(true)),
        WheelAction::Power | WheelAction::Settings | WheelAction::Notifications | WheelAction::Workspaces | WheelAction::Widgets
        | WheelAction::Launch(_) => None,
    }
}

/// Whether the dock should slide in: when pinned, when the pointer reaches
/// the reveal zone at its edge, or while the pointer rests on the open dock;
/// without auto-hide it always stays in.
pub fn dock_shown(pinned: bool, near_edge: bool, hovered: bool, open: bool, auto_hide: bool) -> (b: bool)
    ensures
        b == (pinned || near_edge || (hovered && open) || !auto_hide),
{
    let want_shown = pinned || near_edge || (hovered && open);
    if want_shown {
        true
    } else if auto_hide {
        false
    } else {
        true
    }
}

/// The item of a wheel of `n` items sitting at the top after `step` whole
/// steps of rotation (either way, wrapping around); 0 for an empty wheel.
pub fn wheel_slot(step: i64, n: usize) -> (i: usize)
    requires
        n <= i64::MAX,
    ensures
        n == 0 ==> i == 0,
        n > 0 ==> i == (step as int) % (n as int) && i < n,
{
    if n == 0 {
        return 0;
    }
    match step.checked_rem_euclid(n as i64) {
        Some(r) => r as usize,
        None => 0,
    }
}

} // verus!
