use archon::cli::{parse, parse_u32, ParseError};
use archon::ipc::Request;

fn args(v: &[&str]) -> Vec<String> {
    v.iter().map(|s| s.to_string()).collect()
}

fn bad(msg: &str) -> Result<Request, ParseError> {
    Err(ParseError::Bad(msg.into()))
}

#[test]
fn simple_commands_parse() {
    assert_eq!(parse(&args(&["ping"])), Ok(Request::Ping));
    assert_eq!(parse(&args(&["lock"])), Ok(Request::Lock));
    assert_eq!(parse(&args(&["toggle-dock"])), Ok(Request::ToggleDock));
    assert_eq!(parse(&args(&["toggle-wheel"])), Ok(Request::ToggleWheel));
    assert_eq!(parse(&args(&["fps"])), Ok(Request::ToggleFpsOverlay));
    assert_eq!(parse(&args(&["toggle-fps"])), Ok(Request::ToggleFpsOverlay));
    assert_eq!(parse(&args(&["state"])), Ok(Request::QueryState));
}

#[test]
fn help_and_empty_ask_for_usage() {
    assert_eq!(parse(&args(&[])), Err(ParseError::Help));
    assert_eq!(parse(&args(&["-h"])), Err(ParseError::Help));
    assert_eq!(parse(&args(&["--help"])), Err(ParseError::Help));
    assert_eq!(parse(&args(&["help", "x"])), Err(ParseError::Help));
}

#[test]
fn workspace_numbers_are_one_based() {
    assert_eq!(parse(&args(&["workspace", "3"])), Ok(Request::SwitchWorkspace(2)));
    assert_eq!(parse(&args(&["workspace", "0"])), Ok(Request::SwitchWorkspace(0)));
    assert_eq!(parse(&args(&["move-to", "+1"])), Ok(Request::MoveToWorkspace(0)));
    assert_eq!(parse(&args(&["workspace"])), bad("workspace needs an index"));
    assert_eq!(parse(&args(&["move-to"])), bad("move-to needs an index"));
    assert_eq!(parse(&args(&["workspace", "x"])), bad("workspace index must be a number"));
    assert_eq!(parse(&args(&["move-to", "-1"])), bad("workspace index must be a number"));
}

#[test]
fn game_mode_takes_on_or_off() {
    for on in ["on", "true", "1"] {
        assert_eq!(parse(&args(&["game-mode", on])), Ok(Request::SetGameMode(true)));
    }
    for off in ["off", "false", "0"] {
        assert_eq!(parse(&args(&["game-mode", off])), Ok(Request::SetGameMode(false)));
    }
    assert_eq!(parse(&args(&["game-mode", "yes"])), bad("expected `on` or `off`"));
    assert_eq!(parse(&args(&["game-mode"])), bad("expected `on` or `off`"));
}

#[test]
fn ai_enhance_defaults_to_harmonize() {
    assert_eq!(parse(&args(&["ai-enhance"])), Ok(Request::AiEnhance { mode: "harmonize".into() }));
    assert_eq!(parse(&args(&["ai-enhance", "contrast"])), Ok(Request::AiEnhance { mode: "contrast".into() }));
    assert_eq!(parse(&args(&["ai-enhance", "loud"])), bad("mode must be signature|harmonize|contrast"));
}

#[test]
fn wallpaper_and_unknown_commands() {
    assert_eq!(parse(&args(&["wallpaper", "/w/a.png"])), Ok(Request::SetWallpaper("/w/a.png".into())));
    assert_eq!(parse(&args(&["wallpaper"])), bad("wallpaper needs a path"));
    assert_eq!(parse(&args(&["reboot"])), bad("unknown command `reboot`"));
}

#[test]
fn u32_parsing_follows_str_parse() {
    assert_eq!(parse_u32("4294967295"), Some(u32::MAX));
    assert_eq!(parse_u32("4294967296"), None);
    assert_eq!(parse_u32("00012"), Some(12));
    assert_eq!(parse_u32("+7"), Some(7));
    assert_eq!(parse_u32("+"), None);
    assert_eq!(parse_u32(""), None);
    assert_eq!(parse_u32(" 1"), None);
    assert_eq!(parse_u32("99999999999999999999"), None);
    for s in ["0", "42", "+5", "12a", "-3", "4294967295", "4294967296", "١"] {
        assert_eq!(parse_u32(s), s.parse::<u32>().ok(), "{s}");
    }
}
