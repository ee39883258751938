use archon::gaming::{candidate_paths, detect_in, join, launch_env, GameMode, GameProfile, Launcher, PerfProfile};

fn get<'a>(env: &'a [(String, String)], key: &str) -> Option<&'a str> {
    env.iter().find(|(k, _)| k == key).map(|(_, v)| v.as_str())
}

#[test]
fn toggle_flips_state() {
    let mut gm = GameMode::new();
    assert!(!gm.active);
    assert!(gm.toggle());
    assert!(!gm.toggle());
}

#[test]
fn apply_reports_actions_per_state() {
    let mut gm = GameMode::new();
    assert!(gm.apply().iter().any(|a| a.contains("leave")));
    gm.toggle();
    assert!(gm.apply().iter().any(|a| a.contains("enter")));
}

#[test]
fn performance_profile_enables_tearing_and_low_latency() {
    let mut p = GameProfile::new("Valorant");
    p.profile = PerfProfile::Performance;
    let env = launch_env(&p);
    assert_eq!(get(&env, "ARCHON_ALLOW_TEARING"), Some("1"));
    assert_eq!(get(&env, "ARCHON_GOVERNOR"), Some("performance"));
    assert_eq!(get(&env, "__GL_MaxFramesAllowed"), Some("1"));
}

#[test]
fn efficiency_caps_and_powersaves() {
    let mut p = GameProfile::new("Stardew");
    p.profile = PerfProfile::Efficiency;
    p.fps_cap = 60;
    let env = launch_env(&p);
    assert_eq!(get(&env, "ARCHON_ALLOW_TEARING"), Some("0"));
    assert_eq!(get(&env, "ARCHON_GOVERNOR"), Some("powersave"));
    assert_eq!(get(&env, "ARCHON_FPS_CAP"), Some("60"));
    assert_eq!(get(&env, "DXVK_FRAME_RATE"), Some("60"));
}

#[test]
fn shader_cache_toggle_is_reflected() {
    let mut p = GameProfile::new("X");
    p.shader_cache = false;
    assert_eq!(get(&launch_env(&p), "DXVK_STATE_CACHE"), Some("0"));
}

#[test]
fn output_is_sorted_and_deterministic() {
    let p = GameProfile::new("X");
    let a = launch_env(&p);
    let mut sorted = a.clone();
    sorted.sort();
    assert_eq!(a, sorted);
    assert_eq!(a, launch_env(&p));
}

#[test]
fn every_profile_variant_is_sorted() {
    for profile in [PerfProfile::Performance, PerfProfile::Balanced, PerfProfile::Efficiency] {
        for (mangohud, shader_cache, fps_cap) in [(true, true, 144), (false, false, 0), (true, false, 30)] {
            let p = GameProfile { name: "G".into(), profile, mangohud, shader_cache, fps_cap };
            let env = launch_env(&p);
            let mut sorted = env.clone();
            sorted.sort();
            assert_eq!(env, sorted);
        }
    }
}

#[test]
fn balanced_default_environment_is_exact() {
    let env = launch_env(&GameProfile::new("X"));
    let expect: Vec<(String, String)> = [
        ("ARCHON_ALLOW_TEARING", "0"),
        ("ARCHON_GOVERNOR", "schedutil"),
        ("DXVK_STATE_CACHE", "1"),
        ("VKD3D_SHADER_CACHE", "1"),
    ]
    .iter()
    .map(|(k, v)| (k.to_string(), v.to_string()))
    .collect();
    assert_eq!(env, expect);
    let mut p = GameProfile::new("Y");
    p.mangohud = true;
    p.fps_cap = 4294967295;
    let env = launch_env(&p);
    assert_eq!(get(&env, "MANGOHUD"), Some("1"));
    assert_eq!(get(&env, "ARCHON_FPS_CAP"), Some("4294967295"));
    assert_eq!(get(&env, "__GL_MaxFramesAllowed"), None);
}

#[test]
fn launcher_names_and_commands() {
    assert_eq!(Launcher::Heroic.name(), "Heroic (Epic/GOG)");
    assert_eq!(Launcher::Riot.launch_command(), "lutris lutris:rungame/riot-client");
    assert_eq!(Launcher::all().len(), 6);
    assert_eq!(Launcher::Steam.markers()[0], ".steam/steam");
}

#[test]
fn join_adds_one_separator() {
    assert_eq!(join("/home/a", ".steam/steam"), "/home/a/.steam/steam");
    assert_eq!(join("/home/a/", ".steam/steam"), "/home/a/.steam/steam");
    assert_eq!(join("", "x"), "x");
}

#[test]
fn detect_in_takes_the_first_present_marker() {
    let groups = candidate_paths("/h");
    assert_eq!(groups[0].1[1], "/h/.local/share/Steam");
    // Steam: second and third markers exist; Prism: first; nothing else.
    let present: Vec<Vec<bool>> = groups
        .iter()
        .map(|(l, paths)| {
            paths
                .iter()
                .enumerate()
                .map(|(j, _)| match l {
                    Launcher::Steam => j >= 1,
                    Launcher::PrismLauncher => j == 0,
                    _ => false,
                })
                .collect()
        })
        .collect();
    let found = detect_in("/h", &present);
    assert_eq!(found.len(), 2);
    assert_eq!(found[0].launcher, Launcher::Steam);
    assert_eq!(found[0].marker_path, "/h/.local/share/Steam");
    assert_eq!(found[1].launcher, Launcher::PrismLauncher);
    assert_eq!(found[1].marker_path, "/h/.local/share/PrismLauncher");
}

#[test]
fn detect_in_with_nothing_present_finds_nothing() {
    let present: Vec<Vec<bool>> = candidate_paths("/h").iter().map(|(_, p)| vec![false; p.len()]).collect();
    assert!(detect_in("/h", &present).is_empty());
}
