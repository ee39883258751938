//! Gaming integration: Game Mode state, installed-launcher detection and the
//! launch environment a per-game performance profile translates into.
use vstd::prelude::*;
use crate::text::{decimal, decimal_string, string_from, string_of, chars_of, push_char};

verus! {

/// Tracks whether Game Mode is currently engaged.
#[derive(Clone, Copy, Debug, Default, PartialEq, Eq, Structural)]
pub struct GameMode {
    pub active: bool,
}

/// What applying Game Mode does in the given state.
pub open spec fn game_mode_actions(active: bool) -> Seq<Seq<char>> {
    if active {
        seq![
            "request gamemoded enter"@,
            "set cpu governor=performance"@,
            "disable compositor effects"@,
            "enable tearing for fullscreen game"@,
        ]
    } else {
        seq!["request gamemoded leave"@, "restore cpu governor"@, "re-enable compositor effects"@]
    }
}

/// The texts of a list of string slices.
pub open spec fn texts(v: Seq<&str>) -> Seq<Seq<char>> {
    v.map_values(|s: &str| s@)
}

impl GameMode {
    pub fn new() -> (g: GameMode)
        ensures
            !g.active,
    {
        GameMode { active: false }
    }

    /// Toggle and return the new state.
    pub fn toggle(&mut self) -> (now: bool)
        ensures
            final(self).active == !old(self).active,
            now == final(self).active,
    {
        self.active = !self.active;
        self.active
    }

    /// The actions that applying the current state to the system takes, in
    /// order; the system side (gamemoded over D-Bus, the CPU governor) is
    /// carried out by the caller.
    pub fn apply(&self) -> (r: Vec<&'static str>)
        ensures
            texts(r@) == game_mode_actions(self.active),
    {
        let mut v: Vec<&'static str> = Vec::new();
        if self.active {
            v.push("request gamemoded enter");
            v.push("set cpu governor=performance");
            v.push("disable compositor effects");
            v.push("enable tearing for fullscreen game");
        } else {
            v.push("request gamemoded leave");
            v.push("restore cpu governor");
            v.push("re-enable compositor effects");
        }
        assert(texts(v@) =~= game_mode_actions(self.active));
        v
    }
}

/// A launcher the desktop knows how to detect and integrate.
#[derive(Clone, Copy, Debug, PartialEq, Eq, Structural)]
pub enum Launcher {
    Steam,
    /// Epic / GOG.
    Heroic,
    Lutris,
    /// Minecraft.
    PrismLauncher,
    Bottles,
    /// Via a Wine/Lutris prefix.
    Riot,
}

pub open spec fn launcher_name(l: Launcher) -> Seq<char> {
    match l {
        Launcher::Steam => "Steam"@,
        Launcher::Heroic => "Heroic (Epic/GOG)"@,
        Launcher::Lutris => "Lutris"@,
        Launcher::PrismLauncher => "Prism Launcher"@,
        Launcher::Bottles => "Bottles"@,
        Launcher::Riot => "Riot Client"@,
    }
}

pub open spec fn launcher_command(l: Launcher) -> Seq<char> {
    match l {
        Launcher::Steam => "steam"@,
        Launcher::Heroic => "heroic"@,
        Launcher::Lutris => "lutris"@,
        Launcher::PrismLauncher => "prismlauncher"@,
        Launcher::Bottles => "bottles"@,
        Launcher::Riot => "lutris lutris:rungame/riot-client"@,
    }
}

/// Paths, relative to the home directory, whose existence implies the
/// launcher is installed; any one is enough.
pub open spec fn launcher_markers(l: Launcher) -> Seq<Seq<char>> {
    match l {
        Launcher::Steam => seq![".steam/steam"@, ".local/share/Steam"@, ".var/app/com.valvesoftware.Steam"@],
        Launcher::Heroic => seq![".config/heroic"@, ".var/app/com.heroicgameslauncher.hgl"@],
        Launcher::Lutris => seq![".local/share/lutris"@, ".config/lutris"@, ".var/app/net.lutris.Lutris"@],
        Launcher::PrismLauncher => seq![".local/share/PrismLauncher"@, ".var/app/org.prismlauncher.PrismLauncher"@],
        Launcher::Bottles => seq![".local/share/bottles"@, ".var/app/com.usebottles.bottles"@],
        Launcher::Riot => seq![".local/share/lutris/runners/riotclient"@, "Games/riot-client"@],
    }
}

/// Every launcher, in detection order.
pub open spec fn all_launchers() -> Seq<Launcher> {
    seq![
        Launcher::Steam,
        Launcher::Heroic,
        Launcher::Lutris,
        Launcher::PrismLauncher,
        Launcher::Bottles,
        Launcher::Riot,
    ]
}

impl Launcher {
    /// Every launcher the detection tries, in order.
    pub fn all() -> (v: Vec<Launcher>)
        ensures
            v@ == all_launchers(),
    {
        let v = vec![
            Launcher::Steam,
            Launcher::Heroic,
            Launcher::Lutris,
            Launcher::PrismLauncher,
            Launcher::Bottles,
            Launcher::Riot,
        ];
        assert(v@ =~= all_launchers());
        v
    }

    /// Human-readable name.
    pub fn name(self) -> (s: &'static str)
        ensures
            s@ == launcher_name(self),
    {
        match self {
            Launcher::Steam => "Steam",
            Launcher::Heroic => "Heroic (Epic/GOG)",
            Launcher::Lutris => "Lutris",
            Launcher::PrismLauncher => "Prism Launcher",
            Launcher::Bottles => "Bottles",
            Launcher::Riot => "Riot Client",
        }
    }

    /// Home-relative marker paths for this launcher.
    pub fn markers(self) -> (v: Vec<&'static str>)
        ensures
            texts(v@) == launcher_markers(self),
    {
        let mut v: Vec<&'static str> = Vec::new();
        match self {
            Launcher::Steam => {
                v.push(".steam/steam");
                v.push(".local/share/Steam");
                v.push(".var/app/com.valvesoftware.Steam");
            },
            Launcher::Heroic => {
                v.push(".config/heroic");
                v.push(".var/app/com.heroicgameslauncher.hgl");
            },
            Launcher::Lutris => {
                v.push(".local/share/lutris");
                v.push(".config/lutris");
                v.push(".var/app/net.lutris.Lutris");
            },
            Launcher::PrismLauncher => {
                v.push(".local/share/PrismLauncher");
                v.push(".var/app/org.prismlauncher.PrismLauncher");
            },
            Launcher::Bottles => {
                v.push(".local/share/bottles");
                v.push(".var/app/com.usebottles.bottles");
            },
            Launcher::Riot => {
                v.push(".local/share/lutris/runners/riotclient");
                v.push("Games/riot-client");
            },
        }
        assert(texts(v@) =~= launcher_markers(self));
        v
    }

    /// The command used to launch it.
    pub fn launch_command(self) -> (s: &'static str)
        ensures
            s@ == launcher_command(self),
    {
        match self {
            Launcher::Steam => "steam",
            Launcher::Heroic => "heroic",
            Launcher::Lutris => "lutris",
            Launcher::PrismLauncher => "prismlauncher",
            Launcher::Bottles => "bottles",
            Launcher::Riot => "lutris lutris:rungame/riot-client",
        }
    }
}

/// A detected launcher and the path that proved it present.
#[derive(Clone, Debug, PartialEq, Eq)]
pub struct DetectedLauncher {
    pub launcher: Launcher,
    pub marker_path: String,
}

/// `rel` appended to the directory `home`, with one `/` between them unless
/// `home` is empty or already ends in `/` (as `Path::join` does for a
/// relative path).
pub open spec fn join_path(home: Seq<char>, rel: Seq<char>) -> Seq<char> {
    if home.len() == 0 || home.last() == '/' {
        home + rel
    } else {
        home.push('/') + rel
    }
}

/// `rel` appended to the directory `home`.
pub fn join(home: &str, rel: &str) -> (p: String)
    ensures
        p@ == join_path(home@, rel@),
{
    let h = chars_of(home);
    let mut p = string_of(&h);
    if h.len() > 0 && h[h.len() - 1] != '/' {
        push_char(&mut p, '/');
    }
    p.append(rel);
    p
}

/// For each launcher in detection order, the full marker paths under `home`.
pub open spec fn candidates_spec(home: Seq<char>) -> Seq<(Launcher, Seq<Seq<char>>)> {
    all_launchers().map_values(
        |l: Launcher| (l, launcher_markers(l).map_values(|m: Seq<char>| join_path(home, m))),
    )
}

/// The marker paths to probe under `home`, grouped by launcher in detection
/// order.
pub fn candidate_paths(home: &str) -> (r: Vec<(Launcher, Vec<String>)>)
    ensures
        r@.len() == candidates_spec(home@).len(),
        forall|i: int| 0 <= i < r@.len() ==> #[trigger] r@[i].0 == candidates_spec(home@)[i].0
            && r@[i].1@.map_values(|s: String| s@) == candidates_spec(home@)[i].1,
{
    let all = Launcher::all();
    let mut r: Vec<(Launcher, Vec<String>)> = Vec::new();
    let mut i: usize = 0;
    while i < all.len()
        invariant
            all@ == all_launchers(),
            i <= all@.len(),
            r@.len() == i,
            forall|k: int| 0 <= k < i ==> #[trigger] r@[k].0 == candidates_spec(home@)[k].0
                && r@[k].1@.map_values(|s: String| s@) == candidates_spec(home@)[k].1,
        decreases all.len() - i,
    {
        let l = all[i];
        let marks = l.markers();
        let mut paths: Vec<String> = Vec::new();
        let mut j: usize = 0;
        while j < marks.len()
            invariant
                j <= marks@.len(),
                texts(marks@) == launcher_markers(l),
                paths@.len() == j,
                forall|k: int| 0 <= k < j ==> (#[trigger] paths@[k])@ == join_path(home@, launcher_markers(l)[k]),
            decreases marks.len() - j,
        {
            assert(marks@[j as int]@ == launcher_markers(l)[j as int]);
            paths.push(join(home, marks[j]));
            j += 1;
        }
        assert(paths@.map_values(|s: String| s@) =~= candidates_spec(home@)[i as int].1);
        r.push((l, paths));
        i += 1;
    }
    r
}

/// The launchers found: for each group, in order, the first path reported
/// present (`present[i][j]` for path `j` of group `i`); groups with none are
/// skipped.
pub open spec fn detected_spec(groups: Seq<(Launcher, Seq<Seq<char>>)>, present: Seq<Seq<bool>>) -> Seq<(Launcher, Seq<char>)>
    decreases groups.len(),
{
    if groups.len() == 0 {
        Seq::empty()
    } else {
        let rest = detected_spec(groups.drop_last(), present);
        let g = groups.last();
        let p = present[groups.len() - 1];
        match first_true(p, g.1.len() as int) {
            Some(j) => rest.push((g.0, g.1[j])),
            None => rest,
        }
    }
}

/// The first index below `n` where `p` holds (indices past `p` count as
/// absent).
pub open spec fn first_true(p: Seq<bool>, n: int) -> Option<int>
    decreases n,
{
    if n <= 0 {
        None
    } else {
        match first_true(p, n - 1) {
            Some(j) => Some(j),
            None => if n - 1 < p.len() && p[n - 1] { Some(n - 1) } else { None },
        }
    }
}

pub open spec fn detected_view(v: Seq<DetectedLauncher>) -> Seq<(Launcher, Seq<char>)> {
    v.map_values(|d: DetectedLauncher| (d.launcher, d.marker_path@))
}

pub open spec fn groups_view(v: Seq<(Launcher, Vec<String>)>) -> Seq<(Launcher, Seq<Seq<char>>)> {
    v.map_values(|g: (Launcher, Vec<String>)| (g.0, g.1@.map_values(|s: String| s@)))
}

/// Pick, per launcher, the first candidate path that exists.
fn select_detected(groups: &Vec<(Launcher, Vec<String>)>, present: &Vec<Vec<bool>>) -> (r: Vec<DetectedLauncher>)
    requires
        present@.len() == groups@.len(),
    ensures
        detected_view(r@) == detected_spec(groups_view(groups@), present@.map_values(|b: Vec<bool>| b@)),
{
    let ghost gv = groups_view(groups@);
    let ghost pv = present@.map_values(|b: Vec<bool>| b@);
    let mut r: Vec<DetectedLauncher> = Vec::new();
    let mut i: usize = 0;
    while i < groups.len()
        invariant
            present@.len() == groups@.len(),
            gv == groups_view(groups@),
            pv == present@.map_values(|b: Vec<bool>| b@),
            i <= groups@.len(),
            detected_view(r@) == detected_spec(gv.subrange(0, i as int), pv),
        decreases groups.len() - i,
    {
        let paths = &groups[i].1;
        let flags = &present[i];
        let mut j: usize = 0;
        let mut found: Option<usize> = None;
        while j < paths.len()
            invariant_except_break
                j <= paths@.len(),
                found is None,
                first_true(flags@, j as int) is None,
            ensures
                found matches Some(k) ==> k < paths@.len() && first_true(flags@, k as int + 1) == Some(k as int),
                found is None ==> first_true(flags@, paths@.len() as int) is None,
            decreases paths.len() - j,
        {
            if j < flags.len() && flags[j] {
                found = Some(j);
                break;
            }
            j += 1;
        }
        let ghost sub = gv.subrange(0, i + 1);
        assert(sub.drop_last() =~= gv.subrange(0, i as int));
        assert(sub.last() == gv[i as int]);
        assert(pv[i as int] == flags@);
        assert(gv[i as int].1 == paths@.map_values(|s: String| s@));
        assert(gv[i as int].1.len() == paths@.len());
        match found {
            Some(k) => {
                assert(first_true(flags@, paths@.len() as int) == Some(k as int)) by {
                    lemma_first_true_stable(flags@, k as int + 1, paths@.len() as int);
                }
                let ghost old_view = detected_view(r@);
                let mp = paths[k].clone();
                assert(mp@ == gv[i as int].1[k as int]);
                r.push(DetectedLauncher { launcher: groups[i].0, marker_path: mp });
                assert(detected_view(r@) =~= old_view.push((gv[i as int].0, gv[i as int].1[k as int])));
            },
            None => {},
        }
        i += 1;
    }
    assert(gv.subrange(0, groups@.len() as int) =~= gv);
    r
}

/// The launchers installed under the home directory `home`: for each
/// launcher in detection order, the first of its marker paths (as
/// [`candidate_paths`] lists them) that exists, where `present[i][j]` says
/// whether path `j` of launcher `i` exists. Launchers with none are left out.
pub fn detect_in(home: &str, present: &Vec<Vec<bool>>) -> (r: Vec<DetectedLauncher>)
    requires
        present@.len() == all_launchers().len(),
    ensures
        detected_view(r@) == detected_spec(candidates_spec(home@), present@.map_values(|b: Vec<bool>| b@)),
{
    let groups = candidate_paths(home);
    assert(groups_view(groups@) =~= candidates_spec(home@));
    select_detected(&groups, present)
}

proof fn lemma_first_true_stable(p: Seq<bool>, a: int, b: int)
    requires
        0 <= a <= b,
        first_true(p, a) is Some,
    ensures
        first_true(p, b) == first_true(p, a),
    decreases b - a,
{
    if b > a {
        lemma_first_true_stable(p, a, b - 1);
    }
}

/// The headline performance intent for a game.
#[derive(Clone, Copy, Debug, Default, PartialEq, Eq, Structural)]
pub enum PerfProfile {
    /// Maximum FPS: tearing allowed, governor to performance.
    Performance,
    /// Sensible defaults for most games.
    #[default]
    Balanced,
    /// Cap frames and keep the GPU cool/quiet.
    Efficiency,
}

/// Tunables attached to a specific game.
#[derive(Clone, Debug, PartialEq, Eq)]
pub struct GameProfile {
    pub name: String,
    pub profile: PerfProfile,
    /// Show MangoHud's FPS/perf overlay for this game.
    pub mangohud: bool,
    /// Enable DXVK/VKD3D state-cache pre-warming.
    pub shader_cache: bool,
    /// Optional explicit FPS cap (0 = uncapped / follow display).
    pub fps_cap: u32,
}

impl GameProfile {
    /// A reasonable default profile for a freshly detected game: balanced,
    /// no overlay, shader cache on, uncapped.
    pub fn new(name: &str) -> (p: GameProfile)
        ensures
            p.name@ == name@,
            p.profile == PerfProfile::Balanced,
            !p.mangohud,
            p.shader_cache,
            p.fps_cap == 0,
    {
        GameProfile {
            name: string_from(name),
            profile: PerfProfile::Balanced,
            mangohud: false,
            shader_cache: true,
            fps_cap: 0,
        }
    }
}

/// One environment variable.
pub type EnvVar = (Seq<char>, Seq<char>);

pub open spec fn opt_var(cond: bool, k: Seq<char>, v: Seq<char>) -> Seq<EnvVar> {
    if cond { seq![(k, v)] } else { Seq::empty() }
}

/// The environment for a launch, sorted by name: tearing and governor follow
/// the profile, the DXVK state cache follows `shader_cache` (and VKD3D's cache
/// is enabled with it), MangoHud when requested, the low-latency NVIDIA knob
/// for the performance profile, and both frame caps when `fps_cap > 0`.
pub open spec fn launch_env_spec(p: GameProfile) -> Seq<EnvVar> {
    let perf = p.profile == PerfProfile::Performance;
    let governor = match p.profile {
        PerfProfile::Performance => "performance"@,
        PerfProfile::Balanced => "schedutil"@,
        PerfProfile::Efficiency => "powersave"@,
    };
    let cap = decimal(p.fps_cap as nat);
    seq![("ARCHON_ALLOW_TEARING"@, if perf { "1"@ } else { "0"@ })]
        + opt_var(p.fps_cap > 0, "ARCHON_FPS_CAP"@, cap)
        + seq![("ARCHON_GOVERNOR"@, governor)]
        + opt_var(p.fps_cap > 0, "DXVK_FRAME_RATE"@, cap)
        + seq![("DXVK_STATE_CACHE"@, if p.shader_cache { "1"@ } else { "0"@ })]
        + opt_var(p.mangohud, "MANGOHUD"@, "1"@)
        + opt_var(p.shader_cache, "VKD3D_SHADER_CACHE"@, "1"@)
        + opt_var(perf, "__GL_MaxFramesAllowed"@, "1"@)
}

pub open spec fn env_view(v: Seq<(String, String)>) -> Seq<EnvVar> {
    v.map_values(|e: (String, String)| (e.0@, e.1@))
}

fn push_var(env: &mut Vec<(String, String)>, k: &str, v: &str)
    ensures
        env_view(final(env)@) == env_view(old(env)@).push((k@, v@)),
{
    env.push((string_from(k), string_from(v)));
    assert(env_view(env@) =~= env_view(old(env)@).push((k@, v@)));
}

fn push_var_string(env: &mut Vec<(String, String)>, k: &str, v: String)
    ensures
        env_view(final(env)@) == env_view(old(env)@).push((k@, v@)),
{
    let ghost vv = v@;
    env.push((string_from(k), v));
    assert(env_view(env@) =~= env_view(old(env)@).push((k@, vv)));
}

/// Compute the environment variables to export for a game launch, as
/// `(name, value)` pairs sorted by name.
pub fn launch_env(p: &GameProfile) -> (env: Vec<(String, String)>)
    ensures
        env_view(env@) == launch_env_spec(*p),
{
    let perf = p.profile == PerfProfile::Performance;
    let mut env: Vec<(String, String)> = Vec::new();
    push_var(&mut env, "ARCHON_ALLOW_TEARING", if perf { "1" } else { "0" });
    if p.fps_cap > 0 {
        push_var_string(&mut env, "ARCHON_FPS_CAP", decimal_string(p.fps_cap));
    }
    let governor = match p.profile {
        PerfProfile::Performance => "performance",
        PerfProfile::Balanced => "schedutil",
        PerfProfile::Efficiency => "powersave",
    };
    push_var(&mut env, "ARCHON_GOVERNOR", governor);
    if p.fps_cap > 0 {
        push_var_string(&mut env, "DXVK_FRAME_RATE", decimal_string(p.fps_cap));
    }
    push_var(&mut env, "DXVK_STATE_CACHE", if p.shader_cache { "1" } else { "0" });
    if p.mangohud {
        push_var(&mut env, "MANGOHUD", "1");
    }
    if p.shader_cache {
        push_var(&mut env, "VKD3D_SHADER_CACHE", "1");
    }
    if perf {
        push_var(&mut env, "__GL_MaxFramesAllowed", "1");
    }
    assert(env_view(env@) =~= launch_env_spec(*p));
    env
}

/// `a` sorts strictly before `b`, comparing characters in order (for ASCII
/// text this is the order of `str`).
pub open spec fn lex_lt(a: Seq<char>, b: Seq<char>) -> bool
    decreases a.len(),
{
    if a.len() == 0 {
        b.len() > 0
    } else if b.len() == 0 {
        false
    } else if a[0] != b[0] {
        a[0] < b[0]
    } else {
        lex_lt(a.drop_first(), b.drop_first())
    }
}

/// The names of `env` strictly ascend.
pub open spec fn names_ascend(env: Seq<EnvVar>) -> bool {
    forall|i: int, j: int| 0 <= i < j < env.len() ==> lex_lt(env[i].0, env[j].0)
}

proof fn lemma_lex_at(a: Seq<char>, b: Seq<char>, k: int)
    requires
        0 <= k < a.len(),
        k < b.len(),
        a[k] < b[k],
        forall|i: int| 0 <= i < k ==> a[i] == b[i],
    ensures
        lex_lt(a, b),
    decreases k,
{
    if k > 0 {
        assert(a[0] == b[0]);
        lemma_lex_at(a.drop_first(), b.drop_first(), k - 1);
    }
}

proof fn lemma_lex_trans(a: Seq<char>, b: Seq<char>, c: Seq<char>)
    requires
        lex_lt(a, b),
        lex_lt(b, c),
    ensures
        lex_lt(a, c),
    decreases a.len(),
{
    if a.len() > 0 && b.len() > 0 && c.len() > 0 && a[0] == b[0] && b[0] == c[0] {
        lemma_lex_trans(a.drop_first(), b.drop_first(), c.drop_first());
    }
}

/// Every name in `env` sorts before `k`.
pub open spec fn names_below(env: Seq<EnvVar>, k: Seq<char>) -> bool {
    forall|i: int| 0 <= i < env.len() ==> lex_lt(#[trigger] env[i].0, k)
}

proof fn lemma_append_piece(acc: Seq<EnvVar>, piece: Seq<EnvVar>, k: Seq<char>, after: Seq<char>)
    requires
        names_ascend(acc),
        names_below(acc, k),
        piece.len() == 0 || (piece.len() == 1 && piece[0].0 == k),
        lex_lt(k, after),
    ensures
        names_ascend(acc + piece),
        names_below(acc + piece, after),
{
    let r = acc + piece;
    assert forall|i: int| 0 <= i < r.len() implies lex_lt(#[trigger] r[i].0, after) by {
        if i < acc.len() {
            assert(r[i] == acc[i]);
            lemma_lex_trans(acc[i].0, k, after);
        }
    }
    assert forall|i: int, j: int| 0 <= i < j < r.len() implies lex_lt(r[i].0, r[j].0) by {
        assert(r[i] == acc[i]);
        if j >= acc.len() {
            assert(r[j].0 == k);
        } else {
            assert(r[j] == acc[j]);
        }
    }
}

/// The variable names of a launch environment, strictly ascending.
proof fn lemma_env_names_ordered()
    ensures
        lex_lt("ARCHON_ALLOW_TEARING"@, "ARCHON_FPS_CAP"@),
        lex_lt("ARCHON_FPS_CAP"@, "ARCHON_GOVERNOR"@),
        lex_lt("ARCHON_GOVERNOR"@, "DXVK_FRAME_RATE"@),
        lex_lt("DXVK_FRAME_RATE"@, "DXVK_STATE_CACHE"@),
        lex_lt("DXVK_STATE_CACHE"@, "MANGOHUD"@),
        lex_lt("MANGOHUD"@, "VKD3D_SHADER_CACHE"@),
        lex_lt("VKD3D_SHADER_CACHE"@, "__GL_MaxFramesAllowed"@),
        lex_lt("__GL_MaxFramesAllowed"@, "~"@),
{
    reveal_strlit("ARCHON_ALLOW_TEARING");
    reveal_strlit("ARCHON_FPS_CAP");
    reveal_strlit("ARCHON_GOVERNOR");
    reveal_strlit("DXVK_FRAME_RATE");
    reveal_strlit("DXVK_STATE_CACHE");
    reveal_strlit("MANGOHUD");
    reveal_strlit("VKD3D_SHADER_CACHE");
    reveal_strlit("__GL_MaxFramesAllowed");
    reveal_strlit("~");
    lemma_lex_at("ARCHON_ALLOW_TEARING"@, "ARCHON_FPS_CAP"@, 7);
    lemma_lex_at("ARCHON_FPS_CAP"@, "ARCHON_GOVERNOR"@, 7);
    lemma_lex_at("ARCHON_GOVERNOR"@, "DXVK_FRAME_RATE"@, 0);
    lemma_lex_at("DXVK_FRAME_RATE"@, "DXVK_STATE_CACHE"@, 5);
    lemma_lex_at("DXVK_STATE_CACHE"@, "MANGOHUD"@, 0);
    lemma_lex_at("MANGOHUD"@, "VKD3D_SHADER_CACHE"@, 0);
    lemma_lex_at("VKD3D_SHADER_CACHE"@, "__GL_MaxFramesAllowed"@, 0);
    lemma_lex_at("__GL_MaxFramesAllowed"@, "~"@, 0);
}

/// The launch environment is sorted by variable name, each name appearing
/// once, whatever the profile.
pub proof fn law_launch_env_sorted(p: GameProfile)
    ensures
        names_ascend(launch_env_spec(p)),
{
    lemma_env_names_ordered();
    let perf = p.profile == PerfProfile::Performance;
    let governor = match p.profile {
        PerfProfile::Performance => "performance"@,
        PerfProfile::Balanced => "schedutil"@,
        PerfProfile::Efficiency => "powersave"@,
    };
    let cap = decimal(p.fps_cap as nat);
    let p0 = seq![("ARCHON_ALLOW_TEARING"@, if perf { "1"@ } else { "0"@ })];
    let p1 = opt_var(p.fps_cap > 0, "ARCHON_FPS_CAP"@, cap);
    let p2 = seq![("ARCHON_GOVERNOR"@, governor)];
    let p3 = opt_var(p.fps_cap > 0, "DXVK_FRAME_RATE"@, cap);
    let p4 = seq![("DXVK_STATE_CACHE"@, if p.shader_cache { "1"@ } else { "0"@ })];
    let p5 = opt_var(p.mangohud, "MANGOHUD"@, "1"@);
    let p6 = opt_var(p.shader_cache, "VKD3D_SHADER_CACHE"@, "1"@);
    let p7 = opt_var(perf, "__GL_MaxFramesAllowed"@, "1"@);
    let e = Seq::<EnvVar>::empty();
    assert(e + p0 =~= p0);
    lemma_append_piece(e, p0, "ARCHON_ALLOW_TEARING"@, "ARCHON_FPS_CAP"@);
    lemma_append_piece(p0, p1, "ARCHON_FPS_CAP"@, "ARCHON_GOVERNOR"@);
    lemma_append_piece(p0 + p1, p2, "ARCHON_GOVERNOR"@, "DXVK_FRAME_RATE"@);
    lemma_append_piece(p0 + p1 + p2, p3, "DXVK_FRAME_RATE"@, "DXVK_STATE_CACHE"@);
    lemma_append_piece(p0 + p1 + p2 + p3, p4, "DXVK_STATE_CACHE"@, "MANGOHUD"@);
    lemma_append_piece(p0 + p1 + p2 + p3 + p4, p5, "MANGOHUD"@, "VKD3D_SHADER_CACHE"@);
    lemma_append_piece(p0 + p1 + p2 + p3 + p4 + p5, p6, "VKD3D_SHADER_CACHE"@, "__GL_MaxFramesAllowed"@);
    lemma_append_piece(p0 + p1 + p2 + p3 + p4 + p5 + p6, p7, "__GL_MaxFramesAllowed"@, "~"@);
}

/// `env` sets `k` to `v`.
pub open spec fn has_entry(env: Seq<EnvVar>, k: Seq<char>, v: Seq<char>) -> bool {
    exists|i: int| 0 <= i < env.len() && env[i] == (k, v)
}

/// `env` sets `k`, to anything.
pub open spec fn has_name(env: Seq<EnvVar>, k: Seq<char>) -> bool {
    exists|i: int| 0 <= i < env.len() && env[i].0 == k
}

proof fn lemma_has_concat(a: Seq<EnvVar>, b: Seq<EnvVar>)
    ensures
        forall|k: Seq<char>, v: Seq<char>| #[trigger] has_entry(a + b, k, v) == (has_entry(a, k, v) || has_entry(b, k, v)),
        forall|k: Seq<char>| #[trigger] has_name(a + b, k) == (has_name(a, k) || has_name(b, k)),
{
    let c = a + b;
    assert forall|k: Seq<char>, v: Seq<char>| #[trigger] has_entry(c, k, v) == (has_entry(a, k, v) || has_entry(b, k, v)) by {
        if has_entry(c, k, v) {
            let i = choose|i: int| 0 <= i < c.len() && c[i] == (k, v);
            if i < a.len() {
                assert(a[i] == c[i]);
            } else {
                assert(b[i - a.len()] == c[i]);
            }
        }
        if has_entry(a, k, v) {
            let i = choose|i: int| 0 <= i < a.len() && a[i] == (k, v);
            assert(c[i] == a[i]);
        }
        if has_entry(b, k, v) {
            let i = choose|i: int| 0 <= i < b.len() && b[i] == (k, v);
            assert(c[i + a.len()] == b[i]);
        }
    }
    assert forall|k: Seq<char>| #[trigger] has_name(c, k) == (has_name(a, k) || has_name(b, k)) by {
        if has_name(c, k) {
            let i = choose|i: int| 0 <= i < c.len() && c[i].0 == k;
            if i < a.len() {
                assert(a[i] == c[i]);
            } else {
                assert(b[i - a.len()] == c[i]);
            }
        }
        if has_name(a, k) {
            let i = choose|i: int| 0 <= i < a.len() && a[i].0 == k;
            assert(c[i] == a[i]);
        }
        if has_name(b, k) {
            let i = choose|i: int| 0 <= i < b.len() && b[i].0 == k;
            assert(c[i + a.len()] == b[i]);
        }
    }
}

proof fn lemma_has_piece(cond: bool, k0: Seq<char>, v0: Seq<char>)
    ensures
        forall|k: Seq<char>, v: Seq<char>| #[trigger] has_entry(opt_var(cond, k0, v0), k, v) == (cond && k0 == k && v0 == v),
        forall|k: Seq<char>| #[trigger] has_name(opt_var(cond, k0, v0), k) == (cond && k0 == k),
        forall|k: Seq<char>, v: Seq<char>| #[trigger] has_entry(seq![(k0, v0)], k, v) == (k0 == k && v0 == v),
        forall|k: Seq<char>| #[trigger] has_name(seq![(k0, v0)], k) == (k0 == k),
{
    let one = seq![(k0, v0)];
    assert forall|k: Seq<char>, v: Seq<char>| #[trigger] has_entry(one, k, v) == (k0 == k && v0 == v) by {
        if k0 == k && v0 == v {
            assert(one[0] == (k, v));
        }
    }
    assert forall|k: Seq<char>| #[trigger] has_name(one, k) == (k0 == k) by {
        if k0 == k {
            assert(one[0].0 == k);
        }
    }
}

/// What the launch environment sets, whatever the profile: tearing on
/// exactly for the performance profile; the governor of the profile
/// (`performance`, `schedutil` or `powersave`); both frame caps at the
/// profile's cap exactly when one is set, neither otherwise; the DXVK state
/// cache following `shader_cache`, with VKD3D's cache set exactly when it is
/// on; MangoHud exactly when requested; and the low-latency NVIDIA knob
/// exactly for the performance profile.
pub proof fn law_launch_env_settings(p: GameProfile)
    ensures
        ({
            let env = launch_env_spec(p);
            let perf = p.profile == PerfProfile::Performance;
            let cap = decimal(p.fps_cap as nat);
            &&& has_entry(env, "ARCHON_ALLOW_TEARING"@, if perf { "1"@ } else { "0"@ })
            &&& p.profile == PerfProfile::Performance ==> has_entry(env, "ARCHON_GOVERNOR"@, "performance"@)
            &&& p.profile == PerfProfile::Balanced ==> has_entry(env, "ARCHON_GOVERNOR"@, "schedutil"@)
            &&& p.profile == PerfProfile::Efficiency ==> has_entry(env, "ARCHON_GOVERNOR"@, "powersave"@)
            &&& p.fps_cap > 0 ==> has_entry(env, "ARCHON_FPS_CAP"@, cap) && has_entry(env, "DXVK_FRAME_RATE"@, cap)
            &&& p.fps_cap == 0 ==> !has_name(env, "ARCHON_FPS_CAP"@) && !has_name(env, "DXVK_FRAME_RATE"@)
            &&& has_entry(env, "DXVK_STATE_CACHE"@, if p.shader_cache { "1"@ } else { "0"@ })
            &&& has_name(env, "VKD3D_SHADER_CACHE"@) == p.shader_cache
            &&& p.shader_cache ==> has_entry(env, "VKD3D_SHADER_CACHE"@, "1"@)
            &&& has_name(env, "MANGOHUD"@) == p.mangohud
            &&& p.mangohud ==> has_entry(env, "MANGOHUD"@, "1"@)
            &&& has_name(env, "__GL_MaxFramesAllowed"@) == perf
            &&& perf ==> has_entry(env, "__GL_MaxFramesAllowed"@, "1"@)
        }),
{
    reveal_strlit("ARCHON_ALLOW_TEARING");
    reveal_strlit("ARCHON_FPS_CAP");
    reveal_strlit("ARCHON_GOVERNOR");
    reveal_strlit("DXVK_FRAME_RATE");
    reveal_strlit("DXVK_STATE_CACHE");
    reveal_strlit("MANGOHUD");
    reveal_strlit("VKD3D_SHADER_CACHE");
    reveal_strlit("__GL_MaxFramesAllowed");
    let k0 = "ARCHON_ALLOW_TEARING"@;
    let k1 = "ARCHON_FPS_CAP"@;
    let k2 = "ARCHON_GOVERNOR"@;
    let k3 = "DXVK_FRAME_RATE"@;
    let k4 = "DXVK_STATE_CACHE"@;
    let k5 = "MANGOHUD"@;
    let k6 = "VKD3D_SHADER_CACHE"@;
    let k7 = "__GL_MaxFramesAllowed"@;
    assert(k0.len() == 20 && k1.len() == 14 && k2.len() == 15 && k3.len() == 15);
    assert(k4.len() == 16 && k5.len() == 8 && k6.len() == 18 && k7.len() == 21);
    assert(k2 != k3) by {
        assert(k2[0] != k3[0]);
    }
    let perf = p.profile == PerfProfile::Performance;
    let governor = match p.profile {
        PerfProfile::Performance => "performance"@,
        PerfProfile::Balanced => "schedutil"@,
        PerfProfile::Efficiency => "powersave"@,
    };
    let cap = decimal(p.fps_cap as nat);
    let v0 = if perf { "1"@ } else { "0"@ };
    let v4 = if p.shader_cache { "1"@ } else { "0"@ };
    let p0 = seq![(k0, v0)];
    let p1 = opt_var(p.fps_cap > 0, k1, cap);
    let p2 = seq![(k2, governor)];
    let p3 = opt_var(p.fps_cap > 0, k3, cap);
    let p4 = seq![(k4, v4)];
    let p5 = opt_var(p.mangohud, k5, "1"@);
    let p6 = opt_var(p.shader_cache, k6, "1"@);
    let p7 = opt_var(perf, k7, "1"@);
    lemma_has_piece(true, k0, v0);
    lemma_has_piece(p.fps_cap > 0, k1, cap);
    lemma_has_piece(true, k2, governor);
    lemma_has_piece(p.fps_cap > 0, k3, cap);
    lemma_has_piece(true, k4, v4);
    lemma_has_piece(p.mangohud, k5, "1"@);
    lemma_has_piece(p.shader_cache, k6, "1"@);
    lemma_has_piece(perf, k7, "1"@);
    let a1 = p0 + p1;
    let a2 = a1 + p2;
    let a3 = a2 + p3;
    let a4 = a3 + p4;
    let a5 = a4 + p5;
    let a6 = a5 + p6;
    let a7 = a6 + p7;
    lemma_has_concat(p0, p1);
    lemma_has_concat(a1, p2);
    lemma_has_concat(a2, p3);
    lemma_has_concat(a3, p4);
    lemma_has_concat(a4, p5);
    lemma_has_concat(a5, p6);
    lemma_has_concat(a6, p7);
    assert(launch_env_spec(p) == a7);
}

} // verus!
