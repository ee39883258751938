//! The `archonctl` command line: turning its arguments into the
//! [`Request`] sent to the running compositor.
//!
//! ```text
//! archonctl lock
//! archonctl workspace 3
//! archonctl game-mode on
//! archonctl ai-enhance contrast
//! archonctl state
//! ```
use vstd::prelude::*;
use crate::ipc::Request;
use crate::text::{chars_of, eq_str, string_from, string_of};

verus! {

/// Why the arguments did not yield a request.
#[derive(Clone, Debug, PartialEq)]
pub enum ParseError {
    /// Usage was asked for (or no command given).
    Help,
    /// The arguments are wrong; the message says how.
    Bad(String),
}

/// The decimal value of a run of ASCII digits.
pub open spec fn digits_value(s: Seq<char>) -> int
    decreases s.len(),
{
    if s.len() == 0 {
        0
    } else {
        10 * digits_value(s.drop_last()) + (s.last() as int - '0' as int)
    }
}

pub open spec fn is_digit(c: char) -> bool {
    '0' <= c && c <= '9'
}

/// `s` without a leading `+`.
pub open spec fn unsigned_part(s: Seq<char>) -> Seq<char> {
    if s.len() > 0 && s[0] == '+' { s.drop_first() } else { s }
}

/// What `str::parse::<u32>` accepts: an optional `+`, then at least one
/// ASCII digit, with a value that fits in a `u32`.
pub open spec fn parse_u32_spec(s: Seq<char>) -> Option<u32> {
    let d = unsigned_part(s);
    if d.len() > 0 && (forall|i: int| 0 <= i < d.len() ==> is_digit(#[trigger] d[i])) && digits_value(d)
        <= u32::MAX {
        Some(digits_value(d) as u32)
    } else {
        None
    }
}

/// `r` is the refusal `Bad` with message `msg`.
pub open spec fn is_bad(r: Result<Request, ParseError>, msg: Seq<char>) -> bool {
    r is Err && r->Err_0 is Bad && r->Err_0->Bad_0@ == msg
}

/// The 0-based workspace index for the 1-based number `n`.
pub open spec fn zero_based(n: u32) -> u32 {
    if n == 0 { 0 } else { (n - 1) as u32 }
}

/// The request for a command taking a workspace number.
pub open spec fn workspace_arg(
    arg: Option<Seq<char>>,
    missing: Seq<char>,
    r: Result<Request, ParseError>,
    make: spec_fn(u32) -> Request,
) -> bool {
    match arg {
        None => is_bad(r, missing),
        Some(a) => match parse_u32_spec(a) {
            None => is_bad(r, "workspace index must be a number"@),
            Some(n) => r == Ok::<Request, ParseError>(make(zero_based(n))),
        },
    }
}

/// `on`/`off` as Game Mode takes it.
pub open spec fn on_off_spec(arg: Option<Seq<char>>) -> Option<bool> {
    match arg {
        Some(a) => if a == "on"@ || a == "true"@ || a == "1"@ {
            Some(true)
        } else if a == "off"@ || a == "false"@ || a == "0"@ {
            Some(false)
        } else {
            None
        },
        None => None,
    }
}

/// `r` is what `archonctl` makes of the arguments `args` (the program name
/// not included).
pub open spec fn parses_to(args: Seq<Seq<char>>, r: Result<Request, ParseError>) -> bool {
    if args.len() == 0 {
        r == Err::<Request, ParseError>(ParseError::Help)
    } else {
        let cmd = args[0];
        let a1 = if args.len() > 1 { Some(args[1]) } else { None };
        if cmd == "-h"@ || cmd == "--help"@ || cmd == "help"@ {
            r == Err::<Request, ParseError>(ParseError::Help)
        } else if cmd == "ping"@ {
            r == Ok::<Request, ParseError>(Request::Ping)
        } else if cmd == "lock"@ {
            r == Ok::<Request, ParseError>(Request::Lock)
        } else if cmd == "toggle-dock"@ {
            r == Ok::<Request, ParseError>(Request::ToggleDock)
        } else if cmd == "toggle-wheel"@ {
            r == Ok::<Request, ParseError>(Request::ToggleWheel)
        } else if cmd == "fps"@ || cmd == "toggle-fps"@ {
            r == Ok::<Request, ParseError>(Request::ToggleFpsOverlay)
        } else if cmd == "state"@ {
            r == Ok::<Request, ParseError>(Request::QueryState)
        } else if cmd == "workspace"@ {
            workspace_arg(a1, "workspace needs an index"@, r, |n: u32| Request::SwitchWorkspace(n))
        } else if cmd == "move-to"@ {
            workspace_arg(a1, "move-to needs an index"@, r, |n: u32| Request::MoveToWorkspace(n))
        } else if cmd == "game-mode"@ {
            match on_off_spec(a1) {
                Some(b) => r == Ok::<Request, ParseError>(Request::SetGameMode(b)),
                None => is_bad(r, "expected `on` or `off`"@),
            }
        } else if cmd == "ai-enhance"@ {
            let mode = match a1 {
                Some(a) => a,
                None => "harmonize"@,
            };
            if mode == "signature"@ || mode == "harmonize"@ || mode == "contrast"@ {
                r is Ok && r->Ok_0 is AiEnhance && r->Ok_0->mode@ == mode
            } else {
                is_bad(r, "mode must be signature|harmonize|contrast"@)
            }
        } else if cmd == "wallpaper"@ {
            match a1 {
                Some(p) => r is Ok && r->Ok_0 is SetWallpaper && r->Ok_0->SetWallpaper_0@ == p,
                None => is_bad(r, "wallpaper needs a path"@),
            }
        } else {
            is_bad(r, "unknown command `"@ + cmd + "`"@)
        }
    }
}

/// The texts of `args`.
pub open spec fn arg_texts(args: Seq<String>) -> Seq<Seq<char>> {
    args.map_values(|s: String| s@)
}

/// Whether `s` holds exactly the characters of `lit`.
fn is(s: &str, lit: &str) -> (b: bool)
    ensures
        b == (s@ == lit@),
{
    eq_str(&chars_of(s), lit)
}

/// A refusal with message `msg`.
fn bad(msg: &str) -> (r: Result<Request, ParseError>)
    ensures
        is_bad(r, msg@),
{
    Err(ParseError::Bad(string_from(msg)))
}

proof fn lemma_digits_grow(s: Seq<char>, i: int)
    requires
        0 <= i <= s.len(),
        forall|k: int| 0 <= k < s.len() ==> is_digit(#[trigger] s[k]),
    ensures
        digits_value(s.take(i)) <= digits_value(s),
        digits_value(s.take(i)) >= 0,
    decreases s.len() - i,
{
    if i < s.len() {
        lemma_digits_grow(s, i + 1);
        assert(s.take(i + 1).drop_last() =~= s.take(i));
        lemma_digits_nonneg(s.take(i));
    } else {
        assert(s.take(i) =~= s);
        lemma_digits_nonneg(s);
    }
}

proof fn lemma_digits_nonneg(s: Seq<char>)
    requires
        forall|k: int| 0 <= k < s.len() ==> is_digit(#[trigger] s[k]),
    ensures
        digits_value(s) >= 0,
    decreases s.len(),
{
    if s.len() > 0 {
        lemma_digits_nonneg(s.drop_last());
    }
}

/// Parse a `u32` the way `str::parse` does.
pub fn parse_u32(s: &str) -> (r: Option<u32>)
    ensures
        r == parse_u32_spec(s@),
{
    let v = chars_of(s);
    let start: usize = if v.len() > 0 && v[0] == '+' { 1 } else { 0 };
    let ghost d = unsigned_part(s@);
    proof {
        assert(d =~= v@.subrange(start as int, v@.len() as int));
    }
    if start >= v.len() {
        return None;
    }
    let mut val: u64 = 0;
    let mut i: usize = start;
    while i < v.len()
        invariant
            start <= i <= v@.len(),
            v@ == s@,
            d == unsigned_part(s@),
            d == v@.subrange(start as int, v@.len() as int),
            forall|k: int| start <= k < i ==> is_digit(#[trigger] v@[k]),
            val <= u32::MAX,
            val == digits_value(d.take(i - start)),
        decreases v.len() - i,
    {
        let c = v[i];
        if !('0' <= c && c <= '9') {
            proof {
                assert(d[i - start] == c);
                assert(!is_digit(d[i - start]));
            }
            return None;
        }
        let digit = (c as u32 - '0' as u32) as u64;
        proof {
            assert(d.take(i - start + 1).drop_last() =~= d.take(i - start));
            assert(d.take(i - start + 1).last() == c);
        }
        let next = val * 10 + digit;
        if next > u32::MAX as u64 {
            proof {
                if forall|k: int| 0 <= k < d.len() ==> is_digit(#[trigger] d[k]) {
                    lemma_digits_grow(d, i - start + 1);
                    assert(digits_value(d.take(i - start + 1)) == 10 * val + digit);
                }
            }
            return None;
        }
        val = next;
        i += 1;
    }
    proof {
        assert(d.take(d.len() as int) =~= d);
        assert forall|k: int| 0 <= k < d.len() implies is_digit(#[trigger] d[k]) by {
            assert(d[k] == v@[k + start]);
        }
    }
    Some(val as u32)
}

/// Parse the arguments (the program name not included) into a request.
pub fn parse(args: &[String]) -> (r: Result<Request, ParseError>)
    ensures
        parses_to(arg_texts(args@), r),
{
    let ghost a = arg_texts(args@);
    if args.len() == 0 {
        return Err(ParseError::Help);
    }
    let cmd = args[0].as_str();
    let a1: Option<&str> = if args.len() > 1 { Some(args[1].as_str()) } else { None };
    proof {
        assert(a[0] == cmd@);
        if args.len() > 1 {
            assert(a[1] == args@[1]@);
        }
    }
    if is(cmd, "-h") || is(cmd, "--help") || is(cmd, "help") {
        Err(ParseError::Help)
    } else if is(cmd, "ping") {
        Ok(Request::Ping)
    } else if is(cmd, "lock") {
        Ok(Request::Lock)
    } else if is(cmd, "toggle-dock") {
        Ok(Request::ToggleDock)
    } else if is(cmd, "toggle-wheel") {
        Ok(Request::ToggleWheel)
    } else if is(cmd, "fps") || is(cmd, "toggle-fps") {
        Ok(Request::ToggleFpsOverlay)
    } else if is(cmd, "state") {
        Ok(Request::QueryState)
    } else if is(cmd, "workspace") {
        match a1 {
            None => bad("workspace needs an index"),
            Some(x) => match parse_u32(x) {
                None => bad("workspace index must be a number"),
                Some(n) => Ok(Request::SwitchWorkspace(n.saturating_sub(1))),
            },
        }
    } else if is(cmd, "move-to") {
        match a1 {
            None => bad("move-to needs an index"),
            Some(x) => match parse_u32(x) {
                None => bad("workspace index must be a number"),
                Some(n) => Ok(Request::MoveToWorkspace(n.saturating_sub(1))),
            },
        }
    } else if is(cmd, "game-mode") {
        let on = match a1 {
            Some(x) => if is(x, "on") || is(x, "true") || is(x, "1") {
                Some(true)
            } else if is(x, "off") || is(x, "false") || is(x, "0") {
                Some(false)
            } else {
                None
            },
            None => None,
        };
        match on {
            Some(b) => Ok(Request::SetGameMode(b)),
            None => bad("expected `on` or `off`"),
        }
    } else if is(cmd, "ai-enhance") {
        let mode = match a1 {
            Some(x) => x,
            None => "harmonize",
        };
        if is(mode, "signature") || is(mode, "harmonize") || is(mode, "contrast") {
            Ok(Request::AiEnhance { mode: string_from(mode) })
        } else {
            bad("mode must be signature|harmonize|contrast")
        }
    } else if is(cmd, "wallpaper") {
        match a1 {
            Some(p) => Ok(Request::SetWallpaper(string_from(p))),
            None => bad("wallpaper needs a path"),
        }
    } else {
        let mut msg = chars_of("unknown command `");
        let c = chars_of(cmd);
        let tail = chars_of("`");
        let ghost m0 = msg@;
        msg.append(&mut c.clone());
        msg.append(&mut tail.clone());
        proof {
            assert(msg@ =~= "unknown command `"@ + cmd@ + "`"@);
        }
        Err(ParseError::Bad(string_of(&msg)))
    }
}

proof fn lemma_ai_enhance_is_its_own_command()
    ensures
        ({
            let c = "ai-enhance"@;
            &&& c != "-h"@ && c != "--help"@ && c != "help"@ && c != "ping"@ && c != "lock"@
            &&& c != "toggle-dock"@ && c != "toggle-wheel"@ && c != "fps"@ && c != "toggle-fps"@
            &&& c != "state"@ && c != "workspace"@ && c != "move-to"@ && c != "game-mode"@
        }),
{
    reveal_strlit("ai-enhance");
    reveal_strlit("-h");
    reveal_strlit("--help");
    reveal_strlit("help");
    reveal_strlit("ping");
    reveal_strlit("lock");
    reveal_strlit("toggle-dock");
    reveal_strlit("toggle-wheel");
    reveal_strlit("fps");
    reveal_strlit("toggle-fps");
    reveal_strlit("state");
    reveal_strlit("workspace");
    reveal_strlit("move-to");
    reveal_strlit("game-mode");
    assert("ai-enhance"@.len() == 10 && "-h"@.len() == 2 && "--help"@.len() == 6 && "help"@.len() == 4);
    assert("ping"@.len() == 4 && "lock"@.len() == 4 && "toggle-dock"@.len() == 11);
    assert("toggle-wheel"@.len() == 12 && "fps"@.len() == 3 && "toggle-fps"@.len() == 10);
    assert("state"@.len() == 5 && "workspace"@.len() == 9 && "move-to"@.len() == 7 && "game-mode"@.len() == 9);
    assert("ai-enhance"@[0] != "toggle-fps"@[0]);
}

/// `ai-enhance` takes each of the three documented modes (`signature`,
/// `harmonize`, `contrast`) as given, defaults to `harmonize` when no mode is
/// named, and refuses any other mode, whatever arguments follow.
pub proof fn law_ai_enhance_modes(args: Seq<Seq<char>>, r: Result<Request, ParseError>)
    requires
        args.len() >= 1,
        args[0] == "ai-enhance"@,
        parses_to(args, r),
    ensures
        args.len() == 1 ==> r is Ok && r->Ok_0 is AiEnhance && r->Ok_0->mode@ == "harmonize"@,
        args.len() >= 2 && (args[1] == "signature"@ || args[1] == "harmonize"@ || args[1] == "contrast"@) ==> r is Ok
            && r->Ok_0 is AiEnhance && r->Ok_0->mode@ == args[1],
        args.len() >= 2 && !(args[1] == "signature"@ || args[1] == "harmonize"@ || args[1] == "contrast"@) ==> r is Err
            && r->Err_0 is Bad,
{
    lemma_ai_enhance_is_its_own_command();
}

} // verus!
