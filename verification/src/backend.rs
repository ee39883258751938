//! Choosing how the compositor drives its outputs: nested in an existing
//! session, or on bare metal from a TTY.
use vstd::prelude::*;
use crate::text::{chars_of, eq_str, string_from};

verus! {

/// Where the compositor draws.
#[derive(Clone, Copy, Debug, PartialEq, Eq, Structural)]
pub enum Backend {
    /// Nested inside an existing Wayland/X session (development, testing).
    Winit,
    /// On bare metal from a TTY.
    Udev,
}

/// What the command line says about the backend.
#[derive(Clone, Debug, PartialEq)]
pub enum BackendRequest {
    /// `--backend` named a known backend.
    Named(Backend),
    /// `--backend` was followed by something else (or by nothing).
    Unknown(Option<String>),
    /// No `--backend` was given.
    Unnamed,
}

/// The value after the first `--backend` in `args`: the request it makes.
pub open spec fn request_spec(args: Seq<Seq<char>>, r: BackendRequest) -> bool
    decreases args.len(),
{
    if args.len() == 0 {
        r == BackendRequest::Unnamed
    } else if args[0] == "--backend"@ {
        if args.len() > 1 && args[1] == "winit"@ {
            r == BackendRequest::Named(Backend::Winit)
        } else if args.len() > 1 && (args[1] == "udev"@ || args[1] == "drm"@) {
            r == BackendRequest::Named(Backend::Udev)
        } else if args.len() > 1 {
            r is Unknown && r->Unknown_0 is Some && r->Unknown_0->0@ == args[1]
        } else {
            r == BackendRequest::Unknown(None)
        }
    } else {
        request_spec(args.drop_first(), r)
    }
}

/// The texts of `args`.
pub open spec fn texts_of(args: Seq<String>) -> Seq<Seq<char>> {
    args.map_values(|s: String| s@)
}

/// Read the backend request from the arguments (the program name not
/// included): the first `--backend` decides, with `udev` and `drm` naming
/// the same backend.
pub fn backend_request(args: &[String]) -> (r: BackendRequest)
    ensures
        request_spec(texts_of(args@), r),
{
    let mut i: usize = 0;
    proof {
        assert(texts_of(args@).subrange(0, args@.len() as int) =~= texts_of(args@));
    }
    while i < args.len()
        invariant
            i <= args@.len(),
            forall|r: BackendRequest| request_spec(texts_of(args@).subrange(i as int, args@.len() as int), r)
                == request_spec(texts_of(args@), r),
        decreases args.len() - i,
    {
        let rest = Ghost(texts_of(args@).subrange(i as int, args@.len() as int));
        proof {
            assert(rest@[0] == args@[i as int]@);
            assert(rest@.drop_first() =~= texts_of(args@).subrange(i as int + 1, args@.len() as int));
        }
        if eq_str(&chars_of(args[i].as_str()), "--backend") {
            if i + 1 < args.len() {
                let v = args[i + 1].as_str();
                proof {
                    assert(rest@[1] == v@);
                }
                let c = chars_of(v);
                if eq_str(&c, "winit") {
                    return BackendRequest::Named(Backend::Winit);
                } else if eq_str(&c, "udev") || eq_str(&c, "drm") {
                    return BackendRequest::Named(Backend::Udev);
                } else {
                    return BackendRequest::Unknown(Some(string_from(v)));
                }
            } else {
                return BackendRequest::Unknown(None);
            }
        }
        i += 1;
    }
    proof {
        assert(texts_of(args@).subrange(args@.len() as int, args@.len() as int) =~= Seq::<Seq<char>>::empty());
    }
    BackendRequest::Unnamed
}

/// The backend to run: the one named; nested for an unknown name; and
/// without a name, nested when a display is already present, else bare
/// metal.
pub fn choose_backend(req: &BackendRequest, display_present: bool) -> (b: Backend)
    ensures
        b == match req {
            BackendRequest::Named(n) => *n,
            BackendRequest::Unknown(_) => Backend::Winit,
            BackendRequest::Unnamed => if display_present { Backend::Winit } else { Backend::Udev },
        },
{
    match req {
        BackendRequest::Named(n) => *n,
        BackendRequest::Unknown(_) => Backend::Winit,
        BackendRequest::Unnamed => if display_present { Backend::Winit } else { Backend::Udev },
    }
}

} // verus!
