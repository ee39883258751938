//! The control protocol between the compositor and its clients (`archonctl`,
//! the shell): the request and response types, and the framing that carries
//! each encoded message as a little-endian `u32` length followed by the
//! payload bytes.
//!
//! Encoding a message into payload bytes and moving bytes over the socket are
//! the transport's business; this module owns the frame format and checks the
//! length limit on both sides.
use vstd::prelude::*;

verus! {

/// Commands a client can send to the compositor.
#[derive(Clone, Debug, PartialEq)]
pub enum Request {
    /// Liveness probe; expects [`Response::Pong`].
    Ping,
    /// Lock the session immediately.
    Lock,
    /// Show or hide the dock.
    ToggleDock,
    /// Show or hide the radial control wheel.
    ToggleWheel,
    /// Switch to workspace `index` (0-based).
    SwitchWorkspace(u32),
    /// Move the focused window to workspace `index`.
    MoveToWorkspace(u32),
    /// Enable or disable Game Mode.
    SetGameMode(bool),
    /// Toggle the in-compositor FPS overlay.
    ToggleFpsOverlay,
    /// Re-derive the theme from the current wallpaper using `mode`
    /// (`"signature"`, `"harmonize"`, or `"contrast"`).
    AiEnhance { mode: String },
    /// Change the wallpaper (a filesystem path) and re-theme around it.
    SetWallpaper(String),
    /// Ask the compositor for a snapshot of its state.
    QueryState,
}

/// Replies from the compositor.
#[derive(Clone, Debug, PartialEq)]
pub enum Response {
    Pong,
    /// Generic success with a human-readable message.
    Success(String),
    /// The command failed; carries a human-readable reason.
    Error(String),
    /// Snapshot returned for [`Request::QueryState`].
    State(CompositorState),
}

/// A snapshot of compositor state, used by the shell to render status.
#[derive(Clone, Debug, PartialEq)]
pub struct CompositorState {
    pub current_workspace: u32,
    pub workspace_count: u32,
    pub window_count: u32,
    pub game_mode: bool,
    pub fps_overlay: bool,
    /// Current accent color as `#rrggbb`, for the shell to match.
    pub accent_hex: String,
}

/// Maximum frame size accepted (4 MiB), so a malformed or hostile length
/// prefix cannot force a huge allocation.
pub const MAX_FRAME: u32 = 4194304;

/// Why a frame was refused.
#[derive(Clone, Copy, Debug, PartialEq, Eq, Structural)]
pub enum FrameError {
    /// The length prefix names more than [`MAX_FRAME`] bytes.
    FrameTooLarge(u32),
    /// The bytes end before the frame does.
    Truncated,
}

/// The little-endian bytes of `n`.
pub open spec fn le_bytes(n: u32) -> Seq<u8> {
    seq![
        (n % 256) as u8,
        ((n / 256) % 256) as u8,
        ((n / 65536) % 256) as u8,
        (n / 16777216) as u8,
    ]
}

/// The number whose little-endian bytes open `b`.
pub open spec fn le_value(b: Seq<u8>) -> int {
    b[0] + 256 * b[1] + 65536 * b[2] + 16777216 * b[3]
}

/// The frame that carries `payload`: its length, then the bytes.
pub open spec fn frame_spec(payload: Seq<u8>) -> Seq<u8> {
    le_bytes(payload.len() as u32) + payload
}

/// What the length prefix at the start of `buf` allows: the payload length,
/// or why the frame is refused.
pub open spec fn header_spec(buf: Seq<u8>) -> Result<int, FrameError> {
    if buf.len() < 4 {
        Err(FrameError::Truncated)
    } else if le_value(buf) > MAX_FRAME {
        Err(FrameError::FrameTooLarge(le_value(buf) as u32))
    } else {
        Ok(le_value(buf))
    }
}

/// The first frame of `buf`: its payload and the number of bytes it takes,
/// or why it cannot be read.
pub open spec fn decode_spec(buf: Seq<u8>) -> Result<(Seq<u8>, int), FrameError> {
    match header_spec(buf) {
        Err(e) => Err(e),
        Ok(n) => if buf.len() < 4 + n {
            Err(FrameError::Truncated)
        } else {
            Ok((buf.subrange(4, 4 + n), 4 + n))
        },
    }
}

proof fn lemma_le_round_trip(n: u32)
    ensures
        le_value(le_bytes(n)) == n,
{
    let b0 = n % 256;
    let b1 = (n / 256) % 256;
    let b2 = (n / 65536) % 256;
    let b3 = n / 16777216;
    assert(b0 + 256 * b1 + 65536 * b2 + 16777216 * b3 == n) by (nonlinear_arith)
        requires
            b0 == n % 256,
            b1 == (n / 256) % 256,
            b2 == (n / 65536) % 256,
            b3 == n / 16777216,
            0 <= n < 0x1_0000_0000,
    ;
    assert(b3 < 256) by (nonlinear_arith)
        requires
            b3 == n / 16777216,
            0 <= n < 0x1_0000_0000,
    ;
}

/// The little-endian bytes of `n`.
pub fn length_prefix(n: u32) -> (b: Vec<u8>)
    ensures
        b@ == le_bytes(n),
{
    let mut b: Vec<u8> = Vec::new();
    b.push((n % 256) as u8);
    b.push(((n / 256) % 256) as u8);
    b.push(((n / 65536) % 256) as u8);
    proof {
        assert(n / 16777216 < 256) by (nonlinear_arith)
            requires
                0 <= n < 0x1_0000_0000,
        ;
    }
    b.push((n / 16777216) as u8);
    assert(b@ =~= le_bytes(n));
    b
}

/// Read the length prefix at the start of `buf`: the payload length, or
/// `Truncated` with fewer than four bytes, or `FrameTooLarge` beyond
/// [`MAX_FRAME`].
pub fn read_header(buf: &[u8]) -> (r: Result<u32, FrameError>)
    ensures
        match r {
            Ok(n) => header_spec(buf@) == Ok::<int, FrameError>(n as int),
            Err(e) => header_spec(buf@) == Err::<int, FrameError>(e),
        },
{
    if buf.len() < 4 {
        return Err(FrameError::Truncated);
    }
    let n: u32 = buf[0] as u32 + 256 * (buf[1] as u32) + 65536 * (buf[2] as u32) + 16777216 * (buf[3] as u32);
    if n > MAX_FRAME {
        Err(FrameError::FrameTooLarge(n))
    } else {
        Ok(n)
    }
}

/// Wrap `payload` in a frame. Refused with `FrameTooLarge` (carrying the
/// payload length) beyond [`MAX_FRAME`] bytes.
pub fn encode_frame(payload: &[u8]) -> (r: Result<Vec<u8>, FrameError>)
    requires
        payload@.len() <= u32::MAX,
    ensures
        payload@.len() > MAX_FRAME <==> r is Err,
        r matches Ok(f) ==> f@ == frame_spec(payload@),
        r matches Err(e) ==> e == FrameError::FrameTooLarge(payload@.len() as u32),
{
    let len = payload.len() as u32;
    if len > MAX_FRAME {
        return Err(FrameError::FrameTooLarge(len));
    }
    let mut out = length_prefix(len);
    let mut i: usize = 0;
    while i < payload.len()
        invariant
            i <= payload@.len(),
            len == payload@.len(),
            out@ == le_bytes(len) + payload@.take(i as int),
        decreases payload.len() - i,
    {
        out.push(payload[i]);
        proof {
            assert(payload@.take(i as int + 1) =~= payload@.take(i as int).push(payload@[i as int]));
            assert(out@ =~= le_bytes(len) + payload@.take(i as int + 1));
        }
        i += 1;
    }
    proof {
        assert(payload@.take(payload@.len() as int) =~= payload@);
    }
    Ok(out)
}

/// Read the first frame of `buf`: its payload and how many bytes it took.
pub fn decode_frame(buf: &[u8]) -> (r: Result<(Vec<u8>, usize), FrameError>)
    ensures
        match r {
            Ok((p, used)) => decode_spec(buf@) == Ok::<(Seq<u8>, int), FrameError>((p@, used as int)),
            Err(e) => decode_spec(buf@) == Err::<(Seq<u8>, int), FrameError>(e),
        },
{
    let n = match read_header(buf) {
        Ok(n) => n as usize,
        Err(e) => return Err(e),
    };
    if buf.len() - 4 < n {
        return Err(FrameError::Truncated);
    }
    let mut p: Vec<u8> = Vec::new();
    let mut i: usize = 0;
    while i < n
        invariant
            i <= n,
            4 + n <= buf.len(),
            p@ == buf@.subrange(4, 4 + i as int),
        decreases n - i,
    {
        p.push(buf[4 + i]);
        proof {
            assert(p@ =~= buf@.subrange(4, 4 + i as int + 1));
        }
        i += 1;
    }
    Ok((p, 4 + n))
}

/// A frame reads back as the payload it was made from, whatever follows
/// it, and takes exactly its own bytes; so frames written back to back are
/// read back one after the other.
pub proof fn law_frame_round_trip(payload: Seq<u8>, rest: Seq<u8>)
    requires
        payload.len() <= MAX_FRAME,
    ensures
        decode_spec(frame_spec(payload) + rest) == Ok::<(Seq<u8>, int), FrameError>((payload, frame_spec(payload).len() as int)),
        frame_spec(payload).len() == 4 + payload.len(),
{
    let f = frame_spec(payload);
    let buf = f + rest;
    lemma_le_round_trip(payload.len() as u32);
    assert(le_value(buf) == le_value(le_bytes(payload.len() as u32)));
    assert(buf.subrange(4, 4 + payload.len() as int) =~= payload);
}

/// A length prefix beyond [`MAX_FRAME`] is refused, carrying the length it
/// names, whatever bytes follow it; so no oversized frame is ever read.
pub proof fn law_oversized_refused(n: u32, rest: Seq<u8>)
    requires
        n > MAX_FRAME,
    ensures
        decode_spec(le_bytes(n) + rest) == Err::<(Seq<u8>, int), FrameError>(FrameError::FrameTooLarge(n)),
{
    lemma_le_round_trip(n);
    let buf = le_bytes(n) + rest;
    assert(le_value(buf) == le_value(le_bytes(n)));
}

} // verus!
