//! Wire types shared by every agent and client, and the versioned envelope
//! every control message travels in.

use vstd::prelude::*;
use vstd::std_specs::cmp::PartialEqSpecImpl;

verus! {

/// Version of the message shapes below; bumped on any incompatible change.
pub const PROTOCOL_VERSION: u16 = 1;

/// Identifies one window on the host.
#[derive(Debug, Clone, Copy, PartialEq, Eq, Hash)]
pub struct WindowId(pub u64);

/// One window the host can stream.
#[derive(Debug, Clone, PartialEq)]
pub struct WindowInfo {
    pub id: WindowId,
    pub title: String,
    /// App or executable identifier (Wayland app_id, exe name, bundle id).
    pub app_id: String,
    pub width: u32,
    pub height: u32,
    pub focused: bool,
}

/// Phase of a touch contact.
#[derive(Debug, Clone, Copy, PartialEq, Eq)]
pub enum TouchPhase {
    Start,
    Move,
    End,
    Cancel,
}

/// Input events, client to agent. Coordinates are normalized to the window's
/// own [0.0, 1.0] space; each coordinate is carried as the bit pattern of its
/// IEEE-754 single-precision value (`f32::to_bits`), exactly the four bytes
/// the wire holds; `==` compares them as `f32` values.
#[derive(Debug, Clone, Copy)]
pub enum InputEvent {
    PointerMove { window: WindowId, x: u32, y: u32 },
    PointerButton { window: WindowId, button: u8, pressed: bool },
    PointerScroll { window: WindowId, dx: u32, dy: u32 },
    /// Platform-neutral (evdev) keycode.
    Key { keycode: u32, pressed: bool },
    Touch { window: WindowId, id: u32, x: u32, y: u32, phase: TouchPhase },
}

/// Whether the `f32` with bit pattern `b` is a NaN: all exponent bits set,
/// and a nonzero fraction.
pub open spec fn f32_bits_is_nan(b: u32) -> bool {
    b & 0x7f80_0000u32 == 0x7f80_0000u32 && b & 0x007f_ffffu32 != 0
}

/// Whether the `f32` values with bit patterns `a` and `b` are equal under
/// IEEE-754 `==`: a NaN equals nothing, `0.0` equals `-0.0`, and otherwise
/// equal values have equal bits.
pub open spec fn f32_bits_eq(a: u32, b: u32) -> bool {
    &&& !f32_bits_is_nan(a)
    &&& !f32_bits_is_nan(b)
    &&& (a == b || (a & 0x7fff_ffffu32 == 0 && b & 0x7fff_ffffu32 == 0))
}

/// `f32` equality on bit patterns.
pub fn f32_bits_equal(a: u32, b: u32) -> (r: bool)
    ensures
        r == f32_bits_eq(a, b),
{
    let a_nan = a & 0x7f80_0000u32 == 0x7f80_0000u32 && a & 0x007f_ffffu32 != 0;
    let b_nan = b & 0x7f80_0000u32 == 0x7f80_0000u32 && b & 0x007f_ffffu32 != 0;
    !a_nan && !b_nan && (a == b || (a & 0x7fff_ffffu32 == 0 && b & 0x7fff_ffffu32 == 0))
}

/// Whether two touch phases are the same.
pub open spec fn same_touch_phase(a: TouchPhase, b: TouchPhase) -> bool {
    match (a, b) {
        (TouchPhase::Start, TouchPhase::Start) => true,
        (TouchPhase::Move, TouchPhase::Move) => true,
        (TouchPhase::End, TouchPhase::End) => true,
        (TouchPhase::Cancel, TouchPhase::Cancel) => true,
        _ => false,
    }
}

fn touch_phase_equal(a: TouchPhase, b: TouchPhase) -> (r: bool)
    ensures
        r == same_touch_phase(a, b),
{
    match (a, b) {
        (TouchPhase::Start, TouchPhase::Start) => true,
        (TouchPhase::Move, TouchPhase::Move) => true,
        (TouchPhase::End, TouchPhase::End) => true,
        (TouchPhase::Cancel, TouchPhase::Cancel) => true,
        _ => false,
    }
}

/// Whether two input events are equal, their coordinates compared as `f32`.
pub open spec fn input_event_eq(a: InputEvent, b: InputEvent) -> bool {
    match (a, b) {
        (
            InputEvent::PointerMove { window: w1, x: x1, y: y1 },
            InputEvent::PointerMove { window: w2, x: x2, y: y2 },
        ) => w1.0 == w2.0 && f32_bits_eq(x1, x2) && f32_bits_eq(y1, y2),
        (
            InputEvent::PointerButton { window: w1, button: b1, pressed: p1 },
            InputEvent::PointerButton { window: w2, button: b2, pressed: p2 },
        ) => w1.0 == w2.0 && b1 == b2 && p1 == p2,
        (
            InputEvent::PointerScroll { window: w1, dx: x1, dy: y1 },
            InputEvent::PointerScroll { window: w2, dx: x2, dy: y2 },
        ) => w1.0 == w2.0 && f32_bits_eq(x1, x2) && f32_bits_eq(y1, y2),
        (InputEvent::Key { keycode: k1, pressed: p1 }, InputEvent::Key { keycode: k2, pressed: p2 }) => k1
            == k2 && p1 == p2,
        (
            InputEvent::Touch { window: w1, id: i1, x: x1, y: y1, phase: f1 },
            InputEvent::Touch { window: w2, id: i2, x: x2, y: y2, phase: f2 },
        ) => w1.0 == w2.0 && i1 == i2 && f32_bits_eq(x1, x2) && f32_bits_eq(y1, y2) && same_touch_phase(
            f1,
            f2,
        ),
        _ => false,
    }
}

impl PartialEq for InputEvent {
    fn eq(&self, other: &InputEvent) -> (r: bool) {
        match (*self, *other) {
            (
                InputEvent::PointerMove { window: w1, x: x1, y: y1 },
                InputEvent::PointerMove { window: w2, x: x2, y: y2 },
            ) => w1.0 == w2.0 && f32_bits_equal(x1, x2) && f32_bits_equal(y1, y2),
            (
                InputEvent::PointerButton { window: w1, button: b1, pressed: p1 },
                InputEvent::PointerButton { window: w2, button: b2, pressed: p2 },
            ) => w1.0 == w2.0 && b1 == b2 && p1 == p2,
            (
                InputEvent::PointerScroll { window: w1, dx: x1, dy: y1 },
                InputEvent::PointerScroll { window: w2, dx: x2, dy: y2 },
            ) => w1.0 == w2.0 && f32_bits_equal(x1, x2) && f32_bits_equal(y1, y2),
            (
                InputEvent::Key { keycode: k1, pressed: p1 },
                InputEvent::Key { keycode: k2, pressed: p2 },
            ) => k1 == k2 && p1 == p2,
            (
                InputEvent::Touch { window: w1, id: i1, x: x1, y: y1, phase: f1 },
                InputEvent::Touch { window: w2, id: i2, x: x2, y: y2, phase: f2 },
            ) => w1.0 == w2.0 && i1 == i2 && f32_bits_equal(x1, x2) && f32_bits_equal(y1, y2)
                && touch_phase_equal(f1, f2),
            _ => false,
        }
    }
}

impl PartialEqSpecImpl for InputEvent {
    open spec fn obeys_eq_spec() -> bool {
        true
    }

    open spec fn eq_spec(&self, other: &InputEvent) -> bool {
        input_event_eq(*self, *other)
    }
}

/// Whether the `f32` with bit pattern `x` is an ordinary coordinate: finite
/// (its exponent bits are not all set) and not zero of either sign.
pub open spec fn ordinary_f32_bits(x: u32) -> bool {
    x & 0x7f80_0000u32 != 0x7f80_0000u32 && x & 0x7fff_ffffu32 != 0
}

/// Whether every coordinate an event carries is ordinary.
pub open spec fn ordinary_coordinates(e: InputEvent) -> bool {
    match e {
        InputEvent::PointerMove { x, y, .. } => ordinary_f32_bits(x) && ordinary_f32_bits(y),
        InputEvent::PointerScroll { dx, dy, .. } => ordinary_f32_bits(dx) && ordinary_f32_bits(dy),
        InputEvent::Touch { x, y, .. } => ordinary_f32_bits(x) && ordinary_f32_bits(y),
        _ => true,
    }
}

/// Input events whose coordinates are ordinary are equal exactly when they
/// are the same event: same kind, and every field (window, button, pressed,
/// key code, touch id, phase, coordinate) the same. Events without
/// coordinates (buttons, keys) are always compared this way.
pub proof fn lemma_input_event_eq_is_field_equality(a: InputEvent, b: InputEvent)
    requires
        ordinary_coordinates(a),
        ordinary_coordinates(b),
    ensures
        input_event_eq(a, b) <==> a == b,
{
}

/// Coordinates compare as `f32` values: zero equals negative zero, a NaN
/// equals nothing (not even itself), and finite nonzero values are equal
/// exactly when their bits are.
pub proof fn lemma_f32_bits_eq_is_float_equality(x: u32, y: u32)
    ensures
        f32_bits_eq(0, 0x8000_0000u32),
        x & 0x7f80_0000u32 == 0x7f80_0000u32 && x & 0x007f_ffffu32 != 0 ==> !f32_bits_eq(x, y)
            && !f32_bits_eq(y, x),
        ordinary_f32_bits(x) && ordinary_f32_bits(y) ==> (f32_bits_eq(x, y) <==> x == y),
{
    assert(0u32 & 0x7f80_0000u32 != 0x7f80_0000u32 && 0u32 & 0x7fff_ffffu32 == 0) by (bit_vector);
    assert(0x8000_0000u32 & 0x7f80_0000u32 != 0x7f80_0000u32 && 0x8000_0000u32 & 0x7fff_ffffu32 == 0)
        by (bit_vector);
}

/// Identifies one game a GameStream host offers.
#[derive(Debug, Clone, Copy, PartialEq, Eq, Hash)]
pub struct GameId(pub u32);

/// One app a local GameStream host has configured as streamable.
#[derive(Debug, Clone, PartialEq)]
pub struct GameEntry {
    pub id: GameId,
    pub name: String,
    pub artwork_uri: Option<String>,
}

/// What a client asks to stream.
#[derive(Debug, Clone, Copy, PartialEq, Eq)]
pub enum StreamTarget {
    Window(WindowId),
    Game(GameId),
}

/// Which mechanism drives a stream once accepted.
#[derive(Debug, Clone, PartialEq, Eq)]
pub enum StreamBackend {
    Native,
    Moonlight,
    Rdp,
    Vnc,
    Other(String),
}

/// Where to reach a handed-off stream.
#[derive(Debug, Clone, PartialEq)]
pub struct HandoffTarget {
    pub address: String,
    pub port: u16,
}

/// Control-channel request and response traffic.
#[derive(Debug, Clone, PartialEq)]
pub enum ControlMessage {
    ListWindowsRequest,
    ListWindowsResponse(Vec<WindowInfo>),
    ListGamesRequest,
    ListGamesResponse(Vec<GameEntry>),
    StreamStartRequest(StreamTarget),
    StreamStartResponse {
        target: StreamTarget,
        accepted: bool,
        backend: StreamBackend,
        track_id: Option<String>,
        handoff: Option<HandoffTarget>,
        reason: Option<String>,
    },
    StreamStopRequest(StreamTarget),
    StreamStopped(StreamTarget),
    Input(InputEvent),
    Ping,
    Pong,
}

/// A message with the protocol version it was written for.
#[derive(Debug, Clone)]
pub struct Envelope {
    pub version: u16,
    pub message: ControlMessage,
}

#[verifier::external_type_specification]
#[verifier::external_body]
pub struct ExBincodeErrorKind(bincode::ErrorKind);

/// Errors of decoding a message.
#[derive(Debug)]
pub enum ProtocolError {
    VersionMismatch { found: u16, expected: u16 },
    Decode(Box<bincode::ErrorKind>),
}

/// The bytes of an envelope: its version as two little-endian bytes, then
/// the encoded message.
pub open spec fn envelope_bytes(version: u16, payload: Seq<u8>) -> Seq<u8> {
    seq![(version % 256) as u8, (version / 256) as u8] + payload
}

/// Frames an encoded message in an envelope of the current protocol version.
pub fn frame_envelope(payload: &[u8]) -> (bytes: Vec<u8>)
    ensures
        bytes@ == envelope_bytes(PROTOCOL_VERSION, payload@),
{
    let mut bytes: Vec<u8> = Vec::new();
    bytes.push((PROTOCOL_VERSION % 256) as u8);
    bytes.push((PROTOCOL_VERSION / 256) as u8);
    let mut i: usize = 0;
    while i < payload.len()
        invariant
            0 <= i <= payload@.len(),
            bytes@ == envelope_bytes(PROTOCOL_VERSION, payload@.take(i as int)),
        decreases payload@.len() - i,
    {
        bytes.push(payload[i]);
        assert(payload@.take(i + 1) =~= payload@.take(i as int).push(payload@[i as int]));
        assert(bytes@ =~= envelope_bytes(PROTOCOL_VERSION, payload@.take(i + 1)));
        i = i + 1;
    }
    assert(payload@.take(i as int) =~= payload@);
    bytes
}

/// Splits envelope bytes into the version and the encoded message; `None`
/// when there are fewer than two bytes.
pub fn split_envelope(bytes: &[u8]) -> (r: Option<(u16, &[u8])>)
    ensures
        bytes@.len() < 2 <==> r is None,
        r matches Some((version, payload)) ==> bytes@ == envelope_bytes(version, payload@),
{
    if bytes.len() < 2 {
        return None;
    }
    let version: u16 = (bytes[0] as u16) + 256 * (bytes[1] as u16);
    let (_, payload) = bytes.split_at(2);
    assert(bytes@ =~= envelope_bytes(version, payload@));
    Some((version, payload))
}

/// Accepts exactly the current protocol version.
pub fn check_version(found: u16) -> (r: Result<(), ProtocolError>)
    ensures
        found == PROTOCOL_VERSION <==> r is Ok,
        r matches Err(e) ==> e == (ProtocolError::VersionMismatch { found, expected: PROTOCOL_VERSION }),
{
    if found == PROTOCOL_VERSION {
        Ok(())
    } else {
        Err(ProtocolError::VersionMismatch { found, expected: PROTOCOL_VERSION })
    }
}

/// An envelope's bytes determine its version and its encoded message: what
/// [`frame_envelope`] writes, [`split_envelope`] gives back.
pub proof fn lemma_envelope_round_trip(v1: u16, p1: Seq<u8>, v2: u16, p2: Seq<u8>)
    requires
        envelope_bytes(v1, p1) == envelope_bytes(v2, p2),
    ensures
        v1 == v2,
        p1 == p2,
{
    let b = envelope_bytes(v1, p1);
    assert(b[0] == (v1 % 256) as u8 && b[1] == (v1 / 256) as u8);
    assert(envelope_bytes(v2, p2)[0] == (v2 % 256) as u8);
    assert(envelope_bytes(v2, p2)[1] == (v2 / 256) as u8);
    assert(p1 =~= b.skip(2));
    assert(p2 =~= envelope_bytes(v2, p2).skip(2));
}

}
