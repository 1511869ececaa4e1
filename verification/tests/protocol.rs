use windowcast::protocol::{InputEvent, WindowId};
use windowcast::protocol::{
    check_version, frame_envelope, split_envelope, ProtocolError, PROTOCOL_VERSION,
};

#[test]
fn rejects_a_future_protocol_version() {
    // bincode of Envelope { version: PROTOCOL_VERSION + 1, message: Ping }:
    // the version, then the variant index of Ping.
    let bytes = bincode::serialize(&(PROTOCOL_VERSION + 1, 9u32)).unwrap();
    let (version, _payload) = split_envelope(&bytes).unwrap();
    assert!(matches!(
        check_version(version),
        Err(ProtocolError::VersionMismatch { found: 2, expected: 1 })
    ));
}

#[test]
fn framing_matches_bincode_of_the_envelope() {
    let payload = bincode::serialize(&9u32).unwrap();
    let framed = frame_envelope(&payload);
    assert_eq!(framed, bincode::serialize(&(PROTOCOL_VERSION, 9u32)).unwrap());
}

#[test]
fn framed_bytes_split_back() {
    let payload = vec![1u8, 2, 3, 4, 5];
    let framed = frame_envelope(&payload);
    assert_eq!(framed, vec![1, 0, 1, 2, 3, 4, 5]);
    let (version, rest) = split_envelope(&framed).unwrap();
    assert_eq!(version, PROTOCOL_VERSION);
    assert_eq!(rest, &payload[..]);
    assert!(check_version(version).is_ok());
}

#[test]
fn too_short_input_has_no_envelope() {
    assert!(split_envelope(&[]).is_none());
    assert!(split_envelope(&[1]).is_none());
    assert_eq!(split_envelope(&[0x34, 0x12]).unwrap().0, 0x1234);
}

#[test]
fn input_coordinates_compare_as_floats() {
    let at = |x: f32, y: f32| InputEvent::PointerMove { window: WindowId(1), x: x.to_bits(), y: y.to_bits() };
    assert!(at(0.5, 0.25) == at(0.5, 0.25));
    assert!(at(0.0, 0.0) == at(-0.0, 0.0));
    assert!(at(f32::NAN, 0.0) != at(f32::NAN, 0.0));
    assert!(at(0.5, 0.25) != at(0.25, 0.5));
    let key = InputEvent::Key { keycode: 30, pressed: true };
    assert!(key == InputEvent::Key { keycode: 30, pressed: true });
    assert!(key != at(0.0, 0.0));
}
