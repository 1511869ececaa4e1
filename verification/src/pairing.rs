//! First-pairing PAKE (SPAKE2 over Ed25519) seeded by a short PIN, and the
//! HMAC authentication of a DTLS fingerprint under the derived session key.

use vstd::prelude::*;

use hkdf::Hkdf;
use hmac::{Hmac, Mac};
use rand_core::{OsRng, RngCore};
use sha2::Sha256;
use spake2::{Ed25519Group, Identity as SpakeIdentity, Password, Spake2};
use zeroize::Zeroize;

use crate::identity::ed25519_point_decompresses;
use crate::text::push_char;

verus! {

/// Errors of the pairing exchange.
#[derive(Debug)]
pub enum PairingError {
    /// The SPAKE2 exchange failed on a malformed peer message.
    KeyExchangeFailed,
    /// The fingerprint authentication tag did not match.
    FingerprintAuthFailed,
}

// ---------------------------------------------------------------------------
// PIN
// ---------------------------------------------------------------------------

/// The decimal digit character for `d` (`0 <= d < 10`).
pub open spec fn decimal_digit(d: int) -> char {
    (48 + d) as char
}

/// `n` written as exactly six decimal digits, zero-padded (`n < 1_000_000`).
pub open spec fn six_digit_text(n: int) -> Seq<char> {
    seq![
        decimal_digit((n / 100000) % 10),
        decimal_digit((n / 10000) % 10),
        decimal_digit((n / 1000) % 10),
        decimal_digit((n / 100) % 10),
        decimal_digit((n / 10) % 10),
        decimal_digit(n % 10),
    ]
}

/// `RngCore::next_u32` of the operating system's generator.
#[verifier::external_body]
fn random_u32() -> (r: u32) {
    OsRng.next_u32()
}

fn digit_char(d: u32) -> (c: char)
    requires
        d < 10,
    ensures
        c == decimal_digit(d as int),
{
    ((48 + d) as u8) as char
}

/// The PIN for a number below one million: its six zero-padded digits.
pub fn pin_from_number(n: u32) -> (pin: String)
    requires
        n < 1_000_000,
    ensures
        pin@ == six_digit_text(n as int),
{
    let mut pin = String::new();
    push_char(&mut pin, digit_char((n / 100000) % 10));
    push_char(&mut pin, digit_char((n / 10000) % 10));
    push_char(&mut pin, digit_char((n / 1000) % 10));
    push_char(&mut pin, digit_char((n / 100) % 10));
    push_char(&mut pin, digit_char((n / 10) % 10));
    push_char(&mut pin, digit_char(n % 10));
    assert(pin@ =~= six_digit_text(n as int));
    pin
}

/// The PIN text of a random draw: the draw reduced below one million, as
/// six zero-padded digits.
pub open spec fn pin_of_draw(draw: u32) -> Seq<char> {
    six_digit_text((draw % 1_000_000) as int)
}

/// The PIN for a random draw `draw`.
pub fn pin_from_draw(draw: u32) -> (pin: String)
    ensures
        pin@ == pin_of_draw(draw),
{
    pin_from_number(draw % 1_000_000)
}

/// A random six-digit display PIN: the PIN of a draw from the operating
/// system's generator.
pub fn generate_pin() -> (pin: String)
    ensures
        exists|draw: u32| pin@ == #[trigger] pin_of_draw(draw),
        pin@.len() == 6,
        forall|i: int| 0 <= i < 6 ==> '0' <= #[trigger] pin@[i] <= '9',
{
    let draw = random_u32();
    let pin = pin_from_draw(draw);
    let ghost n = (draw % 1_000_000) as int;
    assert forall|i: int| 0 <= i < 6 implies '0' <= #[trigger] pin@[i] <= '9' by {
        assert(pin@[i] == six_digit_text(n)[i]);
    }
    pin
}

// ---------------------------------------------------------------------------
// SPAKE2
// ---------------------------------------------------------------------------

/// Identity label of the side that types the PIN in.
pub const ROLE_LABEL_CLIENT: &'static str = "windowcast-client";

/// Identity label of the side that displays the PIN.
pub const ROLE_LABEL_HOST: &'static str = "windowcast-host";

/// HKDF info string of the session key.
pub const SESSION_KEY_INFO: &'static str = "windowcast-pairing-session-key-v1";

/// The secret state of one side of a SPAKE2 exchange: spake2's
/// `Spake2<Ed25519Group>`, which holds that side's random scalar and the parts
/// of its transcript. It is opaque; the wrappers below are the only code that
/// makes or consumes one, and [`spake2_state`] names what it holds.
#[verifier::external_body]
pub struct SpakeState {
    state: Spake2<Ed25519Group>,
}

#[verifier::external_type_specification]
#[verifier::external_body]
pub struct ExSpake2Error(spake2::Error);

/// Side byte of SPAKE2 side A, the client.
pub open spec fn side_a() -> u8 {
    0x41
}

/// Side byte of SPAKE2 side B, the host.
pub open spec fn side_b() -> u8 {
    0x42
}

/// What a started SPAKE2 side holds, as plain values: its side byte, the
/// password, the identities of side A and side B, and the message it sent.
pub uninterp spec fn spake2_state(state: SpakeState) -> (u8, Seq<char>, Seq<char>, Seq<char>, Seq<u8>);

/// The 32-byte transcript hash `Spake2::finish` returns for a side started as
/// `start` (side byte, password, identities, its own message) on the peer
/// message `peer`. A side's random scalar is fixed by its own message and its
/// password, so the hash is a function of these values.
pub uninterp spec fn spake2_output(start: (u8, Seq<char>, Seq<char>, Seq<char>, Seq<u8>), peer: Seq<u8>) -> Seq<u8>;

/// Whether `message` has the shape of a SPAKE2 message from side `side`: the
/// side byte followed by 32 bytes that decompress to an Ed25519 point.
pub open spec fn spake2_message(side: u8, message: Seq<u8>) -> bool {
    &&& message.len() == 33
    &&& message[0] == side
    &&& ed25519_point_decompresses(message.subrange(1, 33))
}

/// Whether two SPAKE2 sides started with `password` and identities `id_a`,
/// `id_b`, side A having sent `message_a` and side B `message_b`, finish with
/// the same transcript hash.
pub open spec fn spake2_sides_agree(
    password: Seq<char>,
    id_a: Seq<char>,
    id_b: Seq<char>,
    message_a: Seq<u8>,
    message_b: Seq<u8>,
) -> bool {
    spake2_output((side_a(), password, id_a, id_b, message_a), message_b)
        == spake2_output((side_b(), password, id_a, id_b, message_b), message_a)
}

/// `Spake2::start_a`: starts the exchange as side A with a fresh random
/// scalar `x`, sending `b'A'` and the compressed point `x*B + pw*M`. SPAKE2's
/// correctness: a side B started with the same password and identities, whose
/// message is therefore `y*B + pw*N`, computes the same key point `x*y*B` and
/// hashes the same transcript, so both sides get the same output. The clause
/// is stated for every well-formed side-B message; one that no side B can
/// send (a point outside the prime-order subgroup) belongs to no side-B
/// state, so there it fixes nothing a run can observe.
#[verifier::external_body]
fn spake2_start_a(password: &str, id_a: &str, id_b: &str) -> (r: (SpakeState, Vec<u8>))
    ensures
        spake2_state(r.0) == (side_a(), password@, id_a@, id_b@, r.1@),
        spake2_message(side_a(), r.1@),
        forall|message_b: Seq<u8>|
            spake2_message(side_b(), message_b) ==> #[trigger] spake2_sides_agree(
                password@,
                id_a@,
                id_b@,
                r.1@,
                message_b,
            ),
{
    let (state, message) = Spake2::<Ed25519Group>::start_a(
        &Password::new(password.as_bytes()),
        &SpakeIdentity::new(id_a.as_bytes()),
        &SpakeIdentity::new(id_b.as_bytes()),
    );
    (SpakeState { state }, message)
}

/// `Spake2::start_b`: starts the exchange as side B with a fresh random
/// scalar `y`, sending `b'B'` and the compressed point `y*B + pw*N`; the same
/// agreement holds as for side A.
#[verifier::external_body]
fn spake2_start_b(password: &str, id_a: &str, id_b: &str) -> (r: (SpakeState, Vec<u8>))
    ensures
        spake2_state(r.0) == (side_b(), password@, id_a@, id_b@, r.1@),
        spake2_message(side_b(), r.1@),
        forall|message_a: Seq<u8>|
            spake2_message(side_a(), message_a) ==> #[trigger] spake2_sides_agree(
                password@,
                id_a@,
                id_b@,
                message_a,
                r.1@,
            ),
{
    let (state, message) = Spake2::<Ed25519Group>::start_b(
        &Password::new(password.as_bytes()),
        &SpakeIdentity::new(id_a.as_bytes()),
        &SpakeIdentity::new(id_b.as_bytes()),
    );
    (SpakeState { state }, message)
}

/// `Spake2::finish`: side A accepts exactly a 33-byte message with side byte
/// `b'B'` whose point decompresses, side B likewise one with `b'A'`; an
/// accepted exchange yields the 32-byte transcript hash.
#[verifier::external_body]
fn spake2_finish(state: SpakeState, peer_message: &[u8]) -> (r: Result<Vec<u8>, spake2::Error>)
    ensures
        peer_message@.len() != 33 ==> r is Err,
        spake2_state(state).0 == side_a() ==> (r is Ok <==> spake2_message(side_b(), peer_message@)),
        spake2_state(state).0 == side_b() ==> (r is Ok <==> spake2_message(side_a(), peer_message@)),
        r matches Ok(raw) ==> raw@.len() == 32 && raw@ == spake2_output(spake2_state(state), peer_message@),
{
    state.state.finish(peer_message)
}

/// One side's state between sending its message and receiving the peer's.
pub struct PairingStart {
    spake: SpakeState,
    pub outbound_message: Vec<u8>,
}

impl PairingStart {
    /// The side byte this side started as.
    pub closed spec fn side(self) -> u8 {
        spake2_state(self.spake).0
    }

    /// The password (the PIN) this side started with.
    pub closed spec fn password(self) -> Seq<char> {
        spake2_state(self.spake).1
    }

    /// The identity of side A this side started with.
    pub closed spec fn id_a(self) -> Seq<char> {
        spake2_state(self.spake).2
    }

    /// The identity of side B this side started with.
    pub closed spec fn id_b(self) -> Seq<char> {
        spake2_state(self.spake).3
    }

    /// The message this side sent to its peer.
    pub closed spec fn message(self) -> Seq<u8> {
        spake2_state(self.spake).4
    }

    /// The bytes held in `outbound_message`.
    pub closed spec fn outbound(self) -> Seq<u8> {
        self.outbound_message@
    }

    /// The side byte this side expects on its peer's message.
    pub open spec fn peer_side(self) -> u8 {
        if self.side() == side_a() {
            side_b()
        } else {
            side_a()
        }
    }

    /// Whether this side accepts `peer` as its peer's message.
    pub open spec fn accepts(self, peer: Seq<u8>) -> bool {
        spake2_message(self.peer_side(), peer)
    }

    /// The session key this side derives from the peer message `peer`.
    pub closed spec fn session_key_for(self, peer: Seq<u8>) -> Seq<u8> {
        hkdf_sha256_32(spake2_output(spake2_state(self.spake), peer), SESSION_KEY_INFO@)
    }

    /// Whether this side was started by [`start_client`] or [`start_host`]:
    /// as side A or side B with the role labels as identities, having sent a
    /// well-formed message, and agreeing with every well-formed message of a
    /// peer started with the same password.
    pub closed spec fn started(self) -> bool {
        &&& self.side() == side_a() || self.side() == side_b()
        &&& self.id_a() == ROLE_LABEL_CLIENT@
        &&& self.id_b() == ROLE_LABEL_HOST@
        &&& spake2_message(self.side(), self.message())
        &&& self.side() == side_a() ==> forall|message_b: Seq<u8>|
            spake2_message(side_b(), message_b) ==> #[trigger] spake2_sides_agree(
                self.password(),
                self.id_a(),
                self.id_b(),
                self.message(),
                message_b,
            )
        &&& self.side() == side_b() ==> forall|message_a: Seq<u8>|
            spake2_message(side_a(), message_a) ==> #[trigger] spake2_sides_agree(
                self.password(),
                self.id_a(),
                self.id_b(),
                message_a,
                self.message(),
            )
    }
}

impl PairingStart {
    /// The bytes held in `outbound_message`, for a caller to send: right after
    /// [`start_client`] or [`start_host`], the message this side sent.
    pub fn sent_message(&self) -> (m: &Vec<u8>)
        ensures
            m@ == self.outbound(),
    {
        &self.outbound_message
    }
}

/// Starts pairing on the client side (SPAKE2 side A), with the PIN as password.
pub fn start_client(pin: &str) -> (start: PairingStart)
    ensures
        start.started(),
        start.side() == side_a(),
        start.password() == pin@,
        start.id_a() == ROLE_LABEL_CLIENT@,
        start.id_b() == ROLE_LABEL_HOST@,
        start.outbound() == start.message(),
{
    let (spake, outbound) = spake2_start_a(pin, ROLE_LABEL_CLIENT, ROLE_LABEL_HOST);
    PairingStart { spake, outbound_message: outbound }
}

/// Starts pairing on the host side (SPAKE2 side B), with the PIN as password.
pub fn start_host(pin: &str) -> (start: PairingStart)
    ensures
        start.started(),
        start.side() == side_b(),
        start.password() == pin@,
        start.id_a() == ROLE_LABEL_CLIENT@,
        start.id_b() == ROLE_LABEL_HOST@,
        start.outbound() == start.message(),
{
    let (spake, outbound) = spake2_start_b(pin, ROLE_LABEL_CLIENT, ROLE_LABEL_HOST);
    PairingStart { spake, outbound_message: outbound }
}

// ---------------------------------------------------------------------------
// Session key and fingerprint authentication
// ---------------------------------------------------------------------------

/// The 32 bytes HKDF-SHA256 (no salt) expands from `ikm` with `info`.
pub uninterp spec fn hkdf_sha256_32(ikm: Seq<u8>, info: Seq<char>) -> Seq<u8>;

/// HMAC-SHA256 of `message` under `key`.
pub uninterp spec fn hmac_sha256(key: Seq<u8>, message: Seq<u8>) -> Seq<u8>;

/// The tag that authenticates `fingerprint` under a session key.
pub open spec fn fingerprint_tag(key: Seq<u8>, fingerprint: Seq<u8>) -> Seq<u8> {
    hmac_sha256(key, fingerprint)
}

/// Whether `tag` authenticates `fingerprint` under a session key.
pub open spec fn fingerprint_accepted(key: Seq<u8>, fingerprint: Seq<u8>, tag: Seq<u8>) -> bool {
    tag == fingerprint_tag(key, fingerprint)
}

/// `Hkdf::<Sha256>::new(None, ikm)` then `expand(info, ..)` into 32 bytes,
/// which never fails (the limit is 255 blocks of 32 bytes).
#[verifier::external_body]
fn hkdf_sha256_expand_32(ikm: &[u8], info: &str) -> (okm: [u8; 32])
    ensures
        okm@ == hkdf_sha256_32(ikm@, info@),
{
    let mut okm = [0u8; 32];
    Hkdf::<Sha256>::new(None, ikm).expand(info.as_bytes(), &mut okm).unwrap();
    okm
}

/// `Mac::finalize` of HMAC-SHA256 over `message` (any key length is accepted).
#[verifier::external_body]
fn hmac_sha256_tag(key: &[u8; 32], message: &[u8]) -> (tag: [u8; 32])
    ensures
        tag@ == hmac_sha256(key@, message@),
{
    let mut mac = <Hmac<Sha256> as Mac>::new_from_slice(key).unwrap();
    mac.update(message);
    mac.finalize().into_bytes().into()
}

/// `Mac::verify_slice` of HMAC-SHA256: accepts exactly the full 32-byte tag,
/// compared in constant time.
#[verifier::external_body]
fn hmac_sha256_verify(key: &[u8; 32], message: &[u8], tag: &[u8; 32]) -> (ok: bool)
    ensures
        ok == (tag@ == hmac_sha256(key@, message@)),
{
    let mut mac = <Hmac<Sha256> as Mac>::new_from_slice(key).unwrap();
    mac.update(message);
    mac.verify_slice(tag).is_ok()
}

/// `Zeroize::zeroize` of a 32-byte array: every byte becomes zero.
#[verifier::external_body]
fn zeroize_key(bytes: &mut [u8; 32])
    ensures
        final(bytes)@ == Seq::new(32, |i: int| 0u8),
    opens_invariants none
    no_unwind
{
    bytes.zeroize();
}

/// A fixed-length key derived from the PAKE run.
pub struct SessionKey([u8; 32]);

impl View for SessionKey {
    type V = Seq<u8>;

    closed spec fn view(&self) -> Seq<u8> {
        self.0@
    }
}

impl Drop for SessionKey {
    fn drop(&mut self)
        opens_invariants none
        no_unwind
    {
        zeroize_key(&mut self.0);
    }
}

/// The session key HKDF-SHA256 derives from a raw SPAKE2 output.
pub fn derive_session_key(raw: &[u8]) -> (key: SessionKey)
    ensures
        key@ == hkdf_sha256_32(raw@, SESSION_KEY_INFO@),
{
    SessionKey(hkdf_sha256_expand_32(raw, SESSION_KEY_INFO))
}

/// Completes the exchange with the peer's message and derives the session
/// key. It fails only on a structurally malformed peer message: one that is
/// not 33 bytes, carries the wrong side byte, or whose point does not
/// decompress. Whether the PINs matched shows only in the key.
pub fn finish(start: PairingStart, peer_message: &[u8]) -> (r: Result<SessionKey, PairingError>)
    ensures
        peer_message@.len() != 33 ==> r matches Err(PairingError::KeyExchangeFailed),
        start.side() == side_a() || start.side() == side_b() ==> (r is Ok <==> start.accepts(
            peer_message@,
        )),
        r matches Err(e) ==> e == PairingError::KeyExchangeFailed,
        r matches Ok(key) ==> key@ == start.session_key_for(peer_message@),
{
    let PairingStart { spake, outbound_message: _ } = start;
    match spake2_finish(spake, peer_message) {
        Ok(raw) => Ok(derive_session_key(raw.as_slice())),
        Err(_) => Err(PairingError::KeyExchangeFailed),
    }
}

/// The HMAC-SHA256 tag of `fingerprint` under the session key.
pub fn authenticate_fingerprint(key: &SessionKey, fingerprint: &[u8]) -> (tag: [u8; 32])
    ensures
        tag@ == fingerprint_tag(key@, fingerprint@),
{
    hmac_sha256_tag(&key.0, fingerprint)
}

/// Checks a fingerprint's tag; fails exactly when it is not the HMAC-SHA256
/// tag of the fingerprint under the session key.
pub fn verify_fingerprint(key: &SessionKey, fingerprint: &[u8], tag: &[u8; 32]) -> (r: Result<(), PairingError>)
    ensures
        r is Ok <==> fingerprint_accepted(key@, fingerprint@, tag@),
        r matches Err(e) ==> e == PairingError::FingerprintAuthFailed,
{
    if hmac_sha256_verify(&key.0, fingerprint, tag) {
        Ok(())
    } else {
        Err(PairingError::FingerprintAuthFailed)
    }
}

/// A tag made by [`authenticate_fingerprint`] under a key is accepted by
/// [`verify_fingerprint`] under the same key for the same fingerprint.
pub proof fn lemma_authenticated_fingerprint_accepted(key: Seq<u8>, fingerprint: Seq<u8>)
    ensures
        fingerprint_accepted(key, fingerprint, fingerprint_tag(key, fingerprint)),
{
}

/// A client and a host started from the same PIN accept each other's
/// messages and derive the same session key.
pub proof fn lemma_same_pin_same_session_key(client: PairingStart, host: PairingStart)
    requires
        client.started(),
        host.started(),
        client.side() == side_a(),
        host.side() == side_b(),
        client.password() == host.password(),
    ensures
        client.accepts(host.message()),
        host.accepts(client.message()),
        client.session_key_for(host.message()) == host.session_key_for(client.message()),
{
    assert(spake2_sides_agree(
        client.password(),
        client.id_a(),
        client.id_b(),
        client.message(),
        host.message(),
    ));
}

}
