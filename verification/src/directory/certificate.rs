//! Session certificates: PASETO v4.public tokens a directory issues to a
//! logged-in account, binding it to that session's own peer key.

use vstd::prelude::*;

use rusty_paseto::prelude::{
    CustomClaim, ExpirationClaim, Key, PasetoAsymmetricPrivateKey, PasetoAsymmetricPublicKey, PasetoBuilder,
    PasetoParser, Public, V4,
};
use time::format_description::well_known::Rfc3339;
use time::OffsetDateTime;

use crate::directory::accounts::{Account, AccountView};
use crate::identity::{
    ed25519_public_key, hex_lower, lemma_peer_id_hex_round_trip, peer_id_hex_bytes, Identity, PeerId,
};
use crate::text::chars_of;
use vstd::std_specs::cmp::PartialEqSpecImpl;

verus! {

/// Lifetime of a session certificate unless the caller asks otherwise: 12 hours.
pub const DEFAULT_SESSION_TTL_SECONDS: u64 = 43200;

/// Errors of issuing or checking a session certificate.
#[derive(Debug)]
pub enum CertificateError {
    Build(String),
    Invalid(String),
    BadPeerId,
}

/// The claims a session certificate carries.
#[derive(Debug, Clone)]
pub struct SessionClaims {
    pub account: String,
    pub role: String,
    /// Hex text of the session's peer key.
    pub session_peer_id: String,
}

impl PartialEq for SessionClaims {
    fn eq(&self, other: &SessionClaims) -> (r: bool) {
        self.account == other.account && self.role == other.role && self.session_peer_id
            == other.session_peer_id
    }
}

impl PartialEqSpecImpl for SessionClaims {
    open spec fn obeys_eq_spec() -> bool {
        true
    }

    open spec fn eq_spec(&self, other: &SessionClaims) -> bool {
        self.account@ == other.account@ && self.role@ == other.role@ && self.session_peer_id@
            == other.session_peer_id@
    }
}

impl SessionClaims {
    /// The claims a certificate for `account` and the session key
    /// `session_peer_id` carries: the account's name and role, and the key
    /// in hex.
    pub fn for_session(account: &Account, session_peer_id: [u8; 32]) -> (c: SessionClaims)
        ensures
            c.account@ == account@.username,
            c.role@ == account@.role,
            c.session_peer_id@ == hex_lower(session_peer_id@),
    {
        SessionClaims {
            account: account.username().to_owned(),
            role: account.role().to_owned(),
            session_peer_id: PeerId(session_peer_id).to_hex(),
        }
    }

    /// The session peer key the claims carry, read from its hex text.
    pub fn session_peer_id_bytes(&self) -> (r: Result<[u8; 32], CertificateError>)
        ensures
            match peer_id_hex_bytes(self.session_peer_id@) {
                Some(bytes) => r matches Ok(b) && b@ == bytes,
                None => r matches Err(CertificateError::BadPeerId),
            },
    {
        match PeerId::from_hex(self.session_peer_id.as_str()) {
            Ok(p) => Ok(p.0),
            Err(_) => Err(CertificateError::BadPeerId),
        }
    }
}

// ---------------------------------------------------------------------------
// time
// ---------------------------------------------------------------------------

/// The earliest instant `time` represents: -9999-01-01T00:00:00Z, in
/// nanoseconds since the Unix epoch.
pub open spec fn time_min_nanos() -> int {
    -377_705_116_800_000_000_000
}

/// The latest instant `time` represents: 9999-12-31T23:59:59.999999999Z, in
/// nanoseconds since the Unix epoch.
pub open spec fn time_max_nanos() -> int {
    253_402_300_799_999_999_999
}

/// The earliest instant RFC 3339 can write (its years are 0000 to 9999):
/// 0000-01-01T00:00:00Z, in nanoseconds since the Unix epoch.
pub open spec fn rfc3339_min_nanos() -> int {
    -62_167_219_200_000_000_000
}

/// The RFC 3339 text `time` formats the UTC instant `nanos` nanoseconds after
/// the Unix epoch as, when that instant can be written.
pub uninterp spec fn rfc3339_utc(nanos: int) -> Option<Seq<char>>;

/// Whether `iso8601::datetime` reads `text` as a date-time.
pub uninterp spec fn iso8601_datetime_accepts(text: Seq<char>) -> bool;

/// Whether the expiry of a certificate issued at `now_nanos` for
/// `ttl_seconds` is an instant RFC 3339 can write.
pub open spec fn expiry_writable(now_nanos: int, ttl_seconds: u64) -> bool {
    rfc3339_min_nanos() <= now_nanos + ttl_seconds * 1_000_000_000 <= time_max_nanos()
}

/// `OffsetDateTime::now_utc`, as nanoseconds since the Unix epoch. Which
/// instant it reads is not stated; it is one `time` represents.
#[verifier::external_body]
pub(crate) fn unix_now_nanos() -> (nanos: i128)
    ensures
        time_min_nanos() <= nanos <= time_max_nanos(),
{
    OffsetDateTime::now_utc().unix_timestamp_nanos()
}

/// `OffsetDateTime::format` with `Rfc3339` of the UTC instant `nanos`
/// nanoseconds after the epoch (built by `from_unix_timestamp_nanos`). Both
/// succeed exactly when the instant falls in the years 0000 to 9999. The text
/// has the shape `YYYY-MM-DDTHH:MM:SS[.fraction]Z`, which `iso8601::datetime`
/// (date, `T`, time with optional fraction, `Z`) reads.
#[verifier::external_body]
fn format_rfc3339(nanos: i128) -> (r: Result<String, String>)
    ensures
        r is Ok <==> rfc3339_min_nanos() <= nanos <= time_max_nanos(),
        r is Ok <==> rfc3339_utc(nanos as int) is Some,
        r matches Ok(s) ==> Some(s@) == rfc3339_utc(nanos as int),
        r matches Ok(s) ==> iso8601_datetime_accepts(s@),
{
    match OffsetDateTime::from_unix_timestamp_nanos(nanos) {
        Ok(t) => t.format(&Rfc3339).map_err(|e| e.to_string()),
        Err(e) => Err(e.to_string()),
    }
}

// ---------------------------------------------------------------------------
// PASETO (rusty_paseto)
// ---------------------------------------------------------------------------

#[verifier::external_type_specification]
#[verifier::external_body]
#[verifier::reject_recursive_types(Version)]
#[verifier::reject_recursive_types(Purpose)]
pub struct ExPasetoBuilder<'a, Version, Purpose>(PasetoBuilder<'a, Version, Purpose>);

#[verifier::external_type_specification]
#[verifier::external_body]
pub struct ExV4(V4);

#[verifier::external_type_specification]
#[verifier::external_body]
pub struct ExPublic(Public);

/// A builder of v4.public PASETO tokens.
pub type TokenBuilder = PasetoBuilder<'static, V4, Public>;

/// The string claims a v4.public PASETO builder holds, by key.
pub uninterp spec fn paseto_builder_claims(builder: TokenBuilder) -> Map<Seq<char>, Seq<char>>;

/// The claim keys set on a builder through `PasetoBuilder::set_claim`, and
/// whether one of them was set twice (which makes `build` fail).
pub uninterp spec fn paseto_builder_set_keys(builder: TokenBuilder) -> (Set<Seq<char>>, bool);

/// The v4.public token `PasetoBuilder::build` makes from `claims` with the
/// 64-byte Ed25519 keypair `keypair`: the claims become a JSON object with
/// sorted keys, signed deterministically.
pub uninterp spec fn paseto_v4_public_token(keypair: Seq<u8>, claims: Map<Seq<char>, Seq<char>>) -> Seq<char>;

/// Whether `Paseto::<V4, Public>::try_verify` accepts `token` under the
/// 32-byte public key `public_key` (no footer, no implicit assertion): the
/// header is `v4.public.` and the Ed25519 signature over the payload checks.
pub uninterp spec fn paseto_v4_public_signed(public_key: Seq<u8>, token: Seq<char>) -> bool;

/// The string members of the JSON object a token's payload carries, by key.
pub uninterp spec fn paseto_token_claims(token: Seq<char>) -> Map<Seq<char>, Seq<char>>;

/// The header every v4.public token starts with.
pub open spec fn paseto_v4_public_header() -> Seq<char> {
    "v4.public."@
}

/// Whether `token` starts with the v4.public header.
pub open spec fn has_v4_public_header(token: Seq<char>) -> bool {
    token.len() >= 10 && token.take(10) == paseto_v4_public_header()
}

/// Whether the payload segment of a token, after its header, is at least
/// 86 characters long (so it decodes to at least the 64 signature bytes).
pub open spec fn paseto_payload_long_enough(token: Seq<char>) -> bool {
    token.len() >= 96 && forall|i: int| 10 <= i < 96 ==> token[i] != '.'
}

/// The value of `key` among `claims`, if there is one.
pub open spec fn claim_text(claims: Map<Seq<char>, Seq<char>>, key: Seq<char>) -> Option<Seq<char>> {
    if claims.contains_key(key) {
        Some(claims[key])
    } else {
        None
    }
}

/// The characters of an optional string.
pub open spec fn text_option(s: Option<String>) -> Option<Seq<char>> {
    match s {
        Some(t) => Some(t@),
        None => None,
    }
}

/// Claim keys PASETO reserves, which rusty_paseto refuses as custom claims.
pub open spec fn reserved_claim_key(key: Seq<char>) -> bool {
    ||| key == "iss"@
    ||| key == "sub"@
    ||| key == "aud"@
    ||| key == "exp"@
    ||| key == "nbf"@
    ||| key == "iat"@
    ||| key == "jti"@
}

/// The claims a default builder holds: expiry, issued-at and not-before.
pub open spec fn default_claim_keys() -> Set<Seq<char>> {
    set!["exp"@, "iat"@, "nbf"@]
}

/// Whether the issued-at and not-before claims hold the same text.
pub open spec fn issued_at_is_not_before(claims: Map<Seq<char>, Seq<char>>) -> bool {
    claims["iat"@] == claims["nbf"@]
}

/// No claim set through `set_claim`, none twice.
pub open spec fn no_claims_set() -> (Set<Seq<char>>, bool) {
    (Set::<Seq<char>>::empty(), false)
}

/// `PasetoBuilder::<V4, Public>::default()`: a builder that already holds an
/// expiry one hour ahead and issued-at and not-before claims, all taken from
/// the clock; issued-at and not-before are the same text. Nothing is set
/// through `set_claim` yet.
#[verifier::external_body]
fn paseto_builder() -> (fresh: TokenBuilder)
    ensures
        paseto_builder_claims(fresh).dom() == default_claim_keys(),
        issued_at_is_not_before(paseto_builder_claims(fresh)),
        paseto_builder_set_keys(fresh) == no_claims_set(),
{
    PasetoBuilder::<V4, Public>::default()
}

/// `ExpirationClaim::try_from` then `PasetoBuilder::set_claim`: replaces the
/// expiration, refused (builder unchanged) exactly when `iso8601::datetime`
/// does not read the text as a date-time.
#[verifier::external_body]
fn paseto_set_expiration(builder: &mut TokenBuilder, expiration: &str) -> (r: Result<(), String>)
    ensures
        r is Ok <==> iso8601_datetime_accepts(expiration@),
        r is Err ==> *final(builder) == *old(builder),
        r is Ok ==> paseto_builder_claims(*final(builder)) == paseto_builder_claims(*old(builder)).insert(
            "exp"@,
            expiration@,
        ),
        r is Ok ==> paseto_builder_set_keys(*final(builder)) == (
            paseto_builder_set_keys(*old(builder)).0.insert("exp"@),
            paseto_builder_set_keys(*old(builder)).1 || paseto_builder_set_keys(*old(builder)).0.contains("exp"@),
        ),
{
    match ExpirationClaim::try_from(expiration) {
        Ok(claim) => {
            builder.set_claim(claim);
            Ok(())
        },
        Err(e) => Err(e.to_string()),
    }
}

/// `CustomClaim::try_from` then `PasetoBuilder::set_claim`: adds a custom
/// string claim under a non-empty key; a reserved key is refused and the
/// builder is left unchanged.
#[verifier::external_body]
fn paseto_set_custom_claim(builder: &mut TokenBuilder, key: &str, value: &str) -> (r: Result<(), String>)
    requires
        key@.len() > 0,
    ensures
        r is Err <==> reserved_claim_key(key@),
        r is Err ==> *final(builder) == *old(builder),
        r is Ok ==> paseto_builder_claims(*final(builder)) == paseto_builder_claims(*old(builder)).insert(
            key@,
            value@,
        ),
        r is Ok ==> paseto_builder_set_keys(*final(builder)) == (
            paseto_builder_set_keys(*old(builder)).0.insert(key@),
            paseto_builder_set_keys(*old(builder)).1 || paseto_builder_set_keys(*old(builder)).0.contains(key@),
        ),
{
    match CustomClaim::try_from((key, value.to_string())) {
        Ok(claim) => {
            builder.set_claim(claim);
            Ok(())
        },
        Err(e) => Err(e.to_string()),
    }
}

/// `PasetoBuilder::build` with a v4.public key made from 64 keypair bytes
/// (secret key, then public key). It fails when a claim was set twice or the
/// public half does not belong to the secret half, and otherwise signs the
/// claims: the token carries them and verifies under the public half.
#[verifier::external_body]
fn paseto_build(builder: &mut TokenBuilder, keypair: &[u8; 64]) -> (r: Result<String, String>)
    ensures
        !paseto_builder_set_keys(*old(builder)).1 && keypair@.subrange(32, 64) == ed25519_public_key(
            keypair@.subrange(0, 32),
        ) ==> r is Ok,
        r is Ok ==> !paseto_builder_set_keys(*old(builder)).1,
        r matches Ok(token) ==> {
            &&& token@ == paseto_v4_public_token(keypair@, paseto_builder_claims(*old(builder)))
            &&& has_v4_public_header(token@)
            &&& paseto_v4_public_signed(keypair@.subrange(32, 64), token@)
            &&& paseto_token_claims(token@) == paseto_builder_claims(*old(builder))
        },
{
    let key = Key::<64>::from(*keypair);
    let private_key = PasetoAsymmetricPrivateKey::<V4, Public>::from(&key);
    builder.build(&private_key).map_err(|e| e.to_string())
}

/// `PasetoParser::<V4, Public>::default().parse` under a 32-byte public key,
/// then the string claims `account`, `role` and `session_peer_id` of the
/// JSON it returns. The parser accepts only a token whose signature checks,
/// and rejects one that has expired or is not yet valid by the clock, so
/// which tokens it accepts is not stated. It would panic on a payload too
/// short to hold a signature, which the requirement rules out.
#[verifier::external_body]
fn paseto_parse_v4_public(public_key: &[u8; 32], token: &str) -> (r: Result<
    (Option<String>, Option<String>, Option<String>),
    String,
>)
    requires
        has_v4_public_header(token@) ==> paseto_payload_long_enough(token@),
    ensures
        r is Ok ==> paseto_v4_public_signed(public_key@, token@),
        r matches Ok((account, role, session)) ==> {
            &&& text_option(account) == claim_text(paseto_token_claims(token@), "account"@)
            &&& text_option(role) == claim_text(paseto_token_claims(token@), "role"@)
            &&& text_option(session) == claim_text(paseto_token_claims(token@), "session_peer_id"@)
        },
{
    let key_bytes = Key::<32>::from(*public_key);
    let key = PasetoAsymmetricPublicKey::<V4, Public>::from(&key_bytes);
    let value = PasetoParser::<V4, Public>::default().parse(token, &key).map_err(|e| e.to_string())?;
    let field = |k: &str| value[k].as_str().map(|s| s.to_string());
    Ok((field("account"), field("role"), field("session_peer_id")))
}

/// The claims a certificate for `account` and the session key
/// `session_peer_id` carries, expiring at the text `expiration`, issued at
/// (and not valid before) the text `issued_at`.
pub open spec fn certificate_claims(
    account: AccountView,
    session_peer_id: Seq<u8>,
    expiration: Seq<char>,
    issued_at: Seq<char>,
) -> Map<Seq<char>, Seq<char>> {
    map![
        "exp"@ => expiration,
        "iat"@ => issued_at,
        "nbf"@ => issued_at,
        "account"@ => account.username,
        "role"@ => account.role,
        "session_peer_id"@ => hex_lower(session_peer_id),
    ]
}

/// The keys of the session claims are not reserved and differ from each
/// other and from the expiry's key.
proof fn lemma_session_claim_keys()
    ensures
        !reserved_claim_key("account"@),
        !reserved_claim_key("role"@),
        !reserved_claim_key("session_peer_id"@),
        "account"@ != "exp"@,
        "role"@ != "exp"@,
        "role"@ != "account"@,
        "session_peer_id"@ != "exp"@,
        "session_peer_id"@ != "account"@,
        "session_peer_id"@ != "role"@,
        "account"@.len() > 0,
        "role"@.len() > 0,
        "session_peer_id"@.len() > 0,
{
    reveal_strlit("account");
    reveal_strlit("role");
    reveal_strlit("session_peer_id");
    reveal_strlit("exp");
    reveal_strlit("iss");
    reveal_strlit("sub");
    reveal_strlit("aud");
    reveal_strlit("nbf");
    reveal_strlit("iat");
    reveal_strlit("jti");
    assert("account"@.len() == 7 && "role"@.len() == 4 && "session_peer_id"@.len() == 15);
    assert("exp"@.len() == 3 && "iss"@.len() == 3 && "sub"@.len() == 3 && "aud"@.len() == 3);
    assert("nbf"@.len() == 3 && "iat"@.len() == 3 && "jti"@.len() == 3);
}

/// The six claim keys of a certificate differ from each other.
proof fn lemma_claim_keys_distinct()
    ensures
        "account"@ != "exp"@ && "account"@ != "iat"@ && "account"@ != "nbf"@,
        "role"@ != "exp"@ && "role"@ != "iat"@ && "role"@ != "nbf"@ && "role"@ != "account"@,
        "session_peer_id"@ != "exp"@ && "session_peer_id"@ != "iat"@ && "session_peer_id"@ != "nbf"@,
        "session_peer_id"@ != "account"@ && "session_peer_id"@ != "role"@,
        "exp"@ != "iat"@ && "exp"@ != "nbf"@ && "iat"@ != "nbf"@,
{
    reveal_strlit("exp");
    reveal_strlit("iat");
    reveal_strlit("nbf");
    reveal_strlit("account");
    reveal_strlit("role");
    reveal_strlit("session_peer_id");
    assert("account"@.len() == 7 && "role"@.len() == 4 && "exp"@.len() == 3);
    assert("iat"@.len() == 3 && "nbf"@.len() == 3);
    assert("account"@ != "exp"@ && "account"@ != "iat"@ && "account"@ != "nbf"@);
    assert("role"@[0] != "exp"@[0] && "role"@[0] != "iat"@[0] && "role"@[0] != "nbf"@[0]);
    assert("role"@ != "exp"@ && "role"@ != "iat"@ && "role"@ != "nbf"@ && "role"@ != "account"@);
    assert("session_peer_id"@ != "exp"@ && "session_peer_id"@ != "iat"@ && "session_peer_id"@ != "nbf"@);
    assert("session_peer_id"@ != "account"@ && "session_peer_id"@ != "role"@);
    assert("exp"@ != "iat"@ && "exp"@ != "nbf"@ && "iat"@ != "nbf"@);
}

/// What a certificate's claims say of each of the keys it carries.
proof fn lemma_certificate_claims(
    account: AccountView,
    session_peer_id: Seq<u8>,
    expiration: Seq<char>,
    issued_at: Seq<char>,
)
    ensures
        claim_text(certificate_claims(account, session_peer_id, expiration, issued_at), "account"@) == Some(
            account.username,
        ),
        claim_text(certificate_claims(account, session_peer_id, expiration, issued_at), "role"@) == Some(
            account.role,
        ),
        claim_text(certificate_claims(account, session_peer_id, expiration, issued_at), "session_peer_id"@)
            == Some(hex_lower(session_peer_id)),
        claim_text(certificate_claims(account, session_peer_id, expiration, issued_at), "exp"@) == Some(
            expiration,
        ),
{
    lemma_claim_keys_distinct();
    let c = certificate_claims(account, session_peer_id, expiration, issued_at);
    assert(c.contains_key("account"@) && c["account"@] == account.username);
    assert(c.contains_key("role"@) && c["role"@] == account.role);
    assert(c.contains_key("session_peer_id"@) && c["session_peer_id"@] == hex_lower(session_peer_id));
    assert(c.contains_key("exp"@) && c["exp"@] == expiration);
}

/// The claims a default builder ends up with once the expiry and the three
/// session claims are set are a certificate's claims.
proof fn lemma_built_claims(
    default_claims: Map<Seq<char>, Seq<char>>,
    account: AccountView,
    session_peer_id: Seq<u8>,
    expiration: Seq<char>,
)
    requires
        default_claims.dom() == default_claim_keys(),
        issued_at_is_not_before(default_claims),
    ensures
        default_claims.insert("exp"@, expiration).insert("account"@, account.username).insert(
            "role"@,
            account.role,
        ).insert("session_peer_id"@, hex_lower(session_peer_id)) == certificate_claims(
            account,
            session_peer_id,
            expiration,
            default_claims["iat"@],
        ),
{
    lemma_claim_keys_distinct();
    let m = default_claims.insert("exp"@, expiration).insert("account"@, account.username).insert(
        "role"@,
        account.role,
    ).insert("session_peer_id"@, hex_lower(session_peer_id));
    let c = certificate_claims(account, session_peer_id, expiration, default_claims["iat"@]);
    assert(m.dom() =~= c.dom());
    assert forall|k: Seq<char>| #[trigger] m.contains_key(k) implies m[k] == c[k] by {
        if k == "iat"@ || k == "nbf"@ {
            assert(default_claims.contains_key(k));
        }
    }
    assert(m =~= c);
}

/// Whether `token` is the certificate a CA with the 64-byte keypair
/// `keypair`, whose public half is `public_key`, issues for `account` and
/// `session_peer_id`, having read the clock at `now_nanos`, for
/// `ttl_seconds`: its expiry is the RFC 3339 text of `now_nanos +
/// ttl_seconds` seconds, and it carries exactly the certificate's claims,
/// signed by the keypair.
pub open spec fn issued_certificate(
    keypair: Seq<u8>,
    public_key: Seq<u8>,
    account: AccountView,
    session_peer_id: Seq<u8>,
    ttl_seconds: u64,
    now_nanos: int,
    issued_at: Seq<char>,
    token: Seq<char>,
) -> bool {
    &&& time_min_nanos() <= now_nanos <= time_max_nanos()
    &&& rfc3339_utc(now_nanos + ttl_seconds * 1_000_000_000) matches Some(expiration)
    &&& token == paseto_v4_public_token(
        keypair,
        certificate_claims(account, session_peer_id, expiration, issued_at),
    )
    &&& has_v4_public_header(token)
    &&& paseto_v4_public_signed(public_key, token)
    &&& paseto_token_claims(token) == certificate_claims(account, session_peer_id, expiration, issued_at)
}

/// Nanoseconds in a second.
pub const NANOS_PER_SECOND: i128 = 1_000_000_000;

/// The expiration instant, in nanoseconds since the epoch, of a certificate
/// issued at `now_nanos` for `ttl_seconds`.
pub open spec fn expiration_nanos(now_nanos: i128, ttl_seconds: u64) -> int {
    now_nanos + ttl_seconds * 1_000_000_000
}

/// The expiration instant of a certificate issued at `now_nanos` for
/// `ttl_seconds`, when it fits in 128 bits.
pub fn session_expiration_nanos(now_nanos: i128, ttl_seconds: u64) -> (r: Option<i128>)
    ensures
        i128::MIN <= expiration_nanos(now_nanos, ttl_seconds) <= i128::MAX ==> r == Some(
            expiration_nanos(now_nanos, ttl_seconds) as i128,
        ),
        !(i128::MIN <= expiration_nanos(now_nanos, ttl_seconds) <= i128::MAX) ==> r is None,
{
    assert(ttl_seconds * 1_000_000_000 <= 0xFFFF_FFFF_FFFF_FFFF * 1_000_000_000) by (nonlinear_arith);
    let offset: i128 = (ttl_seconds as i128) * NANOS_PER_SECOND;
    now_nanos.checked_add(offset)
}

/// A directory's own signing identity: the CA every certificate chains to.
pub struct DirectoryCa {
    identity: Identity,
}

impl DirectoryCa {
    /// A CA that signs with `identity`.
    pub fn from_identity(identity: Identity) -> (ca: DirectoryCa)
        ensures
            ca.identity_public_key() == identity.public_key(),
            ca.keypair() == identity.secret_key() + identity.public_key(),
    {
        DirectoryCa { identity }
    }

    /// The public key of the CA's identity.
    pub closed spec fn identity_public_key(self) -> Seq<u8> {
        self.identity.public_key()
    }

    /// The 64-byte keypair the CA signs with: its secret key, then its
    /// public key.
    pub closed spec fn keypair(self) -> Seq<u8> {
        self.identity.secret_key() + self.identity.public_key()
    }

    /// Whether `token` is a certificate this CA issues for `account` and
    /// `session_peer_id` for `ttl_seconds`, for some reading of the clock.
    pub open spec fn issued(
        self,
        account: AccountView,
        session_peer_id: Seq<u8>,
        ttl_seconds: u64,
        token: Seq<char>,
    ) -> bool {
        exists|now_nanos: int, issued_at: Seq<char>|
            issued_certificate(
                self.keypair(),
                self.identity_public_key(),
                account,
                session_peer_id,
                ttl_seconds,
                now_nanos,
                issued_at,
                token,
            )
    }

    /// The CA's public key, which hosts pin to trust this directory.
    pub fn public_key(&self) -> (p: PeerId)
        ensures
            p.0@ == self.identity_public_key(),
    {
        self.identity.peer_id()
    }

    /// Whether `token` is a certificate this CA issues for `account` and
    /// `session_peer_id` for `ttl_seconds` with the clock read at `now_nanos`.
    pub open spec fn issued_at(
        self,
        account: AccountView,
        session_peer_id: Seq<u8>,
        ttl_seconds: u64,
        now_nanos: int,
        token: Seq<char>,
    ) -> bool {
        exists|issued_at: Seq<char>|
            issued_certificate(
                self.keypair(),
                self.identity_public_key(),
                account,
                session_peer_id,
                ttl_seconds,
                now_nanos,
                issued_at,
                token,
            )
    }

    /// Whether `r` is what issuing a certificate for `account` and
    /// `session_peer_id` for `ttl_seconds`, with the clock read at
    /// `now_nanos`, gives: a token exactly when the expiry is writable, signed
    /// by this CA and carrying the account's name and role, the session key
    /// and that expiry; otherwise a `Build` error.
    pub open spec fn issue_outcome(
        self,
        account: AccountView,
        session_peer_id: Seq<u8>,
        ttl_seconds: u64,
        now_nanos: int,
        r: Result<String, CertificateError>,
    ) -> bool {
        &&& r is Ok <==> expiry_writable(now_nanos, ttl_seconds)
        &&& (r is Err ==> r matches Err(CertificateError::Build(_)))
        &&& (r is Ok ==> self.issued_at(account, session_peer_id, ttl_seconds, now_nanos, r->Ok_0@))
    }

    /// Issues a PASETO v4.public token binding `account` to
    /// `session_peer_id` for `ttl_seconds` from now: the clock is read once,
    /// and the certificate is the one [`DirectoryCa::issue_session_certificate_at`]
    /// issues at that reading.
    pub fn issue_session_certificate(
        &self,
        account: &Account,
        session_peer_id: [u8; 32],
        ttl_seconds: u64,
    ) -> (r: Result<String, CertificateError>)
        ensures
            exists|now_nanos: int|
                time_min_nanos() <= now_nanos <= time_max_nanos() && #[trigger] self.issue_outcome(
                    account@,
                    session_peer_id@,
                    ttl_seconds,
                    now_nanos,
                    r,
                ),
            ttl_seconds > 631_107_417_599 ==> r is Err,
            r matches Ok(token) ==> self.issued(account@, session_peer_id@, ttl_seconds, token@),
    {
        let now = unix_now_nanos();
        let r = self.issue_session_certificate_at(account, session_peer_id, ttl_seconds, now);
        assert(self.issue_outcome(account@, session_peer_id@, ttl_seconds, now as int, r));
        r
    }

    /// Issues the certificate for `account` and `session_peer_id` that
    /// expires `ttl_seconds` after the instant `now_nanos`: signed with the
    /// CA's keypair, it carries the account's name and role, the session key
    /// in hex, and the RFC 3339 text of that expiry. It fails, with a `Build`
    /// error, exactly when the expiry is past what RFC 3339 can write.
    pub fn issue_session_certificate_at(
        &self,
        account: &Account,
        session_peer_id: [u8; 32],
        ttl_seconds: u64,
        now_nanos: i128,
    ) -> (r: Result<String, CertificateError>)
        requires
            time_min_nanos() <= now_nanos <= time_max_nanos(),
        ensures
            self.issue_outcome(account@, session_peer_id@, ttl_seconds, now_nanos as int, r),
    {
        let now = now_nanos;
        let expiration_at = match session_expiration_nanos(now, ttl_seconds) {
            Some(t) => t,
            None => {
                return Err(CertificateError::Build(String::from_str("expiration time out of range")));
            },
        };
        let expiration = match format_rfc3339(expiration_at) {
            Ok(s) => s,
            Err(e) => {
                assert(!expiry_writable(now as int, ttl_seconds));
                return Err(CertificateError::Build(e));
            },
        };
        let keypair = self.identity.to_keypair_bytes();
        let claims = SessionClaims::for_session(account, session_peer_id);
        let mut builder = paseto_builder();
        proof {
            lemma_session_claim_keys();
        }
        let ghost default_claims = paseto_builder_claims(builder);
        let ghost issued_at = default_claims["iat"@];
        proof {
            assert(expiry_writable(now as int, ttl_seconds));
        }
        if let Err(e) = paseto_set_expiration(&mut builder, expiration.as_str()) {
            return Err(CertificateError::Build(e));
        }
        let r1 = paseto_set_custom_claim(&mut builder, "account", claims.account.as_str());
        if let Err(e) = r1 {
            return Err(CertificateError::Build(e));
        }
        let r2 = paseto_set_custom_claim(&mut builder, "role", claims.role.as_str());
        if let Err(e) = r2 {
            return Err(CertificateError::Build(e));
        }
        let r3 = paseto_set_custom_claim(&mut builder, "session_peer_id", claims.session_peer_id.as_str());
        if let Err(e) = r3 {
            return Err(CertificateError::Build(e));
        }
        let ghost built_claims = paseto_builder_claims(builder);
        proof {
            assert(!paseto_builder_set_keys(builder).1);
            assert(keypair@.subrange(32, 64) =~= self.identity_public_key());
            assert(keypair@.subrange(0, 32) =~= self.identity.secret_key());
            lemma_built_claims(default_claims, account@, session_peer_id@, expiration@);
            assert(built_claims == certificate_claims(account@, session_peer_id@, expiration@, issued_at));
        }
        match paseto_build(&mut builder, &keypair) {
            Ok(token) => {
                assert(issued_certificate(
                    self.keypair(),
                    self.identity_public_key(),
                    account@,
                    session_peer_id@,
                    ttl_seconds,
                    now as int,
                    issued_at,
                    token@,
                ));
                assert(self.issued_at(account@, session_peer_id@, ttl_seconds, now as int, token@));
                Ok(token)
            },
            Err(e) => Err(CertificateError::Build(e)),
        }
    }
}

/// Whether the payload segment of `token`, after its 10-character header,
/// runs at least 86 characters before any `.`.
fn payload_long_enough(token: &str) -> (r: bool)
    ensures
        r == paseto_payload_long_enough(token@),
{
    let cs = chars_of(token);
    if cs.len() < 96 {
        return false;
    }
    let mut i: usize = 10;
    while i < 96
        invariant
            10 <= i <= 96,
            cs@ == token@,
            cs@.len() >= 96,
            forall|j: int| 10 <= j < i ==> cs@[j] != '.',
        decreases 96 - i,
    {
        if cs[i] == '.' {
            return false;
        }
        i = i + 1;
    }
    true
}

/// Whether `token` starts with the v4.public header.
fn v4_public_header(token: &str) -> (r: bool)
    ensures
        r == has_v4_public_header(token@),
{
    let cs = chars_of(token);
    let header = chars_of("v4.public.");
    proof {
        reveal_strlit("v4.public.");
    }
    if cs.len() < 10 {
        return false;
    }
    let mut i: usize = 0;
    while i < 10
        invariant
            0 <= i <= 10,
            cs@ == token@,
            cs@.len() >= 10,
            header@ == paseto_v4_public_header(),
            header@.len() == 10,
            forall|j: int| 0 <= j < i ==> cs@[j] == header@[j],
        decreases 10 - i,
    {
        if cs[i] != header[i] {
            assert(token@.take(10)[i as int] != paseto_v4_public_header()[i as int]);
            return false;
        }
        i = i + 1;
    }
    assert(token@.take(10) =~= paseto_v4_public_header());
    true
}

/// The claims of a parsed token, given what the parser read of its
/// `account`, `role` and `session_peer_id` claims: claims exactly when all
/// three are strings; a missing claim, or the parser's own refusal, is
/// `Invalid`.
pub fn claims_from_parsed(
    parsed: Result<(Option<String>, Option<String>, Option<String>), String>,
) -> (r: Result<SessionClaims, CertificateError>)
    ensures
        r is Ok <==> (parsed matches Ok((a, b, c)) && a is Some && b is Some && c is Some),
        r matches Ok(claims) ==> parsed matches Ok((a, b, c)) && a == Some(claims.account) && b == Some(
            claims.role,
        ) && c == Some(claims.session_peer_id),
        r matches Err(e) ==> e is Invalid,
        parsed matches Err(m) ==> (r matches Err(CertificateError::Invalid(n)) && n@ == m@),
{
    match parsed {
        Ok((Some(account), Some(role), Some(session_peer_id))) => Ok(SessionClaims { account, role, session_peer_id }),
        Ok(_) => Err(CertificateError::Invalid(String::from_str("a session claim is missing or not a string"))),
        Err(e) => Err(CertificateError::Invalid(e)),
    }
}

/// Verifies a certificate against a trusted directory CA's public key, the
/// expiry included (PASETO's default parser enforces it), and returns its
/// claims. Every failure is `Invalid`: a token too short to hold a signature
/// is refused before parsing; otherwise one that is not signed by the key,
/// has expired or is not yet valid, is malformed, or lacks one of the three
/// string claims.
pub fn verify(directory_ca: &PeerId, token: &str) -> (r: Result<SessionClaims, CertificateError>)
    ensures
        r matches Err(e) ==> e is Invalid,
        has_v4_public_header(token@) && !paseto_payload_long_enough(token@) ==> r is Err,
        r is Ok ==> paseto_v4_public_signed(directory_ca.0@, token@),
        r matches Ok(c) ==> {
            &&& claim_text(paseto_token_claims(token@), "account"@) == Some(c.account@)
            &&& claim_text(paseto_token_claims(token@), "role"@) == Some(c.role@)
            &&& claim_text(paseto_token_claims(token@), "session_peer_id"@) == Some(c.session_peer_id@)
        },
{
    if v4_public_header(token) && !payload_long_enough(token) {
        return Err(CertificateError::Invalid(String::from_str("token payload too short to hold a signature")));
    }
    claims_from_parsed(paseto_parse_v4_public(&directory_ca.0, token))
}

/// A certificate a CA issued, once accepted by [`verify`] under the CA's
/// public key, gives back exactly the account's name and role and the session
/// key it was issued for; and it is signed by that key.
pub proof fn lemma_issued_certificate_verifies_to_its_claims(
    ca: DirectoryCa,
    account: AccountView,
    session_peer_id: Seq<u8>,
    ttl_seconds: u64,
    token: Seq<char>,
    verified: SessionClaims,
)
    requires
        ca.issued(account, session_peer_id, ttl_seconds, token),
        claim_text(paseto_token_claims(token), "account"@) == Some(verified.account@),
        claim_text(paseto_token_claims(token), "role"@) == Some(verified.role@),
        claim_text(paseto_token_claims(token), "session_peer_id"@) == Some(verified.session_peer_id@),
    ensures
        paseto_v4_public_signed(ca.identity_public_key(), token),
        verified.account@ == account.username,
        verified.role@ == account.role,
        verified.session_peer_id@ == hex_lower(session_peer_id),
        session_peer_id.len() == 32 ==> peer_id_hex_bytes(verified.session_peer_id@) == Some(session_peer_id),
{
    let (now_nanos, issued_at) = choose|now_nanos: int, issued_at: Seq<char>|
        issued_certificate(
            ca.keypair(),
            ca.identity_public_key(),
            account,
            session_peer_id,
            ttl_seconds,
            now_nanos,
            issued_at,
            token,
        );
    let expiration = rfc3339_utc(now_nanos + ttl_seconds * 1_000_000_000)->0;
    lemma_certificate_claims(account, session_peer_id, expiration, issued_at);
    if session_peer_id.len() == 32 {
        lemma_peer_id_hex_round_trip(session_peer_id);
    }
}

}
