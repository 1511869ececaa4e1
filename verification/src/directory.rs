//! Account credentials: the account store, the directory's certificate
//! authority, and the login flow that joins them.

pub mod accounts;
pub mod certificate;

use vstd::prelude::*;

use crate::directory::accounts::{
    check_error, login_check, AccountError, AccountStore, AccountView, LoginCheck,
};
use crate::directory::certificate::{
    expiry_writable, time_max_nanos, time_min_nanos, unix_now_nanos, CertificateError, DirectoryCa,
    DEFAULT_SESSION_TTL_SECONDS,
};

verus! {

/// A session certificate: the text of a PASETO v4.public token.
pub type SessionCertificate = String;

/// Why a login failed.
#[derive(Debug)]
pub enum LoginError {
    Account(AccountError),
    Certificate(CertificateError),
}

/// Whether `r` is what logging in as `username` with `password` gives, with
/// the clock read at `now_nanos`: a refused password is the account store's
/// error; an accepted one gives the session certificate of the account for
/// `session_peer_id` and the default lifetime, exactly when its expiry is
/// writable, and otherwise a `Build` error.
pub open spec fn login_outcome(
    accounts: Map<Seq<char>, AccountView>,
    ca: DirectoryCa,
    username: Seq<char>,
    password: Seq<char>,
    session_peer_id: Seq<u8>,
    now_nanos: int,
    r: Result<String, LoginError>,
) -> bool {
    match login_check(accounts, username, password) {
        LoginCheck::Accepted(a) => {
            &&& (r is Ok <==> expiry_writable(now_nanos, DEFAULT_SESSION_TTL_SECONDS))
            &&& (r is Err ==> r matches Err(LoginError::Certificate(CertificateError::Build(_))))
            &&& (r is Ok ==> ca.issued_at(a, session_peer_id, DEFAULT_SESSION_TTL_SECONDS, now_nanos, r->Ok_0@))
        },
        c => r matches Err(LoginError::Account(e)) && check_error(c, username, e),
    }
}

/// The login flow: checks the password, then issues a session certificate
/// binding the account to `session_peer_id` for the default lifetime: signed
/// by the CA, it carries the account's name and role and the session key, and
/// expires [`DEFAULT_SESSION_TTL_SECONDS`] after the clock, read once, says.
pub fn login(
    accounts: &AccountStore,
    ca: &DirectoryCa,
    username: &str,
    password: &str,
    session_peer_id: [u8; 32],
) -> (r: Result<SessionCertificate, LoginError>)
    ensures
        exists|now_nanos: int|
            time_min_nanos() <= now_nanos <= time_max_nanos() && #[trigger] login_outcome(
                accounts@,
                *ca,
                username@,
                password@,
                session_peer_id@,
                now_nanos,
                r,
            ),
{
    let now = unix_now_nanos();
    let r = login_at(accounts, ca, username, password, session_peer_id, now);
    assert(login_outcome(accounts@, *ca, username@, password@, session_peer_id@, now as int, r));
    r
}

/// The login flow with the clock read at `now_nanos`.
pub fn login_at(
    accounts: &AccountStore,
    ca: &DirectoryCa,
    username: &str,
    password: &str,
    session_peer_id: [u8; 32],
    now_nanos: i128,
) -> (r: Result<SessionCertificate, LoginError>)
    requires
        time_min_nanos() <= now_nanos <= time_max_nanos(),
    ensures
        login_outcome(accounts@, *ca, username@, password@, session_peer_id@, now_nanos as int, r),
{
    let account = match accounts.verify_password(username, password) {
        Ok(a) => a,
        Err(e) => {
            return Err(LoginError::Account(e));
        },
    };
    match ca.issue_session_certificate_at(account, session_peer_id, DEFAULT_SESSION_TTL_SECONDS, now_nanos) {
        Ok(token) => Ok(token),
        Err(e) => Err(LoginError::Certificate(e)),
    }
}

}
