//! Session transport: the text of the local DTLS fingerprint that pairing
//! authenticates, and the result code the C interface reports for it.

use vstd::prelude::*;
use vstd::string::StringExecFns;

use crate::text::push_char;

verus! {

/// One fingerprint of a DTLS certificate: hash algorithm and hex value.
#[derive(Debug, Clone)]
pub struct DtlsFingerprint {
    pub algorithm: String,
    pub value: String,
}

/// The text that stands for a session's local certificate: the first
/// fingerprint as `"<algorithm> <value>"` (the algorithm is authenticated too),
/// or nothing when there is no certificate yet.
pub fn local_fingerprint_text(fingerprints: &Vec<DtlsFingerprint>) -> (r: Option<String>)
    ensures
        fingerprints@.len() == 0 <==> r is None,
        r matches Some(s) ==> s@ == fingerprints@[0].algorithm@ + seq![' '] + fingerprints@[0].value@,
{
    if fingerprints.len() == 0 {
        return None;
    }
    let f = &fingerprints[0];
    let mut s = f.algorithm.clone();
    push_char(&mut s, ' ');
    s.append(f.value.as_str());
    Some(s)
}

/// What the C interface returns after copying a fingerprint of
/// `fingerprint_len` bytes into a buffer of `out_buf_len` bytes: -1 when it
/// does not fit, else its length as a C `int`.
pub fn fingerprint_copy_result(fingerprint_len: usize, out_buf_len: usize) -> (r: i32)
    ensures
        fingerprint_len > out_buf_len ==> r == -1,
        fingerprint_len <= out_buf_len ==> r == fingerprint_len as i32,
{
    if fingerprint_len > out_buf_len {
        -1
    } else {
        fingerprint_len as i32
    }
}

}
