//! The captcha verification payloads.  The HTTP exchange itself is
//! outside work; the library only shapes what is sent and read back.

use vstd::prelude::*;

verus! {

/// The verification request: the site secret and the client's
/// response token.
#[derive(Clone, Debug)]
pub struct VerifyRequest {
    pub secret: String,
    pub response: String,
}

/// The verification answer: whether the check passed.
#[derive(Clone, Copy, Debug, PartialEq, Eq, Structural)]
pub struct VerifyResponse {
    pub success: bool,
}

} // verus!
