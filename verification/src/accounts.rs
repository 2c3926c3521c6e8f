//! Account data shapes used by the embedding layer's login and
//! registration endpoints. Credential storage and sessions are outside
//! this library; only the plain shapes live here.

use vstd::prelude::*;

verus! {

/// A username-and-password pair.
#[derive(Debug, Clone, PartialEq)]
pub struct LoginData {
    pub username: String,
    pub password: String,
}

/// An email-and-password pair.
#[derive(Debug, Clone, PartialEq)]
pub struct Credentials {
    pub email: String,
    pub password: String,
}

} // verus!
