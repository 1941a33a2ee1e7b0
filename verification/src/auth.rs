//! The data carried by the authentication layer.  Key issuance and
//! verification live outside the validation core, with the transport; only
//! their record shapes are kept here.

use vstd::prelude::*;

verus! {

/// A registered account.
#[derive(Clone, Debug)]
pub struct User {
    pub email: String,
    pub password_hash: String,
    pub active: bool,
}

/// The claims carried inside an issued token.
#[derive(Clone, Debug)]
pub struct Claims {
    pub email: String,
    pub exp: usize,
}

/// An issued API key and whether it is still honoured.
#[derive(Clone, Debug)]
pub struct ApiKey {
    pub key: String,
    pub active: bool,
}

/// Marks a route as requiring authentication.
#[derive(Clone, Copy, Debug)]
pub struct AuthGuard;

/// A registration request: the credentials a key is issued for.
#[derive(Clone, Debug)]
pub struct RegisterRequest {
    pub email: String,
    pub password: String,
}

/// The answer to a registration: the freshly issued key.
#[derive(Clone, Debug)]
pub struct ApiKeyResponse {
    pub api_key: String,
}

} // verus!
