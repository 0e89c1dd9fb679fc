//! What the two replies of a handshake carry.

use vstd::prelude::*;

verus! {

/// The key that the service hands out for one handshake.
#[derive(Clone, Debug, PartialEq, Eq)]
pub struct KeyMaterial {
    /// The RSA public key: a DER-encoded SubjectPublicKeyInfo in base64.
    pub public_key: String,
    /// The tag that tells the service which of its keys sealed a credential.
    pub version_prefix: String,
    /// The algorithm the service names; carried, never read.
    pub encryption_algorithm: String,
    /// The kind of key the service names; carried, never read.
    pub key_type: String,
}

/// What a successful login returns.
#[derive(Clone, Debug, PartialEq, Eq)]
pub struct LoginResult {
    pub uid: String,
    pub partner2_id: String,
    pub partner1_id: String,
    pub user_id_type: String,
    /// The login was made with a temporary password.
    pub login_with_temporary_password: bool,
    pub refresh_token_expiration_ts: u32,
    /// The bearer token that later calls present.
    pub access_token: String,
    pub user_id: String,
    pub access_token_expiration_ts: u32,
    pub refresh_token: String,
}

} // verus!
