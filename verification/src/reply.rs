//! What comes back from the service, and how a reply is read.

use crate::material::{KeyMaterial, LoginResult};
use vstd::prelude::*;

verus! {

/// The outcome of one request, as the transport hands it over. `data` is the
/// reply's `data` object where the body held one of the shape that was asked
/// for.
#[derive(Clone, Debug, PartialEq, Eq)]
pub enum Reply<T> {
    /// No answer arrived.
    Unreachable { detail: String },
    /// The service answered.
    Answered { status: u16, body: String, data: Option<T> },
}

/// Why no key was obtained.
#[derive(Clone, Debug, PartialEq, Eq)]
pub enum FetchError {
    /// The request did not reach the service, or no answer came back.
    Network { detail: String },
    /// The service answered with a status outside 200 to 299.
    Http { status: u16, body: String },
    /// The answer did not hold a key in the expected shape.
    Decode { body: String },
}

/// Why no login was obtained.
#[derive(Clone, Debug, PartialEq, Eq)]
pub enum LoginError {
    /// The request did not reach the service, or no answer came back.
    Network { detail: String },
    /// The service answered with a status outside 200 to 299; a refused
    /// credential is one of these.
    Http { status: u16, body: String },
    /// The answer did not hold a login in the expected shape.
    Decode { body: String },
}

/// A status that reports success.
pub open spec fn is_success(status: u16) -> bool {
    200 <= status <= 299
}

/// What a reply to the key request means.
pub open spec fn key_reply_spec(reply: Reply<KeyMaterial>) -> Result<KeyMaterial, FetchError> {
    match reply {
        Reply::Unreachable { detail } => Err(FetchError::Network { detail }),
        Reply::Answered { status, body, data } => if !is_success(status) {
            Err(FetchError::Http { status, body })
        } else {
            match data {
                Some(key) => Ok(key),
                None => Err(FetchError::Decode { body }),
            }
        },
    }
}

/// What a reply to the login means.
pub open spec fn login_reply_spec(reply: Reply<LoginResult>) -> Result<LoginResult, LoginError> {
    match reply {
        Reply::Unreachable { detail } => Err(LoginError::Network { detail }),
        Reply::Answered { status, body, data } => if !is_success(status) {
            Err(LoginError::Http { status, body })
        } else {
            match data {
                Some(login) => Ok(login),
                None => Err(LoginError::Decode { body }),
            }
        },
    }
}

/// Tells whether `status` reports success.
pub fn status_is_success(status: u16) -> (ok: bool)
    ensures
        ok == is_success(status),
{
    200 <= status && status <= 299
}

/// Reads the reply to the key request: a transport failure first, then a
/// status that is no success, whatever the body holds, then a body without a
/// key; only a successful answer with a key gives one.
pub fn read_key_reply(reply: Reply<KeyMaterial>) -> (r: Result<KeyMaterial, FetchError>)
    ensures
        r == key_reply_spec(reply),
{
    match reply {
        Reply::Unreachable { detail } => Err(FetchError::Network { detail }),
        Reply::Answered { status, body, data } => {
            if !status_is_success(status) {
                Err(FetchError::Http { status, body })
            } else {
                match data {
                    Some(key) => Ok(key),
                    None => Err(FetchError::Decode { body }),
                }
            }
        },
    }
}

/// Reads the reply to the login, in the same order. A login that lacks a
/// field is no login: nothing of it is returned.
pub fn read_login_reply(reply: Reply<LoginResult>) -> (r: Result<LoginResult, LoginError>)
    ensures
        r == login_reply_spec(reply),
{
    match reply {
        Reply::Unreachable { detail } => Err(LoginError::Network { detail }),
        Reply::Answered { status, body, data } => {
            if !status_is_success(status) {
                Err(LoginError::Http { status, body })
            } else {
                match data {
                    Some(login) => Ok(login),
                    None => Err(LoginError::Decode { body }),
                }
            }
        },
    }
}

} // verus!
