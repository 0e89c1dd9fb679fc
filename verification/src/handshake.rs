//! The handshake as a whole: from nothing, to a key, to a sealed credential,
//! to a login. The transport between the steps is the caller's; what each
//! reply leads to is decided here.

use crate::encrypt::{
    encrypt, fits_always, fits_never, is_sealed_block, key_size_spec, CryptoError,
};
use crate::identity::device_id_spec;
use crate::material::{KeyMaterial, LoginResult};
use crate::numeral::ParseError;
use crate::reply::{
    is_success, key_reply_spec, login_reply_spec, read_key_reply, read_login_reply, FetchError,
    LoginError, Reply,
};
use crate::request::{LoginRequest, PublicKeyRequest};
use vstd::prelude::*;

verus! {

/// The step at which a handshake failed, and why.
#[derive(Clone, Debug, PartialEq, Eq)]
pub enum HandshakeError {
    /// The account has no device identifier.
    Identity(ParseError),
    /// No key was obtained.
    Fetch(FetchError),
    /// The credential was not sealed.
    Crypto(CryptoError),
    /// No login was obtained.
    Login(LoginError),
}

/// How far a handshake has come. A failed handshake keeps the failure and
/// nothing of what it held before.
#[derive(Clone, Debug, PartialEq, Eq)]
pub enum Handshake {
    /// The key request is out; nothing has come back.
    Start,
    /// The key is here; the credential is not sealed yet.
    KeyFetched(KeyMaterial),
    /// The credential is sealed and the login is ready to go out.
    Encrypted(LoginRequest),
    /// The service has let the account in.
    Authenticated(LoginResult),
    /// The handshake has ended without a login.
    Failed(HandshakeError),
}

impl Handshake {
    /// The place of a state in the order of the handshake; a failure is last.
    pub open spec fn rank(&self) -> nat {
        match self {
            Handshake::Start => 0,
            Handshake::KeyFetched(_) => 1,
            Handshake::Encrypted(_) => 2,
            Handshake::Authenticated(_) => 3,
            Handshake::Failed(_) => 4,
        }
    }

    /// The handshake has ended, with a login or without.
    pub open spec fn is_over(&self) -> bool {
        self is Authenticated || self is Failed
    }

    /// `after` may come of `self` in one step: a handshake that is over stays
    /// as it is; another stays, moves to the next state, or fails.
    pub open spec fn leads_to(&self, after: Handshake) -> bool {
        if self.is_over() {
            after == *self
        } else {
            after == *self || after is Failed || after.rank() == self.rank() + 1
        }
    }

    /// The state after a reply to the key request: only a handshake at its
    /// start takes one.
    pub open spec fn after_key_reply(self, reply: Reply<KeyMaterial>) -> Handshake {
        match self {
            Handshake::Start => match key_reply_spec(reply) {
                Ok(key) => Handshake::KeyFetched(key),
                Err(e) => Handshake::Failed(HandshakeError::Fetch(e)),
            },
            other => other,
        }
    }

    /// The state after the sealing of the credential ended in `sealed`: only
    /// a handshake that holds a key takes it.
    pub open spec fn sealed_leads_to(
        self,
        account: Seq<char>,
        sealed: Result<String, CryptoError>,
        after: Handshake,
    ) -> bool {
        match self {
            Handshake::KeyFetched(key) => match sealed {
                Err(e) => after == Handshake::Failed(HandshakeError::Crypto(e)),
                Ok(text) => match device_id_spec(account) {
                    Err(e) => after == Handshake::Failed(HandshakeError::Identity(e)),
                    Ok(device_id) => {
                        &&& after matches Handshake::Encrypted(request) && request.is_for(
                            account,
                            device_id,
                            key.version_prefix@,
                            text@,
                        )
                    },
                },
            },
            other => after == other,
        }
    }

    /// The state after a reply to the login: only a handshake whose
    /// credential is sealed takes one.
    pub open spec fn after_login_reply(self, reply: Reply<LoginResult>) -> Handshake {
        match self {
            Handshake::Encrypted(_) => match login_reply_spec(reply) {
                Ok(login) => Handshake::Authenticated(login),
                Err(e) => Handshake::Failed(HandshakeError::Login(e)),
            },
            other => other,
        }
    }

    /// Begins the handshake of `account`: the state, and the request to
    /// send. An account without a device identifier fails at once, and
    /// nothing is to be sent.
    pub fn begin(account: &str) -> (r: (Handshake, Option<PublicKeyRequest>))
        ensures
            match device_id_spec(account@) {
                Ok(device_id) => {
                    &&& r.0 is Start
                    &&& r.1 matches Some(request) && request.is_for(device_id)
                },
                Err(e) => r.0 == Handshake::Failed(HandshakeError::Identity(e)) && r.1 is None,
            },
    {
        match PublicKeyRequest::new(account) {
            Ok(request) => (Handshake::Start, Some(request)),
            Err(e) => (Handshake::Failed(HandshakeError::Identity(e)), None),
        }
    }

    /// Takes the reply to the key request.
    pub fn on_key_reply(self, reply: Reply<KeyMaterial>) -> (after: Handshake)
        ensures
            after == self.after_key_reply(reply),
            self.leads_to(after),
    {
        match self {
            Handshake::Start => match read_key_reply(reply) {
                Ok(key) => Handshake::KeyFetched(key),
                Err(e) => Handshake::Failed(HandshakeError::Fetch(e)),
            },
            other => other,
        }
    }

    /// Takes the outcome of sealing the credential: a failure ends the
    /// handshake; a sealed credential goes into the login of `account`,
    /// behind the version tag of the key.
    pub fn on_sealed(self, account: &str, sealed: Result<String, CryptoError>) -> (after: Handshake)
        ensures
            self.sealed_leads_to(account@, sealed, after),
            self.leads_to(after),
    {
        match self {
            Handshake::KeyFetched(key) => match sealed {
                Err(e) => Handshake::Failed(HandshakeError::Crypto(e)),
                Ok(text) => match LoginRequest::new(
                    account,
                    key.version_prefix.as_str(),
                    text.as_str(),
                ) {
                    Ok(request) => Handshake::Encrypted(request),
                    Err(e) => Handshake::Failed(HandshakeError::Identity(e)),
                },
            },
            other => other,
        }
    }

    /// Seals `secret` under the key that the handshake holds, with the time
    /// the clock shows, and makes the login of `account` ready. A handshake
    /// that holds no key stays as it is.
    pub fn seal(self, account: &str, secret: &str) -> (after: Handshake)
        ensures
            self.leads_to(after),
            !(self is KeyFetched) ==> after == self,
            self matches Handshake::KeyFetched(key) ==> match after {
                Handshake::Encrypted(request) => {
                    &&& device_id_spec(account@) is Ok
                    &&& key_size_spec(key.public_key@) is Some
                    &&& exists|text: Seq<char>|
                        #[trigger] is_sealed_block(text, key_size_spec(key.public_key@).unwrap())
                            && request.is_for(
                            account@,
                            device_id_spec(account@).unwrap(),
                            key.version_prefix@,
                            text,
                        )
                },
                Handshake::Failed(HandshakeError::Crypto(e)) => {
                    &&& key_size_spec(key.public_key@) is None ==> e == CryptoError::KeyParse
                    &&& key_size_spec(key.public_key@) matches Some(size) ==> {
                        &&& fits_always(secret@, size) ==> e != CryptoError::EncryptTooLarge
                        &&& fits_never(secret@, size) ==> e != CryptoError::KeyParse
                    }
                },
                Handshake::Failed(HandshakeError::Identity(e)) => device_id_spec(account@) == Err::<
                    Seq<char>,
                    ParseError,
                >(e),
                _ => false,
            },
            self matches Handshake::KeyFetched(key) && key_size_spec(key.public_key@) is None
                ==> after == Handshake::Failed(HandshakeError::Crypto(CryptoError::KeyParse)),
            self matches Handshake::KeyFetched(key) && key_size_spec(key.public_key@) matches Some(
                size,
            ) && fits_never(secret@, size) ==> after is Failed,
    {
        match self {
            Handshake::KeyFetched(key) => {
                let sealed = encrypt(secret, &key);
                assert(sealed matches Ok(text) ==> is_sealed_block(
                    text@,
                    key_size_spec(key.public_key@).unwrap(),
                ));
                Handshake::KeyFetched(key).on_sealed(account, sealed)
            },
            other => other,
        }
    }

    /// Takes the reply to the login.
    pub fn on_login_reply(self, reply: Reply<LoginResult>) -> (after: Handshake)
        ensures
            after == self.after_login_reply(reply),
            self.leads_to(after),
    {
        match self {
            Handshake::Encrypted(_) => match read_login_reply(reply) {
                Ok(login) => Handshake::Authenticated(login),
                Err(e) => Handshake::Failed(HandshakeError::Login(e)),
            },
            other => other,
        }
    }
}

/// A reply never takes a handshake back: it stays, moves one state on, or
/// fails; and a handshake that is over takes no reply at all.
pub proof fn lemma_replies_lead_on(
    state: Handshake,
    key_reply: Reply<KeyMaterial>,
    login_reply: Reply<LoginResult>,
)
    ensures
        state.leads_to(state.after_key_reply(key_reply)),
        state.leads_to(state.after_login_reply(login_reply)),
        state.is_over() ==> state.after_key_reply(key_reply) == state && state.after_login_reply(
            login_reply,
        ) == state,
{
}

/// The outcome of sealing never takes a handshake back either.
pub proof fn lemma_sealing_leads_on(
    state: Handshake,
    account: Seq<char>,
    sealed: Result<String, CryptoError>,
    after: Handshake,
)
    requires
        state.sealed_leads_to(account, sealed, after),
    ensures
        state.leads_to(after),
        state.is_over() ==> after == state,
{
}

/// A key request that the service answers with a status that is no success
/// ends the handshake with that status and body, whatever else the answer
/// holds; no sealing and no reply to a login changes that afterwards, so no
/// login is ever made ready.
pub proof fn lemma_refused_key_ends_handshake(
    status: u16,
    body: String,
    data: Option<KeyMaterial>,
    account: Seq<char>,
    sealed: Result<String, CryptoError>,
    after_sealing: Handshake,
    login_reply: Reply<LoginResult>,
)
    requires
        !is_success(status),
        Handshake::Start.after_key_reply(
            Reply::Answered { status, body, data },
        ).sealed_leads_to(account, sealed, after_sealing),
    ensures
        Handshake::Start.after_key_reply(Reply::Answered { status, body, data })
            == Handshake::Failed(HandshakeError::Fetch(FetchError::Http { status, body })),
        after_sealing == Handshake::Failed(
            HandshakeError::Fetch(FetchError::Http { status, body }),
        ),
        after_sealing.after_login_reply(login_reply) == after_sealing,
{
}

/// A successful answer to the login that holds no login in the expected
/// shape ends the handshake as a decoding failure: nothing of the answer
/// counts as a login.
pub proof fn lemma_login_without_data_fails(request: LoginRequest, status: u16, body: String)
    requires
        is_success(status),
    ensures
        Handshake::Encrypted(request).after_login_reply(
            Reply::Answered { status, body, data: None },
        ) == Handshake::Failed(HandshakeError::Login(LoginError::Decode { body })),
{
}

} // verus!
