use mazda_auth::encrypt::{encrypt_at, CryptoError};
use mazda_auth::handshake::{Handshake, HandshakeError};
use mazda_auth::material::{KeyMaterial, LoginResult};
use mazda_auth::numeral::ParseError;
use mazda_auth::reply::{FetchError, LoginError, Reply};
use mazda_auth::request::LoginRequest;
use openssl::pkey::Private;
use openssl::rsa::{Padding, Rsa};

#[allow(deprecated)]
fn material_of(key: &Rsa<Private>) -> KeyMaterial {
    KeyMaterial {
        public_key: base64::encode(key.public_key_to_der().unwrap()),
        version_prefix: "v3:".to_string(),
        encryption_algorithm: "RSA".to_string(),
        key_type: "public".to_string(),
    }
}

#[allow(deprecated)]
fn opened(key: &Rsa<Private>, sealed: &str) -> String {
    let cipher = base64::decode(sealed).unwrap();
    let mut plain = vec![0u8; key.size() as usize];
    let n = key.private_decrypt(&cipher, &mut plain, Padding::PKCS1).unwrap();
    plain.truncate(n);
    String::from_utf8(plain).unwrap()
}

fn login_of(token: &str) -> LoginResult {
    LoginResult {
        uid: "u-1".to_string(),
        partner2_id: "p2".to_string(),
        partner1_id: "p1".to_string(),
        user_id_type: "email".to_string(),
        login_with_temporary_password: true,
        refresh_token_expiration_ts: 1800000000,
        access_token: token.to_string(),
        user_id: "bob@example.com".to_string(),
        access_token_expiration_ts: 1700003600,
        refresh_token: "token-r".to_string(),
    }
}

fn key_answer(status: u16, data: Option<KeyMaterial>) -> Reply<KeyMaterial> {
    Reply::Answered { status, body: "key body".to_string(), data }
}

fn login_answer(status: u16, data: Option<LoginResult>) -> Reply<LoginResult> {
    Reply::Answered { status, body: "login body".to_string(), data }
}

#[test]
fn handshake_runs_from_start_to_login() {
    let key = Rsa::generate(2048).unwrap();
    let (state, request) = Handshake::begin("bob@example.com");
    assert_eq!(state, Handshake::Start);
    assert_eq!(request.unwrap().device_id, "ACCT1610113215");

    let state = state.on_key_reply(key_answer(200, Some(material_of(&key))));
    assert_eq!(state, Handshake::KeyFetched(material_of(&key)));

    let state = state.seal("bob@example.com", "hunter2");
    let login = match &state {
        Handshake::Encrypted(login) => login.clone(),
        other => panic!("no login is ready: {:?}", other),
    };
    assert_eq!(login.user_id, "bob@example.com");
    assert_eq!(login.device_id, "ACCT1610113215");
    assert!(login.password.starts_with("v3:"));
    let plain = opened(&key, &login.password["v3:".len()..]);
    let (secret, stamp) = plain.rsplit_once(':').unwrap();
    assert_eq!(secret, "hunter2");
    assert!(stamp.parse::<u64>().unwrap() > 1700000000);

    let state = state.on_login_reply(login_answer(200, Some(login_of("token-a"))));
    assert_eq!(state, Handshake::Authenticated(login_of("token-a")));
}

#[test]
fn handshake_of_an_account_without_device_identifier() {
    let (state, request) = Handshake::begin("user@example.com");
    assert_eq!(state, Handshake::Failed(HandshakeError::Identity(ParseError::Overflow)));
    assert_eq!(request, None);
}

#[test]
fn key_fetch_http_500_ends_the_handshake() {
    let key = Rsa::generate(1024).unwrap();
    let (state, _) = Handshake::begin("bob@example.com");
    let state = state.on_key_reply(key_answer(500, Some(material_of(&key))));
    let failed = Handshake::Failed(HandshakeError::Fetch(FetchError::Http {
        status: 500,
        body: "key body".to_string(),
    }));
    assert_eq!(state, failed);
    // Neither a sealing nor a login follows.
    let state = state.seal("bob@example.com", "hunter2");
    assert_eq!(state, failed);
    let state = state.on_sealed("bob@example.com", Ok("Q0lQSEVS".to_string()));
    assert_eq!(state, failed);
    let state = state.on_login_reply(login_answer(200, Some(login_of("token-a"))));
    assert_eq!(state, failed);
}

#[test]
fn key_reply_failures_end_the_handshake() {
    let state = Handshake::Start.on_key_reply(Reply::Unreachable { detail: "dns".to_string() });
    assert_eq!(
        state,
        Handshake::Failed(HandshakeError::Fetch(FetchError::Network { detail: "dns".to_string() }))
    );
    let state = Handshake::Start.on_key_reply(key_answer(200, None));
    assert_eq!(
        state,
        Handshake::Failed(HandshakeError::Fetch(FetchError::Decode {
            body: "key body".to_string()
        }))
    );
}

#[test]
fn login_without_access_token_ends_the_handshake() {
    let request = LoginRequest::new("bob@example.com", "v3:", "Q0lQSEVS").unwrap();
    let state = Handshake::Encrypted(request).on_login_reply(login_answer(200, None));
    assert_eq!(
        state,
        Handshake::Failed(HandshakeError::Login(LoginError::Decode {
            body: "login body".to_string()
        }))
    );
}

#[test]
fn login_failures_end_the_handshake() {
    let request = LoginRequest::new("bob@example.com", "v3:", "Q0lQSEVS").unwrap();
    let state = Handshake::Encrypted(request.clone())
        .on_login_reply(login_answer(401, Some(login_of("token-a"))));
    assert_eq!(
        state,
        Handshake::Failed(HandshakeError::Login(LoginError::Http {
            status: 401,
            body: "login body".to_string()
        }))
    );
    let state =
        Handshake::Encrypted(request).on_login_reply(Reply::Unreachable { detail: "reset".to_string() });
    assert_eq!(
        state,
        Handshake::Failed(HandshakeError::Login(LoginError::Network {
            detail: "reset".to_string()
        }))
    );
}

#[test]
fn unreadable_key_ends_the_handshake_at_sealing() {
    let mut material = material_of(&Rsa::generate(1024).unwrap());
    material.public_key = "no key".to_string();
    let state = Handshake::KeyFetched(material).seal("bob@example.com", "hunter2");
    assert_eq!(state, Handshake::Failed(HandshakeError::Crypto(CryptoError::KeyParse)));
}

#[test]
fn long_secret_ends_the_handshake_at_sealing() {
    let material = material_of(&Rsa::generate(1024).unwrap());
    let state = Handshake::KeyFetched(material).seal("bob@example.com", &"x".repeat(400));
    assert_eq!(state, Handshake::Failed(HandshakeError::Crypto(CryptoError::EncryptTooLarge)));
}

#[test]
fn sealing_outcome_goes_into_the_login() {
    let key = Rsa::generate(2048).unwrap();
    let material = material_of(&key);
    let sealed = encrypt_at("hunter2", &material, 1700000000);
    let state = Handshake::KeyFetched(material).on_sealed("hello", sealed);
    match state {
        Handshake::Encrypted(login) => {
            assert_eq!(login.device_id, "ACCT754077114");
            assert_eq!(login.user_id, "hello");
            assert_eq!(opened(&key, &login.password["v3:".len()..]), "hunter2:1700000000");
        },
        other => panic!("no login is ready: {:?}", other),
    }
}

#[test]
fn sealing_failures_end_the_handshake() {
    let material = material_of(&Rsa::generate(1024).unwrap());
    let state = Handshake::KeyFetched(material.clone())
        .on_sealed("bob@example.com", Err(CryptoError::ClockError));
    assert_eq!(state, Handshake::Failed(HandshakeError::Crypto(CryptoError::ClockError)));
    // A sealing failure counts before a missing device identifier.
    let state = Handshake::KeyFetched(material.clone())
        .on_sealed("user@example.com", Err(CryptoError::EncryptTooLarge));
    assert_eq!(state, Handshake::Failed(HandshakeError::Crypto(CryptoError::EncryptTooLarge)));
    let state =
        Handshake::KeyFetched(material).on_sealed("user@example.com", Ok("Q0lQSEVS".to_string()));
    assert_eq!(state, Handshake::Failed(HandshakeError::Identity(ParseError::Overflow)));
}

#[test]
fn replies_out_of_turn_change_nothing() {
    let material = material_of(&Rsa::generate(1024).unwrap());
    let request = LoginRequest::new("bob@example.com", "v3:", "Q0lQSEVS").unwrap();

    let state = Handshake::Start.on_login_reply(login_answer(200, Some(login_of("t"))));
    assert_eq!(state, Handshake::Start);
    let state = Handshake::Start.seal("bob@example.com", "hunter2");
    assert_eq!(state, Handshake::Start);

    let held = Handshake::KeyFetched(material.clone());
    assert_eq!(held.clone().on_key_reply(key_answer(500, None)), held);
    assert_eq!(held.clone().on_login_reply(login_answer(200, Some(login_of("t")))), held);

    let ready = Handshake::Encrypted(request);
    assert_eq!(ready.clone().on_key_reply(key_answer(200, Some(material.clone()))), ready);
    assert_eq!(ready.clone().seal("bob@example.com", "other"), ready);

    let done = Handshake::Authenticated(login_of("token-a"));
    assert_eq!(done.clone().on_key_reply(key_answer(200, Some(material))), done);
    assert_eq!(done.clone().seal("bob@example.com", "hunter2"), done);
    assert_eq!(done.clone().on_login_reply(login_answer(500, None)), done);
}
