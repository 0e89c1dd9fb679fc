use mazda_auth::identity::derive_device_id;
use mazda_auth::numeral::ParseError;
use mazda_auth::request::{
    LoginRequest, PublicKeyRequest, APP_ID, KEY_ENDPOINT, LOCALE, LOGIN_ENDPOINT, SDK_VERSION,
    USER_AGENT, USER_ID_TYPE,
};

fn pair(name: &str, value: &str) -> (String, String) {
    (name.to_string(), value.to_string())
}

#[test]
fn constants_are_kept_byte_for_byte() {
    assert_eq!(APP_ID, "MazdaApp");
    assert_eq!(LOCALE, "en-US");
    assert_eq!(SDK_VERSION, "11.2.0400.001");
    assert_eq!(USER_ID_TYPE, "email");
    assert_eq!(USER_AGENT, "MyMazda/8.3.0 (iPhone Xr; IOS 15.6)");
    assert_eq!(KEY_ENDPOINT, "https://ptznwbh8.mazda.com/appapi/v1/system/encryptionKey");
    assert_eq!(LOGIN_ENDPOINT, "https://ptznwbh8.mazda.com/appapi/v1/user/login");
}

#[test]
fn key_request_of_an_account() {
    let request = PublicKeyRequest::new("bob@example.com").unwrap();
    assert_eq!(
        request,
        PublicKeyRequest {
            app_id: "MazdaApp".to_string(),
            locale: "en-US".to_string(),
            device_id: "ACCT1610113215".to_string(),
            sdk_version: "11.2.0400.001".to_string(),
        }
    );
}

#[test]
fn key_request_on_the_wire() {
    let request = PublicKeyRequest::new("hello").unwrap();
    assert_eq!(
        request.wire_fields(),
        vec![
            pair("appId", "MazdaApp"),
            pair("locale", "en-US"),
            pair("deviceId", "ACCT754077114"),
            pair("sdkVersion", "11.2.0400.001"),
        ]
    );
}

#[test]
fn key_request_needs_a_device_identifier() {
    assert_eq!(PublicKeyRequest::new("user@example.com"), Err(ParseError::Overflow));
}

#[test]
fn login_request_of_an_account() {
    let request = LoginRequest::new("bob@example.com", "v7:", "Q0lQSEVS").unwrap();
    assert_eq!(
        request,
        LoginRequest {
            app_id: "MazdaApp".to_string(),
            device_id: "ACCT1610113215".to_string(),
            locale: "en-US".to_string(),
            password: "v7:Q0lQSEVS".to_string(),
            sdk_version: "11.2.0400.001".to_string(),
            user_id: "bob@example.com".to_string(),
            user_id_type: "email".to_string(),
        }
    );
}

#[test]
fn login_request_on_the_wire() {
    let request = LoginRequest::new("hello", "", "abc").unwrap();
    assert_eq!(
        request.wire_fields(),
        vec![
            pair("appId", "MazdaApp"),
            pair("deviceId", "ACCT754077114"),
            pair("locale", "en-US"),
            pair("password", "abc"),
            pair("sdkVersion", "11.2.0400.001"),
            pair("userId", "hello"),
            pair("userIdType", "email"),
        ]
    );
}

#[test]
fn login_request_needs_a_device_identifier() {
    assert_eq!(LoginRequest::new("user@example.com", "v1", "abc"), Err(ParseError::Overflow));
}

#[test]
fn both_requests_name_the_same_device() {
    let key_request = PublicKeyRequest::new("test@example.org").unwrap();
    let login = LoginRequest::new("test@example.org", "v1", "abc").unwrap();
    assert_eq!(key_request.device_id, login.device_id);
    assert_eq!(login.device_id, derive_device_id("test@example.org").unwrap());
    assert_eq!(login.device_id, "ACCT948728670");
}
