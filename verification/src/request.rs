//! The two requests of a handshake, with the names their fields have on the
//! wire.

use crate::identity::{derive_device_id, device_id_spec};
use crate::numeral::ParseError;
use vstd::prelude::*;
use vstd::string::*;

verus! {

/// The application that the client presents itself as.
pub const APP_ID: &'static str = "MazdaApp";

/// The locale that the client asks in.
pub const LOCALE: &'static str = "en-US";

/// The version of the service's SDK that the client speaks.
pub const SDK_VERSION: &'static str = "11.2.0400.001";

/// The kind of user identifier that a login carries.
pub const USER_ID_TYPE: &'static str = "email";

/// The client build that both requests name in their `User-Agent` header.
pub const USER_AGENT: &'static str = "MyMazda/8.3.0 (iPhone Xr; IOS 15.6)";

/// Where the session key is asked for, with a GET and a query.
pub const KEY_ENDPOINT: &'static str = "https://ptznwbh8.mazda.com/appapi/v1/system/encryptionKey";

/// Where the login is posted, as JSON.
pub const LOGIN_ENDPOINT: &'static str = "https://ptznwbh8.mazda.com/appapi/v1/user/login";

/// A field as it goes over the wire: its name and its value.
pub type WireField = (String, String);

/// The names and values of `fields`, as texts.
pub open spec fn field_texts(fields: Seq<WireField>) -> Seq<(Seq<char>, Seq<char>)> {
    Seq::new(fields.len(), |i: int| (fields[i].0@, fields[i].1@))
}

/// One wire field.
fn wire_field(name: &str, value: &String) -> (field: WireField)
    ensures
        field.0@ == name@,
        field.1@ == value@,
{
    (String::from_str(name), value.clone())
}

/// The request for the session key.
#[derive(Clone, Debug, PartialEq, Eq)]
pub struct PublicKeyRequest {
    pub app_id: String,
    pub locale: String,
    pub device_id: String,
    pub sdk_version: String,
}

impl PublicKeyRequest {
    /// The request for `account` has the device identifier `device_id` and
    /// the client's constants.
    pub open spec fn is_for(&self, device_id: Seq<char>) -> bool {
        &&& self.app_id@ == APP_ID@
        &&& self.locale@ == LOCALE@
        &&& self.device_id@ == device_id
        &&& self.sdk_version@ == SDK_VERSION@
    }

    /// The fields in the order and under the names that the service reads.
    pub open spec fn wire(&self) -> Seq<(Seq<char>, Seq<char>)> {
        seq![
            ("appId"@, self.app_id@),
            ("locale"@, self.locale@),
            ("deviceId"@, self.device_id@),
            ("sdkVersion"@, self.sdk_version@),
        ]
    }

    /// The request that asks for the key of `account`'s session. There is
    /// none where the account has no device identifier.
    pub fn new(account: &str) -> (r: Result<Self, ParseError>)
        ensures
            match r {
                Ok(request) => device_id_spec(account@) is Ok && request.is_for(
                    device_id_spec(account@).unwrap(),
                ),
                Err(e) => device_id_spec(account@) == Err::<Seq<char>, ParseError>(e),
            },
    {
        match derive_device_id(account) {
            Ok(device_id) => Ok(
                PublicKeyRequest {
                    app_id: String::from_str(APP_ID),
                    locale: String::from_str(LOCALE),
                    device_id,
                    sdk_version: String::from_str(SDK_VERSION),
                },
            ),
            Err(e) => Err(e),
        }
    }

    /// The query of the request.
    pub fn wire_fields(&self) -> (fields: Vec<WireField>)
        ensures
            field_texts(fields@) == self.wire(),
    {
        let mut fields: Vec<WireField> = Vec::new();
        fields.push(wire_field("appId", &self.app_id));
        fields.push(wire_field("locale", &self.locale));
        fields.push(wire_field("deviceId", &self.device_id));
        fields.push(wire_field("sdkVersion", &self.sdk_version));
        assert(field_texts(fields@) =~= self.wire());
        fields
    }
}

/// The login: the sealed credential under its version tag, for an account.
#[derive(Clone, Debug, PartialEq, Eq)]
pub struct LoginRequest {
    pub app_id: String,
    pub device_id: String,
    pub locale: String,
    pub password: String,
    pub sdk_version: String,
    pub user_id: String,
    pub user_id_type: String,
}

impl LoginRequest {
    /// The request logs `account` in from the device `device_id`, with the
    /// credential `sealed` behind the tag `version_prefix`.
    pub open spec fn is_for(
        &self,
        account: Seq<char>,
        device_id: Seq<char>,
        version_prefix: Seq<char>,
        sealed: Seq<char>,
    ) -> bool {
        &&& self.app_id@ == APP_ID@
        &&& self.device_id@ == device_id
        &&& self.locale@ == LOCALE@
        &&& self.password@ == version_prefix + sealed
        &&& self.sdk_version@ == SDK_VERSION@
        &&& self.user_id@ == account
        &&& self.user_id_type@ == USER_ID_TYPE@
    }

    /// The fields in the order and under the names that the service reads.
    pub open spec fn wire(&self) -> Seq<(Seq<char>, Seq<char>)> {
        seq![
            ("appId"@, self.app_id@),
            ("deviceId"@, self.device_id@),
            ("locale"@, self.locale@),
            ("password"@, self.password@),
            ("sdkVersion"@, self.sdk_version@),
            ("userId"@, self.user_id@),
            ("userIdType"@, self.user_id_type@),
        ]
    }

    /// The login of `account` with the credential `sealed`, which goes out
    /// behind `version_prefix`. The device identifier is the one that the key
    /// request of the same account carried. There is no request where the
    /// account has no device identifier.
    pub fn new(account: &str, version_prefix: &str, sealed: &str) -> (r: Result<Self, ParseError>)
        ensures
            match r {
                Ok(request) => device_id_spec(account@) is Ok && request.is_for(
                    account@,
                    device_id_spec(account@).unwrap(),
                    version_prefix@,
                    sealed@,
                ),
                Err(e) => device_id_spec(account@) == Err::<Seq<char>, ParseError>(e),
            },
    {
        match derive_device_id(account) {
            Ok(device_id) => {
                let mut password = String::from_str(version_prefix);
                password.append(sealed);
                Ok(
                    LoginRequest {
                        app_id: String::from_str(APP_ID),
                        device_id,
                        locale: String::from_str(LOCALE),
                        password,
                        sdk_version: String::from_str(SDK_VERSION),
                        user_id: String::from_str(account),
                        user_id_type: String::from_str(USER_ID_TYPE),
                    },
                )
            },
            Err(e) => Err(e),
        }
    }

    /// The body of the request, field by field.
    pub fn wire_fields(&self) -> (fields: Vec<WireField>)
        ensures
            field_texts(fields@) == self.wire(),
    {
        let mut fields: Vec<WireField> = Vec::new();
        fields.push(wire_field("appId", &self.app_id));
        fields.push(wire_field("deviceId", &self.device_id));
        fields.push(wire_field("locale", &self.locale));
        fields.push(wire_field("password", &self.password));
        fields.push(wire_field("sdkVersion", &self.sdk_version));
        fields.push(wire_field("userId", &self.user_id));
        fields.push(wire_field("userIdType", &self.user_id_type));
        assert(field_texts(fields@) =~= self.wire());
        fields
    }
}

/// The key request and the login of one account name the same device.
pub proof fn lemma_requests_share_device(
    key_request: PublicKeyRequest,
    login: LoginRequest,
    account: Seq<char>,
    version_prefix: Seq<char>,
    sealed: Seq<char>,
)
    requires
        device_id_spec(account) is Ok,
        key_request.is_for(device_id_spec(account).unwrap()),
        login.is_for(account, device_id_spec(account).unwrap(), version_prefix, sealed),
    ensures
        key_request.device_id@ == login.device_id@,
        login.user_id@ == account,
        login.password@.subrange(0, version_prefix.len() as int) == version_prefix,
        login.password@.subrange(version_prefix.len() as int, login.password@.len() as int)
            == sealed,
{
    assert(login.password@.subrange(0, version_prefix.len() as int) =~= version_prefix);
    assert(login.password@.subrange(version_prefix.len() as int, login.password@.len() as int)
        =~= sealed);
}

} // verus!
