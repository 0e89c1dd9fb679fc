//! The calls that leave this library. Nothing here is proved: each contract
//! is what the called function's source or documentation shows, and the rest
//! of the library is proved from these contracts.

use vstd::prelude::*;

verus! {

/// The SHA-256 digest of the UTF-8 bytes of `text`, written as hexadecimal.
pub uninterp spec fn sha256_hex(text: Seq<char>) -> Seq<char>;

/// A hexadecimal digit as a digest is written: `0-9` or `a-f`.
pub open spec fn is_lower_hex(c: char) -> bool {
    let v = c as int;
    0x30 <= v <= 0x39 || 0x61 <= v <= 0x66
}

/// The shape of every digest: 64 digits, the letters in lower case.
pub open spec fn is_digest_text(hex: Seq<char>) -> bool {
    &&& hex.len() == 64
    &&& forall|i: int| 0 <= i < hex.len() ==> is_lower_hex(#[trigger] hex[i])
}

/// Calls `sha256::digest` on a `&str`. The crate hashes the text's bytes with
/// SHA-256 and writes the 32 bytes of the digest with `hex::encode`, two
/// lower-case digits for each byte; the result depends on the text alone.
#[verifier::external_body]
pub(crate) fn sha256_digest(text: &str) -> (hex: String)
    ensures
        hex@ == sha256_hex(text@),
        is_digest_text(hex@),
{
    sha256::digest(text)
}

/// What the standard alphabet with padding decodes `text` to, if it decodes.
pub uninterp spec fn base64_decoded(text: Seq<char>) -> Option<Seq<u8>>;

/// `bytes` written in the standard alphabet with padding.
pub uninterp spec fn base64_encoded(bytes: Seq<u8>) -> Seq<char>;

/// The error of `base64::decode`.
#[verifier::external_type_specification]
#[verifier::external_body]
pub struct ExDecodeError(base64::DecodeError);

/// Calls `base64::decode`, which decodes with the crate's `STANDARD` engine.
/// Whether a text decodes, and to which bytes, depends on the text alone.
#[verifier::external_body]
pub(crate) fn base64_decode(text: &str) -> (r: Result<Vec<u8>, base64::DecodeError>)
    ensures
        match r {
            Ok(bytes) => base64_decoded(text@) == Some(bytes@),
            Err(_) => base64_decoded(text@) is None,
        },
{
    #[allow(deprecated)]
    base64::decode(text)
}

/// Calls `base64::encode`, which encodes with the crate's `STANDARD` engine.
/// The crate panics where the length of the encoded text does not fit a
/// `usize`, and the allocation of the text where it is above `isize::MAX`:
/// the bound keeps four characters for every three bytes below that.
#[verifier::external_body]
pub(crate) fn base64_encode(bytes: &[u8]) -> (text: String)
    requires
        4 * (bytes@.len() / 3 + 1) <= isize::MAX,
    ensures
        text@ == base64_encoded(bytes@),
{
    #[allow(deprecated)]
    base64::encode(bytes)
}

/// The size in bytes of the modulus of the RSA public key that `der` holds as
/// a DER-encoded SubjectPublicKeyInfo, if it holds one.
pub uninterp spec fn rsa_der_size(der: Seq<u8>) -> Option<u32>;

/// The errors that OpenSSL reports.
#[verifier::external_type_specification]
#[verifier::external_body]
pub struct ExErrorStack(openssl::error::ErrorStack);

/// Calls `openssl::rsa::Rsa::public_key_from_der` and, on the key it returns,
/// `size`. Whether the bytes parse, and the size of the key they hold,
/// depend on the bytes alone.
#[verifier::external_body]
pub(crate) fn rsa_key_size(der: &[u8]) -> (r: Result<u32, openssl::error::ErrorStack>)
    ensures
        match r {
            Ok(size) => rsa_der_size(der@) == Some(size),
            Err(_) => rsa_der_size(der@) is None,
        },
{
    match openssl::rsa::Rsa::public_key_from_der(der) {
        Ok(key) => Ok(key.size()),
        Err(e) => Err(e),
    }
}

/// Calls `openssl::rsa::Rsa::public_key_from_der` and, on the key it returns,
/// `public_encrypt` with `Padding::PKCS1`, which writes into `to` and leaves
/// its length as it is. `public_encrypt` panics where `from` is longer than
/// `i32::MAX` or `to` is shorter than the key's size. Nothing is claimed of
/// the bytes written, which the padding draws at random, nor of when the call
/// succeeds.
#[verifier::external_body]
pub(crate) fn rsa_public_encrypt(der: &[u8], from: &[u8], to: &mut Vec<u8>) -> (r: Result<
    usize,
    openssl::error::ErrorStack,
>)
    requires
        from@.len() <= i32::MAX,
        rsa_der_size(der@) matches Some(size) ==> old(to)@.len() >= size,
    ensures
        final(to)@.len() == old(to)@.len(),
{
    let key = openssl::rsa::Rsa::public_key_from_der(der)?;
    key.public_encrypt(from, to.as_mut_slice(), openssl::rsa::Padding::PKCS1)
}

/// A reading of the system clock.
#[verifier::external_type_specification]
#[verifier::external_body]
pub struct ExSystemTime(std::time::SystemTime);

/// The error of a clock reading that lies before the moment it is compared to.
#[verifier::external_type_specification]
#[verifier::external_body]
pub struct ExSystemTimeError(std::time::SystemTimeError);

/// Calls `std::time::SystemTime::now`. Nothing is claimed of the reading.
#[verifier::external_body]
pub(crate) fn clock_now() -> std::time::SystemTime {
    std::time::SystemTime::now()
}

/// Calls `std::time::SystemTime::duration_since` with `UNIX_EPOCH`: the time
/// from the epoch to `at`, or an error where `at` lies before the epoch.
#[verifier::external_body]
pub(crate) fn since_epoch(at: &std::time::SystemTime) -> Result<
    std::time::Duration,
    std::time::SystemTimeError,
> {
    at.duration_since(std::time::UNIX_EPOCH)
}

/// Calls `std::time::Duration::as_secs`: the whole seconds of `span`.
#[verifier::external_body]
pub(crate) fn whole_seconds(span: &std::time::Duration) -> u64 {
    span.as_secs()
}

} // verus!
