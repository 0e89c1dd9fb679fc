//! The credential sealed for the login: the secret and the time of sealing,
//! encrypted with RSA under PKCS#1 v1.5 padding and written in base64.

use crate::material::KeyMaterial;
use crate::numeral::{
    decimal, decimal_value, is_decimal_digit, lemma_decimal_injective, lemma_decimal_is_digits,
    lemma_decimal_len_u64, lemma_decimal_value, push_decimal,
};
use crate::trusted::{
    base64_decode, base64_decoded, base64_encode, base64_encoded, clock_now, rsa_der_size,
    rsa_key_size, rsa_public_encrypt, since_epoch, whole_seconds,
};
use vstd::prelude::*;
use vstd::string::*;
use vstd::utf8::{encode_utf8, is_ascii_chars, is_ascii_chars_encode_utf8};

verus! {

/// Why no credential was sealed.
#[derive(Clone, Copy, Debug, PartialEq, Eq, Structural)]
pub enum CryptoError {
    /// The key is no base64 text, holds no RSA public key, or is one that
    /// cannot be used to encrypt.
    KeyParse,
    /// The secret with its time stamp is longer than the padding leaves room
    /// for under this key.
    EncryptTooLarge,
    /// The clock stands before the epoch.
    ClockError,
}

/// The bytes that PKCS#1 v1.5 padding takes from a block.
pub const PKCS1_OVERHEAD: u32 = 11;

/// The least that the colon and the time add to the secret, in bytes.
pub const STAMP_MIN_LEN: usize = 2;

/// The most that the colon and the time add to the secret, in bytes.
pub const STAMP_MAX_LEN: usize = 21;

/// A block of `n` bytes can be written in base64 on this machine.
pub open spec fn encodable(n: nat) -> bool {
    4 * (n / 3 + 1) <= isize::MAX
}

/// The size in bytes of the key that `public_key` holds, where it holds one
/// whose blocks this machine can encode.
pub open spec fn key_size_spec(public_key: Seq<char>) -> Option<u32> {
    match base64_decoded(public_key) {
        Some(der) => match rsa_der_size(der) {
            Some(size) => if encodable(size as nat) {
                Some(size)
            } else {
                None
            },
            None => None,
        },
        None => None,
    }
}

/// What is encrypted: the secret, a colon, and the seconds since the epoch.
pub open spec fn plaintext_spec(secret: Seq<char>, unix_secs: u64) -> Seq<char> {
    secret + seq![':'] + decimal(unix_secs as nat)
}

/// The length in bytes of what is encrypted.
pub open spec fn plaintext_len(secret: Seq<char>, unix_secs: u64) -> nat {
    encode_utf8(plaintext_spec(secret, unix_secs)).len()
}

/// A plaintext of `len` bytes has room under a key of `size` bytes.
pub open spec fn plaintext_fits(len: nat, size: u32) -> bool {
    len + PKCS1_OVERHEAD <= size && len <= i32::MAX
}

/// `text` is the base64 of some block of `size` bytes.
pub open spec fn is_sealed_block(text: Seq<char>, size: u32) -> bool {
    exists|cipher: Seq<u8>| cipher.len() == size && text == #[trigger] base64_encoded(cipher)
}

/// What is encrypted at two different seconds differs, whatever the secret:
/// no sealed credential stands for another moment than its own.
pub proof fn lemma_plaintext_tells_time(secret: Seq<char>, first: u64, second: u64)
    requires
        first != second,
    ensures
        plaintext_spec(secret, first) != plaintext_spec(secret, second),
{
    let head = secret + seq![':'];
    let a = plaintext_spec(secret, first);
    let b = plaintext_spec(secret, second);
    if a == b {
        assert(a.skip(head.len() as int) =~= decimal(first as nat));
        assert(b.skip(head.len() as int) =~= decimal(second as nat));
        lemma_decimal_injective(first as nat, second as nat);
    }
}

/// The bytes of two texts in a row are the bytes of the first and then the
/// bytes of the second.
pub proof fn lemma_utf8_concat(first: Seq<char>, second: Seq<char>)
    ensures
        encode_utf8(first + second) == encode_utf8(first) + encode_utf8(second),
    decreases first.len(),
{
    if first.len() == 0 {
        assert(first + second =~= second);
        assert(encode_utf8(first) + encode_utf8(second) =~= encode_utf8(second));
    } else {
        assert((first + second).drop_first() =~= first.drop_first() + second);
        assert((first + second)[0] == first[0]);
        lemma_utf8_concat(first.drop_first(), second);
        assert(encode_utf8(first + second) =~= encode_utf8(first) + encode_utf8(second));
    }
}

/// What is encrypted is as long as the secret, one byte for the colon, and
/// one byte for each digit of the time: at least two bytes more than the
/// secret, and at most `STAMP_MAX_LEN` more.
pub proof fn lemma_plaintext_len(secret: Seq<char>, unix_secs: u64)
    ensures
        plaintext_len(secret, unix_secs) == encode_utf8(secret).len() + 1 + decimal(
            unix_secs as nat,
        ).len(),
        encode_utf8(secret).len() + STAMP_MIN_LEN <= plaintext_len(secret, unix_secs)
            <= encode_utf8(secret).len() + STAMP_MAX_LEN,
{
    let stamp = seq![':'] + decimal(unix_secs as nat);
    lemma_decimal_is_digits(unix_secs as nat);
    lemma_decimal_len_u64(unix_secs);
    assert(is_ascii_chars(stamp)) by {
        assert forall|i: int| 0 <= i < stamp.len() implies '\0' <= #[trigger] stamp[i]
            <= '\u{7f}' by {
            if i > 0 {
                assert(stamp[i] == decimal(unix_secs as nat)[i - 1]);
                assert(is_decimal_digit(decimal(unix_secs as nat)[i - 1]));
            }
        }
    }
    is_ascii_chars_encode_utf8(stamp);
    assert(plaintext_spec(secret, unix_secs) =~= secret + stamp);
    lemma_utf8_concat(secret, stamp);
}

/// A secret this short has room under a key of `size` bytes whatever the
/// time.
pub open spec fn fits_always(secret: Seq<char>, size: u32) -> bool {
    plaintext_fits(encode_utf8(secret).len() + STAMP_MAX_LEN as nat, size)
}

/// A secret this long has no room under a key of `size` bytes at any time.
pub open spec fn fits_never(secret: Seq<char>, size: u32) -> bool {
    !plaintext_fits(encode_utf8(secret).len() + STAMP_MIN_LEN as nat, size)
}

/// Whether a secret has room is decided by its length alone, but for the
/// nineteen bytes by which the digits of the time can vary.
pub proof fn lemma_room_for_secret(secret: Seq<char>, size: u32, unix_secs: u64)
    ensures
        fits_always(secret, size) ==> plaintext_fits(plaintext_len(secret, unix_secs), size),
        fits_never(secret, size) ==> !plaintext_fits(plaintext_len(secret, unix_secs), size),
{
    lemma_plaintext_len(secret, unix_secs);
}

/// What is encrypted opens again: the secret stands before a colon, and what
/// follows the colon is digits only and reads as the second of sealing. So
/// the last colon of the text parts the two, whatever the secret holds.
pub proof fn lemma_plaintext_opens(secret: Seq<char>, unix_secs: u64)
    ensures
        ({
            let plain = plaintext_spec(secret, unix_secs);
            let stamp = plain.skip(secret.len() as int + 1);
            &&& plain.len() >= secret.len() + 2
            &&& plain.take(secret.len() as int) == secret
            &&& plain[secret.len() as int] == ':'
            &&& stamp == decimal(unix_secs as nat)
            &&& decimal_value(stamp) == unix_secs
            &&& forall|i: int| 0 <= i < stamp.len() ==> is_decimal_digit(#[trigger] stamp[i])
        }),
{
    let plain = plaintext_spec(secret, unix_secs);
    lemma_decimal_value(unix_secs as nat);
    lemma_decimal_is_digits(unix_secs as nat);
    assert(plain.take(secret.len() as int) =~= secret);
    assert(plain.skip(secret.len() as int + 1) =~= decimal(unix_secs as nat));
}

/// Forms the text that is encrypted.
pub fn plaintext(secret: &str, unix_secs: u64) -> (p: String)
    ensures
        p@ == plaintext_spec(secret@, unix_secs),
{
    proof {
        reveal_strlit(":");
    }
    let mut p = String::from_str(secret);
    p.append(":");
    push_decimal(&mut p, unix_secs);
    assert(p@ =~= plaintext_spec(secret@, unix_secs));
    p
}

/// Reads the key: its DER bytes and its size.
fn open_key(key: &KeyMaterial) -> (r: Result<(Vec<u8>, u32), CryptoError>)
    ensures
        match r {
            Ok((der, size)) => base64_decoded(key.public_key@) == Some(der@) && rsa_der_size(der@)
                == Some(size) && key_size_spec(key.public_key@) == Some(size),
            Err(e) => e == CryptoError::KeyParse && key_size_spec(key.public_key@) is None,
        },
{
    let der = match base64_decode(key.public_key.as_str()) {
        Ok(der) => der,
        Err(_) => {
            return Err(CryptoError::KeyParse);
        },
    };
    let size = match rsa_key_size(der.as_slice()) {
        Ok(size) => size,
        Err(_) => {
            return Err(CryptoError::KeyParse);
        },
    };
    if size as usize / 3 + 1 > isize::MAX as usize / 4 {
        return Err(CryptoError::KeyParse);
    }
    Ok((der, size))
}

/// What the handshake sends for an encryption that ended in `outcome` and
/// left `cipher` in the buffer: the whole buffer in base64 where the engine
/// succeeded, `KeyParse` where it refused the key.
pub fn sealed_text(outcome: Result<usize, openssl::error::ErrorStack>, cipher: &[u8]) -> (r: Result<
    String,
    CryptoError,
>)
    requires
        encodable(cipher@.len()),
    ensures
        match r {
            Ok(text) => outcome is Ok && text@ == base64_encoded(cipher@),
            Err(e) => outcome is Err && e == CryptoError::KeyParse,
        },
{
    match outcome {
        Ok(_) => Ok(base64_encode(cipher)),
        Err(_) => Err(CryptoError::KeyParse),
    }
}

/// Seals `secret` with the time `unix_secs` under a key that was read.
fn seal(secret: &str, der: &[u8], size: u32, unix_secs: u64) -> (r: Result<String, CryptoError>)
    requires
        rsa_der_size(der@) == Some(size),
        encodable(size as nat),
    ensures
        !plaintext_fits(plaintext_len(secret@, unix_secs), size) ==> r == Err::<
            String,
            CryptoError,
        >(CryptoError::EncryptTooLarge),
        plaintext_fits(plaintext_len(secret@, unix_secs), size) ==> match r {
            Ok(text) => is_sealed_block(text@, size),
            Err(e) => e == CryptoError::KeyParse,
        },
{
    let plain = plaintext(secret, unix_secs);
    let bytes = plain.as_str().as_bytes();
    let len = bytes.len();
    if size < PKCS1_OVERHEAD || len > (size - PKCS1_OVERHEAD) as usize || len > i32::MAX as usize {
        return Err(CryptoError::EncryptTooLarge);
    }
    let mut cipher: Vec<u8> = vec![0u8; size as usize];
    let outcome = rsa_public_encrypt(der, bytes, &mut cipher);
    let r = sealed_text(outcome, cipher.as_slice());
    assert(r matches Ok(text) ==> text@ == base64_encoded(cipher@));
    r
}

/// Seals `secret` under `key` with the time stamp `unix_secs`: the text
/// `"<secret>:<unix_secs>"`, encrypted and written in base64. A key that
/// cannot be read is reported before anything else, then a plaintext that
/// has no room under the key: in neither case is the engine asked. Where it
/// is asked, the result is the base64 of a block as long as the key, or
/// `KeyParse` where the engine refuses the key.
pub fn encrypt_at(secret: &str, key: &KeyMaterial, unix_secs: u64) -> (r: Result<
    String,
    CryptoError,
>)
    ensures
        key_size_spec(key.public_key@) is None ==> r == Err::<String, CryptoError>(
            CryptoError::KeyParse,
        ),
        key_size_spec(key.public_key@) matches Some(size) ==> {
            if plaintext_fits(plaintext_len(secret@, unix_secs), size) {
                match r {
                    Ok(text) => is_sealed_block(text@, size),
                    Err(e) => e == CryptoError::KeyParse,
                }
            } else {
                r == Err::<String, CryptoError>(CryptoError::EncryptTooLarge)
            }
        },
{
    match open_key(key) {
        Ok((der, size)) => seal(secret, der.as_slice(), size, unix_secs),
        Err(e) => Err(e),
    }
}

/// Seals `secret` under `key` with the time the clock shows. The key is read
/// first, then the clock; what holds of `encrypt_at` holds here for the
/// second that was read, which no caller can know beforehand.
pub fn encrypt(secret: &str, key: &KeyMaterial) -> (r: Result<String, CryptoError>)
    ensures
        key_size_spec(key.public_key@) is None ==> r == Err::<String, CryptoError>(
            CryptoError::KeyParse,
        ),
        key_size_spec(key.public_key@) matches Some(size) ==> match r {
            Ok(text) => is_sealed_block(text@, size) && exists|unix_secs: u64|
                plaintext_fits(#[trigger] plaintext_len(secret@, unix_secs), size),
            Err(CryptoError::EncryptTooLarge) => exists|unix_secs: u64|
                !plaintext_fits(#[trigger] plaintext_len(secret@, unix_secs), size),
            Err(_) => true,
        },
        key_size_spec(key.public_key@) matches Some(size) && fits_always(secret@, size) ==> r
            != Err::<String, CryptoError>(CryptoError::EncryptTooLarge),
        key_size_spec(key.public_key@) matches Some(size) && fits_never(secret@, size) ==> r
            == Err::<String, CryptoError>(CryptoError::EncryptTooLarge) || r == Err::<
            String,
            CryptoError,
        >(CryptoError::ClockError),
{
    let (der, size) = match open_key(key) {
        Ok(opened) => opened,
        Err(e) => {
            return Err(e);
        },
    };
    let now = clock_now();
    match since_epoch(&now) {
        Ok(span) => {
            let unix_secs = whole_seconds(&span);
            let r = seal(secret, der.as_slice(), size, unix_secs);
            proof {
                lemma_room_for_secret(secret@, size, unix_secs);
            }
            assert(r is Ok ==> plaintext_fits(plaintext_len(secret@, unix_secs), size));
            assert(r == Err::<String, CryptoError>(CryptoError::EncryptTooLarge)
                ==> !plaintext_fits(plaintext_len(secret@, unix_secs), size));
            r
        },
        Err(_) => Err(CryptoError::ClockError),
    }
}

} // verus!
