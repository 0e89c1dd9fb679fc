//! The device identifier of an account: a fixed prefix and a number taken
//! from the account's digest.

use crate::numeral::{
    all_hex, decimal_int, hex_digit, hex_value, lemma_hex_value_nonneg, parse_hex_i32,
    parse_hex_i32_spec, push_decimal_i32, ParseError,
};
use crate::trusted::{is_digest_text, is_lower_hex, sha256_digest, sha256_hex};
use vstd::prelude::*;
use vstd::string::*;

verus! {

/// How many digits of the digest make the number.
pub const DIGEST_PREFIX_LEN: usize = 8;

/// The text that every device identifier starts with.
pub const DEVICE_PREFIX: &'static str = "ACCT";

/// The device identifier that belongs to a digest: the prefix and, in
/// decimal, the number that the first eight digits write, provided it fits a
/// signed 32-bit integer.
pub open spec fn device_id_of_digest(hex: Seq<char>) -> Result<Seq<char>, ParseError> {
    match parse_hex_i32_spec(hex.take(DIGEST_PREFIX_LEN as int)) {
        Ok(n) => Ok(DEVICE_PREFIX@ + decimal_int(n as int)),
        Err(e) => Err(e),
    }
}

/// The device identifier of an account.
pub open spec fn device_id_spec(account: Seq<char>) -> Result<Seq<char>, ParseError> {
    device_id_of_digest(sha256_hex(account))
}

/// The device identifier that belongs to a digest, which is any text of at
/// least eight characters.
pub fn device_id_from_digest(hex: &str) -> (r: Result<String, ParseError>)
    requires
        hex@.len() >= DIGEST_PREFIX_LEN,
    ensures
        match r {
            Ok(id) => device_id_of_digest(hex@) == Ok::<Seq<char>, ParseError>(id@),
            Err(e) => device_id_of_digest(hex@) == Err::<Seq<char>, ParseError>(e),
        },
{
    let head = hex.substring_char(0, DIGEST_PREFIX_LEN);
    assert(head@ =~= hex@.take(DIGEST_PREFIX_LEN as int));
    match parse_hex_i32(head) {
        Ok(n) => {
            let mut id = String::from_str(DEVICE_PREFIX);
            push_decimal_i32(&mut id, n);
            Ok(id)
        },
        Err(e) => Err(e),
    }
}

/// Derives the device identifier of `account`. The same account always gives
/// the same identifier. The derivation fails, with `ParseError::Overflow` and
/// with nothing else, exactly where the first eight digits of the digest
/// write a number above `i32::MAX`: no number is ever wrapped.
pub fn derive_device_id(account: &str) -> (r: Result<String, ParseError>)
    ensures
        match r {
            Ok(id) => device_id_spec(account@) == Ok::<Seq<char>, ParseError>(id@),
            Err(e) => device_id_spec(account@) == Err::<Seq<char>, ParseError>(e),
        },
        r is Err <==> hex_value(sha256_hex(account@).take(DIGEST_PREFIX_LEN as int)) > i32::MAX,
        r is Err ==> r == Err::<String, ParseError>(ParseError::Overflow),
{
    let hex = sha256_digest(account);
    proof {
        lemma_digest_prefix_is_hex(hex@);
    }
    device_id_from_digest(hex.as_str())
}

/// The first eight characters of a digest are hexadecimal digits.
pub proof fn lemma_digest_prefix_is_hex(hex: Seq<char>)
    requires
        is_digest_text(hex),
    ensures
        hex.take(DIGEST_PREFIX_LEN as int).len() == DIGEST_PREFIX_LEN,
        all_hex(hex.take(DIGEST_PREFIX_LEN as int)),
{
    let head = hex.take(DIGEST_PREFIX_LEN as int);
    assert forall|i: int| 0 <= i < head.len() implies (#[trigger] hex_digit(head[i])) is Some by {
        assert(head[i] == hex[i]);
        assert(is_lower_hex(hex[i]));
    }
}

/// Equal accounts have equal device identifiers: the derivation reads
/// nothing but the account.
pub proof fn lemma_device_id_deterministic(first: Seq<char>, second: Seq<char>)
    requires
        first =~= second,
    ensures
        device_id_spec(first) == device_id_spec(second),
{
}

/// A device identifier is the prefix followed by the decimal text of a signed
/// 32-bit integer, which is never negative; and whether there is one is
/// decided by that integer's range alone wherever the digest's first eight
/// characters are digits.
pub proof fn lemma_device_id_shape(account: Seq<char>)
    ensures
        match device_id_spec(account) {
            Ok(id) => exists|n: i32|
                0 <= n && id == DEVICE_PREFIX@ + #[trigger] decimal_int(n as int) && n
                    == hex_value(sha256_hex(account).take(DIGEST_PREFIX_LEN as int)),
            Err(e) => is_digest_text(sha256_hex(account)) ==> e == ParseError::Overflow
                && hex_value(sha256_hex(account).take(DIGEST_PREFIX_LEN as int)) > i32::MAX,
        },
{
    let head = sha256_hex(account).take(DIGEST_PREFIX_LEN as int);
    lemma_hex_value_nonneg(head);
    match device_id_spec(account) {
        Ok(id) => {
            let n = hex_value(head) as i32;
            assert(id == DEVICE_PREFIX@ + decimal_int(n as int));
        },
        Err(e) => {
            if is_digest_text(sha256_hex(account)) {
                lemma_digest_prefix_is_hex(sha256_hex(account));
            }
        },
    }
}

} // verus!
