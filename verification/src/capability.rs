//! Capabilities: opaque random tokens that are kept only as digests.
use sha2::{Digest, Sha256};
use subtle::ConstantTimeEq;
use uuid::Uuid;
use vstd::prelude::*;
use vstd::string::*;

use crate::header;
use crate::problem::ApiError;
use crate::text;

verus! {

/// The lower-case hexadecimal digit that stands for `d`.
pub open spec fn hex_digit(d: int) -> char {
    if d < 10 {
        (48 + d) as char
    } else {
        (87 + d) as char
    }
}

/// The `i`-th of the 32 hexadecimal digits of `id`, the most significant first.
pub open spec fn nibble(id: u128, i: int) -> int {
    (id as int / vstd::arithmetic::power::pow(16, (31 - i) as nat)) % 16
}

/// The 32 hexadecimal digits of `id`.
pub open spec fn simple_text(id: u128) -> Seq<char> {
    Seq::new(32, |i: int| hex_digit(nibble(id, i)))
}

/// The hexadecimal digits of `id` in the grouping of a UUID.
pub open spec fn hyphenated_text(id: u128) -> Seq<char> {
    let digits = simple_text(id);
    digits.subrange(0, 8) + seq!['-'] + digits.subrange(8, 12) + seq!['-'] + digits.subrange(12, 16)
        + seq!['-'] + digits.subrange(16, 20) + seq!['-'] + digits.subrange(20, 32)
}

/// The identifier is marked as a random UUID: version 4 and the standard variant.
pub open spec fn is_random_id(id: u128) -> bool {
    nibble(id, 12) == 4 && 8 <= nibble(id, 16) <= 11
}

/// The digits of two random identifiers: the form of every token.
pub open spec fn is_token(value: Seq<char>) -> bool {
    exists|first: u128, second: u128|
        is_random_id(first) && is_random_id(second) && value == #[trigger] simple_text(first)
            + #[trigger] simple_text(second)
}

/// The token was drawn: its digits are those of two identifiers, each drawn for
/// its half of a token.
pub closed spec fn is_minted(value: Seq<char>) -> bool {
    exists|first: u128, second: u128|
        call_ensures(first_half, (), first) && call_ensures(second_half, (), second) && value
            == #[trigger] simple_text(first) + #[trigger] simple_text(second)
}

/// The SHA-256 digest of a message, as `sha2` computes it.
pub uninterp spec fn sha256(message: Seq<u8>) -> Seq<u8>;

/// What is kept of a token: the digest of its UTF-8 form.
pub open spec fn token_digest(value: Seq<char>) -> Seq<u8> {
    sha256(vstd::utf8::encode_utf8(value))
}

/// The token that an `Authorization` header carries, if it carries one.
pub open spec fn bearer_token(authorization: Option<Seq<u8>>) -> Option<Seq<char>> {
    match authorization {
        None => None,
        Some(raw) => match header::text_of(raw) {
            None => None,
            Some(value) => match text::strip_prefix(value, "Bearer "@) {
                None => None,
                Some(token) => if token.len() > 0 {
                    Some(token)
                } else {
                    None
                },
            },
        },
    }
}

/// The view of an optional byte string.
pub open spec fn bytes_of(raw: Option<&[u8]>) -> Option<Seq<u8>> {
    match raw {
        Some(raw) => Some(raw@),
        None => None,
    }
}

/// A fresh identifier from `Uuid::new_v4`.
///
/// Chance decides which one comes back; its version and variant marks are
/// those of a random UUID.
#[verifier::external_body]
pub(crate) fn new_id() -> (id: u128)
    ensures
        is_random_id(id),
{
    Uuid::new_v4().as_u128()
}

/// The text of `Uuid::simple`: the 32 lower-case hexadecimal digits.
#[verifier::external_body]
pub(crate) fn id_digits(id: u128) -> (digits: String)
    ensures
        digits@ == simple_text(id),
{
    Uuid::from_u128(id).simple().to_string()
}

/// The text of `Uuid::hyphenated`: the lower-case hexadecimal digits in groups
/// of 8, 4, 4, 4 and 12, with a hyphen between them.
#[verifier::external_body]
pub(crate) fn id_text(id: u128) -> (name: String)
    ensures
        name@ == hyphenated_text(id),
{
    Uuid::from_u128(id).hyphenated().to_string()
}

/// The digest that `Sha256::digest` computes of `message`.
#[verifier::external_body]
pub(crate) fn sha256_digest(message: &[u8]) -> (digest: [u8; 32])
    ensures
        digest@ == sha256(message@),
{
    Sha256::digest(message).into()
}

/// The answer of `subtle`'s `ct_eq`: whether the two byte strings are equal.
/// That it takes the same time on all of them is not part of this contract.
#[verifier::external_body]
pub(crate) fn constant_time_eq(left: &[u8; 32], right: &[u8; 32]) -> (answer: bool)
    ensures
        answer == (left@ == right@),
{
    bool::from(left.ct_eq(right))
}

/// Draws the identifier whose digits open a token.
fn first_half() -> (id: u128)
    ensures
        is_random_id(id),
{
    new_id()
}

/// Draws the identifier whose digits close a token.
fn second_half() -> (id: u128)
    ensures
        is_random_id(id),
{
    new_id()
}

/// A fresh token: the digits of two random identifiers.
pub fn token() -> (value: String)
    ensures
        is_token(value@),
        is_minted(value@),
{
    let first: u128 = first_half();
    let second: u128 = second_half();
    token_from(first, second)
}

/// The token made of two given identifiers.
pub fn token_from(first: u128, second: u128) -> (value: String)
    ensures
        value@ == simple_text(first) + simple_text(second),
{
    let mut value: String = id_digits(first);
    let rest: String = id_digits(second);
    value.append(rest.as_str());
    value
}

/// Draws the secret that pairs a phone with a new tunnel.
pub(crate) fn draw_pairing_secret() -> (value: String)
    ensures
        is_token(value@),
        is_minted(value@),
{
    token()
}

/// Draws the capability of the desktop that makes a tunnel.
pub(crate) fn draw_desktop_capability() -> (value: String)
    ensures
        is_token(value@),
        is_minted(value@),
{
    token()
}

/// Draws the capability of a phone that claims a tunnel.
pub(crate) fn draw_phone_capability() -> (value: String)
    ensures
        is_token(value@),
        is_minted(value@),
{
    token()
}

/// Draws an event ticket.
pub(crate) fn draw_event_ticket() -> (value: String)
    ensures
        is_token(value@),
        is_minted(value@),
{
    token()
}

/// The digest under which a token is kept.
pub fn token_hash(value: &str) -> (digest: [u8; 32])
    ensures
        digest@ == token_digest(value@),
{
    sha256_digest(value.as_bytes())
}

/// Whether two digests are equal, compared in constant time.
pub fn hashes_equal(left: &[u8; 32], right: &[u8; 32]) -> (answer: bool)
    ensures
        answer == (left@ == right@),
{
    constant_time_eq(left, right)
}

/// The digest of the token that a raw `Authorization` header carries.
pub fn bearer_hash(authorization: Option<&[u8]>) -> (result: Result<[u8; 32], ApiError>)
    ensures
        match bearer_token(bytes_of(authorization)) {
            Some(token) => result matches Ok(digest) && digest@ == token_digest(token),
            None => result == Err::<[u8; 32], ApiError>(ApiError::Unauthorized),
        },
{
    let raw: &[u8] = match authorization {
        Some(raw) => raw,
        None => {
            return Err(ApiError::Unauthorized);
        },
    };
    let value: String = match header::header_text(raw) {
        Some(value) => value,
        None => {
            return Err(ApiError::Unauthorized);
        },
    };
    let chars: Vec<char> = text::chars_of(value.as_str());
    let scheme: Vec<char> = text::chars_of("Bearer ");
    if !text::starts_with_chars(chars.as_slice(), scheme.as_slice()) {
        return Err(ApiError::Unauthorized);
    }
    if chars.len() == scheme.len() {
        return Err(ApiError::Unauthorized);
    }
    let token: &str = value.as_str().substring_char(scheme.len(), chars.len());
    assert(token@ =~= value@.skip(scheme@.len() as int));
    Ok(token_hash(token))
}

} // verus!
