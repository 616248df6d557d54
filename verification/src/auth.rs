//! Caller identity: bearer tokens, decoded claims, and the row-filter value
//! that a block draws from them.

use vstd::prelude::*;
use serde_json::Value;
use crate::json::{member, object_members, text_of};
use crate::schema::Block;
use crate::text::{characters, optional_text};

verus! {

/// `jsonwebtoken::errors::Error`, carried through without being looked into.
#[verifier::external_type_specification]
#[verifier::external_body]
pub struct ExTokenError(jsonwebtoken::errors::Error);

/// The decoded claim set of a caller: claim names to JSON values.
#[derive(Debug)]
pub struct Claims(pub serde_json::Map<String, Value>);

impl View for Claims {
    type V = Map<Seq<char>, Value>;

    open spec fn view(&self) -> Map<Seq<char>, Value> {
        object_members(self.0)
    }
}

/// The identity under which a request runs.
#[derive(Debug)]
pub struct AuthContext {
    pub claims: Claims,
}

/// Why a request carries no usable identity.
#[derive(Debug, Clone, Copy, PartialEq, Eq, Structural)]
pub enum AuthError {
    TokenMissing,
    InvalidToken,
}

/// The text of the claim `name`, where the claims hold it and it is a string.
pub open spec fn claim_text(claims: Map<Seq<char>, Value>, name: Seq<char>) -> Option<Seq<char>> {
    if claims.contains_key(name) {
        text_of(claims[name])
    } else {
        None
    }
}

/// The row-filter value for a block that filters on `field`: the caller's
/// claim of that name where it is a string, and nothing where the block
/// declares no filter field, or the claim is missing or not a string.
pub open spec fn filter_value(field: Option<Seq<char>>, claims: Map<Seq<char>, Value>) -> Option<
    Seq<char>,
> {
    match field {
        Some(name) => claim_text(claims, name),
        None => None,
    }
}

impl Claims {
    /// The text of the claim `name`, where it is present and a string.
    pub fn text(&self, name: &str) -> (found: Option<String>)
        ensures
            optional_text(found) == claim_text(self@, name@),
    {
        match member(&self.0, name) {
            Some(value) => match value.as_str() {
                Some(text) => Some(String::from_str(text)),
                None => None,
            },
            None => None,
        }
    }
}

/// Resolves the value by which `block` filters rows for the caller. A missing
/// or non-string claim disables the filter rather than failing the request.
pub fn resolve(block: &Block, claims: &Claims) -> (value: Option<String>)
    ensures
        optional_text(value) == filter_value(block@.auth_filter_field, claims@),
{
    match &block.auth_filter_field {
        Some(field) => claims.text(field.as_str()),
        None => None,
    }
}

/// `text` with every leading repetition of `word` removed.
pub open spec fn trim_leading(text: Seq<char>, word: Seq<char>) -> Seq<char>
    decreases text.len(),
{
    if word.len() > 0 && word.is_prefix_of(text) {
        trim_leading(text.skip(word.len() as int), word)
    } else {
        text
    }
}

/// The token that an `Authorization` header value carries: what follows the
/// leading `Bearer ` (repeated or not), and nothing where the value does not
/// start with it.
pub open spec fn bearer_token(header: Seq<char>) -> Option<Seq<char>> {
    if "Bearer "@.is_prefix_of(header) {
        Some(trim_leading(header, "Bearer "@))
    } else {
        None
    }
}

/// Whether `word` stands in `text` at position `at`.
fn occurs_at(text: &Vec<char>, at: usize, word: &Vec<char>) -> (occurs: bool)
    requires
        at <= text.len(),
    ensures
        occurs == word@.is_prefix_of(text@.skip(at as int)),
{
    if word.len() > text.len() - at {
        return false;
    }
    let ghost rest = text@.skip(at as int);
    let mut i: usize = 0;
    while i < word.len()
        invariant
            i <= word.len(),
            at + word.len() <= text.len(),
            rest == text@.skip(at as int),
            forall|j: int| 0 <= j < i ==> rest[j] == word[j],
        decreases word.len() - i,
    {
        if text[at + i] != word[i] {
            assert(rest.subrange(0, word.len() as int)[i as int] != word[i as int]);
            return false;
        }
        i = i + 1;
    }
    assert(word@ =~= rest.subrange(0, word.len() as int));
    true
}

/// Extracts the bearer token from an `Authorization` header value.
pub fn extract_bearer_token(header: &str) -> (token: Option<String>)
    ensures
        optional_text(token) == bearer_token(header@),
{
    let scheme = characters("Bearer ");
    let text = characters(header);
    proof {
        reveal_strlit("Bearer ");
        assert(text@.skip(0) =~= text@);
    }
    if !occurs_at(&text, 0, &scheme) {
        return None;
    }
    let mut start: usize = 0;
    while occurs_at(&text, start, &scheme)
        invariant
            start <= text.len(),
            scheme.len() > 0,
            trim_leading(text@, scheme@) == trim_leading(text@.skip(start as int), scheme@),
        decreases text.len() - start,
    {
        proof {
            assert(text@.skip(start as int).skip(scheme.len() as int) =~= text@.skip(
                start as int + scheme.len() as int,
            ));
        }
        start = start + scheme.len();
    }
    let rest = header.substring_char(start, text.len());
    assert(rest@ =~= text@.skip(start as int));
    Some(String::from_str(rest))
}

/// `jsonwebtoken::decode` of `token` into a JSON object of claims, with an
/// HMAC key made from `secret` by `DecodingKey::from_secret` and the checks
/// of `Validation::default()`. Whether a token is accepted depends on the
/// clock, so nothing is promised of the outcome. The call reads the time since
/// 1970 and fails outright on a machine whose clock stands before that.
#[verifier::external_body]
fn decode_claims(token: &str, secret: &[u8]) -> (decoded: Result<
    serde_json::Map<String, Value>,
    jsonwebtoken::errors::Error,
>) {
    let key = jsonwebtoken::DecodingKey::from_secret(secret);
    let validation = jsonwebtoken::Validation::default();
    match jsonwebtoken::decode::<serde_json::Map<String, Value>>(token, &key, &validation) {
        Ok(data) => Ok(data.claims),
        Err(error) => Err(error),
    }
}

/// The identity that a decoding outcome gives: the claims of an accepted
/// token, and `InvalidToken` for a rejected one, whatever the reason.
pub fn identity_of(
    decoded: Result<serde_json::Map<String, Value>, jsonwebtoken::errors::Error>,
) -> (outcome: Result<AuthContext, AuthError>)
    ensures
        match decoded {
            Ok(claims) => outcome == Ok::<AuthContext, AuthError>(
                AuthContext { claims: Claims(claims) },
            ),
            Err(_) => outcome == Err::<AuthContext, AuthError>(AuthError::InvalidToken),
        },
{
    match decoded {
        Ok(claims) => Ok(AuthContext { claims: Claims(claims) }),
        Err(_) => Err(AuthError::InvalidToken),
    }
}

/// Establishes the caller's identity from the `Authorization` header value,
/// if there is one, checking the token's signature against `secret`.
pub fn authenticate(authorization: Option<&str>, secret: &[u8]) -> (outcome: Result<
    AuthContext,
    AuthError,
>)
    ensures
        match authorization {
            Some(header) if bearer_token(header@) is Some => outcome is Ok || outcome == Err::<
                AuthContext,
                AuthError,
            >(AuthError::InvalidToken),
            _ => outcome == Err::<AuthContext, AuthError>(AuthError::TokenMissing),
        },
{
    let token = match authorization {
        Some(header) => extract_bearer_token(header),
        None => None,
    };
    match token {
        Some(token) => identity_of(decode_claims(token.as_str(), secret)),
        None => Err(AuthError::TokenMissing),
    }
}

} // verus!
