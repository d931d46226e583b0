//! What a request names: the experiment, by the text of its identifier.
use crate::errors::ApiError;
use uuid::Uuid;
use vstd::prelude::*;

verus! {

/// The identifier that a text stands for as a UUID, if it is one: what
/// `Uuid::parse_str` makes of the text, as 128 bits.
pub uninterp spec fn uuid_of(text: Seq<char>) -> Option<u128>;

/// `Uuid::parse_str`, with `Uuid::as_u128` for the identifier and
/// `to_string` for the error. Claimed: the outcome depends on the text
/// alone; it is the identifier that the text stands for, or an error if it
/// stands for none.
#[verifier::external_body]
fn parse_uuid(text: &str) -> (parsed: Result<u128, String>)
    ensures
        match parsed {
            Ok(id) => uuid_of(text@) == Some(id),
            Err(_) => uuid_of(text@) is None,
        },
{
    match Uuid::parse_str(text) {
        Ok(id) => Ok(id.as_u128()),
        Err(error) => Err(error.to_string()),
    }
}

/// What the identifier of an experiment in a request comes to: the
/// identifier that the text stands for, or the error for a text that is no
/// UUID, with the parser's words.
pub open spec fn names(text: Seq<char>, found: Result<u128, ApiError>) -> bool {
    match uuid_of(text) {
        Some(id) => found == Ok::<u128, ApiError>(id),
        None => found matches Err(ApiError::InvalidUuid(_)),
    }
}

/// The identifier of a request's experiment from what parsing its text gave:
/// the identifier, or the error for a text that is no UUID, with the
/// parser's words as the cause.
pub fn named(parsed: Result<u128, String>) -> (found: Result<u128, ApiError>)
    ensures
        found == match parsed {
            Ok(id) => Ok::<u128, ApiError>(id),
            Err(cause) => Err::<u128, ApiError>(ApiError::InvalidUuid(cause)),
        },
{
    match parsed {
        Ok(id) => Ok(id),
        Err(cause) => Err(ApiError::InvalidUuid(cause)),
    }
}

/// The experiment that a request names.
pub fn experiment_id(text: &str) -> (found: Result<u128, ApiError>)
    ensures
        names(text@, found),
{
    named(parse_uuid(text))
}

} // verus!
