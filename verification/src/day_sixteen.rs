//! Reading the claims out of a signed token.

use vstd::prelude::*;
use jsonwebtoken::errors::{Error, ErrorKind};
use jsonwebtoken::{Algorithm, DecodingKey, Validation};

verus! {

/// `jsonwebtoken::Algorithm`, the way in which a token is signed.
#[verifier::external_type_specification]
#[verifier::external_body]
pub struct ExAlgorithm(Algorithm);

/// `jsonwebtoken::DecodingKey`, the key that a signature is checked with.
#[verifier::external_type_specification]
#[verifier::external_body]
pub struct ExDecodingKey(DecodingKey);

/// `jsonwebtoken::Validation`, the checks that a token has to pass.
#[verifier::external_type_specification]
#[verifier::external_body]
pub struct ExValidation(Validation);

/// `jsonwebtoken::errors::Error`, by which a token is refused.
#[verifier::external_type_specification]
#[verifier::external_body]
pub struct ExError(Error);

/// Why the claims of a token are not given out.
#[derive(Clone, Copy, Debug, PartialEq, Eq, Structural)]
pub enum DecodeError {
    /// The token cannot be read, or does not pass the checks.
    Malformed,
    /// The signature is not by the key.
    InvalidSignature,
}

/// The test for a dot.
pub open spec fn is_dot() -> spec_fn(char) -> bool {
    |c: char| c == '.'
}

/// A token has three parts, and so at least two dots.
pub open spec fn has_three_parts(jwt: Seq<char>) -> bool {
    jwt.filter(is_dot()).len() >= 2
}

/// Reads the algorithm that the header of a token names, with
/// `jsonwebtoken::decode_header`. That function checks no signature; it
/// refuses a text that does not split at two dots, and a header that it
/// cannot read.
#[verifier::external_body]
fn header_algorithm(jwt: &str) -> (res: Result<Algorithm, Error>)
    ensures
        res is Ok ==> has_three_parts(jwt@),
{
    jsonwebtoken::decode_header(jwt).map(|header| header.alg)
}

/// The checks of `jsonwebtoken::Validation::new` for one algorithm, with
/// the list of claims that must be present emptied.
#[verifier::external_body]
fn lenient_validation(algorithm: Algorithm) -> (validation: Validation) {
    let mut validation = Validation::new(algorithm);
    validation.required_spec_claims.clear();
    validation
}

/// Checks a token with `jsonwebtoken::decode` and gives its claims as JSON
/// text. Whether a token passes depends on the key, and on the time where
/// its claims name one, so nothing is claimed of the result.
#[verifier::external_body]
fn checked_claims(jwt: &str, key: &DecodingKey, validation: &Validation) -> (res: Result<
    String,
    Error,
>) {
    jsonwebtoken::decode::<serde_json::Value>(jwt, key, validation).map(
        |token| token.claims.to_string(),
    )
}

/// Tells whether an error of `jsonwebtoken` is of the kind
/// `InvalidSignature`.
#[verifier::external_body]
fn is_invalid_signature(error: &Error) -> (yes: bool) {
    matches!(error.kind(), ErrorKind::InvalidSignature)
}

/// How a failed check is reported: a signature that does not match as such,
/// any other failure as a malformed token.
pub open spec fn refusal(invalid_signature: bool) -> DecodeError {
    if invalid_signature {
        DecodeError::InvalidSignature
    } else {
        DecodeError::Malformed
    }
}

/// Picks the error for a failed check.
pub fn refuse(invalid_signature: bool) -> (error: DecodeError)
    ensures
        error == refusal(invalid_signature),
{
    if invalid_signature {
        DecodeError::InvalidSignature
    } else {
        DecodeError::Malformed
    }
}

/// Gives the claims of a token as JSON text, if the token is signed by
/// `key` in the way that its own header names. No claim has to be present.
/// A text without three parts is malformed whatever the key.
pub fn decode(jwt: &str, key: &DecodingKey) -> (res: Result<String, DecodeError>)
    ensures
        !has_three_parts(jwt@) ==> res == Err::<String, DecodeError>(DecodeError::Malformed),
{
    let algorithm = match header_algorithm(jwt) {
        Ok(algorithm) => algorithm,
        Err(_) => {
            return Err(DecodeError::Malformed);
        },
    };
    let validation = lenient_validation(algorithm);
    match checked_claims(jwt, key, &validation) {
        Ok(claims) => Ok(claims),
        Err(error) => Err(refuse(is_invalid_signature(&error))),
    }
}

} // verus!
