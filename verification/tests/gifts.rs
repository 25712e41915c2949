use cch24::day_sixteen::{decode, refuse, DecodeError};
use jsonwebtoken::{encode, Algorithm, DecodingKey, EncodingKey, Header};
use serde_json::Value;

fn token(algorithm: Algorithm, claims: &str, secret: &[u8]) -> String {
    let claims: Value = serde_json::from_str(claims).unwrap();
    encode(&Header::new(algorithm), &claims, &EncodingKey::from_secret(secret)).unwrap()
}

#[test]
fn decode_gives_the_claims() {
    let jwt = token(Algorithm::HS256, "{\"reindeer\":\"Dasher\",\"count\":3}", b"secret");
    assert_eq!(
        decode(&jwt, &DecodingKey::from_secret(b"secret")),
        Ok("{\"count\":3,\"reindeer\":\"Dasher\"}".to_string())
    );
}

#[test]
fn decode_goes_by_the_algorithm_of_the_header() {
    let jwt = token(Algorithm::HS512, "{\"gift\":\"sled\"}", b"secret");
    assert_eq!(
        decode(&jwt, &DecodingKey::from_secret(b"secret")),
        Ok("{\"gift\":\"sled\"}".to_string())
    );
}

#[test]
fn decode_refuses_a_signature_by_another_key() {
    let jwt = token(Algorithm::HS256, "{\"reindeer\":\"Dasher\"}", b"secret");
    assert_eq!(
        decode(&jwt, &DecodingKey::from_secret(b"another")),
        Err(DecodeError::InvalidSignature)
    );
    let mut forged = jwt.clone();
    let last = forged.pop().unwrap();
    forged.push(if last == 'A' { 'B' } else { 'A' });
    assert_eq!(
        decode(&forged, &DecodingKey::from_secret(b"secret")),
        Err(DecodeError::InvalidSignature)
    );
}

#[test]
fn decode_refuses_what_is_no_token() {
    let key = DecodingKey::from_secret(b"secret");
    assert_eq!(decode("", &key), Err(DecodeError::Malformed));
    assert_eq!(decode("no token", &key), Err(DecodeError::Malformed));
    assert_eq!(decode("one.dot", &key), Err(DecodeError::Malformed));
    assert_eq!(decode("a.b.c", &key), Err(DecodeError::Malformed));
}

#[test]
fn decode_refuses_a_token_that_has_expired() {
    let jwt = token(Algorithm::HS256, "{\"exp\":1}", b"secret");
    assert_eq!(decode(&jwt, &DecodingKey::from_secret(b"secret")), Err(DecodeError::Malformed));
}

#[test]
fn failures_are_malformed_unless_the_signature_is_wrong() {
    assert_eq!(refuse(true), DecodeError::InvalidSignature);
    assert_eq!(refuse(false), DecodeError::Malformed);
}
