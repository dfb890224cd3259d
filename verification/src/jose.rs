//! The trusted boundary to the JOSE engine and the JSON claims values.
//!
//! Signature checking and JSON decoding are outside collaborators. Each
//! wrapper here makes one such call; its contract names the call's result,
//! and everything the library concludes from a token rests on these
//! contracts. The claims of a decoded token travel as an opaque
//! `serde_json::Value`; the accessors below read its string, integer and
//! boolean fields as plain values.

use vstd::prelude::*;

verus! {

#[verifier::external_type_specification]
#[verifier::external_body]
pub struct ExValue(serde_json::Value);

/// What decoding a token's header yields: `None` when the header cannot be
/// decoded, otherwise the optional key-id it names.
pub uninterp spec fn header_kid_of(t: Seq<char>) -> Option<Option<Seq<char>>>;

/// Whether the token verifies under RS256 against the RSA public key with
/// base64url modulus `n` and exponent `e`, with its claims decoding as JSON.
/// A function of the three strings alone.
pub uninterp spec fn rs256_claims_ok(t: Seq<char>, n: Seq<char>, e: Seq<char>) -> bool;

/// The string-valued fields of a JSON object value.
pub uninterp spec fn obj_str_fields(v: serde_json::Value) -> Map<Seq<char>, Seq<char>>;

/// The fields of a JSON object value holding an integer that fits in `u64`.
pub uninterp spec fn obj_u64_fields(v: serde_json::Value) -> Map<Seq<char>, u64>;

/// The boolean-valued fields of a JSON object value.
pub uninterp spec fn obj_bool_fields(v: serde_json::Value) -> Map<Seq<char>, bool>;

/// All field names of a JSON object value that are bound to a non-null
/// value, whatever its type. A field set to JSON `null` counts as absent,
/// as it does when serde fills an optional field.
pub uninterp spec fn obj_fields(v: serde_json::Value) -> Set<Seq<char>>;

/// The string-valued claim fields of the token that verifies under RS256
/// against (`n`, `e`): `obj_str_fields` of the value its claims decode to.
/// Like `rs256_claims_ok`, a function of the three strings alone.
pub uninterp spec fn rs256_str_fields_of(t: Seq<char>, n: Seq<char>, e: Seq<char>) -> Map<
    Seq<char>,
    Seq<char>,
>;

/// The `u64`-integer claim fields of the verified token's claims value.
pub uninterp spec fn rs256_u64_fields_of(t: Seq<char>, n: Seq<char>, e: Seq<char>) -> Map<
    Seq<char>,
    u64,
>;

/// The boolean claim fields of the verified token's claims value.
pub uninterp spec fn rs256_bool_fields_of(t: Seq<char>, n: Seq<char>, e: Seq<char>) -> Map<
    Seq<char>,
    bool,
>;

/// The non-null claim field names of the verified token's claims value.
pub uninterp spec fn rs256_fields_of(t: Seq<char>, n: Seq<char>, e: Seq<char>) -> Set<Seq<char>>;

/// Relies on jsonwebtoken::decode_header: splits the compact token, decodes
/// its header segment, and hands back the optional `kid` it names. The
/// result depends on the token string alone.
#[verifier::external_body]
pub(crate) fn decode_header_kid(token: &str) -> (r: Option<Option<String>>)
    ensures
        r is Some <==> header_kid_of(token@) is Some,
        r matches Some(k) ==> header_kid_of(token@) matches Some(hk) && (k is Some <==> hk
            is Some) && (k matches Some(s) ==> hk matches Some(hs) && s@ == hs),
{
    match jsonwebtoken::decode_header(token) {
        Ok(h) => Some(h.kid),
        Err(_) => None,
    }
}

/// Relies on jsonwebtoken::decode with algorithm RS256 and a key built by
/// DecodingKey::from_rsa_components: checks the token's signature against
/// the given RSA public key and decodes the claims segment as JSON. Nothing
/// time- or environment-dependent is validated, so the result is a function
/// of the token and the key components alone. The library assumes
/// jsonwebtoken's default RustCrypto provider: a process that installs a
/// custom crypto provider before first use changes what this call computes.
#[verifier::external_body]
pub(crate) fn verify_rs256(token: &str, n: &str, e: &str) -> (r: Option<serde_json::Value>)
    ensures
        r is Some <==> rs256_claims_ok(token@, n@, e@),
        r matches Some(v) ==> obj_str_fields(v) == rs256_str_fields_of(token@, n@, e@)
            && obj_u64_fields(v) == rs256_u64_fields_of(token@, n@, e@) && obj_bool_fields(v)
            == rs256_bool_fields_of(token@, n@, e@) && obj_fields(v) == rs256_fields_of(
            token@,
            n@,
            e@,
        ),
{
    let key = match jsonwebtoken::DecodingKey::from_rsa_components(n, e) {
        Ok(k) => k,
        Err(_) => return None,
    };
    let mut validation = jsonwebtoken::Validation::new(jsonwebtoken::Algorithm::RS256);
    validation.required_spec_claims = std::collections::HashSet::new();
    validation.validate_exp = false;
    validation.validate_aud = false;
    match jsonwebtoken::decode::<serde_json::Value>(token, &key, &validation) {
        Ok(d) => Some(d.claims),
        Err(_) => None,
    }
}

/// Relies on serde_json::Value::get and Value::as_str: the field's string
/// content when the field exists and holds a string.
#[verifier::external_body]
pub(crate) fn get_str_field(v: &serde_json::Value, key: &str) -> (r: Option<String>)
    ensures
        r is Some <==> obj_str_fields(*v).contains_key(key@),
        r matches Some(s) ==> s@ == obj_str_fields(*v)[key@],
{
    match v.get(key) {
        Some(x) => x.as_str().map(|s| s.to_owned()),
        None => None,
    }
}

/// Relies on serde_json::Value::get and Value::as_u64: the field's value
/// when the field exists and holds an integer representable as `u64`.
#[verifier::external_body]
pub(crate) fn get_u64_field(v: &serde_json::Value, key: &str) -> (r: Option<u64>)
    ensures
        r is Some <==> obj_u64_fields(*v).contains_key(key@),
        r matches Some(x) ==> x == obj_u64_fields(*v)[key@],
{
    match v.get(key) {
        Some(x) => x.as_u64(),
        None => None,
    }
}

/// Relies on serde_json::Value::get and Value::as_bool: the field's value
/// when the field exists and holds a boolean.
#[verifier::external_body]
pub(crate) fn get_bool_field(v: &serde_json::Value, key: &str) -> (r: Option<bool>)
    ensures
        r is Some <==> obj_bool_fields(*v).contains_key(key@),
        r matches Some(x) ==> x == obj_bool_fields(*v)[key@],
{
    match v.get(key) {
        Some(x) => x.as_bool(),
        None => None,
    }
}

/// Relies on serde_json::Value::get and Value::is_null: whether the object
/// has a field of this name bound to a non-null value.
#[verifier::external_body]
pub(crate) fn has_field(v: &serde_json::Value, key: &str) -> (r: bool)
    ensures
        r == obj_fields(*v).contains(key@),
{
    match v.get(key) {
        Some(x) => !x.is_null(),
        None => false,
    }
}

} // verus!
