//! The claim set the provider's token-introspection endpoint reports.

use vstd::prelude::*;

verus! {

/// What the introspection endpoint reports for a token. Every field arrives
/// as a string; this weaker path trusts the provider's own validation
/// instead of checking the signature locally, and should be combined with
/// the claims policy gate.
#[derive(Clone, Debug)]
pub struct TokenInfo {
    /// These six fields are included in all Google ID tokens.
    pub iss: String,
    pub sub: String,
    pub azp: String,
    pub aud: String,
    pub iat: String,
    pub exp: String,
    /// This value indicates the user belongs to a Google Hosted Domain.
    pub hd: Option<String>,
    /// These seven fields are only included when the user has granted the
    /// "profile" and "email" OAuth scopes to the application.
    pub email: Option<String>,
    pub email_verified: Option<String>,
    pub name: Option<String>,
    pub picture: Option<String>,
    pub given_name: Option<String>,
    pub family_name: Option<String>,
    pub locale: Option<String>,
}

} // verus!
