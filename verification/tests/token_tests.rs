//! The claims policy gate: issuer, audience and hosted-domain checks.

use google_signin::{Client, Error, IdInfo};

fn info(iss: &str, aud: &str, hd: Option<&str>) -> IdInfo {
    IdInfo {
        iss: iss.to_string(),
        sub: "1234567890".to_string(),
        azp: "app-1".to_string(),
        aud: aud.to_string(),
        iat: 1_600_000_000,
        exp: 1_600_003_600,
        hd: hd.map(|s| s.to_string()),
        email: None,
        email_verified: None,
        name: None,
        picture: None,
        given_name: None,
        family_name: None,
        locale: None,
    }
}

#[test]
fn foreign_issuer_is_rejected() {
    let client = Client::new();
    let claims = info("evil.example.com", "app-1", None);
    assert_eq!(claims.verify(&client), Err(Error::InvalidIssuer));
}

#[test]
fn both_google_issuers_are_accepted() {
    let client = Client::new();
    assert_eq!(info("accounts.google.com", "app-1", None).verify(&client), Ok(()));
    assert_eq!(
        info("https://accounts.google.com", "app-1", None).verify(&client),
        Ok(())
    );
}

#[test]
fn issuer_is_checked_before_audience() {
    let mut client = Client::new();
    client.audiences.push("app-1".to_string());
    let claims = info("evil.example.com", "app-2", None);
    assert_eq!(claims.verify(&client), Err(Error::InvalidIssuer));
}

#[test]
fn unlisted_audience_is_rejected() {
    let mut client = Client::new();
    client.audiences.push("app-1".to_string());
    let claims = info("accounts.google.com", "app-2", None);
    assert_eq!(claims.verify(&client), Err(Error::InvalidAudience));
    let claims = info("accounts.google.com", "app-1", None);
    assert_eq!(claims.verify(&client), Ok(()));
}

#[test]
fn empty_audience_list_accepts_any() {
    let client = Client::new();
    let claims = info("accounts.google.com", "whatever", None);
    assert_eq!(claims.verify(&client), Ok(()));
}

#[test]
fn hosted_domain_restriction() {
    let mut client = Client::new();
    client.hosted_domains.push("example.com".to_string());
    // A token lacking the hd claim is rejected...
    let claims = info("accounts.google.com", "app-1", None);
    assert_eq!(claims.verify(&client), Err(Error::InvalidHostedDomain));
    // ...one from another domain is rejected...
    let claims = info("accounts.google.com", "app-1", Some("other.com"));
    assert_eq!(claims.verify(&client), Err(Error::InvalidHostedDomain));
    // ...one from the configured domain is accepted.
    let claims = info("accounts.google.com", "app-1", Some("example.com"));
    assert_eq!(claims.verify(&client), Ok(()));
}

#[test]
fn audience_is_checked_before_hosted_domain() {
    let mut client = Client::new();
    client.audiences.push("app-1".to_string());
    client.hosted_domains.push("example.com".to_string());
    let claims = info("accounts.google.com", "app-2", None);
    assert_eq!(claims.verify(&client), Err(Error::InvalidAudience));
}

#[test]
fn error_descriptions() {
    assert_eq!(
        Error::ConnectionError.describe(),
        "Could not reach the token provider"
    );
    assert_eq!(
        Error::DecodeError.describe(),
        "Malformed response from the token provider"
    );
    assert_eq!(
        Error::InvalidKey.describe(),
        "Token does not match any known key"
    );
    assert_eq!(
        Error::InvalidToken.describe(),
        "Token was not recognized by google"
    );
    assert_eq!(
        Error::InvalidIssuer.describe(),
        "Token was not issued by google"
    );
    assert_eq!(
        Error::InvalidAudience.describe(),
        "Token is for a different google application"
    );
    assert_eq!(
        Error::InvalidHostedDomain.describe(),
        "User is not a member of the hosted domain(s)"
    );
}
