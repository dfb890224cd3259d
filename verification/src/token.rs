//! The identity claims a verified token carries, their extraction from the
//! decoded claims value, and the issuer / audience / hosted-domain policy
//! gate.

use vstd::prelude::*;

use crate::cache_control::parse_u64_str;
use crate::cache_control::spec_parse_u64;
use crate::client::Client;
use crate::error::Error;
use crate::jose::get_bool_field;
use crate::jose::get_str_field;
use crate::jose::get_u64_field;
use crate::jose::has_field;
use crate::jose::obj_bool_fields;
use crate::jose::obj_fields;
use crate::jose::obj_str_fields;
use crate::jose::obj_u64_fields;

verus! {

broadcast use vstd::string::group_string_axioms;

/// The claims of one identity token. Immutable once decoded; timestamps are
/// seconds, accepted from the wire as either numbers or numeric strings.
#[derive(Clone, Debug, PartialEq, Eq)]
pub struct IdInfo {
    /// These six fields are included in all Google ID tokens.
    pub iss: String,
    pub sub: String,
    pub azp: String,
    pub aud: String,
    pub iat: u64,
    pub exp: u64,
    /// This value indicates the user belongs to a Google Hosted Domain.
    pub hd: Option<String>,
    /// These seven fields are only included when the user has granted the
    /// "profile" and "email" OAuth scopes to the application.
    pub email: Option<String>,
    pub email_verified: Option<bool>,
    pub name: Option<String>,
    pub picture: Option<String>,
    pub given_name: Option<String>,
    pub family_name: Option<String>,
    pub locale: Option<String>,
}

/// The view of an optional string claim.
pub open spec fn opt_str(o: Option<String>) -> Option<Seq<char>> {
    match o {
        None => None,
        Some(s) => Some(s@),
    }
}

/// A required string claim: present exactly when the object holds it as a
/// string.
pub open spec fn req_str(s: Map<Seq<char>, Seq<char>>, k: Seq<char>) -> Option<Seq<char>> {
    if s.contains_key(k) {
        Some(s[k])
    } else {
        None
    }
}

/// An optional string claim: `Some(Some(..))` when present as a string,
/// `Some(None)` when absent, `None` (malformed) when present as another
/// type.
pub open spec fn opt_str_field(
    s: Map<Seq<char>, Seq<char>>,
    names: Set<Seq<char>>,
    k: Seq<char>,
) -> Option<Option<Seq<char>>> {
    if s.contains_key(k) {
        Some(Some(s[k]))
    } else if names.contains(k) {
        None
    } else {
        Some(None)
    }
}

/// A timestamp claim, accepted in either encoding: a `u64` number, or a
/// string of decimal digits.
pub open spec fn ts_field(
    u: Map<Seq<char>, u64>,
    s: Map<Seq<char>, Seq<char>>,
    k: Seq<char>,
) -> Option<u64> {
    if u.contains_key(k) {
        Some(u[k])
    } else if s.contains_key(k) {
        spec_parse_u64(s[k])
    } else {
        None
    }
}

/// A boolean-or-string claim: a boolean, or the strings "true"/"false";
/// `Some(None)` when absent, `None` when present but malformed.
pub open spec fn bool_like_field(
    b: Map<Seq<char>, bool>,
    s: Map<Seq<char>, Seq<char>>,
    names: Set<Seq<char>>,
    k: Seq<char>,
) -> Option<Option<bool>> {
    if b.contains_key(k) {
        Some(Some(b[k]))
    } else if s.contains_key(k) {
        if s[k] == "true"@ {
            Some(Some(true))
        } else if s[k] == "false"@ {
            Some(Some(false))
        } else {
            None
        }
    } else if names.contains(k) {
        None
    } else {
        Some(None)
    }
}

/// Whether a decoded claims object yields a complete, well-typed claim set.
pub open spec fn spec_claims_ok(
    s: Map<Seq<char>, Seq<char>>,
    u: Map<Seq<char>, u64>,
    b: Map<Seq<char>, bool>,
    names: Set<Seq<char>>,
) -> bool {
    &&& req_str(s, "iss"@) is Some
    &&& req_str(s, "sub"@) is Some
    &&& req_str(s, "azp"@) is Some
    &&& req_str(s, "aud"@) is Some
    &&& ts_field(u, s, "iat"@) is Some
    &&& ts_field(u, s, "exp"@) is Some
    &&& opt_str_field(s, names, "hd"@) is Some
    &&& opt_str_field(s, names, "email"@) is Some
    &&& bool_like_field(b, s, names, "email_verified"@) is Some
    &&& opt_str_field(s, names, "name"@) is Some
    &&& opt_str_field(s, names, "picture"@) is Some
    &&& opt_str_field(s, names, "given_name"@) is Some
    &&& opt_str_field(s, names, "family_name"@) is Some
    &&& opt_str_field(s, names, "locale"@) is Some
}

/// Whether the claim set `c` is exactly what the four field maps of a
/// decoded claims value yield.
pub open spec fn claims_match_maps(
    c: IdInfo,
    s: Map<Seq<char>, Seq<char>>,
    u: Map<Seq<char>, u64>,
    b: Map<Seq<char>, bool>,
    names: Set<Seq<char>>,
) -> bool {
    &&& Some(c.iss@) == req_str(s, "iss"@)
    &&& Some(c.sub@) == req_str(s, "sub"@)
    &&& Some(c.azp@) == req_str(s, "azp"@)
    &&& Some(c.aud@) == req_str(s, "aud"@)
    &&& Some(c.iat) == ts_field(u, s, "iat"@)
    &&& Some(c.exp) == ts_field(u, s, "exp"@)
    &&& Some(opt_str(c.hd)) == opt_str_field(s, names, "hd"@)
    &&& Some(opt_str(c.email)) == opt_str_field(s, names, "email"@)
    &&& Some(c.email_verified) == bool_like_field(b, s, names, "email_verified"@)
    &&& Some(opt_str(c.name)) == opt_str_field(s, names, "name"@)
    &&& Some(opt_str(c.picture)) == opt_str_field(s, names, "picture"@)
    &&& Some(opt_str(c.given_name)) == opt_str_field(s, names, "given_name"@)
    &&& Some(opt_str(c.family_name)) == opt_str_field(s, names, "family_name"@)
    &&& Some(opt_str(c.locale)) == opt_str_field(s, names, "locale"@)
}

/// The policy decision read off the string-field map of a decoded claims
/// value: the same issuer / audience / hosted-domain order as `spec_gate`.
pub open spec fn spec_gate_maps(
    s: Map<Seq<char>, Seq<char>>,
    audiences: Seq<String>,
    domains: Seq<String>,
) -> Result<(), Error> {
    if !issuer_ok(s["iss"@]) {
        Err(Error::InvalidIssuer)
    } else if !(audiences.len() == 0 || contains_string(audiences, s["aud"@])) {
        Err(Error::InvalidAudience)
    } else if !(domains.len() == 0 || (s.contains_key("hd"@) && contains_string(
        domains,
        s["hd"@],
    ))) {
        Err(Error::InvalidHostedDomain)
    } else {
        Ok(())
    }
}

/// For a complete claim set, the policy decision on the claims equals the
/// one read off the field maps they came from.
pub proof fn lemma_gate_maps_agree(
    c: IdInfo,
    s: Map<Seq<char>, Seq<char>>,
    u: Map<Seq<char>, u64>,
    b: Map<Seq<char>, bool>,
    names: Set<Seq<char>>,
    audiences: Seq<String>,
    domains: Seq<String>,
)
    requires
        spec_claims_ok(s, u, b, names),
        claims_match_maps(c, s, u, b, names),
    ensures
        spec_gate(c, audiences, domains) == spec_gate_maps(s, audiences, domains),
{
    assert(c.iss@ == s["iss"@]);
    assert(c.aud@ == s["aud"@]);
    if s.contains_key("hd"@) {
        assert(opt_str(c.hd) == Some(s["hd"@]));
    } else {
        assert(opt_str(c.hd) is None);
    }
}

/// Reads an optional string claim from the decoded value.
fn opt_str_get(v: &serde_json::Value, key: &str) -> (r: Option<Option<String>>)
    ensures
        r is Some <==> opt_str_field(obj_str_fields(*v), obj_fields(*v), key@) is Some,
        r matches Some(x) ==> Some(opt_str(x)) == opt_str_field(
            obj_str_fields(*v),
            obj_fields(*v),
            key@,
        ),
{
    match get_str_field(v, key) {
        Some(s) => Some(Some(s)),
        None => if has_field(v, key) {
            None
        } else {
            Some(None)
        },
    }
}

/// Reads a timestamp claim, accepting a number or a decimal string.
fn ts_get(v: &serde_json::Value, key: &str) -> (r: Option<u64>)
    ensures
        r == ts_field(obj_u64_fields(*v), obj_str_fields(*v), key@),
{
    match get_u64_field(v, key) {
        Some(n) => Some(n),
        None => match get_str_field(v, key) {
            Some(s) => parse_u64_str(s.as_str()),
            None => None,
        },
    }
}

/// Reads the boolean-or-string `email_verified` claim.
fn bool_like_get(v: &serde_json::Value, key: &str) -> (r: Option<Option<bool>>)
    ensures
        r == bool_like_field(obj_bool_fields(*v), obj_str_fields(*v), obj_fields(*v), key@),
{
    match get_bool_field(v, key) {
        Some(x) => Some(Some(x)),
        None => match get_str_field(v, key) {
            Some(s) => if s == "true".to_owned() {
                Some(Some(true))
            } else if s == "false".to_owned() {
                Some(Some(false))
            } else {
                None
            },
            None => if has_field(v, key) {
                None
            } else {
                Some(None)
            },
        },
    }
}

/// Builds the claim set from a decoded claims value: `None` when a required
/// claim is missing or a claim is present with an unacceptable type.
pub fn claims_from_value(v: &serde_json::Value) -> (r: Option<IdInfo>)
    ensures
        r is Some <==> spec_claims_ok(
            obj_str_fields(*v),
            obj_u64_fields(*v),
            obj_bool_fields(*v),
            obj_fields(*v),
        ),
        r matches Some(c) ==> claims_match_maps(
            c,
            obj_str_fields(*v),
            obj_u64_fields(*v),
            obj_bool_fields(*v),
            obj_fields(*v),
        ),
{
    let iss = match get_str_field(v, "iss") {
        Some(x) => x,
        None => return None,
    };
    let sub = match get_str_field(v, "sub") {
        Some(x) => x,
        None => return None,
    };
    let azp = match get_str_field(v, "azp") {
        Some(x) => x,
        None => return None,
    };
    let aud = match get_str_field(v, "aud") {
        Some(x) => x,
        None => return None,
    };
    let iat = match ts_get(v, "iat") {
        Some(x) => x,
        None => return None,
    };
    let exp = match ts_get(v, "exp") {
        Some(x) => x,
        None => return None,
    };
    let hd = match opt_str_get(v, "hd") {
        Some(x) => x,
        None => return None,
    };
    let email = match opt_str_get(v, "email") {
        Some(x) => x,
        None => return None,
    };
    let email_verified = match bool_like_get(v, "email_verified") {
        Some(x) => x,
        None => return None,
    };
    let name = match opt_str_get(v, "name") {
        Some(x) => x,
        None => return None,
    };
    let picture = match opt_str_get(v, "picture") {
        Some(x) => x,
        None => return None,
    };
    let given_name = match opt_str_get(v, "given_name") {
        Some(x) => x,
        None => return None,
    };
    let family_name = match opt_str_get(v, "family_name") {
        Some(x) => x,
        None => return None,
    };
    let locale = match opt_str_get(v, "locale") {
        Some(x) => x,
        None => return None,
    };
    Some(
        IdInfo {
            iss,
            sub,
            azp,
            aud,
            iat,
            exp,
            hd,
            email,
            email_verified,
            name,
            picture,
            given_name,
            family_name,
            locale,
        },
    )
}

/// Whether the issuer is one of Google's two accepted values.
pub open spec fn issuer_ok(iss: Seq<char>) -> bool {
    iss == "accounts.google.com"@ || iss == "https://accounts.google.com"@
}

/// Whether some configured string equals `x`.
pub open spec fn contains_string(l: Seq<String>, x: Seq<char>) -> bool {
    exists|i: int| 0 <= i < l.len() && l[i]@ == x
}

/// The claims policy gate: issuer, then audience, then hosted domain; the
/// first failing check names the error. An empty audience list accepts any
/// audience; an empty hosted-domain list imposes no domain restriction.
pub open spec fn spec_gate(info: IdInfo, audiences: Seq<String>, domains: Seq<String>) -> Result<
    (),
    Error,
> {
    if !issuer_ok(info.iss@) {
        Err(Error::InvalidIssuer)
    } else if !(audiences.len() == 0 || contains_string(audiences, info.aud@)) {
        Err(Error::InvalidAudience)
    } else if !(domains.len() == 0 || (info.hd matches Some(d) && contains_string(
        domains,
        d@,
    ))) {
        Err(Error::InvalidHostedDomain)
    } else {
        Ok(())
    }
}

/// Whether `v` holds a string equal to `x`.
fn vec_contains_string(v: &Vec<String>, x: &String) -> (r: bool)
    ensures
        r == contains_string(v@, x@),
{
    let mut i: usize = 0;
    while i < v.len()
        invariant
            i <= v@.len(),
            forall|j: int| 0 <= j < i ==> v@[j]@ != x@,
        decreases v@.len() - i,
    {
        if v[i] == *x {
            proof {
                assert(v@[i as int]@ == x@);
            }
            return true;
        }
        i = i + 1;
    }
    false
}

impl IdInfo {
    /// Checks the issuer, audiences, and (optionally) hosted domain of the
    /// claims against the client's configuration. The checks run in that
    /// order and the first failure is returned.
    pub fn verify(&self, client: &Client) -> (r: Result<(), Error>)
        ensures
            r == spec_gate(*self, client.audiences@, client.hosted_domains@),
    {
        // Check the id was authorized by google.
        let google = "accounts.google.com".to_owned();
        let google_https = "https://accounts.google.com".to_owned();
        if !(self.iss == google || self.iss == google_https) {
            return Err(Error::InvalidIssuer);
        }
        // Check the token belongs to the application(s).
        if client.audiences.len() > 0 && !vec_contains_string(&client.audiences, &self.aud) {
            return Err(Error::InvalidAudience);
        }
        // Check the token belongs to the hosted domain(s).
        if client.hosted_domains.len() > 0 {
            match &self.hd {
                Some(domain) => {
                    if !vec_contains_string(&client.hosted_domains, domain) {
                        return Err(Error::InvalidHostedDomain);
                    }
                },
                None => {
                    return Err(Error::InvalidHostedDomain);
                },
            }
        }
        Ok(())
    }
}

/// An issuer other than Google's two accepted values is rejected with
/// `InvalidIssuer`, whatever else the claims and the configuration hold —
/// in particular however the token was signed.
pub proof fn lemma_gate_rejects_foreign_issuer(
    info: IdInfo,
    audiences: Seq<String>,
    domains: Seq<String>,
)
    requires
        !issuer_ok(info.iss@),
    ensures
        spec_gate(info, audiences, domains) == Err::<(), Error>(Error::InvalidIssuer),
{
}

/// With a non-empty audience list, claims whose audience is not configured
/// are rejected with `InvalidAudience`.
pub proof fn lemma_gate_rejects_foreign_audience(
    info: IdInfo,
    audiences: Seq<String>,
    domains: Seq<String>,
)
    requires
        issuer_ok(info.iss@),
        audiences.len() > 0,
        !contains_string(audiences, info.aud@),
    ensures
        spec_gate(info, audiences, domains) == Err::<(), Error>(Error::InvalidAudience),
{
}

/// With a non-empty hosted-domain list, claims without an `hd` value, and
/// claims whose `hd` is not configured, are rejected with
/// `InvalidHostedDomain`; claims with a configured `hd` are accepted.
pub proof fn lemma_gate_checks_hosted_domain(
    info: IdInfo,
    audiences: Seq<String>,
    domains: Seq<String>,
)
    requires
        issuer_ok(info.iss@),
        audiences.len() == 0 || contains_string(audiences, info.aud@),
        domains.len() > 0,
    ensures
        info.hd is None ==> spec_gate(info, audiences, domains) == Err::<(), Error>(
            Error::InvalidHostedDomain,
        ),
        info.hd matches Some(d) && !contains_string(domains, d@) ==> spec_gate(
            info,
            audiences,
            domains,
        ) == Err::<(), Error>(Error::InvalidHostedDomain),
        info.hd matches Some(d) && contains_string(domains, d@) ==> spec_gate(
            info,
            audiences,
            domains,
        ) == Ok::<(), Error>(()),
{
}

} // verus!
