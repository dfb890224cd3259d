//! The client facade: configuration and the token-verification pipeline.

use vstd::prelude::*;

use crate::certs::CachedCerts;
use crate::certs::kid_in;
use crate::certs::lemma_sorted_distinct;
use crate::error::Error;
use crate::jose::decode_header_kid;
use crate::jose::header_kid_of;
use crate::jose::rs256_bool_fields_of;
use crate::jose::rs256_claims_ok;
use crate::jose::rs256_fields_of;
use crate::jose::rs256_str_fields_of;
use crate::jose::rs256_u64_fields_of;
use crate::jose::verify_rs256;
use crate::token::IdInfo;
use crate::token::claims_from_value;
use crate::token::claims_match_maps;
use crate::token::lemma_gate_maps_agree;
use crate::token::spec_claims_ok;
use crate::token::spec_gate;
use crate::token::spec_gate_maps;

verus! {

/// The outcome the pipeline owes once a token's signature has verified
/// against the key with components (`n`, `e`): the decoded claims decide.
/// Incomplete or ill-typed claims yield `DecodeError`; otherwise the policy
/// decision on the claim fields is the result, and on acceptance the
/// returned claim set is exactly the token's.
pub open spec fn spec_key_outcome(
    r: Result<IdInfo, Error>,
    t: Seq<char>,
    n: Seq<char>,
    e: Seq<char>,
    audiences: Seq<String>,
    domains: Seq<String>,
) -> bool {
    let s = rs256_str_fields_of(t, n, e);
    let u = rs256_u64_fields_of(t, n, e);
    let b = rs256_bool_fields_of(t, n, e);
    let names = rs256_fields_of(t, n, e);
    if !spec_claims_ok(s, u, b, names) {
        r == Err::<IdInfo, Error>(Error::DecodeError)
    } else {
        match spec_gate_maps(s, audiences, domains) {
            Err(er) => r == Err::<IdInfo, Error>(er),
            Ok(_) => r matches Ok(c) && claims_match_maps(c, s, u, b, names),
        }
    }
}

/// Holds the verification policy: the audiences and hosted domains the
/// embedding application accepts. Empty lists impose no restriction. The
/// configuration is read-only during verification.
pub struct Client {
    pub audiences: Vec<String>,
    pub hosted_domains: Vec<String>,
}

impl Client {
    /// A client that accepts any audience and any hosted domain.
    pub fn new() -> (r: Client)
        ensures
            r.audiences@.len() == 0,
            r.hosted_domains@.len() == 0,
    {
        Client { audiences: Vec::new(), hosted_domains: Vec::new() }
    }

    /// Verifies that the token is signed by one of the cached Google keys,
    /// then checks issuer, audience and hosted domain.
    ///
    /// A token naming a key-id is checked against exactly that key
    /// (`InvalidKey` when it is unknown); a token without one is checked
    /// against every key in ascending key-id order, and the first key that
    /// verifies decides: `spec_key_outcome` fixes the result from that
    /// key's decoded claims. A well-signed token whose claims are
    /// incomplete or ill-typed yields `DecodeError`; claims the policy
    /// refuses yield the corresponding policy error.
    pub fn verify(&self, id_token: &str, cached_certs: &CachedCerts) -> (r: Result<IdInfo, Error>)
        requires
            cached_certs.wf(),
        ensures
            header_kid_of(id_token@) is None ==> r == Err::<IdInfo, Error>(Error::InvalidToken),
            header_kid_of(id_token@) matches Some(Some(kd)) ==> (r == Err::<IdInfo, Error>(
                Error::InvalidKey,
            ) <==> !kid_in(cached_certs.spec_keys(), kd)),
            header_kid_of(id_token@) matches Some(Some(kd)) ==> ((exists|i: int|
                0 <= i < cached_certs.spec_keys().len() && cached_certs.spec_keys()[i].kid@ == kd
                    && !rs256_claims_ok(
                    id_token@,
                    cached_certs.spec_keys()[i].n@,
                    cached_certs.spec_keys()[i].e@,
                )) ==> r == Err::<IdInfo, Error>(Error::InvalidToken)),
            header_kid_of(id_token@) == Some(Option::<Seq<char>>::None) ==> ((forall|i: int|
                0 <= i < cached_certs.spec_keys().len() ==> !rs256_claims_ok(
                    id_token@,
                    #[trigger] cached_certs.spec_keys()[i].n@,
                    cached_certs.spec_keys()[i].e@,
                )) <==> r == Err::<IdInfo, Error>(Error::InvalidToken)),
            r matches Ok(c) ==> spec_gate(c, self.audiences@, self.hosted_domains@) == Ok::<
                (),
                Error,
            >(()),
            r matches Ok(c) ==> exists|i: int|
                0 <= i < cached_certs.spec_keys().len() && rs256_claims_ok(
                    id_token@,
                    #[trigger] cached_certs.spec_keys()[i].n@,
                    cached_certs.spec_keys()[i].e@,
                ),
            header_kid_of(id_token@) matches Some(Some(kd)) ==> (forall|i: int|
                0 <= i < cached_certs.spec_keys().len() && cached_certs.spec_keys()[i].kid@ == kd
                    && #[trigger] rs256_claims_ok(
                    id_token@,
                    cached_certs.spec_keys()[i].n@,
                    cached_certs.spec_keys()[i].e@,
                ) ==> spec_key_outcome(
                    r,
                    id_token@,
                    cached_certs.spec_keys()[i].n@,
                    cached_certs.spec_keys()[i].e@,
                    self.audiences@,
                    self.hosted_domains@,
                )),
            header_kid_of(id_token@) == Some(Option::<Seq<char>>::None) ==> (forall|i: int|
                0 <= i < cached_certs.spec_keys().len() && #[trigger] rs256_claims_ok(
                    id_token@,
                    cached_certs.spec_keys()[i].n@,
                    cached_certs.spec_keys()[i].e@,
                ) && (forall|j: int|
                    0 <= j < i ==> !rs256_claims_ok(
                        id_token@,
                        #[trigger] cached_certs.spec_keys()[j].n@,
                        cached_certs.spec_keys()[j].e@,
                    )) ==> spec_key_outcome(
                    r,
                    id_token@,
                    cached_certs.spec_keys()[i].n@,
                    cached_certs.spec_keys()[i].e@,
                    self.audiences@,
                    self.hosted_domains@,
                )),
    {
        let kid = match decode_header_kid(id_token) {
            None => {
                return Err(Error::InvalidToken);
            },
            Some(k) => k,
        };
        let (lo, hi) = match cached_certs.get_range(&kid) {
            Err(e) => {
                proof {
                    lemma_sorted_distinct(cached_certs.spec_keys());
                }
                return Err(e);
            },
            Ok(p) => p,
        };
        proof {
            lemma_sorted_distinct(cached_certs.spec_keys());
        }
        let mut i: usize = lo;
        #[verifier::loop_isolation(false)]
        while i < hi
            invariant
                lo <= i <= hi,
                forall|j: int|
                    lo <= j < i ==> !rs256_claims_ok(
                        id_token@,
                        #[trigger] cached_certs.spec_keys()[j].n@,
                        cached_certs.spec_keys()[j].e@,
                    ),
            decreases hi - i,
        {
            let cert = cached_certs.key_at(i);
            match verify_rs256(id_token, cert.n.as_str(), cert.e.as_str()) {
                Some(value) => {
                    let extracted = claims_from_value(&value);
                    let ghost gex = extracted;
                    let out: Result<IdInfo, Error> = match extracted {
                        None => Err(Error::DecodeError),
                        Some(claims) => match claims.verify(self) {
                            Ok(()) => Ok(claims),
                            Err(e) => Err(e),
                        },
                    };
                    proof {
                        let t = id_token@;
                        let ks = cached_certs.spec_keys();
                        let ii = i as int;
                        let s = rs256_str_fields_of(t, ks[ii].n@, ks[ii].e@);
                        let u = rs256_u64_fields_of(t, ks[ii].n@, ks[ii].e@);
                        let b = rs256_bool_fields_of(t, ks[ii].n@, ks[ii].e@);
                        let names = rs256_fields_of(t, ks[ii].n@, ks[ii].e@);
                        match gex {
                            Some(c) => {
                                lemma_gate_maps_agree(
                                    c,
                                    s,
                                    u,
                                    b,
                                    names,
                                    self.audiences@,
                                    self.hosted_domains@,
                                );
                            },
                            None => {},
                        }
                        assert(spec_key_outcome(
                            out,
                            t,
                            ks[ii].n@,
                            ks[ii].e@,
                            self.audiences@,
                            self.hosted_domains@,
                        ));
                        match header_kid_of(t) {
                            Some(Some(kd)) => {
                                assert forall|x: int|
                                    0 <= x < ks.len() && ks[x].kid@ == kd && rs256_claims_ok(
                                        t,
                                        ks[x].n@,
                                        ks[x].e@,
                                    ) implies spec_key_outcome(
                                    out,
                                    t,
                                    ks[x].n@,
                                    ks[x].e@,
                                    self.audiences@,
                                    self.hosted_domains@,
                                ) by {
                                    assert(ks[ii].kid@ == kd);
                                    if x != ii {
                                        assert(ks[x].kid@ != ks[ii].kid@);
                                    }
                                }
                            },
                            Some(None) => {
                                assert forall|x: int|
                                    0 <= x < ks.len() && rs256_claims_ok(t, ks[x].n@, ks[x].e@)
                                        && (forall|j: int|
                                        0 <= j < x ==> !rs256_claims_ok(
                                            t,
                                            #[trigger] ks[j].n@,
                                            ks[j].e@,
                                        )) implies spec_key_outcome(
                                    out,
                                    t,
                                    ks[x].n@,
                                    ks[x].e@,
                                    self.audiences@,
                                    self.hosted_domains@,
                                ) by {
                                    assert(rs256_claims_ok(t, ks[ii].n@, ks[ii].e@));
                                    if x > ii {
                                        assert(!rs256_claims_ok(t, ks[ii].n@, ks[ii].e@));
                                    }
                                }
                            },
                            None => {},
                        }
                    }
                    return out;
                },
                None => {
                    i = i + 1;
                },
            }
        }
        proof {
            let t = id_token@;
            let ks = cached_certs.spec_keys();
            match header_kid_of(t) {
                Some(Some(kd)) => {
                    assert forall|x: int|
                    0 <= x < ks.len() && ks[x].kid@ == kd && rs256_claims_ok(
                        t,
                        ks[x].n@,
                        ks[x].e@,
                    ) implies spec_key_outcome(
                    Err::<IdInfo, Error>(Error::InvalidToken),
                    t,
                    ks[x].n@,
                    ks[x].e@,
                    self.audiences@,
                    self.hosted_domains@,
                ) by {
                        assert(ks[lo as int].kid@ == kd);
                        if x != lo as int {
                            assert(ks[x].kid@ != ks[lo as int].kid@);
                        }
                        assert(!rs256_claims_ok(t, ks[lo as int].n@, ks[lo as int].e@));
                    }
                },
                _ => {},
            }
        }
        Err(Error::InvalidToken)
    }
}

} // verus!
