//! The cached key set and its refresh discipline.
//!
//! `CachedCerts` owns the provider's public keys, ordered by ascending
//! key-id, together with the expiry instant derived from the response's
//! `Cache-Control` header. It is also the single-flight state machine: the
//! decision of `get_or_refresh` tells the embedding application whether the
//! current keys may be used, whether it must start the one network fetch, or
//! whether it should join a fetch already in flight. The fetch itself is
//! I/O and stays outside; its outcome is handed back through
//! `on_fetch_success` / `on_fetch_failure`.

use vstd::prelude::*;

use crate::cache_control::CacheControl;
use crate::cache_control::spec_parse;
use crate::error::Error;

verus! {

broadcast use vstd::string::group_string_axioms;

/// One public-key record: a key-id naming the key, and the base64url-encoded
/// RSA modulus and exponent.
#[derive(Clone, Debug)]
pub struct Cert {
    pub kid: String,
    pub n: String,
    pub e: String,
}

impl Cert {
    /// A copy with the same key-id, modulus and exponent.
    pub fn duplicate(&self) -> (r: Cert)
        ensures
            r.kid@ == self.kid@,
            r.n@ == self.n@,
            r.e@ == self.e@,
    {
        Cert { kid: self.kid.clone(), n: self.n.clone(), e: self.e.clone() }
    }
}

/// Strict lexicographic order on character sequences, by code point.
pub open spec fn lex_lt(a: Seq<char>, b: Seq<char>) -> bool
    decreases a.len(),
{
    if b.len() == 0 {
        false
    } else if a.len() == 0 {
        true
    } else if a[0] != b[0] {
        a[0] < b[0]
    } else {
        lex_lt(a.skip(1), b.skip(1))
    }
}

pub proof fn lemma_lex_lt_irrefl(a: Seq<char>)
    ensures
        !lex_lt(a, a),
    decreases a.len(),
{
    if a.len() > 0 {
        lemma_lex_lt_irrefl(a.skip(1));
    }
}

/// Any two character sequences are ordered or equal.
pub proof fn lemma_lex_lt_total(a: Seq<char>, b: Seq<char>)
    ensures
        lex_lt(a, b) || lex_lt(b, a) || a == b,
    decreases a.len(),
{
    if a.len() == 0 && b.len() == 0 {
        assert(a =~= b);
    } else if a.len() > 0 && b.len() > 0 {
        if a[0] == b[0] {
            lemma_lex_lt_total(a.skip(1), b.skip(1));
            if !lex_lt(a.skip(1), b.skip(1)) && !lex_lt(b.skip(1), a.skip(1)) {
                assert forall|i: int| 0 <= i < a.len() implies a[i] == b[i] by {
                    if i > 0 {
                        assert(a[i] == a.skip(1)[i - 1]);
                        assert(b[i] == b.skip(1)[i - 1]);
                    }
                }
                assert(a =~= b);
            }
        }
    }
}

pub proof fn lemma_lex_lt_trans(a: Seq<char>, b: Seq<char>, c: Seq<char>)
    requires
        lex_lt(a, b),
        lex_lt(b, c),
    ensures
        lex_lt(a, c),
    decreases a.len(),
{
    if a.len() > 0 {
        if a[0] == b[0] && b[0] == c[0] {
            lemma_lex_lt_trans(a.skip(1), b.skip(1), c.skip(1));
        }
    }
}

/// Key records in strictly ascending key-id order (hence unique key-ids).
pub open spec fn sorted_strict(s: Seq<Cert>) -> bool {
    forall|i: int| 0 <= i && i + 1 < s.len() ==> lex_lt(#[trigger] s[i].kid@, s[i + 1].kid@)
}

/// In a sorted key set every earlier key-id is below every later one.
pub proof fn lemma_sorted_lt(s: Seq<Cert>, i: int, j: int)
    requires
        sorted_strict(s),
        0 <= i < j < s.len(),
    ensures
        lex_lt(s[i].kid@, s[j].kid@),
    decreases j - i,
{
    if j > i + 1 {
        lemma_sorted_lt(s, i, j - 1);
        lemma_lex_lt_trans(s[i].kid@, s[j - 1].kid@, s[j].kid@);
    }
}

/// In a sorted key set key-ids are unique.
pub proof fn lemma_sorted_distinct(s: Seq<Cert>)
    requires
        sorted_strict(s),
    ensures
        forall|i: int, j: int| 0 <= i < j < s.len() ==> s[i].kid@ != s[j].kid@,
{
    assert forall|i: int, j: int| 0 <= i < j < s.len() implies s[i].kid@ != s[j].kid@ by {
        lemma_sorted_lt(s, i, j);
        lemma_lex_lt_irrefl(s[i].kid@);
    }
}

/// Whether some record in `s` has key-id `kid`.
pub open spec fn kid_in(s: Seq<Cert>, kid: Seq<char>) -> bool {
    exists|i: int| 0 <= i < s.len() && s[i].kid@ == kid
}

/// The mapping a key set denotes: key-id to (modulus, exponent), later
/// records overriding earlier ones.
pub open spec fn keys_map(s: Seq<Cert>) -> Map<Seq<char>, (Seq<char>, Seq<char>)>
    decreases s.len(),
{
    if s.len() == 0 {
        Map::empty()
    } else {
        keys_map(s.drop_last()).insert(s.last().kid@, (s.last().n@, s.last().e@))
    }
}

/// Inserting a record with a fresh key-id inserts its entry in the mapping.
proof fn lemma_keys_map_insert(s: Seq<Cert>, j: int, c: Cert)
    requires
        0 <= j <= s.len(),
        forall|x: int| 0 <= x < s.len() ==> s[x].kid@ != c.kid@,
    ensures
        keys_map(s.insert(j, c)) == keys_map(s).insert(c.kid@, (c.n@, c.e@)),
    decreases s.len(),
{
    if j == s.len() {
        assert(s.insert(j, c).drop_last() =~= s);
        assert(s.insert(j, c).last() == c);
    } else {
        let s2 = s.insert(j, c);
        assert(s2.drop_last() =~= s.drop_last().insert(j, c));
        assert(s2.last() == s.last());
        assert(forall|x: int| 0 <= x < s.drop_last().len() ==> s.drop_last()[x] == s[x]);
        lemma_keys_map_insert(s.drop_last(), j, c);
        assert(s[s.len() - 1].kid@ != c.kid@);
        assert(keys_map(s.drop_last()).insert(c.kid@, (c.n@, c.e@)).insert(
            s.last().kid@,
            (s.last().n@, s.last().e@),
        ) =~= keys_map(s.drop_last()).insert(s.last().kid@, (s.last().n@, s.last().e@)).insert(
            c.kid@,
            (c.n@, c.e@),
        ));
    }
}

/// Replacing the one record that carries a key-id updates its entry.
proof fn lemma_keys_map_update(s: Seq<Cert>, j: int, c: Cert)
    requires
        0 <= j < s.len(),
        s[j].kid@ == c.kid@,
        forall|x: int| 0 <= x < s.len() && x != j ==> s[x].kid@ != c.kid@,
    ensures
        keys_map(s.update(j, c)) == keys_map(s).insert(c.kid@, (c.n@, c.e@)),
    decreases s.len(),
{
    if j == s.len() - 1 {
        assert(s.update(j, c).drop_last() =~= s.drop_last());
        assert(s.update(j, c).last() == c);
        assert(keys_map(s.drop_last()).insert(s.last().kid@, (s.last().n@, s.last().e@)).insert(
            c.kid@,
            (c.n@, c.e@),
        ) =~= keys_map(s.drop_last()).insert(c.kid@, (c.n@, c.e@)));
    } else {
        let s2 = s.update(j, c);
        assert(s2.drop_last() =~= s.drop_last().update(j, c));
        assert(s2.last() == s.last());
        assert(forall|x: int| 0 <= x < s.drop_last().len() ==> s.drop_last()[x] == s[x]);
        lemma_keys_map_update(s.drop_last(), j, c);
        assert(s[s.len() - 1].kid@ != c.kid@);
        assert(keys_map(s.drop_last()).insert(c.kid@, (c.n@, c.e@)).insert(
            s.last().kid@,
            (s.last().n@, s.last().e@),
        ) =~= keys_map(s.drop_last()).insert(s.last().kid@, (s.last().n@, s.last().e@)).insert(
            c.kid@,
            (c.n@, c.e@),
        ));
    }
}

/// Whether `a` is lexicographically below `b`.
pub fn str_lex_lt(a: &str, b: &str) -> (r: bool)
    ensures
        r == lex_lt(a@, b@),
{
    let alen = a.unicode_len();
    let blen = b.unicode_len();
    let mut i: usize = 0;
    proof {
        assert(a@.skip(0) =~= a@);
        assert(b@.skip(0) =~= b@);
    }
    while i < alen && i < blen
        invariant
            i <= alen,
            i <= blen,
            alen == a@.len(),
            blen == b@.len(),
            lex_lt(a@, b@) == lex_lt(a@.skip(i as int), b@.skip(i as int)),
        decreases alen - i,
    {
        let ca = a.get_char(i);
        let cb = b.get_char(i);
        proof {
            assert(a@.skip(i as int)[0] == a@[i as int]);
            assert(b@.skip(i as int)[0] == b@[i as int]);
            assert(a@.skip(i as int).skip(1) =~= a@.skip(i + 1));
            assert(b@.skip(i as int).skip(1) =~= b@.skip(i + 1));
        }
        if ca != cb {
            return ca < cb;
        }
        i = i + 1;
    }
    proof {
        assert(a@.skip(i as int).len() == alen - i);
        assert(b@.skip(i as int).len() == blen - i);
    }
    i < blen
}

/// Builds the key set from the records of one fetched response: ascending
/// key-id order, duplicate key-ids resolved in favour of the later record.
pub fn build_key_set(records: Vec<Cert>) -> (r: Vec<Cert>)
    ensures
        sorted_strict(r@),
        keys_map(r@) == keys_map(records@),
{
    let mut out: Vec<Cert> = Vec::new();
    let mut t: usize = 0;
    proof {
        assert(records@.take(0) =~= Seq::<Cert>::empty());
    }
    while t < records.len()
        invariant
            t <= records@.len(),
            sorted_strict(out@),
            keys_map(out@) == keys_map(records@.take(t as int)),
        decreases records@.len() - t,
    {
        let rec = records[t].duplicate();
        let ghost old_out = out@;
        proof {
            lemma_sorted_distinct(out@);
        }
        // Find the insertion position: the first entry not below `rec`.
        let mut j: usize = 0;
        while j < out.len()
            invariant
                j <= out@.len(),
                out@ == old_out,
                forall|x: int| 0 <= x < j ==> lex_lt(out@[x].kid@, rec.kid@),
            ensures
                j <= out@.len(),
                out@ == old_out,
                forall|x: int| 0 <= x < j ==> lex_lt(out@[x].kid@, rec.kid@),
                j < out@.len() ==> !lex_lt(out@[j as int].kid@, rec.kid@),
            decreases out@.len() - j,
        {
            if !str_lex_lt(out[j].kid.as_str(), rec.kid.as_str()) {
                break;
            }
            j = j + 1;
        }
        if j < out.len() && out[j].kid == rec.kid {
            // Same key-id: the later record wins.
            proof {
                assert forall|x: int| 0 <= x < out@.len() && x != j implies out@[x].kid@
                    != rec.kid@ by {
                    if x < j {
                        lemma_lex_lt_irrefl(rec.kid@);
                    } else {
                        lemma_sorted_lt(out@, j as int, x);
                        lemma_lex_lt_irrefl(out@[j as int].kid@);
                    }
                }
                lemma_keys_map_update(out@, j as int, rec);
            }
            let ghost pre = out@;
            out.set(j, rec);
            proof {
                assert forall|i: int| 0 <= i && i + 1 < out@.len() implies lex_lt(
                    #[trigger] out@[i].kid@,
                    out@[i + 1].kid@,
                ) by {
                    assert(pre[i].kid@ == out@[i].kid@ || i == j);
                    assert(pre[i + 1].kid@ == out@[i + 1].kid@ || i + 1 == j);
                }
            }
        } else {
            // Fresh key-id: insert, keeping ascending order.
            proof {
                assert forall|x: int| 0 <= x < out@.len() implies out@[x].kid@ != rec.kid@ by {
                    if x < j {
                        lemma_lex_lt_irrefl(rec.kid@);
                    } else {
                        lemma_lex_lt_total(out@[j as int].kid@, rec.kid@);
                        if x > j {
                            lemma_sorted_lt(out@, j as int, x);
                            lemma_lex_lt_trans(rec.kid@, out@[j as int].kid@, out@[x].kid@);
                        }
                        lemma_lex_lt_irrefl(rec.kid@);
                        lemma_lex_lt_irrefl(out@[x].kid@);
                    }
                }
                lemma_keys_map_insert(out@, j as int, rec);
                if j < out@.len() {
                    lemma_lex_lt_total(out@[j as int].kid@, rec.kid@);
                }
            }
            let ghost pre = out@;
            out.insert(j, rec);
            proof {
                assert forall|i: int| 0 <= i && i + 1 < out@.len() implies lex_lt(
                    #[trigger] out@[i].kid@,
                    out@[i + 1].kid@,
                ) by {
                    if i + 1 < j {
                        assert(out@[i] == pre[i]);
                        assert(out@[i + 1] == pre[i + 1]);
                    } else if i + 1 == j {
                        assert(out@[i] == pre[i]);
                    } else if i == j {
                        assert(out@[i + 1] == pre[i]);
                    } else {
                        assert(out@[i] == pre[i - 1]);
                        assert(out@[i + 1] == pre[i]);
                    }
                }
            }
        }
        proof {
            assert(records@.take(t + 1).drop_last() =~= records@.take(t as int));
            assert(records@.take(t + 1).last() == records@[t as int]);
        }
        t = t + 1;
    }
    proof {
        assert(records@.take(records@.len() as int) =~= records@);
    }
    out
}

/// The cache's phase: no keys yet, a fetch in flight, or keys present.
#[derive(Clone, Copy, Debug, PartialEq, Eq, Structural)]
pub enum CachePhase {
    Uninitialized,
    Refreshing,
    Ready,
}

/// What a caller of `get_or_refresh` must do next.
#[derive(Clone, Copy, Debug, PartialEq, Eq, Structural)]
pub enum CacheDecision {
    /// The current keys are fresh: use them, no I/O.
    Fresh,
    /// This caller must perform the one network fetch and report its outcome.
    StartFetch,
    /// A fetch is already in flight: await its outcome.
    Join,
}

/// Whether keys with this expiry may still be used at `now`. An absent
/// expiry means "treat as already expired".
pub open spec fn is_fresh(expiry: Option<u64>, now: u64) -> bool {
    match expiry {
        Some(e) => now < e,
        None => false,
    }
}

/// The single-flight transition: next phase and decision for one caller
/// polling the cache, given whether the current keys are fresh.
pub open spec fn spec_step(phase: CachePhase, fresh: bool) -> (CachePhase, CacheDecision) {
    match phase {
        CachePhase::Ready => if fresh {
            (CachePhase::Ready, CacheDecision::Fresh)
        } else {
            (CachePhase::Refreshing, CacheDecision::StartFetch)
        },
        CachePhase::Refreshing => (CachePhase::Refreshing, CacheDecision::Join),
        CachePhase::Uninitialized => (CachePhase::Refreshing, CacheDecision::StartFetch),
    }
}

/// The cached provider keys, with the single-flight refresh state.
pub struct CachedCerts {
    phase: CachePhase,
    keys: Vec<Cert>,
    expiry: Option<u64>,
}

impl CachedCerts {
    pub closed spec fn spec_phase(&self) -> CachePhase {
        self.phase
    }

    pub closed spec fn spec_keys(&self) -> Seq<Cert> {
        self.keys@
    }

    pub closed spec fn spec_expiry(&self) -> Option<u64> {
        self.expiry
    }

    /// The keys stand in strictly ascending key-id order.
    pub open spec fn wf(&self) -> bool {
        sorted_strict(self.spec_keys())
    }

    /// An empty cache: no keys, treated as already expired.
    pub fn new() -> (r: Self)
        ensures
            r.spec_phase() == CachePhase::Uninitialized,
            r.spec_keys().len() == 0,
            r.spec_expiry() is None,
            r.wf(),
    {
        CachedCerts { phase: CachePhase::Uninitialized, keys: Vec::new(), expiry: None }
    }

    /// The provider's public-key endpoint.
    pub fn certs_url() -> (r: &'static str)
        ensures
            r@ == "https://www.googleapis.com/oauth2/v2/certs"@,
    {
        "https://www.googleapis.com/oauth2/v2/certs"
    }

    pub fn phase(&self) -> (r: CachePhase)
        ensures
            r == self.spec_phase(),
    {
        self.phase
    }

    pub fn expiry(&self) -> (r: Option<u64>)
        ensures
            r == self.spec_expiry(),
    {
        self.expiry
    }

    /// The current key set, in ascending key-id order.
    pub fn current_keys(&self) -> (r: &Vec<Cert>)
        ensures
            r@ == self.spec_keys(),
    {
        &self.keys
    }

    pub fn len(&self) -> (r: usize)
        ensures
            r == self.spec_keys().len(),
    {
        self.keys.len()
    }

    pub fn key_at(&self, i: usize) -> (r: &Cert)
        requires
            i < self.spec_keys().len(),
        ensures
            *r == self.spec_keys()[i as int],
    {
        &self.keys[i]
    }

    /// One caller polls the cache at instant `now`. Fresh keys are answered
    /// at once; otherwise the cache moves to (or stays in) `Refreshing`, and
    /// exactly the caller told `StartFetch` performs the fetch, every other
    /// one joins it.
    pub fn get_or_refresh(&mut self, now: u64) -> (d: CacheDecision)
        ensures
            final(self).spec_phase() == spec_step(
                old(self).spec_phase(),
                is_fresh(old(self).spec_expiry(), now),
            ).0,
            d == spec_step(old(self).spec_phase(), is_fresh(old(self).spec_expiry(), now)).1,
            d == CacheDecision::Fresh ==> *final(self) == *old(self),
            final(self).spec_keys() == old(self).spec_keys(),
            final(self).spec_expiry() == old(self).spec_expiry(),
            final(self).wf() == old(self).wf(),
    {
        match self.phase {
            CachePhase::Ready => {
                let fresh = match self.expiry {
                    Some(e) => now < e,
                    None => false,
                };
                if fresh {
                    CacheDecision::Fresh
                } else {
                    self.phase = CachePhase::Refreshing;
                    CacheDecision::StartFetch
                }
            },
            CachePhase::Refreshing => CacheDecision::Join,
            CachePhase::Uninitialized => {
                self.phase = CachePhase::Refreshing;
                CacheDecision::StartFetch
            },
        }
    }

    /// The in-flight fetch came back with records and a computed expiry: the
    /// cache becomes `Ready` with the key set those records denote.
    pub fn on_fetch_success(&mut self, records: Vec<Cert>, expiry: Option<u64>)
        requires
            old(self).spec_phase() == CachePhase::Refreshing,
        ensures
            final(self).spec_phase() == CachePhase::Ready,
            final(self).spec_expiry() == expiry,
            final(self).wf(),
            keys_map(final(self).spec_keys()) == keys_map(records@),
    {
        self.keys = build_key_set(records);
        self.expiry = expiry;
        self.phase = CachePhase::Ready;
    }

    /// The in-flight fetch failed: the error goes to every joined caller,
    /// and the cache leaves `Refreshing`, so the next call starts a fresh
    /// attempt rather than rejoining the failed one. The last known key set
    /// and its (necessarily stale) expiry are retained, never cleared: the
    /// key set is replaced only by a successful refresh.
    pub fn on_fetch_failure(&mut self)
        requires
            old(self).spec_phase() == CachePhase::Refreshing,
        ensures
            final(self).spec_phase() == CachePhase::Ready,
            final(self).spec_keys() == old(self).spec_keys(),
            final(self).spec_expiry() == old(self).spec_expiry(),
            final(self).wf() == old(self).wf(),
    {
        self.phase = CachePhase::Ready;
    }

    /// The range of candidate key indices for a token: all keys when the
    /// token names no key-id, exactly the named key when it is present, and
    /// `InvalidKey` when the named key-id is unknown.
    pub fn get_range(&self, kid: &Option<String>) -> (r: Result<(usize, usize), Error>)
        ensures
            (*kid) is None ==> (r matches Ok(p) && p.0 == 0 && p.1 == self.spec_keys().len()),
            (*kid) matches Some(k) ==> {
                &&& !kid_in(self.spec_keys(), k@) ==> r == Err::<(usize, usize), Error>(
                    Error::InvalidKey,
                )
                &&& kid_in(self.spec_keys(), k@) ==> (r matches Ok(p) && p.1 == p.0 + 1 && p.0
                    < self.spec_keys().len() && self.spec_keys()[p.0 as int].kid@ == k@)
            },
    {
        match kid {
            None => Ok((0, self.keys.len())),
            Some(k) => {
                let mut i: usize = 0;
                #[verifier::loop_isolation(false)]
                while i < self.keys.len()
                    invariant
                        i <= self.keys@.len(),
                        forall|j: int| 0 <= j < i ==> self.keys@[j].kid@ != k@,
                    decreases self.keys@.len() - i,
                {
                    if self.keys[i].kid == *k {
                        proof {
                            assert(self.spec_keys()[i as int].kid@ == k@);
                        }
                        return Ok((i, i + 1));
                    }
                    i = i + 1;
                }
                Err(Error::InvalidKey)
            },
        }
    }
}

/// The view of an optional header value.
pub open spec fn opt_str_view(h: Option<&str>) -> Option<Seq<char>> {
    match h {
        None => None,
        Some(s) => Some(s@),
    }
}

/// The expiry a fetch at instant `now` derives from the response's
/// `Cache-Control` header: `now` plus `max-age` seconds (saturating), and
/// "already expired" when the header is absent, fails to parse, or carries
/// no `max-age`.
pub open spec fn spec_expiry_of(header: Option<Seq<char>>, now: u64) -> Option<u64> {
    match header {
        None => None,
        Some(h) => match spec_parse(h) {
            None => None,
            Some(cc) => match cc.max_age {
                None => None,
                Some(a) => if now + a > u64::MAX {
                    Some(u64::MAX)
                } else {
                    Some((now + a) as u64)
                },
            },
        },
    }
}

/// Computes the expiry instant from the `Cache-Control` header of a key
/// response received at instant `now`.
pub fn compute_expiry(header: Option<&str>, now: u64) -> (r: Option<u64>)
    ensures
        r == spec_expiry_of(opt_str_view(header), now),
{
    match header {
        None => None,
        Some(h) => match CacheControl::from_value(h) {
            None => None,
            Some(cc) => match cc.max_age {
                None => None,
                Some(a) => if a > u64::MAX - now {
                    Some(u64::MAX)
                } else {
                    Some(now + a)
                },
            },
        },
    }
}

/// Whether an HTTP status is a success (2xx).
pub fn status_is_success(status: u16) -> (r: bool)
    ensures
        r == (200 <= status && status <= 299),
{
    200 <= status && status <= 299
}

/// The phases a run of polls goes through, given each poll's freshness.
pub open spec fn run_phase(phase: CachePhase, flags: Seq<bool>) -> CachePhase
    decreases flags.len(),
{
    if flags.len() == 0 {
        phase
    } else {
        run_phase(spec_step(phase, flags[0]).0, flags.skip(1))
    }
}

/// The decisions a run of polls is handed, given each poll's freshness.
pub open spec fn run_decisions(phase: CachePhase, flags: Seq<bool>) -> Seq<CacheDecision>
    decreases flags.len(),
{
    if flags.len() == 0 {
        Seq::empty()
    } else {
        seq![spec_step(phase, flags[0]).1] + run_decisions(
            spec_step(phase, flags[0]).0,
            flags.skip(1),
        )
    }
}

/// How many of the decisions start a network fetch.
pub open spec fn count_fetches(ds: Seq<CacheDecision>) -> nat
    decreases ds.len(),
{
    if ds.len() == 0 {
        0
    } else {
        (if ds[0] == CacheDecision::StartFetch {
            1nat
        } else {
            0nat
        }) + count_fetches(ds.skip(1))
    }
}

/// A run of polls is handed one decision each.
pub proof fn lemma_run_decisions_len(phase: CachePhase, flags: Seq<bool>)
    ensures
        run_decisions(phase, flags).len() == flags.len(),
    decreases flags.len(),
{
    if flags.len() > 0 {
        lemma_run_decisions_len(spec_step(phase, flags[0]).0, flags.skip(1));
    }
}

/// While a fetch is in flight, further polls only join it.
pub proof fn lemma_refreshing_joins(flags: Seq<bool>)
    ensures
        count_fetches(run_decisions(CachePhase::Refreshing, flags)) == 0,
        run_phase(CachePhase::Refreshing, flags) == CachePhase::Refreshing,
    decreases flags.len(),
{
    if flags.len() > 0 {
        lemma_refreshing_joins(flags.skip(1));
        assert(run_decisions(CachePhase::Refreshing, flags).skip(1) =~= run_decisions(
            CachePhase::Refreshing,
            flags.skip(1),
        ));
    }
}

/// Single flight: however many callers poll the cache, between one fetch
/// outcome and the next, at most one of them is told to fetch.
pub proof fn lemma_single_flight(phase: CachePhase, flags: Seq<bool>)
    ensures
        count_fetches(run_decisions(phase, flags)) <= 1,
    decreases flags.len(),
{
    if flags.len() > 0 {
        let (p2, d) = spec_step(phase, flags[0]);
        assert(run_decisions(phase, flags).skip(1) =~= run_decisions(p2, flags.skip(1)));
        if d == CacheDecision::StartFetch {
            lemma_refreshing_joins(flags.skip(1));
        } else {
            lemma_single_flight(p2, flags.skip(1));
        }
    }
}

/// Re-querying a `Ready`, non-expired cache never starts a fetch: every
/// caller is answered from the cache, which stays `Ready`.
pub proof fn lemma_fresh_reads_are_idempotent(flags: Seq<bool>)
    requires
        forall|i: int| 0 <= i < flags.len() ==> flags[i],
    ensures
        count_fetches(run_decisions(CachePhase::Ready, flags)) == 0,
        run_phase(CachePhase::Ready, flags) == CachePhase::Ready,
        forall|i: int|
            0 <= i < flags.len() ==> run_decisions(CachePhase::Ready, flags)[i]
                == CacheDecision::Fresh,
    decreases flags.len(),
{
    if flags.len() > 0 {
        assert(forall|i: int| 0 <= i < flags.skip(1).len() ==> flags.skip(1)[i]);
        lemma_fresh_reads_are_idempotent(flags.skip(1));
        lemma_run_decisions_len(CachePhase::Ready, flags);
        lemma_run_decisions_len(CachePhase::Ready, flags.skip(1));
        assert(run_decisions(CachePhase::Ready, flags).skip(1) =~= run_decisions(
            CachePhase::Ready,
            flags.skip(1),
        ));
        assert forall|i: int| 0 <= i < flags.len() implies run_decisions(
            CachePhase::Ready,
            flags,
        )[i] == CacheDecision::Fresh by {
            if i > 0 {
                assert(run_decisions(CachePhase::Ready, flags)[i] == run_decisions(
                    CachePhase::Ready,
                    flags.skip(1),
                )[i - 1]);
            }
        }
    }
}

/// A key set stored with `max-age=0` (expiry equal to the fetch instant) or
/// without `max-age` (no expiry) is already expired: the very next poll
/// starts a new fetch.
pub proof fn lemma_expired_poll_refetches(expiry: Option<u64>, now: u64)
    requires
        expiry matches Some(e) ==> e <= now,
    ensures
        !is_fresh(expiry, now),
        spec_step(CachePhase::Ready, is_fresh(expiry, now)) == (
            CachePhase::Refreshing,
            CacheDecision::StartFetch,
        ),
{
}

} // verus!

