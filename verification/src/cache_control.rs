//! Parsing of HTTP `Cache-Control` directive strings into a freshness policy.
//!
//! The parser is all-or-nothing: a directive with a missing key, a valued
//! directive without a value, or a value that is not a non-negative integer
//! makes the whole parse yield `None`; directives already seen in that call
//! are discarded, never partially applied. Unknown directives are ignored.

use vstd::prelude::*;

verus! {

broadcast use vstd::string::group_string_axioms;

/// How the data may be cached.
#[derive(Clone, Copy, Debug, PartialEq, Eq, Structural)]
pub enum Cachability {
    /// Any cache can cache this data.
    Public,
    /// Data cannot be cached in shared caches.
    Private,
    /// No one can cache this data.
    NoCache,
    /// Cache the data the first time, and use the cache from then on.
    OnlyIfCached,
}

/// A parsed `Cache-Control` header value. Durations are whole seconds.
#[derive(Clone, Copy, Debug, PartialEq, Eq)]
pub struct CacheControl {
    pub cachability: Option<Cachability>,
    pub max_age: Option<u64>,
    pub s_max_age: Option<u64>,
    pub max_stale: Option<u64>,
    pub min_fresh: Option<u64>,
    pub must_revalidate: bool,
    pub proxy_revalidate: bool,
    pub immutable: bool,
    pub no_store: bool,
    pub no_transform: bool,
}

/// The policy before any directive is applied: nothing set.
pub open spec fn spec_empty_policy() -> CacheControl {
    CacheControl {
        cachability: None,
        max_age: None,
        s_max_age: None,
        max_stale: None,
        min_fresh: None,
        must_revalidate: false,
        proxy_revalidate: false,
        immutable: false,
        no_store: false,
        no_transform: false,
    }
}

/// ASCII whitespace, as trimmed from directive keys and values.
pub open spec fn is_ws(c: char) -> bool {
    c == ' ' || c == '\t' || c == '\n' || c == '\r' || c == '\u{c}'
}

/// `s` without leading whitespace.
pub open spec fn spec_trim_start(s: Seq<char>) -> Seq<char>
    decreases s.len(),
{
    if s.len() > 0 && is_ws(s[0]) {
        spec_trim_start(s.skip(1))
    } else {
        s
    }
}

/// `s` without trailing whitespace.
pub open spec fn spec_trim_end(s: Seq<char>) -> Seq<char>
    decreases s.len(),
{
    if s.len() > 0 && is_ws(s.last()) {
        spec_trim_end(s.drop_last())
    } else {
        s
    }
}

/// `s` without leading and trailing whitespace.
pub open spec fn spec_trim(s: Seq<char>) -> Seq<char> {
    spec_trim_end(spec_trim_start(s))
}

/// A decimal digit.
pub open spec fn is_digit(c: char) -> bool {
    48 <= c as u32 && c as u32 <= 57
}

pub open spec fn digit_val(c: char) -> nat {
    (c as u32 - 48) as nat
}

pub open spec fn all_digits(s: Seq<char>) -> bool {
    forall|i: int| 0 <= i < s.len() ==> is_digit(s[i])
}

/// The value of a string of decimal digits, most significant first.
pub open spec fn dec_val(s: Seq<char>) -> nat
    decreases s.len(),
{
    if s.len() == 0 {
        0
    } else {
        dec_val(s.drop_last()) * 10 + digit_val(s.last())
    }
}

/// What parsing a non-negative decimal integer yields: the value, if `s` is
/// one or more digits and the value fits in a `u64`.
pub open spec fn spec_parse_u64(s: Seq<char>) -> Option<u64> {
    if s.len() > 0 && all_digits(s) && dec_val(s) <= u64::MAX {
        Some(dec_val(s) as u64)
    } else {
        None
    }
}

/// The first position of `c` in `s`, if any.
pub open spec fn find_char(s: Seq<char>, c: char) -> Option<int>
    decreases s.len(),
{
    if s.len() == 0 {
        None
    } else if s[0] == c {
        Some(0)
    } else {
        match find_char(s.skip(1), c) {
            None => None,
            Some(i) => Some(i + 1),
        }
    }
}

/// `find_char` returns the first position of `c`, or `None` if `c` is absent.
pub proof fn lemma_find_char(s: Seq<char>, c: char)
    ensures
        match find_char(s, c) {
            None => forall|j: int| 0 <= j < s.len() ==> s[j] != c,
            Some(i) => 0 <= i < s.len() && s[i] == c && forall|j: int| 0 <= j < i ==> s[j] != c,
        },
    decreases s.len(),
{
    if s.len() > 0 && s[0] != c {
        lemma_find_char(s.skip(1), c);
        assert forall|j: int| 1 <= j < s.len() implies s[j] == s.skip(1)[j - 1] by {}
    }
}

/// The directive key of token `t`: what stands before the first `=`, trimmed.
pub open spec fn spec_key_of(t: Seq<char>) -> Seq<char> {
    match find_char(t, '=') {
        None => spec_trim(t),
        Some(i) => spec_trim(t.take(i)),
    }
}

/// The directive value of token `t`: what stands after the first `=`, trimmed.
pub open spec fn spec_val_of(t: Seq<char>) -> Option<Seq<char>> {
    match find_char(t, '=') {
        None => None,
        Some(i) => Some(spec_trim(t.skip(i + 1))),
    }
}

/// One directive token applied to the policy built so far. `None` aborts the
/// whole parse: an empty key, a valued directive without a value, or a value
/// that is not a non-negative integer.
pub open spec fn spec_apply_directive(t: Seq<char>, acc: CacheControl) -> Option<CacheControl> {
    let key = spec_key_of(t);
    if key.len() == 0 {
        None
    } else if key == "public"@ {
        Some(CacheControl { cachability: Some(Cachability::Public), ..acc })
    } else if key == "private"@ {
        Some(CacheControl { cachability: Some(Cachability::Private), ..acc })
    } else if key == "no-cache"@ {
        Some(CacheControl { cachability: Some(Cachability::NoCache), ..acc })
    } else if key == "only-if-cached"@ {
        Some(CacheControl { cachability: Some(Cachability::OnlyIfCached), ..acc })
    } else if key == "max-age"@ {
        match spec_val_of(t) {
            None => None,
            Some(v) => match spec_parse_u64(v) {
                None => None,
                Some(n) => Some(CacheControl { max_age: Some(n), ..acc }),
            },
        }
    } else if key == "max-stale"@ {
        match spec_val_of(t) {
            None => None,
            Some(v) => match spec_parse_u64(v) {
                None => None,
                Some(n) => Some(CacheControl { max_stale: Some(n), ..acc }),
            },
        }
    } else if key == "min-fresh"@ {
        match spec_val_of(t) {
            None => None,
            Some(v) => match spec_parse_u64(v) {
                None => None,
                Some(n) => Some(CacheControl { min_fresh: Some(n), ..acc }),
            },
        }
    } else if key == "must-revalidate"@ {
        Some(CacheControl { must_revalidate: true, ..acc })
    } else if key == "proxy-revalidate"@ {
        Some(CacheControl { proxy_revalidate: true, ..acc })
    } else if key == "immutable"@ {
        Some(CacheControl { immutable: true, ..acc })
    } else if key == "no-store"@ {
        Some(CacheControl { no_store: true, ..acc })
    } else if key == "no-transform"@ {
        Some(CacheControl { no_transform: true, ..acc })
    } else {
        Some(acc)
    }
}

/// The remaining input `s`, with `tok` the token accumulated so far, folded
/// over the policy `acc`. Tokens are separated by `,`.
pub open spec fn spec_parse_from(s: Seq<char>, tok: Seq<char>, acc: CacheControl) -> Option<
    CacheControl,
>
    decreases s.len(),
{
    if s.len() == 0 {
        spec_apply_directive(tok, acc)
    } else if s[0] == ',' {
        match spec_apply_directive(tok, acc) {
            None => None,
            Some(a) => spec_parse_from(s.skip(1), Seq::empty(), a),
        }
    } else {
        spec_parse_from(s.skip(1), tok.push(s[0]), acc)
    }
}

/// What parsing a whole `Cache-Control` value yields.
pub open spec fn spec_parse(s: Seq<char>) -> Option<CacheControl> {
    spec_parse_from(s, Seq::empty(), spec_empty_policy())
}

impl CacheControl {
    /// The policy with nothing set.
    pub fn empty() -> (r: CacheControl)
        ensures
            r == spec_empty_policy(),
    {
        CacheControl {
            cachability: None,
            max_age: None,
            s_max_age: None,
            max_stale: None,
            min_fresh: None,
            must_revalidate: false,
            proxy_revalidate: false,
            immutable: false,
            no_store: false,
            no_transform: false,
        }
    }

    /// Parses the value of the Cache-Control header (everything after
    /// "Cache-Control:"). Yields `None` as soon as any directive is
    /// malformed; no partially applied policy escapes.
    pub fn from_value(value: &str) -> (r: Option<CacheControl>)
        ensures
            r == spec_parse(value@),
    {
        let cs = chars_of(value);
        let len = cs.len();
        let mut ret = CacheControl::empty();
        let mut start: usize = 0;
        let mut i: usize = 0;
        proof {
            assert(cs@.skip(0) =~= cs@);
            assert(cs@.subrange(0, 0) =~= Seq::<char>::empty());
        }
        while i < len
            invariant
                start <= i <= len,
                len == cs@.len(),
                cs@ == value@,
                spec_parse_from(cs@.skip(i as int), cs@.subrange(start as int, i as int), ret)
                    == spec_parse(value@),
            decreases len - i,
        {
            let ghost rest = cs@.skip(i as int);
            let ghost tok = cs@.subrange(start as int, i as int);
            assert(rest[0] == cs@[i as int]);
            if cs[i] == ',' {
                match apply_directive(&cs, start, i, ret) {
                    None => {
                        return None;
                    },
                    Some(a) => {
                        ret = a;
                    },
                }
                start = i + 1;
                proof {
                    assert(rest.skip(1) =~= cs@.skip(i + 1));
                    assert(Seq::<char>::empty() =~= cs@.subrange(start as int, i + 1));
                }
            } else {
                proof {
                    assert(rest.skip(1) =~= cs@.skip(i + 1));
                    assert(tok.push(cs@[i as int]) =~= cs@.subrange(start as int, i + 1));
                }
            }
            i = i + 1;
        }
        proof {
            assert(cs@.skip(len as int) =~= Seq::<char>::empty());
        }
        apply_directive(&cs, start, len, ret)
    }
}

impl Default for CacheControl {
    fn default() -> (r: CacheControl)
        ensures
            r == spec_empty_policy(),
    {
        CacheControl::empty()
    }
}

/// The characters of `s`, for index-based scanning.
pub fn chars_of(s: &str) -> (r: Vec<char>)
    ensures
        r@ == s@,
{
    let len = s.unicode_len();
    let mut r: Vec<char> = Vec::new();
    let mut i: usize = 0;
    while i < len
        invariant
            i <= len,
            len == s@.len(),
            r@ == s@.take(i as int),
        decreases len - i,
    {
        r.push(s.get_char(i));
        i = i + 1;
        proof {
            assert(r@ =~= s@.take(i as int));
        }
    }
    proof {
        assert(r@ =~= s@);
    }
    r
}

/// Parses a whole string as a non-negative decimal integer.
pub fn parse_u64_str(s: &str) -> (r: Option<u64>)
    ensures
        r == spec_parse_u64(s@),
{
    let cs = chars_of(s);
    let n = cs.len();
    let r = parse_u64_in(&cs, 0, n);
    proof {
        assert(cs@.subrange(0, n as int) =~= s@);
    }
    r
}

/// Whether the characters of `cs` in `[start, end)` equal the literal `lit`.
fn range_eq(cs: &Vec<char>, start: usize, end: usize, lit: &str) -> (r: bool)
    requires
        start <= end <= cs@.len(),
    ensures
        r == (cs@.subrange(start as int, end as int) == lit@),
{
    let n = lit.unicode_len();
    if end - start != n {
        proof {
            assert(cs@.subrange(start as int, end as int).len() != lit@.len());
        }
        return false;
    }
    let mut j: usize = 0;
    while j < n
        invariant
            j <= n,
            n == lit@.len(),
            start + n == end,
            end <= cs@.len(),
            cs@.subrange(start as int, start + j) =~= lit@.take(j as int),
        decreases n - j,
    {
        if cs[start + j] != lit.get_char(j) {
            proof {
                assert(cs@.subrange(start as int, end as int)[j as int] == cs@[start + j]);
            }
            return false;
        }
        j = j + 1;
        proof {
            assert(cs@.subrange(start as int, start + j) =~= lit@.take(j as int));
        }
    }
    proof {
        assert(cs@.subrange(start as int, end as int) =~= lit@);
    }
    true
}

/// Trims whitespace from both ends of `[start, end)`; the result names the
/// trimmed sub-range.
fn trim_in(cs: &Vec<char>, start: usize, end: usize) -> (r: (usize, usize))
    requires
        start <= end <= cs@.len(),
    ensures
        start <= r.0 <= r.1 <= end,
        cs@.subrange(r.0 as int, r.1 as int) == spec_trim(
            cs@.subrange(start as int, end as int),
        ),
{
    let mut a: usize = start;
    while a < end && is_ws_exec(cs[a])
        invariant
            start <= a <= end <= cs@.len(),
            spec_trim_start(cs@.subrange(a as int, end as int)) == spec_trim_start(
                cs@.subrange(start as int, end as int),
            ),
        decreases end - a,
    {
        proof {
            assert(cs@.subrange(a as int, end as int).skip(1) =~= cs@.subrange(
                a + 1,
                end as int,
            ));
            assert(cs@.subrange(a as int, end as int)[0] == cs@[a as int]);
        }
        a = a + 1;
    }
    proof {
        if a < end {
            assert(cs@.subrange(a as int, end as int)[0] == cs@[a as int]);
        }
        assert(spec_trim_start(cs@.subrange(a as int, end as int)) == cs@.subrange(
            a as int,
            end as int,
        ));
    }
    let mut b: usize = end;
    while b > a && is_ws_exec(cs[b - 1])
        invariant
            start <= a <= b <= end <= cs@.len(),
            spec_trim_start(cs@.subrange(a as int, end as int)) == cs@.subrange(
                a as int,
                end as int,
            ),
            spec_trim_end(cs@.subrange(a as int, b as int)) == spec_trim_end(
                cs@.subrange(a as int, end as int),
            ),
        decreases b,
    {
        proof {
            assert(cs@.subrange(a as int, b as int).drop_last() =~= cs@.subrange(
                a as int,
                b - 1,
            ));
            assert(cs@.subrange(a as int, b as int).last() == cs@[b - 1]);
        }
        b = b - 1;
    }
    proof {
        if b > a {
            assert(cs@.subrange(a as int, b as int).last() == cs@[b - 1]);
        }
        assert(spec_trim_end(cs@.subrange(a as int, b as int)) == cs@.subrange(
            a as int,
            b as int,
        ));
    }
    (a, b)
}

/// Executable form of `is_ws`.
fn is_ws_exec(c: char) -> (r: bool)
    ensures
        r == is_ws(c),
{
    c == ' ' || c == '\t' || c == '\n' || c == '\r' || c == '\u{c}'
}

/// Appending a digit cannot shrink the value of a digit string.
proof fn lemma_dec_val_prefix_le(s: Seq<char>, k: int)
    requires
        0 <= k <= s.len(),
    ensures
        dec_val(s.take(k)) <= dec_val(s),
    decreases s.len() - k,
{
    if k < s.len() {
        lemma_dec_val_prefix_le(s, k + 1);
        assert(s.take(k + 1).drop_last() =~= s.take(k));
        assert(dec_val(s.take(k + 1)) == dec_val(s.take(k)) * 10 + digit_val(s.take(k + 1).last()));
    } else {
        assert(s.take(k) =~= s);
    }
}

/// Parses `[start, end)` as a non-negative decimal integer.
fn parse_u64_in(cs: &Vec<char>, start: usize, end: usize) -> (r: Option<u64>)
    requires
        start <= end <= cs@.len(),
    ensures
        r == spec_parse_u64(cs@.subrange(start as int, end as int)),
{
    let ghost whole = cs@.subrange(start as int, end as int);
    if start == end {
        return None;
    }
    let mut acc: u64 = 0;
    let mut i: usize = start;
    while i < end
        invariant
            start <= i <= end <= cs@.len(),
            start < end,
            whole == cs@.subrange(start as int, end as int),
            all_digits(whole.take(i - start)),
            acc == dec_val(whole.take(i - start)),
        decreases end - i,
    {
        let c = cs[i];
        let d = c as u32;
        proof {
            assert(whole[i - start] == cs@[i as int]);
        }
        if d < 48 || d > 57 {
            proof {
                assert(!is_digit(whole[i - start]));
            }
            return None;
        }
        let dv: u64 = (d - 48) as u64;
        proof {
            assert(whole.take(i - start + 1).drop_last() =~= whole.take(i - start));
            assert(whole.take(i - start + 1).last() == whole[i - start]);
        }
        if acc > (u64::MAX - dv) / 10 {
            proof {
                let p = dec_val(whole.take(i - start + 1));
                assert(p == acc * 10 + dv);
                assert(acc >= (u64::MAX - dv) / 10 + 1);
                assert(acc * 10 >= ((u64::MAX - dv) / 10 + 1) * 10) by (nonlinear_arith)
                    requires
                        acc >= (u64::MAX - dv) / 10 + 1,
                ;
                assert(((u64::MAX - dv) / 10) * 10 + 10 > (u64::MAX - dv) + 10 - 10) by {
                    assert(((u64::MAX - dv) / 10) * 10 > (u64::MAX - dv) - 10) by (nonlinear_arith)
                        requires
                            dv <= u64::MAX,
                    ;
                };
                assert(p > u64::MAX);
                lemma_dec_val_prefix_le(whole, i - start + 1);
                assert(dec_val(whole) > u64::MAX);
            }
            return None;
        }
        acc = acc * 10 + dv;
        i = i + 1;
    }
    proof {
        assert(whole.take(end - start) =~= whole);
    }
    Some(acc)
}

/// Applies the directive token in `[start, end)` to `acc`.
fn apply_directive(cs: &Vec<char>, start: usize, end: usize, acc: CacheControl) -> (r: Option<
    CacheControl,
>)
    requires
        start <= end <= cs@.len(),
    ensures
        r == spec_apply_directive(cs@.subrange(start as int, end as int), acc),
{
    let ghost tok = cs@.subrange(start as int, end as int);
    // Find the first `=` in the token.
    let mut eq: Option<usize> = None;
    let mut i: usize = start;
    while i < end && eq.is_none()
        invariant
            start <= i <= end <= cs@.len(),
            tok == cs@.subrange(start as int, end as int),
            match eq {
                None => forall|j: int| 0 <= j < i - start ==> tok[j] != '=',
                Some(p) => start <= p < end && i == p + 1 && tok[p - start] == '='
                    && forall|j: int| 0 <= j < p - start ==> tok[j] != '=',
            },
        decreases end - i,
    {
        proof {
            assert(tok[i - start] == cs@[i as int]);
        }
        if cs[i] == '=' {
            eq = Some(i);
        }
        i = i + 1;
    }
    proof {
        lemma_find_char(tok, '=');
        match eq {
            None => {
                assert(find_char(tok, '=') is None);
            },
            Some(p) => {
                assert(find_char(tok, '=') == Some(p - start as int)) by {
                    match find_char(tok, '=') {
                        None => {
                            assert(tok[p - start] == '=');
                            assert(false);
                        },
                        Some(q) => {
                            if q < p - start {
                                assert(tok[q] != '=');
                                assert(false);
                            }
                            if q > p - start {
                                assert(tok[p - start] != '=');
                                assert(false);
                            }
                        },
                    }
                };
            },
        }
    }
    let key_end: usize = match eq {
        None => end,
        Some(p) => p,
    };
    let (ks, ke) = trim_in(cs, start, key_end);
    proof {
        match eq {
            None => {},
            Some(p) => {
                assert(tok.take(p - start) =~= cs@.subrange(start as int, p as int));
            },
        }
        assert(cs@.subrange(ks as int, ke as int) == spec_key_of(tok));
    }
    if ke == ks {
        return None;
    }
    if range_eq(cs, ks, ke, "public") {
        return Some(CacheControl { cachability: Some(Cachability::Public), ..acc });
    }
    if range_eq(cs, ks, ke, "private") {
        return Some(CacheControl { cachability: Some(Cachability::Private), ..acc });
    }
    if range_eq(cs, ks, ke, "no-cache") {
        return Some(CacheControl { cachability: Some(Cachability::NoCache), ..acc });
    }
    if range_eq(cs, ks, ke, "only-if-cached") {
        return Some(CacheControl { cachability: Some(Cachability::OnlyIfCached), ..acc });
    }
    let valued: u8 = if range_eq(cs, ks, ke, "max-age") {
        1
    } else if range_eq(cs, ks, ke, "max-stale") {
        2
    } else if range_eq(cs, ks, ke, "min-fresh") {
        3
    } else {
        0
    };
    if valued > 0 {
        let p = match eq {
            None => {
                return None;
            },
            Some(p) => p,
        };
        let (vs, ve) = trim_in(cs, p + 1, end);
        proof {
            assert(tok.skip(p - start + 1) =~= cs@.subrange(p + 1, end as int));
            assert(cs@.subrange(vs as int, ve as int) == spec_val_of(tok).unwrap());
        }
        let n = match parse_u64_in(cs, vs, ve) {
            None => {
                return None;
            },
            Some(n) => n,
        };
        return if valued == 1 {
            Some(CacheControl { max_age: Some(n), ..acc })
        } else if valued == 2 {
            Some(CacheControl { max_stale: Some(n), ..acc })
        } else {
            Some(CacheControl { min_fresh: Some(n), ..acc })
        };
    }
    if range_eq(cs, ks, ke, "must-revalidate") {
        return Some(CacheControl { must_revalidate: true, ..acc });
    }
    if range_eq(cs, ks, ke, "proxy-revalidate") {
        return Some(CacheControl { proxy_revalidate: true, ..acc });
    }
    if range_eq(cs, ks, ke, "immutable") {
        return Some(CacheControl { immutable: true, ..acc });
    }
    if range_eq(cs, ks, ke, "no-store") {
        return Some(CacheControl { no_store: true, ..acc });
    }
    if range_eq(cs, ks, ke, "no-transform") {
        return Some(CacheControl { no_transform: true, ..acc });
    }
    Some(acc)
}

} // verus!
