//! The cache-control directive parser: value parses, fail-fast behaviour.

use google_signin::{CacheControl, Cachability};

#[test]
fn public_with_max_age() {
    let cc = CacheControl::from_value("public, max-age=300").expect("parse");
    assert_eq!(cc.cachability, Some(Cachability::Public));
    assert_eq!(cc.max_age, Some(300));
    assert_eq!(cc.s_max_age, None);
    assert!(!cc.must_revalidate);
}

#[test]
fn missing_value_discards_whole_parse() {
    // `public` alone would parse; the malformed `max-age=` poisons the
    // whole header, nothing is partially applied.
    assert_eq!(CacheControl::from_value("public, max-age="), None);
    assert_eq!(CacheControl::from_value("max-age=, public"), None);
}

#[test]
fn valued_directive_without_equals_is_rejected() {
    assert_eq!(CacheControl::from_value("max-age"), None);
    assert_eq!(CacheControl::from_value("public, min-fresh"), None);
}

#[test]
fn non_numeric_and_negative_values_are_rejected() {
    assert_eq!(CacheControl::from_value("max-age=abc"), None);
    assert_eq!(CacheControl::from_value("max-age=-5"), None);
    assert_eq!(CacheControl::from_value("max-age=+5"), None);
    assert_eq!(CacheControl::from_value("max-age=12x"), None);
}

#[test]
fn overflowing_value_is_rejected() {
    assert_eq!(
        CacheControl::from_value("max-age=99999999999999999999999999"),
        None
    );
    // The largest value that fits is accepted.
    let cc = CacheControl::from_value("max-age=18446744073709551615").expect("parse");
    assert_eq!(cc.max_age, Some(u64::MAX));
    assert_eq!(CacheControl::from_value("max-age=18446744073709551616"), None);
}

#[test]
fn unknown_directives_are_ignored() {
    let cc = CacheControl::from_value("public, fancy-new-directive, stale-while-revalidate=30")
        .expect("parse");
    assert_eq!(cc.cachability, Some(Cachability::Public));
    assert_eq!(cc.max_age, None);
}

#[test]
fn whitespace_is_trimmed() {
    let cc = CacheControl::from_value("  private ,  max-age = 60 ").expect("parse");
    assert_eq!(cc.cachability, Some(Cachability::Private));
    assert_eq!(cc.max_age, Some(60));
}

#[test]
fn flag_directives_are_recorded() {
    let cc = CacheControl::from_value(
        "no-cache, must-revalidate, proxy-revalidate, immutable, no-store, no-transform",
    )
    .expect("parse");
    assert_eq!(cc.cachability, Some(Cachability::NoCache));
    assert!(cc.must_revalidate);
    assert!(cc.proxy_revalidate);
    assert!(cc.immutable);
    assert!(cc.no_store);
    assert!(cc.no_transform);
}

#[test]
fn remaining_cachability_values() {
    let cc = CacheControl::from_value("only-if-cached").expect("parse");
    assert_eq!(cc.cachability, Some(Cachability::OnlyIfCached));
    let cc = CacheControl::from_value("min-fresh=10, max-stale=20").expect("parse");
    assert_eq!(cc.min_fresh, Some(10));
    assert_eq!(cc.max_stale, Some(20));
}

#[test]
fn later_directive_wins() {
    let cc = CacheControl::from_value("public, private, max-age=1, max-age=2").expect("parse");
    assert_eq!(cc.cachability, Some(Cachability::Private));
    assert_eq!(cc.max_age, Some(2));
}

#[test]
fn empty_key_is_rejected() {
    assert_eq!(CacheControl::from_value(""), None);
    assert_eq!(CacheControl::from_value("public,,max-age=3"), None);
    assert_eq!(CacheControl::from_value("=5"), None);
}

#[test]
fn value_split_on_first_equals() {
    // The value is everything after the first `=`; `300=400` is not an
    // integer, so the parse aborts.
    assert_eq!(CacheControl::from_value("max-age=300=400"), None);
}

#[test]
fn flag_with_value_keeps_flag_meaning() {
    let cc = CacheControl::from_value("public=1").expect("parse");
    assert_eq!(cc.cachability, Some(Cachability::Public));
}
