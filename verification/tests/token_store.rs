use link_shorter::token::TokenStore;

#[test]
fn token_absent_not_allowed() {
    let store = TokenStore::new();
    assert!(!store.token_allowed("anything"));
    assert!(!store.token_allowed_at("anything", 0));
}

#[test]
fn token_removed_not_allowed() {
    let mut store = TokenStore::new();
    store.add_token("abc", None);
    assert!(store.token_allowed("abc"));
    store.remove_token("abc");
    assert!(!store.token_allowed("abc"));
    assert!(store.locate_token("abc").is_none());
}

#[test]
fn token_without_expiry_allowed() {
    let mut store = TokenStore::new();
    store.add_token("abc", None);
    assert!(store.token_allowed("abc"));
    assert!(store.token_allowed_at("abc", i64::MAX));
    let row = store.locate_token("abc").expect("stored");
    assert_eq!(row.token, "abc");
    assert_eq!(row.ttl, None);
}

#[test]
fn token_negative_duration_not_allowed() {
    let mut store = TokenStore::new();
    store.add_token("abc", Some(-1));
    assert!(!store.token_allowed("abc"));
}

#[test]
fn token_negative_duration_not_allowed_at_add_time() {
    let mut store = TokenStore::new();
    let now = 1_700_000_000_000_000;
    store.add_token_at("abc", Some(-1), now);
    assert!(!store.token_allowed_at("abc", now));
    assert_eq!(
        store.locate_token("abc").expect("stored").ttl,
        Some(now - 1_000_000)
    );
}

#[test]
fn token_future_expiry_allowed_until_then() {
    let mut store = TokenStore::new();
    let now = 1_700_000_000_000_000;
    store.add_token_at("abc", Some(60), now);
    assert!(store.token_allowed_at("abc", now));
    assert!(store.token_allowed_at("abc", now + 59_999_999));
    assert!(!store.token_allowed_at("abc", now + 60_000_000));
    assert!(!store.token_allowed_at("abc", now + 61_000_000));
}

#[test]
fn token_readd_replaces_expiry() {
    let mut store = TokenStore::new();
    let now = 1_700_000_000_000_000;
    store.add_token_at("abc", Some(-1), now);
    assert!(!store.token_allowed_at("abc", now));
    store.add_token_at("abc", None, now);
    assert!(store.token_allowed_at("abc", now));
    assert_eq!(store.list_token().len(), 1);
}

#[test]
fn token_list_snapshot() {
    let mut store = TokenStore::new();
    assert!(store.list_token().is_empty());
    store.add_token_at("one", None, 0);
    store.add_token_at("two", Some(5), 0);
    let rows = store.list_token();
    assert_eq!(rows.len(), 2);
    assert_eq!(rows[0].token, "one");
    assert_eq!(rows[0].ttl, None);
    assert_eq!(rows[1].token, "two");
    assert_eq!(rows[1].ttl, Some(5_000_000));
}

#[test]
fn token_locate_exact_match_only() {
    let mut store = TokenStore::new();
    store.add_token_at("Case", None, 0);
    assert!(store.locate_token("case").is_none());
    assert!(store.locate_token("Case").is_some());
}

#[test]
fn token_remove_absent_is_noop() {
    let mut store = TokenStore::new();
    store.add_token_at("keep", None, 0);
    store.remove_token("other");
    assert!(store.token_allowed_at("keep", 5));
    assert_eq!(store.list_token().len(), 1);
}
