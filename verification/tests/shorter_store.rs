use link_shorter::shorter::ShorterStore;

#[test]
fn shorter_insert_then_get_returns_exactly_what_was_stored() {
    let mut store = ShorterStore::new();
    let now = 1_700_000_000_000_000;
    store.insert_shorter_at("path", "http://example.com", Some(10), now);
    let row = store.get_shorter_at("path", now).expect("visible");
    assert_eq!(row.path, "path");
    assert_eq!(row.url, "http://example.com");
    assert_eq!(row.ttl, Some(now + 10_000_000));
}

#[test]
fn shorter_visible_until_expiry_then_gone() {
    let mut store = ShorterStore::new();
    let now = 1_700_000_000_000_000;
    store.insert_shorter_at("custom", "http://example.com", Some(1), now);
    assert!(store.get_shorter_at("custom", now).is_some());
    assert!(store.get_shorter_at("custom", now + 999_999).is_some());
    assert!(store.get_shorter_at("custom", now + 1_000_000).is_none());
    assert!(store.get_shorter_at("custom", now + 2_000_000).is_none());
    // The row still physically exists; only reads treat it as absent.
    assert!(store.locate_shorter("custom").is_some());
}

#[test]
fn shorter_without_expiry_always_visible() {
    let mut store = ShorterStore::new();
    store.insert_shorter("path", "http://example.com", None);
    assert!(store.get_shorter("path").is_some());
    assert!(store.get_shorter_at("path", i64::MAX).is_some());
}

#[test]
fn shorter_zero_duration_already_expired() {
    let mut store = ShorterStore::new();
    store.insert_shorter("path", "http://example.com", Some(0));
    assert!(store.get_shorter("path").is_none());
    assert!(store.locate_shorter("path").is_some());
}

#[test]
fn shorter_reinsert_replaces_url() {
    let mut store = ShorterStore::new();
    store.insert_shorter_at("path", "http://old.example", None, 0);
    store.insert_shorter_at("path", "http://new.example", None, 0);
    let row = store.get_shorter_at("path", 100).expect("visible");
    assert_eq!(row.url, "http://new.example");
    // No duplicate rows accumulate: removing once removes the only row.
    store.remove_shorter("path");
    assert!(store.locate_shorter("path").is_none());
}

#[test]
fn shorter_reinsert_replaces_expiry() {
    let mut store = ShorterStore::new();
    let now = 1_700_000_000_000_000;
    store.insert_shorter_at("path", "http://example.com", Some(-5), now);
    assert!(store.get_shorter_at("path", now).is_none());
    store.insert_shorter_at("path", "http://example.com", None, now);
    assert!(store.get_shorter_at("path", now).is_some());
}

#[test]
fn shorter_remove_only_touches_its_path() {
    let mut store = ShorterStore::new();
    store.insert_shorter_at("a", "http://a.example", None, 0);
    store.insert_shorter_at("b", "http://b.example", None, 0);
    store.remove_shorter("a");
    assert!(store.get_shorter_at("a", 1).is_none());
    let b = store.get_shorter_at("b", 1).expect("untouched");
    assert_eq!(b.url, "http://b.example");
}

#[test]
fn shorter_locate_exact_match_only() {
    let mut store = ShorterStore::new();
    store.insert_shorter_at("Path", "http://example.com", None, 0);
    assert!(store.locate_shorter("path").is_none());
    assert!(store.locate_shorter("Path").is_some());
}
