use rcrosshair::cache_params::{compute_image_hash, resolve_params, Cache, CachedParams};
use rcrosshair::pixel::OPACITY_ONE;

fn params(label: &str, x: u32, y: u32, o: u32) -> CachedParams {
    CachedParams { path_for_readability: label.to_string(), target_x: x, target_y: y, opacity: o }
}

fn key(s: &str) -> String {
    s.to_string()
}

#[test]
fn clear_missing_reports_not_found() {
    let mut c = Cache::new();
    c.upsert(key("a"), params("a.png", 1, 2, 3));
    assert!(!c.clear(&key("b")));
    assert_eq!(c.lookup(&key("a")).map(|p| p.target_x), Some(1));
    assert_eq!(c.to_entries().len(), 1);
}

#[test]
fn clear_existing_removes_only_that_entry() {
    let mut c = Cache::new();
    c.upsert(key("a"), params("a.png", 1, 2, 3));
    c.upsert(key("b"), params("b.png", 4, 5, 6));
    assert!(c.clear(&key("a")));
    assert!(c.lookup(&key("a")).is_none());
    assert_eq!(c.lookup(&key("b")).map(|p| p.target_y), Some(5));
    assert!(!c.clear(&key("a")));
}

#[test]
fn upsert_overwrites() {
    let mut c = Cache::new();
    c.upsert(key("a"), params("a.png", 1, 2, 3));
    c.upsert(key("a"), params("moved.png", 7, 8, 9));
    let p = c.lookup(&key("a")).unwrap();
    assert_eq!((p.path_for_readability.as_str(), p.target_x, p.target_y, p.opacity), ("moved.png", 7, 8, 9));
    assert_eq!(c.to_entries().len(), 1);
}

#[test]
fn entries_round_trip() {
    let mut c = Cache::new();
    c.upsert(key("a"), params("a.png", 1, 2, 3));
    c.upsert(key("b"), params("b.png", 4, 5, 6));
    let back = Cache::from_entries(c.to_entries());
    for k in ["a", "b"] {
        let (p, q) = (c.lookup(&key(k)).unwrap(), back.lookup(&key(k)).unwrap());
        assert_eq!((p.target_x, p.target_y, p.opacity), (q.target_x, q.target_y, q.opacity));
    }
    assert_eq!(back.to_entries().len(), 2);
}

#[test]
fn later_entry_wins_on_import() {
    let c = Cache::from_entries(vec![(key("a"), params("x", 1, 1, 1)), (key("a"), params("y", 2, 2, 2))]);
    assert_eq!(c.lookup(&key("a")).map(|p| p.target_x), Some(2));
    assert_eq!(c.to_entries().len(), 1);
}

#[test]
fn empty_cache_has_nothing() {
    let c = Cache::new();
    assert!(c.lookup(&key("a")).is_none());
    assert!(c.to_entries().is_empty());
}

#[test]
fn hash_is_blake3_hex() {
    assert_eq!(
        compute_image_hash(&Vec::new()),
        "af1349b9f5f9a1a6a0404dea36dcc9499bcb25c9adc112b7cc9a93cae41f3262"
    );
    let h = compute_image_hash(&b"crosshair".to_vec());
    assert_eq!(h.len(), 64);
    assert_ne!(h, compute_image_hash(&b"crosshairs".to_vec()));
}

#[test]
fn explicit_values_beat_cached_and_defaults() {
    let c = params("a", 5, 6, 7);
    assert_eq!(resolve_params(Some(1), None, None, Some(&c), 10, 20), (1, 6, 7));
    assert_eq!(resolve_params(None, None, None, None, 10, 21), (5, 10, OPACITY_ONE));
    assert_eq!(resolve_params(None, Some(3), Some(4), None, 10, 20), (5, 3, 4));
}
