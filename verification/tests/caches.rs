use subniri::caches::{IconCache, ThumbnailCache};
use subniri::player::ThumbnailCacheKey;
use subniri::taskbar::IconLookup;

fn key(n: u32) -> ThumbnailCacheKey {
    ThumbnailCacheKey::new(Some(format!("https://art/{n}")), None)
}

#[test]
fn thumbnails_are_fetched_only_when_missing() {
    let mut cache = ThumbnailCache::new();
    assert_eq!(cache.to_fetch(Some(key(1))), Some(key(1)));
    assert_eq!(cache.put(key(1)), None);
    assert!(cache.contains(&key(1)));
    assert_eq!(cache.to_fetch(Some(key(1))), None);
    assert_eq!(cache.to_fetch(None), None);
}

#[test]
fn the_least_recently_used_thumbnail_leaves_first() {
    let mut cache = ThumbnailCache::new();
    for n in 0..8 {
        assert_eq!(cache.put(key(n)), None);
    }
    // Putting the first again makes it the most recently used; nothing leaves.
    assert_eq!(cache.put(key(0)), None);
    // A ninth track pushes out the least recently used one, the second.
    assert_eq!(cache.put(key(8)), Some(key(1)));
    assert!(!cache.contains(&key(1)));
    assert!(cache.contains(&key(0)));
    assert!(cache.contains(&key(8)));
}

#[test]
fn icon_lookups_touch_the_cache() {
    let mut cache = IconCache::new();
    assert!(matches!(cache.lookup(None), IconLookup::Uncacheable));
    assert!(matches!(cache.lookup(Some(Some("firefox"))), IconLookup::Miss(k) if k == "firefox"));
    assert_eq!(cache.remember(Some(Some("firefox"))), None);
    assert!(matches!(cache.lookup(Some(Some("firefox"))), IconLookup::Hit(k) if k == "firefox"));
    for n in 0..99 {
        assert_eq!(cache.insert(format!("app{n}")), None);
    }
    // "firefox" was used before every other key: it leaves first once the cache is full.
    assert!(cache.get("app0"));
    assert_eq!(cache.insert("late".to_owned()), Some("firefox".to_owned()));
    assert!(!cache.get("firefox"));
    assert_eq!(cache.remember(Some(None)), None);
    assert_eq!(cache.remember(None), None);
}
