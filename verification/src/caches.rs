use vstd::prelude::*;

use crate::player::ThumbnailCacheKey;

verus! {

/// The lru crate's least-recently-used cache.
#[verifier::external_type_specification]
#[verifier::external_body]
#[verifier::reject_recursive_types(K)]
#[verifier::reject_recursive_types(V)]
#[verifier::reject_recursive_types(S)]
pub struct ExLruCache<K, V, S>(lru::LruCache<K, V, S>);

/// The hasher that the lru crate's caches use by default.
#[verifier::external_type_specification]
#[verifier::external_body]
pub struct ExLruDefaultHasher(lru::DefaultHasher);

/// A thumbnail key as plain values: the art URL and the track URL.
pub open spec fn thumbnail_key_view(k: ThumbnailCacheKey) -> (Option<Seq<char>>, Option<Seq<char>>) {
    url_pair_view((k.art_url, k.url))
}

/// A stored thumbnail key as plain values: the cache stores the art URL and the track URL
/// as std's tuple, `Option` and `String`, whose equality and hash std defines field by
/// field.
pub open spec fn url_pair_view(k: (Option<String>, Option<String>)) -> (Option<Seq<char>>, Option<Seq<char>>) {
    (
        match k.0 {
            Some(a) => Some(a@),
            None => None,
        },
        match k.1 {
            Some(u) => Some(u@),
            None => None,
        },
    )
}

/// The keys that the thumbnail cache holds, the least recently used first.
pub uninterp spec fn thumbnail_cache_keys(c: lru::LruCache<(Option<String>, Option<String>), ()>) -> Seq<(Option<Seq<char>>, Option<Seq<char>>)>;

/// The number of keys that the thumbnail cache was made to hold.
pub uninterp spec fn thumbnail_cache_capacity(c: lru::LruCache<(Option<String>, Option<String>), ()>) -> nat;

/// The keys that the icon cache holds, the least recently used first.
pub uninterp spec fn icon_cache_keys(c: lru::LruCache<String, ()>) -> Seq<Seq<char>>;

/// The number of keys that the icon cache was made to hold.
pub uninterp spec fn icon_cache_capacity(c: lru::LruCache<String, ()>) -> nat;

/// The keys after `k` was put into a cache holding `ks`, at most `cap` of them: `k`
/// becomes the most recently used; when it was not there and the cache was full, the least
/// recently used key leaves.
pub open spec fn keys_after_push<K>(ks: Seq<K>, k: K, cap: nat) -> Seq<K> {
    if ks.contains(k) {
        ks.remove(ks.index_of(k)).push(k)
    } else if ks.len() >= cap {
        ks.drop_first().push(k)
    } else {
        ks.push(k)
    }
}

/// The key that leaves or is replaced when `k` is put into a cache holding `ks`.
pub open spec fn key_pushed_out<K>(ks: Seq<K>, k: K, cap: nat) -> Option<K> {
    if ks.contains(k) {
        Some(k)
    } else if ks.len() >= cap {
        Some(ks[0])
    } else {
        None
    }
}

/// The keys after `k` was looked up: a key held becomes the most recently used.
pub open spec fn keys_after_get<K>(ks: Seq<K>, k: K) -> Seq<K> {
    if ks.contains(k) { ks.remove(ks.index_of(k)).push(k) } else { ks }
}

/// lru's `LruCache::new` for thumbnails: an empty cache of the given capacity.
#[verifier::external_body]
fn new_thumbnail_lru(cap: usize) -> (c: lru::LruCache<(Option<String>, Option<String>), ()>)
    requires
        cap > 0,
    ensures
        thumbnail_cache_keys(c) == Seq::<(Option<Seq<char>>, Option<Seq<char>>)>::empty(),
        thumbnail_cache_capacity(c) == cap,
{
    lru::LruCache::new(std::num::NonZeroUsize::new(cap).unwrap())
}

/// lru's `LruCache::contains`: whether the key is held (std's tuple equality: keys are
/// equal when their URLs are); the order of use does not change.
#[verifier::external_body]
fn thumbnail_lru_contains(c: &lru::LruCache<(Option<String>, Option<String>), ()>, k: &(Option<String>, Option<String>)) -> (r: bool)
    ensures
        r == thumbnail_cache_keys(*c).contains(url_pair_view(*k)),
{
    c.contains(k)
}

/// lru's `LruCache::push`: the key becomes the most recently used; when it was held, its
/// old entry is handed back, and when it was not and the cache was full, the least
/// recently used entry leaves and is handed back. The capacity stays.
#[verifier::external_body]
fn thumbnail_lru_push(c: &mut lru::LruCache<(Option<String>, Option<String>), ()>, k: (Option<String>, Option<String>)) -> (out: Option<(Option<String>, Option<String>)>)
    ensures
        thumbnail_cache_keys(*final(c)) == keys_after_push(
            thumbnail_cache_keys(*old(c)),
            url_pair_view(k),
            thumbnail_cache_capacity(*old(c)),
        ),
        thumbnail_cache_capacity(*final(c)) == thumbnail_cache_capacity(*old(c)),
        match out {
            Some(e) => key_pushed_out(thumbnail_cache_keys(*old(c)), url_pair_view(k), thumbnail_cache_capacity(*old(c)))
                == Some(url_pair_view(e)),
            None => key_pushed_out(thumbnail_cache_keys(*old(c)), url_pair_view(k), thumbnail_cache_capacity(*old(c))) is None,
        },
{
    match c.push(k, ()) {
        Some((old, ())) => Some(old),
        None => None,
    }
}

/// lru's `LruCache::new` for icons: an empty cache of the given capacity.
#[verifier::external_body]
fn new_icon_lru(cap: usize) -> (c: lru::LruCache<String, ()>)
    requires
        cap > 0,
    ensures
        icon_cache_keys(c) == Seq::<Seq<char>>::empty(),
        icon_cache_capacity(c) == cap,
{
    lru::LruCache::new(std::num::NonZeroUsize::new(cap).unwrap())
}

/// lru's `LruCache::contains` for icons: whether the key is held; the order of use does
/// not change.
#[verifier::external_body]
fn icon_lru_contains(c: &lru::LruCache<String, ()>, k: &str) -> (r: bool)
    ensures
        r == icon_cache_keys(*c).contains(k@),
{
    c.contains(k)
}

/// lru's `LruCache::get`: whether the key is held; a key held becomes the most recently
/// used.
#[verifier::external_body]
fn icon_lru_get(c: &mut lru::LruCache<String, ()>, k: &str) -> (hit: bool)
    ensures
        hit == icon_cache_keys(*old(c)).contains(k@),
        icon_cache_keys(*final(c)) == keys_after_get(icon_cache_keys(*old(c)), k@),
        icon_cache_capacity(*final(c)) == icon_cache_capacity(*old(c)),
{
    c.get(k).is_some()
}

/// lru's `LruCache::push` for icons, as for thumbnails.
#[verifier::external_body]
fn icon_lru_push(c: &mut lru::LruCache<String, ()>, k: String) -> (out: Option<String>)
    ensures
        icon_cache_keys(*final(c)) == keys_after_push(icon_cache_keys(*old(c)), k@, icon_cache_capacity(*old(c))),
        icon_cache_capacity(*final(c)) == icon_cache_capacity(*old(c)),
        match out {
            Some(e) => key_pushed_out(icon_cache_keys(*old(c)), k@, icon_cache_capacity(*old(c))) == Some(e@),
            None => key_pushed_out(icon_cache_keys(*old(c)), k@, icon_cache_capacity(*old(c))) is None,
        },
{
    match c.push(k, ()) {
        Some((old, ())) => Some(old),
        None => None,
    }
}

/// A cache's keys are distinct and no more than its capacity.
pub open spec fn cache_keys_wf<K>(ks: Seq<K>, cap: nat) -> bool {
    ks.no_duplicates() && ks.len() <= cap && cap > 0
}

proof fn lemma_push_keeps_wf<K>(ks: Seq<K>, k: K, cap: nat)
    requires
        cache_keys_wf(ks, cap),
    ensures
        cache_keys_wf(keys_after_push(ks, k, cap), cap),
        keys_after_push(ks, k, cap).contains(k),
        keys_after_push(ks, k, cap).last() == k,
{
    let r = keys_after_push(ks, k, cap);
    assert(r[r.len() - 1] == k);
    if ks.contains(k) {
        let i = ks.index_of(k);
        let t = ks.remove(i);
        assert(forall|a: int| 0 <= a < t.len() ==> t[a] == if a < i { ks[a] } else { ks[a + 1] });
        assert forall|a: int, b: int| 0 <= a < b < r.len() implies r[a] != r[b] by {
            if b == r.len() - 1 {
                if a < i {
                    assert(ks[a] != ks[i]);
                } else {
                    assert(ks[a + 1] != ks[i]);
                }
            } else {
                let a2 = if a < i { a } else { a + 1 };
                let b2 = if b < i { b } else { b + 1 };
                assert(ks[a2] != ks[b2]);
            }
        }
    } else if ks.len() >= cap {
        let t = ks.drop_first();
        assert forall|a: int, b: int| 0 <= a < b < r.len() implies r[a] != r[b] by {
            if b == r.len() - 1 {
                assert(r[a] == ks[a + 1]);
            } else {
                assert(r[a] == ks[a + 1] && r[b] == ks[b + 1]);
            }
        }
    } else {
        assert forall|a: int, b: int| 0 <= a < b < r.len() implies r[a] != r[b] by {
            if b == r.len() - 1 {
                assert(r[a] == ks[a]);
            } else {
                assert(r[a] == ks[a] && r[b] == ks[b]);
            }
        }
    }
    assert(r.contains(k));
}

proof fn lemma_get_keeps_wf<K>(ks: Seq<K>, k: K, cap: nat)
    requires
        cache_keys_wf(ks, cap),
    ensures
        cache_keys_wf(keys_after_get(ks, k), cap),
        keys_after_get(ks, k).to_set() == ks.to_set(),
{
    if ks.contains(k) {
        lemma_push_keeps_wf(ks, k, cap);
        let i = ks.index_of(k);
        let r = keys_after_get(ks, k);
        assert forall|x: K| r.to_set().contains(x) == ks.to_set().contains(x) by {
            if ks.contains(x) {
                let j = ks.index_of(x);
                if j < i {
                    assert(r[j] == x);
                } else if j > i {
                    assert(r[j - 1] == x);
                } else {
                    assert(r[r.len() - 1] == x);
                }
            }
            if r.contains(x) {
                let j = choose|j: int| 0 <= j < r.len() && r[j] == x;
                if j == r.len() - 1 {
                    assert(ks[i] == x);
                } else if j < i {
                    assert(ks[j] == x);
                } else {
                    assert(ks[j + 1] == x);
                }
            }
        }
        assert(r.to_set() =~= ks.to_set());
    }
}

fn copy_url(u: &Option<String>) -> (r: Option<String>)
    ensures
        match (r, *u) {
            (Some(a), Some(b)) => a@ == b@,
            (None, None) => true,
            _ => false,
        },
{
    match u {
        Some(s) => Some(s.clone()),
        None => None,
    }
}

/// The cover art of the media player module, cached for the last eight tracks: the bar
/// keeps the images, this cache which tracks they belong to and which leave first.
pub struct ThumbnailCache {
    cache: lru::LruCache<(Option<String>, Option<String>), ()>,
}

impl ThumbnailCache {
    /// The tracks whose art is cached, the least recently used first.
    pub closed spec fn keys(&self) -> Seq<(Option<Seq<char>>, Option<Seq<char>>)> {
        thumbnail_cache_keys(self.cache)
    }

    /// How many tracks the cache holds at most.
    pub closed spec fn capacity(&self) -> nat {
        thumbnail_cache_capacity(self.cache)
    }

    /// The keys are distinct and no more than the capacity.
    pub open spec fn wf(&self) -> bool {
        cache_keys_wf(self.keys(), self.capacity())
    }

    /// An empty cache for eight tracks.
    pub fn new() -> (c: Self)
        ensures
            c.wf(),
            c.keys().len() == 0,
            c.capacity() == 8,
    {
        ThumbnailCache { cache: new_thumbnail_lru(8) }
    }

    /// Whether a track's art is cached.
    pub fn contains(&self, key: &ThumbnailCacheKey) -> (r: bool)
        ensures
            r == self.keys().contains(thumbnail_key_view(*key)),
    {
        let pair = (copy_url(&key.art_url), copy_url(&key.url));
        thumbnail_lru_contains(&self.cache, &pair)
    }

    /// A track's art arrived: the track becomes the most recently used, and the least
    /// recently used one leaves when the cache is full. Gives the track whose art the bar
    /// can drop: the one that left; none when the track was cached already (its art is
    /// replaced) or the cache had room.
    pub fn put(&mut self, key: ThumbnailCacheKey) -> (dropped: Option<ThumbnailCacheKey>)
        requires
            old(self).wf(),
        ensures
            final(self).wf(),
            final(self).capacity() == old(self).capacity(),
            final(self).keys() == keys_after_push(old(self).keys(), thumbnail_key_view(key), old(self).capacity()),
            final(self).keys().contains(thumbnail_key_view(key)),
            dropped matches Some(d) ==> !old(self).keys().contains(thumbnail_key_view(key))
                && old(self).keys().len() == old(self).capacity()
                && thumbnail_key_view(d) == old(self).keys()[0],
            dropped is None ==> old(self).keys().contains(thumbnail_key_view(key)) || old(self).keys().len() < old(self).capacity(),
    {
        let ghost ks = self.keys();
        let ghost kv = thumbnail_key_view(key);
        let pair = (key.art_url, key.url);
        assert(url_pair_view(pair) == kv);
        let was_cached = thumbnail_lru_contains(&self.cache, &pair);
        let out = thumbnail_lru_push(&mut self.cache, pair);
        proof {
            lemma_push_keeps_wf(ks, kv, self.capacity());
        }
        if was_cached {
            None
        } else {
            match out {
                Some((art_url, url)) => Some(ThumbnailCacheKey { art_url, url }),
                None => None,
            }
        }
    }

    /// The art to fetch for a track: the track, unless its art is cached.
    pub fn to_fetch(&self, key: Option<ThumbnailCacheKey>) -> (r: Option<ThumbnailCacheKey>)
        ensures
            match key {
                Some(k) => if self.keys().contains(thumbnail_key_view(k)) { r is None } else { r == Some(k) },
                None => r is None,
            },
    {
        match key {
            Some(k) => if self.contains(&k) { None } else { Some(k) },
            None => None,
        }
    }
}

/// Art that arrived for a track is cached afterwards, and the cache never holds more than
/// its capacity nor a track twice.
pub proof fn lemma_put_then_cached(ks: Seq<(Option<Seq<char>>, Option<Seq<char>>)>, k: (Option<Seq<char>>, Option<Seq<char>>), cap: nat)
    requires
        cache_keys_wf(ks, cap),
    ensures
        keys_after_push(ks, k, cap).contains(k),
        cache_keys_wf(keys_after_push(ks, k, cap), cap),
{
    lemma_push_keeps_wf(ks, k, cap);
}

/// The icons of the taskbar's windows, cached for the last hundred keys: the bar keeps the
/// icons, this cache which keys they belong to and which leave first.
pub struct IconCache {
    cache: lru::LruCache<String, ()>,
}

impl IconCache {
    /// The keys whose icons are cached, the least recently used first.
    pub closed spec fn keys(&self) -> Seq<Seq<char>> {
        icon_cache_keys(self.cache)
    }

    /// How many keys the cache holds at most.
    pub closed spec fn capacity(&self) -> nat {
        icon_cache_capacity(self.cache)
    }

    /// The keys are distinct and no more than the capacity.
    pub open spec fn wf(&self) -> bool {
        cache_keys_wf(self.keys(), self.capacity())
    }

    /// An empty cache for a hundred keys.
    pub fn new() -> (c: Self)
        ensures
            c.wf(),
            c.keys().len() == 0,
            c.capacity() == 100,
    {
        IconCache { cache: new_icon_lru(100) }
    }

    /// Looks a key up: whether its icon is cached; a cached key becomes the most recently
    /// used.
    pub fn get(&mut self, key: &str) -> (hit: bool)
        requires
            old(self).wf(),
        ensures
            final(self).wf(),
            hit == old(self).keys().contains(key@),
            final(self).keys() == keys_after_get(old(self).keys(), key@),
            final(self).keys().to_set() == old(self).keys().to_set(),
            final(self).capacity() == old(self).capacity(),
    {
        let ghost ks = self.keys();
        let hit = icon_lru_get(&mut self.cache, key);
        proof {
            lemma_get_keeps_wf(ks, key@, self.capacity());
        }
        hit
    }

    /// An icon was resolved for a key: as `ThumbnailCache::put`, giving the key whose
    /// icon the bar can drop.
    pub fn insert(&mut self, key: String) -> (dropped: Option<String>)
        requires
            old(self).wf(),
        ensures
            final(self).wf(),
            final(self).capacity() == old(self).capacity(),
            final(self).keys() == keys_after_push(old(self).keys(), key@, old(self).capacity()),
            final(self).keys().contains(key@),
            dropped matches Some(d) ==> !old(self).keys().contains(key@)
                && old(self).keys().len() == old(self).capacity()
                && d@ == old(self).keys()[0],
            dropped is None ==> old(self).keys().contains(key@) || old(self).keys().len() < old(self).capacity(),
    {
        let ghost ks = self.keys();
        let ghost kv = key@;
        let was_cached = icon_lru_contains(&self.cache, key.as_str());
        let out = icon_lru_push(&mut self.cache, key);
        proof {
            lemma_push_keeps_wf(ks, kv, self.capacity());
        }
        if was_cached {
            None
        } else {
            out
        }
    }
}

} // verus!
