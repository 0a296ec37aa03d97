//! The cover cache: at most `COVER_CACHE_MAX` extracted covers, keyed by
//! `cover:{path}`, with the most recently used first and the least recently
//! used evicted when a new cover comes in to a full cache.
use vstd::prelude::*;
use crate::cover::{extract_cover, extract_outcome, CoverData, FileProbe};
use crate::text::{chars_of, push_str, str_eq, string_of};

verus! {

/// The most covers the cache holds.
pub const COVER_CACHE_MAX: usize = 200;

/// A copy of a cover record (`Clone` on each field).
pub fn clone_cover(c: &CoverData) -> (r: CoverData)
    ensures
        r == *c,
{
    CoverData { mime: c.mime.clone(), data: c.data.clone(), cache_key: c.cache_key.clone() }
}

/// Covers by key, most recently used first. The entries are kept in one
/// vector in recency order rather than a key queue beside a hash map: with
/// `String` keys, vstd's specification of `HashMap` does not let the
/// contracts below (which cover a key holds, which is evicted) be proved,
/// and one ordered vector holds both the order and the covers.
pub struct LruCache {
    items: Vec<(String, CoverData)>,
}

impl View for LruCache {
    type V = Seq<(Seq<char>, CoverData)>;

    closed spec fn view(&self) -> Seq<(Seq<char>, CoverData)> {
        Seq::new(self.items@.len(), |i: int| (self.items@[i].0@, self.items@[i].1))
    }
}

/// The keys of a cache view are pairwise different.
pub open spec fn keys_distinct(v: Seq<(Seq<char>, CoverData)>) -> bool {
    forall|i: int, j: int| 0 <= i < v.len() && 0 <= j < v.len() && i != j ==> (#[trigger] v[i]).0 != (#[trigger] v[j]).0
}

/// The index of `key` in a cache view, if it is there.
pub open spec fn key_index(v: Seq<(Seq<char>, CoverData)>, key: Seq<char>) -> Option<int> {
    if exists|i: int| 0 <= i < v.len() && v[i].0 == key {
        Some(choose|i: int| 0 <= i < v.len() && v[i].0 == key)
    } else {
        None
    }
}

/// The view with the entry at `i` moved to the front.
pub open spec fn move_to_front(v: Seq<(Seq<char>, CoverData)>, i: int) -> Seq<(Seq<char>, CoverData)> {
    seq![v[i]] + v.remove(i)
}

/// The view after inserting `cover` under `key`: unchanged when the key is
/// already there; otherwise the new entry goes first, after the last entry
/// is dropped from a full cache.
pub open spec fn insert_spec(v: Seq<(Seq<char>, CoverData)>, key: Seq<char>, cover: CoverData) -> Seq<(Seq<char>, CoverData)> {
    if key_index(v, key) is Some {
        v
    } else if v.len() >= COVER_CACHE_MAX {
        seq![(key, cover)] + v.drop_last()
    } else {
        seq![(key, cover)] + v
    }
}

impl LruCache {
    /// The cache holds at most `COVER_CACHE_MAX` covers under distinct keys.
    pub open spec fn inv(&self) -> bool {
        self@.len() <= COVER_CACHE_MAX && keys_distinct(self@)
    }

    /// An empty cache.
    pub fn new() -> (r: LruCache)
        ensures
            r.inv(),
            r@ == Seq::<(Seq<char>, CoverData)>::empty(),
    {
        let r = LruCache { items: Vec::new() };
        assert(r@ =~= Seq::<(Seq<char>, CoverData)>::empty());
        r
    }

    fn position(&self, key: &str) -> (r: Option<usize>)
        requires
            self.inv(),
        ensures
            match r {
                Some(i) => key_index(self@, key@) == Some(i as int) && i < self@.len(),
                None => key_index(self@, key@) is None,
            },
    {
        let mut i: usize = 0;
        while i < self.items.len()
            invariant
                i <= self.items.len(),
                self.inv(),
                self@.len() == self.items.len(),
                forall|j: int| 0 <= j < i ==> self@[j].0 != key@,
            decreases self.items.len() - i,
        {
            if str_eq(self.items[i].0.as_str(), key) {
                assert(self@[i as int].0 == key@);
                assert(key_index(self@, key@) == Some(i as int)) by {
                    let k = choose|k: int| 0 <= k < self@.len() && self@[k].0 == key@;
                    if k != i as int {
                        assert((self@[k]).0 != (self@[i as int]).0);
                    }
                }
                return Some(i);
            }
            i = i + 1;
        }
        None
    }

    /// The cover under `key`, which then becomes the most recently used.
    pub fn get(&mut self, key: &str) -> (r: Option<CoverData>)
        requires
            old(self).inv(),
        ensures
            final(self).inv(),
            match key_index(old(self)@, key@) {
                Some(i) => r == Some(old(self)@[i].1) && final(self)@ == move_to_front(old(self)@, i),
                None => r is None && final(self)@ == old(self)@,
            },
    {
        match self.position(key) {
            None => None,
            Some(i) => {
                let ghost before = self@;
                let item = self.items.remove(i);
                self.items.insert(0, item);
                proof {
                    assert(self@ =~= move_to_front(before, i as int));
                    assert forall|a: int, b: int|
                        0 <= a < self@.len() && 0 <= b < self@.len() && a != b implies (
                        #[trigger] self@[a]).0 != (#[trigger] self@[b]).0 by {
                        let pa = if a == 0 { i as int } else if a - 1 < i { a - 1 } else { a };
                        let pb = if b == 0 { i as int } else if b - 1 < i { b - 1 } else { b };
                        assert(self@[a] == before[pa]);
                        assert(self@[b] == before[pb]);
                    }
                }
                Some(clone_cover(&self.items[0].1))
            },
        }
    }

    /// Keeps `cover` under `key` unless the key is already cached; a full
    /// cache first drops its least recently used cover.
    pub fn insert(&mut self, key: String, cover: CoverData)
        requires
            old(self).inv(),
        ensures
            final(self).inv(),
            final(self)@ == insert_spec(old(self)@, key@, cover),
    {
        if self.position(key.as_str()).is_some() {
            return;
        }
        let ghost before = self@;
        if self.items.len() >= COVER_CACHE_MAX {
            self.items.pop();
            assert(self@ =~= before.drop_last());
        }
        let ghost mid = self@;
        self.items.insert(0, (key, cover));
        proof {
            assert(self@ =~= seq![(key@, cover)] + mid);
            assert forall|a: int, b: int|
                0 <= a < self@.len() && 0 <= b < self@.len() && a != b implies (#[trigger] self@[a]).0
                != (#[trigger] self@[b]).0 by {
                if a == 0 {
                    assert(self@[b] == before[b - 1]);
                } else if b == 0 {
                    assert(self@[a] == before[a - 1]);
                } else {
                    assert(self@[a] == before[a - 1]);
                    assert(self@[b] == before[b - 1]);
                }
            }
        }
    }
}

/// A cover read back right after it was inserted under a new key is the
/// cover that was inserted, and the cache never grows past its bound.
pub proof fn lemma_insert_then_get(v: Seq<(Seq<char>, CoverData)>, key: Seq<char>, cover: CoverData)
    requires
        v.len() <= COVER_CACHE_MAX,
        keys_distinct(v),
        key_index(v, key) is None,
    ensures
        key_index(insert_spec(v, key, cover), key) == Some(0int),
        insert_spec(v, key, cover)[0] == (key, cover),
        insert_spec(v, key, cover).len() <= COVER_CACHE_MAX,
{
    let w = insert_spec(v, key, cover);
    assert(w[0].0 == key);
    assert(key_index(w, key) == Some(0int)) by {
        let k = choose|k: int| 0 <= k < w.len() && w[k].0 == key;
        if k != 0 {
            assert(w[k] == v[k - 1]);
            assert(v[k - 1].0 == key);
        }
    }
}

/// Reading a cached cover keeps every cover in the cache and only reorders
/// them.
pub proof fn lemma_get_keeps_contents(v: Seq<(Seq<char>, CoverData)>, i: int)
    requires
        0 <= i < v.len(),
    ensures
        move_to_front(v, i).len() == v.len(),
        move_to_front(v, i).to_multiset() == v.to_multiset(),
{
    let w = move_to_front(v, i);
    vstd::seq_lib::lemma_multiset_commutative(seq![v[i]], v.remove(i));
    assert(v =~= v.subrange(0, i) + seq![v[i]] + v.subrange(i + 1, v.len() as int));
    assert(v.remove(i) =~= v.subrange(0, i) + v.subrange(i + 1, v.len() as int));
    vstd::seq_lib::lemma_multiset_commutative(v.subrange(0, i) + seq![v[i]], v.subrange(i + 1, v.len() as int));
    vstd::seq_lib::lemma_multiset_commutative(v.subrange(0, i), seq![v[i]]);
    vstd::seq_lib::lemma_multiset_commutative(v.subrange(0, i), v.subrange(i + 1, v.len() as int));
    vstd::seq_lib::lemma_multiset_commutative(seq![v[i]], v.subrange(0, i) + v.subrange(i + 1, v.len() as int));
    assert(w.to_multiset() =~= v.to_multiset());
}

/// The cache key of the cover of `path`.
pub open spec fn path_key(path: Seq<char>) -> Seq<char> {
    "cover:"@ + path
}

/// What a cached extraction yields for `path`: a cached cover is returned as
/// it is and becomes the most recent; otherwise the cover is extracted, and
/// one that was found is cached.
pub open spec fn cached_outcome(
    before: Seq<(Seq<char>, CoverData)>,
    after: Seq<(Seq<char>, CoverData)>,
    path: Seq<char>,
    probe: FileProbe,
    r: Result<Option<CoverData>, String>,
) -> bool {
    match key_index(before, path_key(path)) {
        Some(i) => r == Ok::<Option<CoverData>, String>(Some(before[i].1)) && after == move_to_front(before, i),
        None => {
            &&& extract_outcome(path, probe, r)
            &&& match r {
                Ok(Some(c)) => after == insert_spec(before, path_key(path), c),
                _ => after == before,
            }
        },
    }
}

/// The cover of the audio file at `path` through the cache: the file-system
/// probe is used only when the cover is not cached.
pub fn extract_cover_cached(cache: &mut LruCache, path: &str, probe: FileProbe) -> (r: Result<Option<CoverData>, String>)
    requires
        old(cache).inv(),
    ensures
        final(cache).inv(),
        cached_outcome(old(cache)@, final(cache)@, path@, probe, r),
{
    let mut k = chars_of("cover:");
    push_str(&mut k, path);
    let key = string_of(k.as_slice());
    match cache.get(key.as_str()) {
        Some(c) => {
            return Ok(Some(c));
        },
        None => {},
    }
    let result = extract_cover(path, probe);
    match &result {
        Ok(Some(cover)) => {
            cache.insert(key, clone_cover(cover));
        },
        _ => {},
    }
    result
}

} // verus!
