//! The build artifact cache: keyed byte blobs held in memory, with hit and
//! miss counters and wildcard invalidation. The cache directory itself is
//! read and written by the caller; this module decides what is kept, what is
//! returned and which files fall under a pattern.

use vstd::prelude::*;
use vstd::string::*;
use vstd::map::*;
use crate::glob::{glob_matches, glob_to_regex};
use crate::text::{has_suffix, to_chars, from_chars, chars_match_at, slice_chars, join2, same_text, views_of};

verus! {

/// One cached blob as a pair of plain values: its key and its bytes.
pub type Item = (Seq<char>, Seq<u8>);

/// The ending of every file that holds a cached blob.
pub open spec fn cache_suffix() -> Seq<char> {
    seq!['.', 'c', 'a', 'c', 'h', 'e']
}

/// The name of the file that holds the blob stored under `key`.
pub open spec fn file_name_of(key: Seq<char>) -> Seq<char> {
    key + cache_suffix()
}

/// The key that a file of the cache directory is loaded under: its name
/// without the cache ending, taken off once. Files without the cache ending
/// are not blobs and have no key.
pub open spec fn key_of_file_name(name: Seq<char>) -> Option<Seq<char>> {
    if has_suffix(name, cache_suffix()) {
        Some(name.subrange(0, name.len() - cache_suffix().len()))
    } else {
        None
    }
}

/// Whether some item is stored under `key`.
pub open spec fn holds_key(items: Seq<Item>, key: Seq<char>) -> bool {
    exists|i: int| 0 <= i < items.len() && items[i].0 == key
}

/// A position at which `key` is stored, where there is one.
pub open spec fn slot_of(items: Seq<Item>, key: Seq<char>) -> int {
    choose|i: int| 0 <= i < items.len() && items[i].0 == key
}

/// The bytes stored under `key`, if any.
pub open spec fn lookup(items: Seq<Item>, key: Seq<char>) -> Option<Seq<u8>> {
    if holds_key(items, key) {
        Some(items[slot_of(items, key)].1)
    } else {
        None
    }
}

/// The items as a map from key to bytes.
pub open spec fn map_of(items: Seq<Item>) -> Map<Seq<char>, Seq<u8>> {
    Map::new(|k: Seq<char>| holds_key(items, k), |k: Seq<char>| lookup(items, k)->Some_0)
}

/// No key is stored twice.
pub open spec fn distinct_keys(items: Seq<Item>) -> bool {
    forall|i: int, j: int| 0 <= i < j < items.len() ==> items[i].0 != items[j].0
}

/// The items after storing `data` under `key`: an item already stored under
/// the key is overwritten in place, otherwise a new item is added at the end.
pub open spec fn put(items: Seq<Item>, key: Seq<char>, data: Seq<u8>) -> Seq<Item> {
    if holds_key(items, key) {
        items.update(slot_of(items, key), (key, data))
    } else {
        items.push((key, data))
    }
}

/// The items that stay when `pattern` is invalidated: those whose key does
/// not fall under it, in their old order.
pub open spec fn surviving(items: Seq<Item>, pattern: Seq<char>) -> Seq<Item> {
    items.filter(|e: Item| !glob_matches(pattern, e.0))
}

/// The items after loading the listed files in order: each file with the
/// cache ending is stored under its key, later files over earlier ones.
pub open spec fn absorbed(items: Seq<Item>, files: Seq<Item>) -> Seq<Item>
    decreases files.len(),
{
    if files.len() == 0 {
        items
    } else {
        let before = absorbed(items, files.drop_last());
        match key_of_file_name(files.last().0) {
            Some(k) => put(before, k, files.last().1),
            None => before,
        }
    }
}

/// The number of payload bytes of all items together.
pub open spec fn total_bytes(items: Seq<Item>) -> nat
    decreases items.len(),
{
    if items.len() == 0 {
        0
    } else {
        total_bytes(items.drop_last()) + items.last().1.len()
    }
}

/// The file names of the listing that `pattern` removes from the cache
/// directory: those with the cache ending whose key falls under the pattern.
pub open spec fn doomed(names: Seq<Seq<char>>, pattern: Seq<char>) -> Seq<Seq<char>> {
    names.filter(
        |n: Seq<char>|
            key_of_file_name(n) is Some && glob_matches(pattern, key_of_file_name(n)->Some_0),
    )
}

/// One cached blob.
pub struct CacheEntry {
    pub key: String,
    pub data: Vec<u8>,
}

/// One regular file of the cache directory: its name and its content.
pub struct CacheFile {
    pub name: String,
    pub data: Vec<u8>,
}

/// The pairs that a list of entries stands for.
pub open spec fn items_of(entries: Seq<CacheEntry>) -> Seq<Item> {
    entries.map_values(|e: CacheEntry| (e.key@, e.data@))
}

/// The pairs that a directory listing stands for.
pub open spec fn files_of(files: Seq<CacheFile>) -> Seq<Item> {
    files.map_values(|f: CacheFile| (f.name@, f.data@))
}

/// Aggregate telemetry of a cache.
#[derive(Debug, Clone, Copy, PartialEq, Eq, Structural)]
pub struct CacheStats {
    /// Total size of the blobs held in memory, in bytes.
    pub total_size: u64,
    /// Number of blobs held in memory.
    pub item_count: usize,
    /// Number of lookups that found their key.
    pub hits: usize,
    /// Number of lookups that did not.
    pub misses: usize,
}

/// A hit rate as an exact fraction; `denominator` is never zero.
#[derive(Debug, Clone, Copy, PartialEq, Eq, Structural)]
pub struct HitRate {
    pub numerator: usize,
    pub denominator: usize,
}

impl CacheStats {
    /// Statistics of a cache that holds nothing and was never asked.
    pub fn new() -> (s: Self)
        ensures
            s == (CacheStats { total_size: 0, item_count: 0, hits: 0, misses: 0 }),
    {
        CacheStats { total_size: 0, item_count: 0, hits: 0, misses: 0 }
    }

    /// The share of lookups that were hits: `hits / (hits + misses)`, and
    /// `0 / 1` when there was no lookup yet.
    pub fn hit_rate(&self) -> (r: HitRate)
        requires
            self.hits + self.misses <= usize::MAX,
        ensures
            self.hits + self.misses == 0 ==> r == (HitRate { numerator: 0, denominator: 1 }),
            self.hits + self.misses > 0 ==> r == (HitRate {
                numerator: self.hits,
                denominator: (self.hits + self.misses) as usize,
            }),
    {
        let total: usize = self.hits + self.misses;
        if total > 0 {
            HitRate { numerator: self.hits, denominator: total }
        } else {
            HitRate { numerator: 0, denominator: 1 }
        }
    }
}

impl Default for CacheStats {
    fn default() -> (s: Self)
        ensures
            s == (CacheStats { total_size: 0, item_count: 0, hits: 0, misses: 0 }),
    {
        CacheStats::new()
    }
}

/// A copy of the bytes.
pub fn copy_bytes(data: &Vec<u8>) -> (r: Vec<u8>)
    ensures
        r@ == data@,
{
    let mut out: Vec<u8> = Vec::new();
    let mut i: usize = 0;
    while i < data.len()
        invariant
            i <= data.len(),
            out@ == data@.subrange(0, i as int),
        decreases data.len() - i,
    {
        out.push(data[i]);
        i += 1;
        assert(out@ =~= data@.subrange(0, i as int));
    }
    assert(data@.subrange(0, data.len() as int) =~= data@);
    out
}

/// The name of the file that holds the blob stored under `key`.
pub fn cache_file_name(key: &str) -> (r: String)
    ensures
        r@ == file_name_of(key@),
{
    proof {
        reveal_strlit(".cache");
        assert(".cache"@ =~= cache_suffix());
    }
    join2(key, ".cache")
}

/// The key that a file of the cache directory is loaded under, if it is a
/// blob file at all.
pub fn cache_key_of_file(name: &str) -> (r: Option<String>)
    ensures
        r is Some <==> key_of_file_name(name@) is Some,
        r is Some ==> r->Some_0@ == key_of_file_name(name@)->Some_0,
{
    proof {
        reveal_strlit(".cache");
        assert(".cache"@ =~= cache_suffix());
    }
    let h = to_chars(name);
    let s = to_chars(".cache");
    if h.len() < s.len() || !chars_match_at(&h, &s, h.len() - s.len()) {
        return None;
    }
    let key = slice_chars(&h, 0, h.len() - s.len());
    Some(from_chars(&key))
}

/// A build cache: the blobs held in memory, the lookup counters, and the
/// directory that backs the blobs on disk.
pub struct BuildCache {
    cache_dir: String,
    entries: Vec<CacheEntry>,
    hits: usize,
    misses: usize,
}

impl BuildCache {
    /// The blobs held in memory, oldest key first.
    pub closed spec fn items(&self) -> Seq<Item> {
        items_of(self.entries@)
    }

    /// The number of lookups so far that found their key.
    pub closed spec fn hits(&self) -> nat {
        self.hits as nat
    }

    /// The number of lookups so far that found nothing.
    pub closed spec fn misses(&self) -> nat {
        self.misses as nat
    }

    /// The directory that backs this cache.
    pub closed spec fn dir(&self) -> Seq<char> {
        self.cache_dir@
    }

    /// What every cache upholds: no key is held twice, and the counters fit
    /// the machine's word.
    pub open spec fn wf(&self) -> bool {
        &&& distinct_keys(self.items())
        &&& self.hits() + self.misses() <= usize::MAX
    }

    /// The memory of the cache as a map from key to bytes.
    pub open spec fn view(&self) -> Map<Seq<char>, Seq<u8>> {
        map_of(self.items())
    }

    /// An empty cache backed by `cache_dir`.
    pub fn new(cache_dir: String) -> (c: Self)
        ensures
            c.wf(),
            c.items() == Seq::<Item>::empty(),
            c@ == Map::<Seq<char>, Seq<u8>>::empty(),
            c.hits() == 0,
            c.misses() == 0,
            c.dir() == cache_dir@,
    {
        let c = BuildCache { cache_dir, entries: Vec::new(), hits: 0, misses: 0 };
        assert(c.items() =~= Seq::<Item>::empty());
        assert(c@ =~= Map::<Seq<char>, Seq<u8>>::empty());
        c
    }

    /// The position of `key` among the entries, if it is held.
    fn find(&self, key: &str) -> (r: Option<usize>)
        requires
            distinct_keys(self.items()),
        ensures
            r is Some <==> holds_key(self.items(), key@),
            r is Some ==> r->Some_0 < self.entries@.len() && r->Some_0 == slot_of(
                self.items(),
                key@,
            ),
    {
        let mut i: usize = 0;
        while i < self.entries.len()
            invariant
                i <= self.entries@.len(),
                distinct_keys(self.items()),
                forall|k: int| 0 <= k < i ==> self.items()[k].0 != key@,
            decreases self.entries@.len() - i,
        {
            if same_text(self.entries[i].key.as_str(), key) {
                proof {
                    let items = self.items();
                    assert(items[i as int].0 == key@);
                    let j = slot_of(items, key@);
                    assert(0 <= j < items.len() && items[j].0 == key@);
                    assert(j == i);
                }
                return Some(i);
            }
            i += 1;
        }
        None
    }

    /// Whether a blob is held in memory under `key`. Changes no counter.
    pub fn in_memory(&self, key: &str) -> (r: bool)
        requires
            self.wf(),
        ensures
            r == holds_key(self.items(), key@),
    {
        self.find(key).is_some()
    }

    /// Stores `data` under `key`, over what was held there.
    fn store(&mut self, key: String, data: Vec<u8>)
        requires
            distinct_keys(old(self).items()),
        ensures
            final(self).items() == put(old(self).items(), key@, data@),
            distinct_keys(final(self).items()),
            final(self).hits() == old(self).hits(),
            final(self).misses() == old(self).misses(),
            final(self).dir() == old(self).dir(),
    {
        let ghost before = self.items();
        match self.find(key.as_str()) {
            Some(i) => {
                let ghost k = key@;
                let ghost d = data@;
                self.entries[i] = CacheEntry { key, data };
                assert(self.items() =~= before.update(i as int, (k, d)));
            },
            None => {
                let ghost k = key@;
                let ghost d = data@;
                self.entries.push(CacheEntry { key, data });
                assert(self.items() =~= before.push((k, d)));
            },
        }
    }

    /// Whether one more lookup can be counted, which is what `get` asks for.
    pub fn can_count_lookup(&self) -> (r: bool)
        requires
            self.wf(),
        ensures
            r == (self.hits() + self.misses() < usize::MAX),
    {
        self.hits < usize::MAX - self.misses
    }

    /// Looks `key` up. A blob held in memory is returned and counted as a
    /// hit. Otherwise `on_disk` decides: it is the content of the key's file
    /// in the cache directory, or nothing where there is no such file. A
    /// blob found on disk is taken into memory and counted as a hit; with
    /// nothing on disk the lookup is a miss.
    pub fn get(&mut self, key: &str, on_disk: Option<Vec<u8>>) -> (r: Option<Vec<u8>>)
        requires
            old(self).wf(),
            old(self).hits() + old(self).misses() < usize::MAX,
        ensures
            final(self).wf(),
            final(self).dir() == old(self).dir(),
            final(self).hits() + final(self).misses() == old(self).hits() + old(self).misses() + 1,
            r is Some ==> final(self)@ == old(self)@.insert(key@, r->Some_0@),
            r is None ==> final(self)@ == old(self)@,
            match lookup(old(self).items(), key@) {
                Some(v) => {
                    &&& r is Some
                    &&& r->Some_0@ == v
                    &&& final(self).items() == old(self).items()
                    &&& final(self).hits() == old(self).hits() + 1
                },
                None => match on_disk {
                    Some(d) => {
                        &&& r is Some
                        &&& r->Some_0@ == d@
                        &&& final(self).items() == old(self).items().push((key@, d@))
                        &&& final(self).hits() == old(self).hits() + 1
                    },
                    None => {
                        &&& r is None
                        &&& final(self).items() == old(self).items()
                        &&& final(self).misses() == old(self).misses() + 1
                    },
                },
            },
    {
        match self.find(key) {
            Some(i) => {
                let data = copy_bytes(&self.entries[i].data);
                self.hits = self.hits + 1;
                assert(self@ =~= old(self)@.insert(key@, data@));
                Some(data)
            },
            None => match on_disk {
                Some(d) => {
                    let data = copy_bytes(&d);
                    self.store(String::from_str(key), d);
                    self.hits = self.hits + 1;
                    proof {
                        lemma_view_of_put(old(self).items(), key@, data@);
                    }
                    Some(data)
                },
                None => {
                    self.misses = self.misses + 1;
                    None
                },
            },
        }
    }

    /// Stores `value` under `key` in memory, over what was held there. The
    /// counters stay as they are.
    pub fn set(&mut self, key: &str, value: Vec<u8>)
        requires
            old(self).wf(),
        ensures
            final(self).wf(),
            final(self).items() == put(old(self).items(), key@, value@),
            final(self)@ == old(self)@.insert(key@, value@),
            final(self).hits() == old(self).hits(),
            final(self).misses() == old(self).misses(),
            final(self).dir() == old(self).dir(),
    {
        proof {
            lemma_view_of_put(self.items(), key@, value@);
        }
        self.store(String::from_str(key), value);
    }

    /// Drops every blob held in memory.
    pub fn clear(&mut self)
        requires
            old(self).wf(),
        ensures
            final(self).wf(),
            final(self).items() == Seq::<Item>::empty(),
            final(self)@ == Map::<Seq<char>, Seq<u8>>::empty(),
            final(self).hits() == old(self).hits(),
            final(self).misses() == old(self).misses(),
            final(self).dir() == old(self).dir(),
    {
        self.entries = Vec::new();
        assert(self.items() =~= Seq::<Item>::empty());
        assert(self@ =~= Map::<Seq<char>, Seq<u8>>::empty());
    }

    /// The directory that backs this cache.
    pub fn cache_dir(&self) -> (d: &str)
        ensures
            d@ == self.dir(),
    {
        self.cache_dir.as_str()
    }
}

/// The bytes of a prefix never outweigh the bytes of the whole.
proof fn lemma_total_bytes_prefix(items: Seq<Item>, i: int)
    requires
        0 <= i <= items.len(),
    ensures
        total_bytes(items.subrange(0, i)) <= total_bytes(items),
    decreases items.len() - i,
{
    if i == items.len() {
        assert(items.subrange(0, i) =~= items);
    } else {
        lemma_total_bytes_prefix(items, i + 1);
        assert(items.subrange(0, i + 1).drop_last() =~= items.subrange(0, i));
    }
}

/// The file names of a directory listing that invalidating `pattern`
/// removes from the cache directory, in the order of the listing.
pub fn stale_files(pattern: &str, names: &Vec<String>) -> (r: Vec<String>)
    ensures
        views_of(r@) == doomed(views_of(names@), pattern@),
{
    let matcher = glob_to_regex(pattern);
    let mut out: Vec<String> = Vec::new();
    let mut i: usize = 0;
    let ghost all = views_of(names@);
    let ghost pred = |n: Seq<char>|
        key_of_file_name(n) is Some && glob_matches(pattern@, key_of_file_name(n)->Some_0);
    proof {
        reveal(Seq::filter);
        assert(all.subrange(0, 0).filter(pred) =~= Seq::<Seq<char>>::empty());
        assert(views_of(out@) =~= Seq::<Seq<char>>::empty());
    }
    while i < names.len()
        invariant
            i <= names@.len(),
            all == views_of(names@),
            pred == (|n: Seq<char>|
                key_of_file_name(n) is Some && glob_matches(
                    pattern@,
                    key_of_file_name(n)->Some_0,
                )),
            forall|key: Seq<char>| #[trigger] matcher.accepts(key) == glob_matches(pattern@, key),
            views_of(out@) == all.subrange(0, i as int).filter(pred),
        decreases names@.len() - i,
    {
        let ghost before = views_of(out@);
        let doomed_here = match cache_key_of_file(names[i].as_str()) {
            Some(key) => matcher.is_match(key.as_str()),
            None => false,
        };
        if doomed_here {
            out.push(names[i].clone());
        }
        proof {
            reveal(Seq::filter);
            let next = all.subrange(0, i + 1);
            assert(next.drop_last() =~= all.subrange(0, i as int));
            assert(next.last() == names@[i as int]@);
            assert(doomed_here == pred(next.last()));
            if doomed_here {
                assert(views_of(out@) =~= before.push(next.last()));
            }
        }
        i += 1;
    }
    assert(all.subrange(0, names@.len() as int) =~= all);
    out
}

impl BuildCache {
    /// Drops from memory every blob whose whole key falls under the wildcard
    /// `pattern`; the others stay, in their order. The counters stay as
    /// they are.
    pub fn invalidate(&mut self, pattern: &str)
        requires
            old(self).wf(),
        ensures
            final(self).wf(),
            final(self).items() == surviving(old(self).items(), pattern@),
            final(self)@ == old(self)@.remove_keys(
                Set::new(|k: Seq<char>| glob_matches(pattern@, k)),
            ),
            final(self).hits() == old(self).hits(),
            final(self).misses() == old(self).misses(),
            final(self).dir() == old(self).dir(),
    {
        let matcher = glob_to_regex(pattern);
        let ghost all = self.items();
        let ghost keep = |e: Item| !glob_matches(pattern@, e.0);
        let n: usize = self.entries.len();
        let mut kept: usize = 0;
        let mut seen: usize = 0;
        proof {
            reveal(Seq::filter);
            assert(all.subrange(0, 0).filter(keep) =~= self.items().subrange(0, 0));
            assert(self.items().subrange(0, n as int) =~= all.subrange(0, n as int));
        }
        while seen < n
            invariant
                n == all.len(),
                kept <= seen <= n,
                keep == (|e: Item| !glob_matches(pattern@, e.0)),
                forall|key: Seq<char>| #[trigger]
                    matcher.accepts(key) == glob_matches(pattern@, key),
                self.entries@.len() == kept + (n - seen),
                self.items().subrange(0, kept as int) == all.subrange(0, seen as int).filter(keep),
                self.items().subrange(kept as int, self.entries@.len() as int) == all.subrange(
                    seen as int,
                    n as int,
                ),
                distinct_keys(self.items()),
                self.hits() == old(self).hits(),
                self.misses() == old(self).misses(),
                self.dir() == old(self).dir(),
            decreases n - seen,
        {
            let ghost cur = self.items();
            let ghost here = cur[kept as int];
            assert(here == all.subrange(seen as int, n as int)[0]);
            let hit = matcher.is_match(self.entries[kept].key.as_str());
            proof {
                reveal(Seq::filter);
                let next = all.subrange(0, seen + 1);
                assert(next.drop_last() =~= all.subrange(0, seen as int));
                assert(next.last() == here);
                assert(keep(here) == !hit);
            }
            if hit {
                self.entries.remove(kept);
                proof {
                    assert(self.items() =~= cur.remove(kept as int));
                    assert(self.items().subrange(0, kept as int) =~= cur.subrange(0, kept as int));
                    assert(self.items().subrange(kept as int, self.entries@.len() as int)
                        =~= cur.subrange(kept as int, cur.len() as int).subrange(
                        1,
                        n - seen,
                    ));
                    assert(all.subrange(seen as int, n as int).subrange(1, n - seen)
                        =~= all.subrange(seen + 1, n as int));
                }
            } else {
                proof {
                    assert(cur.subrange(0, kept + 1) =~= cur.subrange(0, kept as int).push(here));
                    assert(cur.subrange(kept + 1, cur.len() as int) =~= cur.subrange(
                        kept as int,
                        cur.len() as int,
                    ).subrange(1, n - seen));
                    assert(all.subrange(seen as int, n as int).subrange(1, n - seen)
                        =~= all.subrange(seen + 1, n as int));
                }
                kept += 1;
            }
            seen += 1;
        }
        proof {
            assert(all.subrange(0, n as int) =~= all);
            assert(self.items().subrange(0, kept as int) =~= self.items());
            let a = self@;
            let b = old(self)@.remove_keys(Set::new(|k: Seq<char>| glob_matches(pattern@, k)));
            assert_maps_equal!(a, b, x => {
                law_invalidate(all, pattern@, x);
            });
        }
    }

    /// Whether the bytes of all blobs in memory together can be written as
    /// a `u64`, which is what `stats` asks for.
    pub fn payload_fits(&self) -> (r: bool)
        ensures
            r == (total_bytes(self.items()) <= u64::MAX),
    {
        let mut total: u64 = 0;
        let mut i: usize = 0;
        while i < self.entries.len()
            invariant
                i <= self.entries@.len(),
                total == total_bytes(self.items().subrange(0, i as int)),
            decreases self.entries@.len() - i,
        {
            proof {
                lemma_total_bytes_prefix(self.items(), i + 1);
                assert(self.items().subrange(0, i + 1).drop_last() =~= self.items().subrange(
                    0,
                    i as int,
                ));
            }
            let len: usize = self.entries[i].data.len();
            if (len as u64) > u64::MAX - total {
                return false;
            }
            total = total + (len as u64);
            i += 1;
        }
        assert(self.items().subrange(0, i as int) =~= self.items());
        true
    }

    /// The statistics of the cache as it stands: the number of blobs in
    /// memory, their bytes together, and the counters.
    pub fn stats(&self) -> (s: CacheStats)
        requires
            self.wf(),
            total_bytes(self.items()) <= u64::MAX,
        ensures
            s.item_count == self.items().len(),
            s.total_size == total_bytes(self.items()),
            s.hits == self.hits(),
            s.misses == self.misses(),
    {
        let mut total: u64 = 0;
        let mut i: usize = 0;
        while i < self.entries.len()
            invariant
                i <= self.entries@.len(),
                total == total_bytes(self.items().subrange(0, i as int)),
                total_bytes(self.items()) <= u64::MAX,
            decreases self.entries@.len() - i,
        {
            proof {
                lemma_total_bytes_prefix(self.items(), i + 1);
                assert(self.items().subrange(0, i + 1).drop_last() =~= self.items().subrange(
                    0,
                    i as int,
                ));
            }
            let len: usize = self.entries[i].data.len();
            total = total + (len as u64);
            i += 1;
        }
        assert(self.items().subrange(0, i as int) =~= self.items());
        CacheStats {
            total_size: total,
            item_count: self.entries.len(),
            hits: self.hits,
            misses: self.misses,
        }
    }

    /// Takes the blob files of a directory listing into memory, in the order
    /// of the listing: each file with the cache ending is stored under its
    /// key, other files are passed over. The counters stay as they are.
    pub fn load_from_disk(&mut self, files: &Vec<CacheFile>)
        requires
            old(self).wf(),
        ensures
            final(self).wf(),
            final(self).items() == absorbed(old(self).items(), files_of(files@)),
            final(self).hits() == old(self).hits(),
            final(self).misses() == old(self).misses(),
            final(self).dir() == old(self).dir(),
    {
        let ghost start = self.items();
        let ghost listing = files_of(files@);
        let mut i: usize = 0;
        assert(listing.subrange(0, 0) =~= Seq::<Item>::empty());
        while i < files.len()
            invariant
                i <= files@.len(),
                listing == files_of(files@),
                distinct_keys(self.items()),
                self.items() == absorbed(start, listing.subrange(0, i as int)),
                self.hits() == old(self).hits(),
                self.misses() == old(self).misses(),
                self.dir() == old(self).dir(),
            decreases files@.len() - i,
        {
            proof {
                let next = listing.subrange(0, i + 1);
                assert(next.drop_last() =~= listing.subrange(0, i as int));
                assert(next.last() == (files@[i as int].name@, files@[i as int].data@));
            }
            match cache_key_of_file(files[i].name.as_str()) {
                Some(key) => {
                    let data = copy_bytes(&files[i].data);
                    self.store(key, data);
                },
                None => {},
            }
            i += 1;
        }
        assert(listing.subrange(0, files@.len() as int) =~= listing);
    }
}

/// Where no key is stored twice, the bytes found under the key of an item
/// are the bytes of that item.
pub proof fn lemma_lookup_at(items: Seq<Item>, i: int)
    requires
        distinct_keys(items),
        0 <= i < items.len(),
    ensures
        holds_key(items, items[i].0),
        lookup(items, items[i].0) == Some(items[i].1),
{
    let j = slot_of(items, items[i].0);
    assert(0 <= j < items.len() && items[j].0 == items[i].0);
    assert(j == i);
}

/// Round trip: after storing `v` under `k`, looking `k` up finds exactly
/// `v`; every other key is found as before, and still no key is stored
/// twice.
pub proof fn law_set_then_get(items: Seq<Item>, k: Seq<char>, v: Seq<u8>)
    requires
        distinct_keys(items),
    ensures
        distinct_keys(put(items, k, v)),
        lookup(put(items, k, v), k) == Some(v),
        forall|other: Seq<char>| other != k ==> lookup(put(items, k, v), other) == lookup(items, other),
{
    let after = put(items, k, v);
    if holds_key(items, k) {
        let i = slot_of(items, k);
        assert(after[i] == (k, v));
        lemma_lookup_at(after, i);
        assert forall|other: Seq<char>| other != k implies lookup(after, other) == lookup(
            items,
            other,
        ) by {
            if holds_key(items, other) {
                let j = slot_of(items, other);
                assert(after[j] == items[j]);
                lemma_lookup_at(after, j);
            } else if holds_key(after, other) {
                let j = slot_of(after, other);
                assert(items[j].0 == other);
            }
        }
    } else {
        let i = items.len() as int;
        assert(after[i] == (k, v));
        assert forall|a: int, b: int| 0 <= a < b < after.len() implies after[a].0 != after[b].0 by {
            if b == i {
                assert(items[a].0 != k);
            }
        }
        lemma_lookup_at(after, i);
        assert forall|other: Seq<char>| other != k implies lookup(after, other) == lookup(
            items,
            other,
        ) by {
            if holds_key(items, other) {
                let j = slot_of(items, other);
                assert(after[j] == items[j]);
                lemma_lookup_at(after, j);
            } else if holds_key(after, other) {
                let j = slot_of(after, other);
                assert(j < items.len());
                assert(items[j].0 == other);
            }
        }
    }
}

/// What invalidation keeps: every item of the result is an item of the
/// input that the pattern does not cover, the order is kept, and every such
/// item of the input is in the result.
proof fn lemma_surviving(items: Seq<Item>, pattern: Seq<char>)
    requires
        distinct_keys(items),
    ensures
        distinct_keys(surviving(items, pattern)),
        forall|p: int|
            0 <= p < surviving(items, pattern).len() ==> holds_key(
                items,
                #[trigger] surviving(items, pattern)[p].0,
            ) && !glob_matches(pattern, surviving(items, pattern)[p].0) && lookup(
                items,
                surviving(items, pattern)[p].0,
            ) == Some(surviving(items, pattern)[p].1),
        forall|i: int|
            0 <= i < items.len() && !glob_matches(pattern, #[trigger] items[i].0) ==> holds_key(
                surviving(items, pattern),
                items[i].0,
            ),
    decreases items.len(),
{
    reveal(Seq::filter);
    if items.len() > 0 {
        let init = items.drop_last();
        let last = items.last();
        let n = init.len() as int;
        lemma_surviving(init, pattern);
        let s0 = surviving(init, pattern);
        let s = surviving(items, pattern);
        assert forall|p: int| 0 <= p < s0.len() implies holds_key(items, #[trigger] s0[p].0)
            && lookup(items, s0[p].0) == Some(s0[p].1) && s0[p].0 != last.0 by {
            assert(holds_key(init, s0[p].0));
            let j = slot_of(init, s0[p].0);
            assert(items[j] == init[j]);
            lemma_lookup_at(init, j);
            lemma_lookup_at(items, j);
            assert(items[j].0 != items[n].0);
        }
        lemma_lookup_at(items, n);
        if !glob_matches(pattern, last.0) {
            assert(s =~= s0.push(last));
            assert(s[s0.len() as int] == last);
        } else {
            assert(s =~= s0);
        }
        assert forall|i: int|
            0 <= i < items.len() && !glob_matches(pattern, #[trigger] items[i].0) implies holds_key(
            s,
            items[i].0,
        ) by {
            if i < n {
                assert(init[i] == items[i]);
                assert(holds_key(s0, init[i].0));
                let p = slot_of(s0, init[i].0);
                assert(s[p] == s0[p]);
            } else {
                assert(s[s0.len() as int].0 == items[i].0);
            }
        }
    }
}

/// Invalidation by wildcard: afterwards a key that the pattern covers is not
/// found, and every other key is found with the bytes it had.
pub proof fn law_invalidate(items: Seq<Item>, pattern: Seq<char>, k: Seq<char>)
    requires
        distinct_keys(items),
    ensures
        distinct_keys(surviving(items, pattern)),
        glob_matches(pattern, k) ==> lookup(surviving(items, pattern), k) is None,
        !glob_matches(pattern, k) ==> lookup(surviving(items, pattern), k) == lookup(items, k),
{
    lemma_surviving(items, pattern);
    let s = surviving(items, pattern);
    if holds_key(s, k) {
        let p = slot_of(s, k);
        assert(s[p].0 == k);
        lemma_lookup_at(s, p);
    } else if holds_key(items, k) && !glob_matches(pattern, k) {
        let i = slot_of(items, k);
        assert(items[i].0 == k);
    }
}

/// The map of the items after a `put` is the map before with the one key
/// set to the new bytes.
pub proof fn lemma_view_of_put(items: Seq<Item>, k: Seq<char>, v: Seq<u8>)
    requires
        distinct_keys(items),
    ensures
        map_of(put(items, k, v)) == map_of(items).insert(k, v),
{
    law_set_then_get(items, k, v);
    let a = map_of(put(items, k, v));
    let b = map_of(items).insert(k, v);
    assert_maps_equal!(a, b, x => {
        if x != k {
            assert(lookup(put(items, k, v), x) == lookup(items, x));
        }
    });
}

/// Clearing wipes everything: in a cache that holds nothing, no key is found.
pub proof fn law_clear_forgets(k: Seq<char>)
    ensures
        lookup(Seq::<Item>::empty(), k) is None,
{
}

/// Every key is the key of its own file name.
pub proof fn lemma_key_of_own_file(k: Seq<char>)
    ensures
        key_of_file_name(file_name_of(k)) == Some(k),
{
    let own = file_name_of(k);
    let suffix = cache_suffix();
    assert(own.subrange(own.len() - suffix.len(), own.len() as int) =~= suffix);
    assert(own.subrange(0, own.len() - suffix.len()) =~= k);
}

/// A file that is loaded under the key `k` is the file of that key.
pub proof fn lemma_file_of_key(name: Seq<char>, k: Seq<char>)
    requires
        key_of_file_name(name) == Some(k),
    ensures
        name == file_name_of(k),
{
    let suffix = cache_suffix();
    assert(name.subrange(name.len() - suffix.len(), name.len() as int) == suffix);
    assert(name =~= name.subrange(0, name.len() - suffix.len()) + name.subrange(
        name.len() - suffix.len(),
        name.len() as int,
    ));
}

/// Loading a listing keeps the keys distinct.
proof fn lemma_absorbed_distinct(items: Seq<Item>, files: Seq<Item>)
    requires
        distinct_keys(items),
    ensures
        distinct_keys(absorbed(items, files)),
    decreases files.len(),
{
    if files.len() > 0 {
        lemma_absorbed_distinct(items, files.drop_last());
        let before = absorbed(items, files.drop_last());
        match key_of_file_name(files.last().0) {
            Some(k) => law_set_then_get(before, k, files.last().1),
            None => {},
        }
    }
}

/// Warm-up from disk: when a listing of the cache directory, which names
/// no file twice, holds the file of key `k`, then after loading the listing
/// `k` is found with the bytes of that file, whatever the key and whatever
/// was in memory before.
pub proof fn law_warm_up(items: Seq<Item>, files: Seq<Item>, i: int, k: Seq<char>)
    requires
        distinct_keys(items),
        distinct_keys(files),
        0 <= i < files.len(),
        files[i].0 == file_name_of(k),
    ensures
        lookup(absorbed(items, files), k) == Some(files[i].1),
    decreases files.len(),
{
    let init = files.drop_last();
    let before = absorbed(items, init);
    lemma_absorbed_distinct(items, init);
    lemma_key_of_own_file(k);
    if i == files.len() - 1 {
        law_set_then_get(before, k, files.last().1);
    } else {
        assert(init[i] == files[i]);
        assert forall|a: int, b: int| 0 <= a < b < init.len() implies init[a].0 != init[b].0 by {
            assert(init[a] == files[a] && init[b] == files[b]);
        }
        law_warm_up(items, init, i, k);
        match key_of_file_name(files.last().0) {
            Some(other) => {
                assert(files[files.len() - 1] == files.last());
                if other == k {
                    lemma_file_of_key(files.last().0, k);
                    assert(files[i].0 == files[files.len() - 1].0);
                }
                law_set_then_get(before, other, files.last().1);
            },
            None => {},
        }
    }
}

} // verus!
