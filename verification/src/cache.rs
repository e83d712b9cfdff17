//! The cache of resolved actions.
use crate::action::{ResolvedAction, ResolvedActionView};
use std::collections::VecDeque;
use vstd::hash_map::StringHashMap;
use vstd::prelude::*;

verus! {

/// Maximum number of entries in the action resolution cache.
pub const MAX_CACHE_ENTRIES: usize = 256;

/// Bounded FIFO cache for successfully resolved actions keyed by "owner/repo@version".
/// Only successful resolutions are cached: transient failures are not persisted
/// so that retries can succeed if network conditions improve.
/// Eviction is insertion-order (FIFO), not access-order, which is sufficient here
/// because actions are typically resolved once per workflow run.
pub struct BoundedCache {
    map: StringHashMap<ResolvedAction>,
    /// Insertion order for FIFO eviction (oldest at front).
    order: VecDeque<String>,
}

/// What a [`BoundedCache`] holds.
#[verifier::ext_equal]
pub struct CacheView {
    /// The keys, oldest first.
    pub order: Seq<Seq<char>>,
    pub entries: Map<Seq<char>, ResolvedActionView>,
}

impl CacheView {
    /// The cache without entries.
    pub open spec fn empty() -> CacheView {
        CacheView { order: Seq::empty(), entries: Map::empty() }
    }

    /// The order lists each key with an entry once, and there are at most
    /// [`MAX_CACHE_ENTRIES`] of them.
    pub open spec fn wf(self) -> bool {
        &&& self.order.no_duplicates()
        &&& self.order.to_set() == self.entries.dom()
        &&& self.order.len() <= MAX_CACHE_ENTRIES
    }

    /// The cache without its oldest entry.
    pub open spec fn evicted(self) -> CacheView {
        CacheView {
            order: self.order.drop_first(),
            entries: self.entries.remove(self.order.first()),
        }
    }

    /// The cache with `value` under `key`. A key that has an entry keeps its place in the order;
    /// a new one comes last, and the oldest makes room for it in a cache that is full.
    pub open spec fn insert(self, key: Seq<char>, value: ResolvedActionView) -> CacheView {
        if self.entries.contains_key(key) {
            CacheView { order: self.order, entries: self.entries.insert(key, value) }
        } else {
            let room = if self.order.len() >= MAX_CACHE_ENTRIES {
                self.evicted()
            } else {
                self
            };
            CacheView { order: room.order.push(key), entries: room.entries.insert(key, value) }
        }
    }
}

/// A cache stays well-formed without its oldest entry.
proof fn lemma_evicted_wf(cache: CacheView)
    requires
        cache.wf(),
        cache.order.len() > 0,
    ensures
        cache.evicted().wf(),
{
    let rest = cache.evicted();
    assert forall|key: Seq<char>| rest.order.to_set().contains(key) implies rest.entries.dom().contains(
        key,
    ) by {
        let i = choose|i: int| 0 <= i < rest.order.len() && rest.order[i] == key;
        assert(cache.order[i + 1] == key);
        assert(cache.order.to_set().contains(key));
    }
    assert forall|key: Seq<char>| rest.entries.dom().contains(key) implies rest.order.to_set().contains(
        key,
    ) by {
        assert(cache.order.to_set().contains(key));
        let i = choose|i: int| 0 <= i < cache.order.len() && cache.order[i] == key;
        assert(rest.order[i - 1] == key);
    }
    assert(rest.order.to_set() =~= rest.entries.dom());
}

/// Storing an entry keeps a cache well-formed.
proof fn lemma_insert_wf(cache: CacheView, key: Seq<char>, value: ResolvedActionView)
    requires
        cache.wf(),
    ensures
        cache.insert(key, value).wf(),
{
    if cache.entries.contains_key(key) {
        assert(cache.entries.insert(key, value).dom() =~= cache.entries.dom());
    } else {
        let room = if cache.order.len() >= MAX_CACHE_ENTRIES {
            lemma_evicted_wf(cache);
            cache.evicted()
        } else {
            cache
        };
        assert(!room.order.to_set().contains(key));
        let after = cache.insert(key, value);
        assert forall|i: int, j: int| 0 <= i < j < after.order.len() implies after.order[i]
            != after.order[j] by {
            if j == room.order.len() {
                assert(room.order.contains(room.order[i]));
            }
        }
        assert forall|k: Seq<char>| after.entries.dom().contains(k) implies after.order.to_set().contains(
            k,
        ) by {
            if k == key {
                assert(after.order[room.order.len() as int] == key);
            } else {
                assert(room.order.to_set().contains(k));
                let i = choose|i: int| 0 <= i < room.order.len() && room.order[i] == k;
                assert(after.order[i] == k);
            }
        }
        assert forall|k: Seq<char>| after.order.to_set().contains(k) implies after.entries.dom().contains(
            k,
        ) by {
            let i = choose|i: int| 0 <= i < after.order.len() && after.order[i] == k;
            if i < room.order.len() {
                assert(room.order[i] == k);
                assert(room.order.to_set().contains(k));
            }
        }
        assert(after.order.to_set() =~= after.entries.dom());
    }
}

impl View for BoundedCache {
    type V = CacheView;

    closed spec fn view(&self) -> CacheView {
        CacheView {
            order: self.order@.map_values(|key: String| key@),
            entries: self.map@.map_values(|action: ResolvedAction| action@),
        }
    }
}

impl BoundedCache {
    /// What every cache keeps, from its making on.
    pub open spec fn wf(&self) -> bool {
        self@.wf()
    }

    pub fn new() -> (cache: BoundedCache)
        ensures
            cache.wf(),
            cache@ == CacheView::empty(),
    {
        let cache = BoundedCache { map: StringHashMap::new(), order: VecDeque::new() };
        assert(cache@ =~= CacheView::empty());
        assert(cache@.order.to_set() =~= cache@.entries.dom());
        cache
    }

    /// The entry under `key`, if there is one.
    pub fn get(&self, key: &str) -> (found: Option<&ResolvedAction>)
        ensures
            found is Some <==> self@.entries.contains_key(key@),
            found matches Some(action) ==> action@ == self@.entries[key@],
    {
        self.map.get(key)
    }

    /// The number of entries.
    pub fn len(&self) -> (count: usize)
        requires
            self.wf(),
        ensures
            count == self@.order.len(),
            count == self@.entries.len(),
    {
        proof {
            self@.order.unique_seq_to_set();
            assert(self@.entries.dom() =~= self.map@.dom());
        }
        self.map.len()
    }

    /// Stores `value` under `key`.
    pub fn insert(&mut self, key: String, value: ResolvedAction)
        requires
            old(self).wf(),
        ensures
            final(self).wf(),
            final(self)@ == old(self)@.insert(key@, value@),
    {
        proof {
            lemma_insert_wf(self@, key@, value@);
        }
        if self.map.contains_key(key.as_str()) {
            // Already cached: update value, don't change insertion order
            self.map.insert(key, value);
            assert(self@ =~= old(self)@.insert(key@, value@));
            return;
        }
        // Evict oldest entries if at capacity
        while self.len() >= MAX_CACHE_ENTRIES
            invariant
                self.wf(),
                old(self).wf(),
                !self@.entries.contains_key(key@),
                self@ == old(self)@ || (old(self)@.order.len() >= MAX_CACHE_ENTRIES && self@
                    == old(self)@.evicted()),
            decreases self@.order.len(),
        {
            let ghost before = self@;
            proof {
                lemma_evicted_wf(before);
            }
            if let Some(oldest) = self.order.pop_front() {
                self.map.remove(oldest.as_str());
                assert(oldest@ == before.order.first());
            }
            assert(self@ =~= before.evicted());
        }
        let ghost room = self@;
        self.order.push_back(key.clone());
        self.map.insert(key, value);
        assert(self@.order =~= room.order.push(key@));
        assert(self@.entries =~= room.entries.insert(key@, value@));
    }
}

/// What was stored last under a key is what is found there.
pub proof fn law_get_gives_back_insert(
    cache: CacheView,
    key: Seq<char>,
    value: ResolvedActionView,
)
    ensures
        cache.insert(key, value).entries.contains_key(key),
        cache.insert(key, value).entries[key] == value,
{
}

/// Storing under a key that has an entry changes that entry's value and nothing else: the cache
/// does not grow, and the key keeps its place.
pub proof fn law_duplicate_insert_does_not_grow(
    cache: CacheView,
    key: Seq<char>,
    value: ResolvedActionView,
)
    requires
        cache.wf(),
        cache.entries.contains_key(key),
    ensures
        cache.insert(key, value).order == cache.order,
        cache.insert(key, value).entries == cache.entries.insert(key, value),
        cache.insert(key, value).entries.len() == cache.entries.len(),
{
    assert(cache.insert(key, value).entries.dom() =~= cache.entries.dom());
}

/// A new key costs no other key its entry while there is room, and the oldest one alone when the
/// cache is full.
pub proof fn law_insert_evicts_the_oldest(
    cache: CacheView,
    key: Seq<char>,
    value: ResolvedActionView,
    other: Seq<char>,
)
    requires
        cache.wf(),
        !cache.entries.contains_key(key),
        cache.entries.contains_key(other),
    ensures
        cache.insert(key, value).entries.contains_key(other) <==> (cache.order.len()
            < MAX_CACHE_ENTRIES || other != cache.order.first()),
        cache.insert(key, value).entries.contains_key(other) ==> cache.insert(key, value).entries[other]
            == cache.entries[other],
{
}

/// The cache after `items` have been stored one after the other.
pub open spec fn filled(cache: CacheView, items: Seq<(Seq<char>, ResolvedActionView)>) -> CacheView
    decreases items.len(),
{
    if items.len() == 0 {
        cache
    } else {
        filled(cache, items.drop_last()).insert(items.last().0, items.last().1)
    }
}

/// The cache never exceeds its capacity, whatever is stored in it, and its order stays that of
/// its entries.
pub proof fn law_cache_respects_max_capacity(items: Seq<(Seq<char>, ResolvedActionView)>)
    ensures
        filled(CacheView::empty(), items).wf(),
        filled(CacheView::empty(), items).entries.len() <= MAX_CACHE_ENTRIES,
    decreases items.len(),
{
    let cache = filled(CacheView::empty(), items);
    if items.len() == 0 {
        assert(cache.order.to_set() =~= cache.entries.dom());
    } else {
        law_cache_respects_max_capacity(items.drop_last());
        let before = filled(CacheView::empty(), items.drop_last());
        lemma_insert_wf(before, items.last().0, items.last().1);
    }
    cache.order.unique_seq_to_set();
}

/// The first of `items` that a cache of theirs still holds.
pub open spec fn first_kept(items: Seq<(Seq<char>, ResolvedActionView)>) -> int {
    if items.len() <= MAX_CACHE_ENTRIES {
        0
    } else {
        items.len() - MAX_CACHE_ENTRIES
    }
}

/// First in, first out: of items with distinct keys the cache holds the newest, as many as it has
/// room for, in the order in which they came.
pub proof fn law_cache_keeps_the_newest(items: Seq<(Seq<char>, ResolvedActionView)>)
    requires
        forall|i: int, j: int|
            0 <= i < j < items.len() ==> (#[trigger] items[i]).0 != (#[trigger] items[j]).0,
    ensures
        filled(CacheView::empty(), items).order == items.skip(first_kept(items)).map_values(
            |item: (Seq<char>, ResolvedActionView)| item.0,
        ),
        forall|i: int|
            first_kept(items) <= i < items.len() ==> filled(
                CacheView::empty(),
                items,
            ).entries.contains_pair((#[trigger] items[i]).0, items[i].1),
        forall|i: int|
            0 <= i < first_kept(items) ==> !filled(
                CacheView::empty(),
                items,
            ).entries.contains_key((#[trigger] items[i]).0),
    decreases items.len(),
{
    let key_of = |item: (Seq<char>, ResolvedActionView)| item.0;
    let cache = filled(CacheView::empty(), items);
    if items.len() == 0 {
        assert(cache.order =~= items.skip(0).map_values(key_of));
    } else {
        let earlier = items.drop_last();
        let before = filled(CacheView::empty(), earlier);
        let (key, value) = items.last();
        assert forall|i: int, j: int| 0 <= i < j < earlier.len() implies (#[trigger] earlier[i]).0
            != (#[trigger] earlier[j]).0 by {
            assert(items[i].0 != items[j].0);
        }
        law_cache_keeps_the_newest(earlier);
        law_cache_respects_max_capacity(earlier);
        assert(before.order == earlier.skip(first_kept(earlier)).map_values(key_of));
        assert(!before.entries.contains_key(key)) by {
            if before.entries.contains_key(key) {
                assert(before.order.to_set().contains(key));
                let i = choose|i: int| 0 <= i < before.order.len() && before.order[i] == key;
                assert(earlier[first_kept(earlier) + i].0 == key);
                assert(items[first_kept(earlier) + i].0 == items[items.len() - 1].0);
            }
        }
        assert(cache.order =~= items.skip(first_kept(items)).map_values(key_of));
        assert forall|i: int| first_kept(items) <= i < items.len() implies cache.entries.contains_pair(
            (#[trigger] items[i]).0,
            items[i].1,
        ) by {
            if i < items.len() - 1 {
                assert(earlier[i] == items[i]);
                assert(before.entries.contains_pair(earlier[i].0, earlier[i].1));
                assert(items[i].0 != items[items.len() - 1].0);
                if before.order.len() >= MAX_CACHE_ENTRIES {
                    assert(before.order.first() == earlier[first_kept(earlier)].0);
                    assert(items[first_kept(earlier)].0 != items[i].0);
                }
            }
        }
        assert forall|i: int| 0 <= i < first_kept(items) implies !cache.entries.contains_key(
            (#[trigger] items[i]).0,
        ) by {
            assert(earlier[i] == items[i]);
            assert(items[i].0 != items[items.len() - 1].0);
            if i < first_kept(earlier) {
                assert(!before.entries.contains_key(earlier[i].0));
            } else {
                assert(before.order.first() == earlier[i].0);
            }
        }
    }
}

/// Storing makes no entry appear or change but that of its key.
pub proof fn law_insert_concerns_its_key_alone(
    cache: CacheView,
    key: Seq<char>,
    value: ResolvedActionView,
    other: Seq<char>,
)
    requires
        other != key,
        cache.insert(key, value).entries.contains_key(other),
    ensures
        cache.entries.contains_key(other),
        cache.insert(key, value).entries[other] == cache.entries[other],
{
}

/// A new key comes last in the order, and the others keep theirs: all of them while there is room,
/// all but the first when 256 are there.
pub proof fn law_new_key_comes_last(cache: CacheView, key: Seq<char>, value: ResolvedActionView)
    requires
        cache.wf(),
        !cache.entries.contains_key(key),
    ensures
        cache.insert(key, value).order.last() == key,
        cache.order.len() < 256 ==> cache.insert(key, value).order.drop_last() == cache.order,
        cache.order.len() == 256 ==> cache.insert(key, value).order.drop_last()
            == cache.order.drop_first(),
        cache.insert(key, value).order.len() <= 256,
{
    let after = cache.insert(key, value);
    if cache.order.len() < 256 {
        assert(after.order.drop_last() =~= cache.order);
    } else {
        assert(after.order.drop_last() =~= cache.order.drop_first());
    }
}

/// Of a well-formed cache the order lists exactly the keys that have an entry, each of them once,
/// and no more than 256.
pub proof fn law_order_lists_the_entries(cache: CacheView, key: Seq<char>)
    requires
        cache.wf(),
    ensures
        cache.order.contains(key) <==> cache.entries.contains_key(key),
        forall|i: int, j: int|
            0 <= i < j < cache.order.len() ==> #[trigger] cache.order[i] != #[trigger] cache.order[j],
        cache.order.len() <= 256,
{
    assert(cache.order.to_set().contains(key) <==> cache.entries.dom().contains(key));
    if cache.order.contains(key) {
        assert(cache.order.to_set().contains(key));
    }
}

/// A cache that was made just now has nothing under any key.
pub proof fn law_new_cache_has_nothing(
    cache: BoundedCache,
    key: &str,
    found: Option<&ResolvedAction>,
    count: usize,
)
    requires
        call_ensures(BoundedCache::new, (), cache),
        call_ensures(BoundedCache::get, (&cache, key), found),
        call_ensures(BoundedCache::len, (&cache,), count),
    ensures
        found is None,
        count == 0,
{
}

/// What is found under a key is what the cache holds there.
pub proof fn law_get_gives_what_is_held(
    cache: &BoundedCache,
    key: &str,
    found: Option<&ResolvedAction>,
)
    requires
        call_ensures(BoundedCache::get, (cache, key), found),
    ensures
        found is Some <==> cache@.entries.contains_key(key@),
        found is Some ==> found->0@ == cache@.entries[key@],
{
}

/// The length of a cache is the number of keys that have an entry.
pub proof fn law_len_counts_the_entries(cache: &BoundedCache, count: usize)
    requires
        call_ensures(BoundedCache::len, (cache,), count),
    ensures
        count == cache@.entries.dom().len(),
        count == cache@.order.len(),
{
}

/// Storing a value puts it under its key, whole, and touches no other entry, save that the oldest
/// makes room for a new key in a cache of 256.
pub proof fn law_store_puts_the_value_under_its_key(
    cache: &mut BoundedCache,
    key: String,
    value: ResolvedAction,
    other: Seq<char>,
)
    requires
        old(cache).wf(),
        other != key@,
        call_ensures(BoundedCache::insert, (cache, key, value), ()),
    ensures
        final(cache)@.entries.contains_key(key@),
        final(cache)@.entries[key@] == value@,
        final(cache)@.order.len() <= 256,
        final(cache)@.entries.contains_key(other) <==> old(cache)@.entries.contains_key(other) && (
        old(cache)@.entries.contains_key(key@) || old(cache)@.order.len() < 256 || other
            != old(cache)@.order.first()),
        final(cache)@.entries.contains_key(other) ==> final(cache)@.entries[other]
            == old(cache)@.entries[other],
        old(cache)@.entries.contains_key(key@) ==> final(cache)@.order == old(cache)@.order,
        !old(cache)@.entries.contains_key(key@) ==> final(cache)@.order.last() == key@,
{
    let before = old(cache)@;
    if !before.entries.contains_key(key@) {
        law_new_key_comes_last(before, key@, value@);
        if before.entries.contains_key(other) {
            law_insert_evicts_the_oldest(before, key@, value@, other);
        }
    }
    if before.insert(key@, value@).entries.contains_key(other) {
        law_insert_concerns_its_key_alone(before, key@, value@, other);
    }
}

} // verus!
