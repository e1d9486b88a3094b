//! The cache of conditions: for every real path that a load has depended
//! on, the one live condition that is invalidated when the path changes.

use vstd::prelude::*;
use vstd::rwlock::{RwLock, RwLockPredicate};
use renege::{Condition, Token};
use crate::token::{always_valid, invalidate, minted, new_condition, token_of};
use crate::tracker::Tracker;

verus! {

/// One entry of the cache: a real path and the condition that stands for
/// its contents.
pub struct CacheEntry {
    path: String,
    condition: Condition,
}

impl CacheEntry {
    /// The real path of the entry.
    pub closed spec fn key(&self) -> Seq<char> {
        self.path@
    }

    /// The condition of the entry.
    pub closed spec fn value(&self) -> Condition {
        self.condition
    }
}

/// No path occurs in two entries.
pub open spec fn distinct(entries: Seq<CacheEntry>) -> bool {
    forall|i: int, j: int|
        0 <= i < j < entries.len() ==> (#[trigger] entries[i]).key() != (
        #[trigger] entries[j]).key()
}

/// Some entry has the path `path`.
pub open spec fn has_key(entries: Seq<CacheEntry>, path: Seq<char>) -> bool {
    exists|i: int| 0 <= i < entries.len() && (#[trigger] entries[i]).key() == path
}

/// The position of an entry with the path `path`.
pub open spec fn slot(entries: Seq<CacheEntry>, path: Seq<char>) -> int {
    choose|i: int| 0 <= i < entries.len() && (#[trigger] entries[i]).key() == path
}

/// The entries as a map from path to condition.
pub open spec fn as_map(entries: Seq<CacheEntry>) -> Map<Seq<char>, Condition> {
    Map::new(
        |path: Seq<char>| has_key(entries, path),
        |path: Seq<char>| entries[slot(entries, path)].value(),
    )
}

/// The paths in `paths[..n]`, as a set.
pub open spec fn path_set(paths: Seq<String>, n: int) -> Set<Seq<char>> {
    Set::new(|path: Seq<char>| exists|k: int| 0 <= k < n && (#[trigger] paths[k])@ == path)
}

/// Among distinct entries, each is the one that its path leads to.
pub proof fn lemma_slot(entries: Seq<CacheEntry>, i: int)
    requires
        distinct(entries),
        0 <= i < entries.len(),
    ensures
        has_key(entries, entries[i].key()),
        slot(entries, entries[i].key()) == i,
        as_map(entries)[entries[i].key()] == entries[i].value(),
{
    let path = entries[i].key();
    let k = slot(entries, path);
    assert(0 <= k < entries.len() && entries[k].key() == path);
    if k < i {
        assert(entries[k].key() != entries[i].key());
    } else if i < k {
        assert(entries[i].key() != entries[k].key());
    }
}

/// Adding an entry for a new path keeps the entries distinct and adds one
/// mapping.
pub proof fn lemma_push(entries: Seq<CacheEntry>, entry: CacheEntry)
    requires
        distinct(entries),
        !has_key(entries, entry.key()),
    ensures
        distinct(entries.push(entry)),
        as_map(entries.push(entry)) == as_map(entries).insert(entry.key(), entry.value()),
{
    let after = entries.push(entry);
    let n = entries.len() as int;
    assert forall|i: int, j: int| 0 <= i < j < after.len() implies (#[trigger] after[i]).key() != (
    #[trigger] after[j]).key() by {
        if j < n {
            assert(entries[i].key() != entries[j].key());
        } else {
            assert(after[i] == entries[i]);
            assert(entries[i].key() != entry.key());
        }
    }
    let target = as_map(entries).insert(entry.key(), entry.value());
    assert forall|path: Seq<char>| as_map(after).dom().contains(path) <==> target.dom().contains(
        path,
    ) by {
        if has_key(after, path) {
            let i = slot(after, path);
            if i < n {
                assert(entries[i].key() == path);
            }
        }
        if has_key(entries, path) {
            let i = slot(entries, path);
            assert(after[i].key() == path);
        }
        if path == entry.key() {
            assert(after[n].key() == path);
        }
    }
    assert forall|path: Seq<char>| as_map(after).dom().contains(path) implies as_map(after)[path]
        == target[path] by {
        let i = slot(after, path);
        lemma_slot(after, i);
        if i < n {
            assert(after[i] == entries[i]);
            lemma_slot(entries, i);
        }
    }
    assert(as_map(after) =~= target);
}

/// Taking an entry out keeps the entries distinct and takes out one
/// mapping.
pub proof fn lemma_remove(entries: Seq<CacheEntry>, i: int)
    requires
        distinct(entries),
        0 <= i < entries.len(),
    ensures
        distinct(entries.remove(i)),
        as_map(entries.remove(i)) == as_map(entries).remove(entries[i].key()),
{
    let after = entries.remove(i);
    let gone = entries[i].key();
    assert forall|a: int| 0 <= a < after.len() implies #[trigger] after[a] == entries[if a < i {
        a
    } else {
        a + 1
    }] by {}
    assert forall|a: int, b: int| 0 <= a < b < after.len() implies (#[trigger] after[a]).key() != (
    #[trigger] after[b]).key() by {
        let a0 = if a < i { a } else { a + 1 };
        let b0 = if b < i { b } else { b + 1 };
        assert(entries[a0].key() != entries[b0].key());
    }
    let target = as_map(entries).remove(gone);
    assert forall|path: Seq<char>| as_map(after).dom().contains(path) <==> target.dom().contains(
        path,
    ) by {
        if has_key(after, path) {
            let a = slot(after, path);
            let a0 = if a < i { a } else { a + 1 };
            assert(entries[a0].key() == path);
            if a0 < i {
                assert(entries[a0].key() != entries[i].key());
            } else {
                assert(entries[i].key() != entries[a0].key());
            }
        }
        if has_key(entries, path) && path != gone {
            let k = slot(entries, path);
            let a = if k < i { k } else { k - 1 };
            assert(after[a].key() == path);
        }
    }
    assert forall|path: Seq<char>| as_map(after).dom().contains(path) implies as_map(after)[path]
        == target[path] by {
        let a = slot(after, path);
        lemma_slot(after, a);
        let a0 = if a < i { a } else { a + 1 };
        lemma_slot(entries, a0);
    }
    assert(as_map(after) =~= target);
}

/// Distinct entries are as many as their paths: the map of the entries has
/// one path for every entry.
pub proof fn lemma_one_path_per_entry(entries: Seq<CacheEntry>)
    requires
        distinct(entries),
    ensures
        as_map(entries).dom().finite(),
        as_map(entries).dom().len() == entries.len(),
    decreases entries.len(),
{
    if entries.len() == 0 {
        assert(as_map(entries).dom() =~= Set::<Seq<char>>::empty());
    } else {
        let front = entries.drop_last();
        let last = entries.last();
        assert(entries =~= front.push(last));
        assert(distinct(front)) by {
            assert forall|i: int, j: int| 0 <= i < j < front.len() implies (#[trigger] front[i]).key()
                != (#[trigger] front[j]).key() by {
                assert(entries[i].key() != entries[j].key());
            }
        }
        assert(!has_key(front, last.key())) by {
            if has_key(front, last.key()) {
                let i = slot(front, last.key());
                assert(entries[i].key() != entries[entries.len() - 1].key());
            }
        }
        lemma_one_path_per_entry(front);
        lemma_push(front, last);
        assert(as_map(entries).dom() =~= as_map(front).dom().insert(last.key()));
        assert(!as_map(front).dom().contains(last.key()));
    }
}

/// Distinct entries hold at most one condition for a path: two entries with
/// the same path are one entry.
pub proof fn lemma_one_condition_per_path(entries: Seq<CacheEntry>, i: int, j: int)
    requires
        distinct(entries),
        0 <= i < entries.len(),
        0 <= j < entries.len(),
        entries[i].key() == entries[j].key(),
    ensures
        i == j,
{
    if i < j {
        assert(entries[i].key() != entries[j].key());
    } else if j < i {
        assert(entries[j].key() != entries[i].key());
    }
}

/// The conditions of the real paths that loads have depended on. Every path
/// has at most one condition at any time: it is made when the path is
/// first asked for and taken out when the path changes.
pub struct ConditionCache {
    entries: Vec<CacheEntry>,
}

impl View for ConditionCache {
    type V = Map<Seq<char>, Condition>;

    closed spec fn view(&self) -> Map<Seq<char>, Condition> {
        as_map(self.entries@)
    }
}

impl ConditionCache {
    /// The entries of the cache, in the order in which they were made.
    pub closed spec fn entries(&self) -> Seq<CacheEntry> {
        self.entries@
    }

    /// The cache holds no path twice, and so no two live conditions for
    /// one path.
    pub open spec fn wf(&self) -> bool {
        &&& distinct(self.entries())
        &&& self@ == as_map(self.entries())
    }

    /// A cache without conditions.
    pub fn new() -> (cache: Self)
        ensures
            cache.wf(),
            cache@ == Map::<Seq<char>, Condition>::empty(),
    {
        let cache = ConditionCache { entries: Vec::new() };
        assert(cache@ =~= Map::<Seq<char>, Condition>::empty());
        cache
    }

    /// The number of live conditions: the number of entries, which in a
    /// cache that holds no path twice is the number of paths.
    pub fn len(&self) -> (len: usize)
        ensures
            len == self.entries().len(),
            self.wf() ==> self@.dom().finite() && len == self@.dom().len(),
    {
        proof {
            if self.wf() {
                lemma_one_path_per_entry(self.entries@);
            }
        }
        self.entries.len()
    }

    /// The position of the entry for `key`, if there is one.
    fn find(&self, key: &String) -> (found: Option<usize>)
        ensures
            match found {
                Some(i) => i < self.entries().len() && self.entries()[i as int].key() == key@,
                None => !has_key(self.entries(), key@),
            },
    {
        let mut i: usize = 0;
        while i < self.entries.len()
            invariant
                i <= self.entries.len(),
                forall|k: int| 0 <= k < i ==> (#[trigger] self.entries@[k]).key() != key@,
            decreases self.entries.len() - i,
        {
            if self.entries[i].path == *key {
                return Some(i);
            }
            i = i + 1;
        }
        None
    }

    /// Whether the cache holds a live condition for `path`.
    pub fn contains(&self, path: &str) -> (held: bool)
        requires
            self.wf(),
        ensures
            held == self@.contains_key(path@),
    {
        let key = path.to_owned();
        self.find(&key).is_some()
    }

    /// The token of the condition for `path`. Where the cache holds a
    /// condition for the path, that one is used and the cache stays as it
    /// is; else a new condition is made and kept for the path. The token is
    /// never the one that is valid for ever.
    pub fn token_for(&mut self, path: &str) -> (token: Token)
        requires
            old(self).wf(),
        ensures
            final(self).wf(),
            final(self)@.contains_key(path@),
            old(self)@.contains_key(path@) ==> final(self)@ == old(self)@,
            !old(self)@.contains_key(path@) ==> final(self)@ == old(self)@.insert(
                path@,
                final(self)@[path@],
            ),
            token == minted(final(self)@[path@]),
            !always_valid(token),
    {
        let key = path.to_owned();
        match self.find(&key) {
            Some(i) => {
                proof {
                    lemma_slot(self.entries@, i as int);
                }
                token_of(&self.entries[i].condition)
            },
            None => {
                let condition = new_condition();
                let token = token_of(&condition);
                let entry = CacheEntry { path: key, condition };
                proof {
                    lemma_push(self.entries@, entry);
                }
                self.entries.push(entry);
                proof {
                    lemma_slot(self.entries@, self.entries@.len() - 1);
                }
                token
            },
        }
    }

    /// Registers `path` as a dependency of `tracker`: gets the condition
    /// for the path, making it where the cache holds none, and composes its
    /// token into the tracker. No other entry of the cache changes. A
    /// tracker without dependencies holds just that token afterwards, and
    /// no tracker is valid for ever afterwards.
    pub fn track(&mut self, path: &str, tracker: &mut Tracker)
        requires
            old(self).wf(),
        ensures
            final(self).wf(),
            final(self)@.contains_key(path@),
            old(self)@.contains_key(path@) ==> final(self)@ == old(self)@,
            !old(self)@.contains_key(path@) ==> final(self)@ == old(self)@.insert(
                path@,
                final(self)@[path@],
            ),
            always_valid(old(tracker)@) ==> final(tracker)@ == minted(final(self)@[path@]),
            !always_valid(final(tracker)@),
    {
        let token = self.token_for(path);
        tracker.compose(token);
    }

    /// Invalidates the condition for `path` and takes it out of the cache,
    /// so that the next load of the path gets a condition of its own. Tells
    /// whether there was one.
    pub fn invalidate(&mut self, path: &str) -> (found: bool)
        requires
            old(self).wf(),
        ensures
            final(self).wf(),
            found == old(self)@.contains_key(path@),
            final(self)@ == old(self)@.remove(path@),
    {
        let key = path.to_owned();
        match self.find(&key) {
            Some(i) => {
                proof {
                    lemma_remove(self.entries@, i as int);
                }
                let entry = self.entries.remove(i);
                invalidate(entry.condition);
                true
            },
            None => {
                assert(self@.remove(path@) =~= self@);
                false
            },
        }
    }

    /// Handles one change event of the watched directory: invalidates and
    /// takes out the condition of every path that the event names.
    pub fn handle_event(&mut self, paths: &Vec<String>)
        requires
            old(self).wf(),
        ensures
            final(self).wf(),
            final(self)@ == old(self)@.remove_keys(path_set(paths@, paths@.len() as int)),
    {
        let mut k: usize = 0;
        assert(self@ =~= old(self)@.remove_keys(path_set(paths@, 0)));
        while k < paths.len()
            invariant
                k <= paths.len(),
                self.wf(),
                self@ == old(self)@.remove_keys(path_set(paths@, k as int)),
            decreases paths.len() - k,
        {
            let ghost before = self@;
            self.invalidate(paths[k].as_str());
            assert(path_set(paths@, k + 1) =~= path_set(paths@, k as int).insert(
                paths@[k as int]@,
            ));
            assert(self@ =~= old(self)@.remove_keys(path_set(paths@, k + 1)));
            k = k + 1;
        }
    }
}

/// What the lock of a shared cache keeps: a cache that holds no path twice.
pub struct OneConditionPerPath;

impl RwLockPredicate<ConditionCache> for OneConditionPerPath {
    open spec fn inv(self, cache: ConditionCache) -> bool {
        cache.wf()
    }
}

/// A condition cache behind a lock, to be shared between the loads of a
/// root and the watcher of its directory. The lock is held for one cache
/// operation at a time and never across the reading of a file. Whatever
/// the threads do, the cache inside holds at most one live condition for
/// a path.
pub struct SharedCache {
    lock: RwLock<ConditionCache, OneConditionPerPath>,
}

impl SharedCache {
    /// A shared cache without conditions.
    pub fn new() -> (cache: Self) {
        SharedCache { lock: RwLock::new(ConditionCache::new(), Ghost(OneConditionPerPath)) }
    }

    /// The token of the condition for `path`, which is made if the cache
    /// holds none. The token is one that a condition minted, and so never
    /// the one that is valid for ever.
    pub fn token_for(&self, path: &str) -> (token: Token)
        ensures
            exists|c: Condition| token == #[trigger] minted(c),
            !always_valid(token),
    {
        let (mut cache, handle) = self.lock.acquire_write();
        let token = cache.token_for(path);
        assert(token == minted(cache@[path@]));
        handle.release_write(cache);
        token
    }

    /// Registers `path` as a dependency of `tracker`, under the lock:
    /// composes the token of the condition for the path, which is made if
    /// the cache holds none, into the tracker. A tracker without
    /// dependencies holds just a token that a condition minted afterwards,
    /// and no tracker is valid for ever afterwards.
    pub fn track(&self, path: &str, tracker: &mut Tracker)
        ensures
            always_valid(old(tracker)@) ==> exists|c: Condition|
                final(tracker)@ == #[trigger] minted(c),
            !always_valid(final(tracker)@),
    {
        let (mut cache, handle) = self.lock.acquire_write();
        cache.track(path, tracker);
        assert(always_valid(old(tracker)@) ==> tracker@ == minted(cache@[path@]));
        handle.release_write(cache);
    }

    /// Invalidates and takes out the condition of every path in `paths`.
    pub fn handle_event(&self, paths: &Vec<String>) {
        let (mut cache, handle) = self.lock.acquire_write();
        cache.handle_event(paths);
        handle.release_write(cache);
    }

    /// The number of live conditions at the moment of the call.
    pub fn len(&self) -> usize {
        let handle = self.lock.acquire_read();
        let len = handle.borrow().len();
        handle.release_read();
        len
    }
}

} // verus!
