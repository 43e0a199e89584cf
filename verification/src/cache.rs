use vstd::prelude::*;

use crate::errors::VectorError;
use crate::strutil::str_equal;

verus! {

/// The first value stored under `key`, scanning the entries in order.
pub open spec fn entry_lookup<V>(entries: Seq<(String, V)>, key: Seq<char>) -> Option<V>
    decreases entries.len(),
{
    if entries.len() == 0 {
        None
    } else if entries[0].0@ == key {
        Some(entries[0].1)
    } else {
        entry_lookup(entries.drop_first(), key)
    }
}

/// The mapping an entry sequence denotes. Later entries are inserted
/// later, so on a duplicate name the earlier entry wins, matching the
/// scan order of `entry_lookup`.
pub open spec fn entries_as_map<V>(entries: Seq<(String, V)>) -> Map<Seq<char>, V>
    decreases entries.len(),
{
    if entries.len() == 0 {
        Map::empty()
    } else {
        entries_as_map(entries.drop_first()).insert(entries[0].0@, entries[0].1)
    }
}

/// The scan agrees with the denoted mapping: a key is present exactly when
/// some entry carries it, and the scan then yields the mapped value.
pub proof fn lemma_entry_lookup_agrees<V>(entries: Seq<(String, V)>, key: Seq<char>)
    ensures
        entries_as_map(entries).contains_key(key) <==> entry_lookup(entries, key) is Some,
        entry_lookup(entries, key) matches Some(v) ==> entries_as_map(entries)[key] == v,
        entry_lookup(entries, key) is Some <==> exists|i: int|
            0 <= i < entries.len() && #[trigger] entries[i].0@ == key,
    decreases entries.len(),
{
    if entries.len() == 0 {
    } else if entries[0].0@ == key {
        assert(entries[0].0@ == key);
    } else {
        lemma_entry_lookup_agrees(entries.drop_first(), key);
        assert forall|i: int|
            0 <= i < entries.len() && #[trigger] entries[i].0@ == key implies entry_lookup(
            entries,
            key,
        ) is Some by {
            assert(entries.drop_first()[i - 1].0@ == key);
        }
        if entry_lookup(entries, key) is Some {
            let j = choose|j: int|
                0 <= j < entries.drop_first().len() && #[trigger] entries.drop_first()[j].0@
                    == key;
            assert(entries[j + 1].0@ == key);
        }
    }
}

/// Appending an entry under a fresh name denotes exactly one more mapping.
proof fn lemma_entries_push<V>(entries: Seq<(String, V)>, p: (String, V))
    requires
        forall|i: int| 0 <= i < entries.len() ==> #[trigger] entries[i].0@ != p.0@,
    ensures
        entries_as_map(entries.push(p)) == entries_as_map(entries).insert(p.0@, p.1),
    decreases entries.len(),
{
    if entries.len() == 0 {
        let pushed = entries.push(p);
        assert(pushed.len() == 1);
        assert(pushed[0] == p);
        assert(pushed.drop_first() =~= Seq::<(String, V)>::empty());
        assert(entries_as_map(pushed.drop_first()) =~= Map::<Seq<char>, V>::empty());
        assert(entries_as_map(pushed) == entries_as_map(pushed.drop_first()).insert(p.0@, p.1));
        assert(entries_as_map(entries) =~= Map::<Seq<char>, V>::empty());
        assert(entries_as_map(pushed) =~= entries_as_map(entries).insert(p.0@, p.1));
    } else {
        assert(entries.push(p).drop_first() =~= entries.drop_first().push(p));
        assert forall|i: int|
            0 <= i < entries.drop_first().len() implies #[trigger] entries.drop_first()[i].0@
            != p.0@ by {
            assert(entries[i + 1].0@ != p.0@);
        }
        lemma_entries_push(entries.drop_first(), p);
        assert(entries.push(p)[0] == entries[0]);
        assert(entries[0].0@ != p.0@);
        assert(entries_as_map(entries.push(p)) == entries_as_map(
            entries.drop_first().push(p),
        ).insert(entries[0].0@, entries[0].1));
        assert(entries_as_map(entries).insert(p.0@, p.1) =~= entries_as_map(
            entries.drop_first().push(p),
        ).insert(entries[0].0@, entries[0].1));
    }
}

/// A cache of constructed encoder handles, keyed by model identifier.
/// A handle, once present, stays for the life of the cache; a failed
/// construction inserts nothing, so a later call may retry. The type of
/// handle is the caller's: the cache only keeps and finds them.
pub struct ModelCache<V> {
    entries: Vec<(String, V)>,
}

impl<V> View for ModelCache<V> {
    type V = Map<Seq<char>, V>;

    closed spec fn view(&self) -> Map<Seq<char>, V> {
        entries_as_map(self.entries@)
    }
}

impl<V> ModelCache<V> {
    /// Each identifier appears at most once among the entries.
    pub closed spec fn wf(&self) -> bool {
        forall|i: int, j: int|
            0 <= i < j < self.entries@.len() ==> #[trigger] self.entries@[i].0@
                != #[trigger] self.entries@[j].0@
    }

    /// An empty cache.
    pub fn new() -> (r: Self)
        ensures
            r.wf(),
            r@ == Map::<Seq<char>, V>::empty(),
    {
        ModelCache { entries: Vec::new() }
    }

    /// The handle cached for `name`, if one is present: a hit returns the
    /// stored handle without any construction.
    pub fn lookup<'a>(&'a self, name: &str) -> (r: Option<&'a V>)
        ensures
            match r {
                Some(v) => self@.contains_key(name@) && *v == self@[name@],
                None => !self@.contains_key(name@),
            },
    {
        proof {
            lemma_entry_lookup_agrees(self.entries@, name@);
        }
        let n = self.entries.len();
        let mut i: usize = 0;
        #[verifier::loop_isolation(false)]
        while i < n
            invariant
                0 <= i <= n,
                forall|j: int| 0 <= j < i ==> self.entries@[j].0@ != name@,
            decreases n - i,
        {
            if str_equal(self.entries[i].0.as_str(), name) {
                proof {
                    lemma_lookup_prefix(self.entries@, name@, i as int);
                    assert(self.entries@.skip(i as int)[0] == self.entries@[i as int]);
                }
                let entry: &(String, V) = &self.entries[i];
                return Some(&entry.1);
            }
            i += 1;
        }
        proof {
            lemma_lookup_prefix(self.entries@, name@, n as int);
            assert(self.entries@.skip(n as int) =~= Seq::<(String, V)>::empty());
        }
        None
    }

    /// True exactly when a handle is cached for `name`.
    pub fn contains(&self, name: &str) -> (r: bool)
        ensures
            r == self@.contains_key(name@),
    {
        self.lookup(name).is_some()
    }

    /// Caches the constructed handle for a never-before-seen identifier.
    /// The callers' protocol inserts only after a miss, so the entry for a
    /// key, once present, is never replaced.
    pub fn insert(&mut self, name: String, handle: V)
        requires
            old(self).wf(),
            !old(self)@.contains_key(name@),
        ensures
            final(self).wf(),
            final(self)@ == old(self)@.insert(name@, handle),
    {
        proof {
            lemma_entry_lookup_agrees(self.entries@, name@);
        }
        let ghost p = (name, handle);
        self.entries.push((name, handle));
        proof {
            lemma_entries_push(old(self).entries@, p);
        }
    }
}

/// Applies the outcome of one text-encoder construction to the cache: a
/// built handle is inserted for the identifier — unless one is already
/// present, a racing caller's, which then stays — and a failed
/// construction inserts nothing, so that a later call for the same
/// identifier retries; the failure surfaces as the construction error
/// carrying the identifier and cause.
pub fn finish_text_construction<V>(
    cache: &mut ModelCache<V>,
    name: String,
    built: Result<V, String>,
) -> (r: Result<(), VectorError>)
    requires
        old(cache).wf(),
    ensures
        final(cache).wf(),
        match built {
            Ok(handle) => {
                &&& r is Ok
                &&& final(cache)@.contains_key(name@)
                &&& !old(cache)@.contains_key(name@) ==> final(cache)@ == old(cache)@.insert(
                    name@,
                    handle,
                )
                &&& old(cache)@.contains_key(name@) ==> final(cache)@ == old(cache)@
            },
            Err(cause) => {
                &&& *final(cache) == *old(cache)
                &&& r == Err::<(), VectorError>(
                    VectorError::TextModelInit { model: name, cause },
                )
            },
        },
{
    match built {
        Ok(handle) => {
            if !cache.contains(name.as_str()) {
                cache.insert(name, handle);
            }
            Ok(())
        },
        Err(cause) => Err(VectorError::TextModelInit { model: name, cause }),
    }
}

/// As `finish_text_construction`, for the image cache: its failure is the
/// image construction error.
pub fn finish_image_construction<V>(
    cache: &mut ModelCache<V>,
    name: String,
    built: Result<V, String>,
) -> (r: Result<(), VectorError>)
    requires
        old(cache).wf(),
    ensures
        final(cache).wf(),
        match built {
            Ok(handle) => {
                &&& r is Ok
                &&& final(cache)@.contains_key(name@)
                &&& !old(cache)@.contains_key(name@) ==> final(cache)@ == old(cache)@.insert(
                    name@,
                    handle,
                )
                &&& old(cache)@.contains_key(name@) ==> final(cache)@ == old(cache)@
            },
            Err(cause) => {
                &&& *final(cache) == *old(cache)
                &&& r == Err::<(), VectorError>(
                    VectorError::ImageModelInit { model: name, cause },
                )
            },
        },
{
    match built {
        Ok(handle) => {
            if !cache.contains(name.as_str()) {
                cache.insert(name, handle);
            }
            Ok(())
        },
        Err(cause) => Err(VectorError::ImageModelInit { model: name, cause }),
    }
}

/// If none of the first `i` entries matches `key`, the scan is decided by
/// the remaining entries alone.
proof fn lemma_lookup_prefix<V>(entries: Seq<(String, V)>, key: Seq<char>, i: int)
    requires
        0 <= i <= entries.len(),
        forall|j: int| 0 <= j < i ==> entries[j].0@ != key,
    ensures
        entry_lookup(entries, key) == entry_lookup(entries.skip(i), key),
    decreases i,
{
    if i > 0 {
        lemma_lookup_prefix(entries, key, i - 1);
        assert(entries.skip(i - 1).drop_first() =~= entries.skip(i));
        assert(entries.skip(i - 1)[0] == entries[i - 1]);
    } else {
        assert(entries.skip(0) =~= entries);
    }
}

/// Cache idempotence: once a handle is inserted for an identifier, that
/// identifier maps to exactly that handle, so a later call takes the hit
/// path of `lookup` and returns the same underlying instance with no
/// second construction.
pub proof fn lemma_cache_idempotence<V>(m: Map<Seq<char>, V>, k: Seq<char>, v: V)
    ensures
        m.insert(k, v).contains_key(k),
        m.insert(k, v)[k] == v,
{
}

/// Two construction attempts racing on one never-seen identifier, seen
/// at the level of the mapping view: in whichever order the insertions
/// land, the identifier is mapped afterwards — never left valueless once
/// any attempt succeeds — and the later insertion supplies the handle.
/// The cache's own protocol is stricter still: `insert` and the
/// construction-outcome functions keep a handle, once present, and never
/// replace it, which this tolerance also admits.
pub proof fn lemma_last_insert_wins<V>(m: Map<Seq<char>, V>, k: Seq<char>, v1: V, v2: V)
    ensures
        m.insert(k, v1).insert(k, v2).contains_key(k),
        m.insert(k, v1).insert(k, v2)[k] == v2,
{
}

} // verus!
