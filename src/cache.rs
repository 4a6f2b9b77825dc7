//! A never-evicting cache of render resources, keyed by the resource's path
//! and its size or variant. A resource is made on the first request for its
//! key and handed out again on every later one.
use vstd::prelude::*;

verus! {

/// The key of a cached resource: where it comes from, and its size or variant.
#[derive(Debug)]
pub struct ResourceKey {
    pub path: String,
    pub size: i32,
}

impl View for ResourceKey {
    type V = (Seq<char>, i32);

    open spec fn view(&self) -> (Seq<char>, i32) {
        (self.path@, self.size)
    }
}

impl ResourceKey {
    pub fn new(path: &str, size: i32) -> (r: ResourceKey)
        ensures
            r@ == (path@, size),
    {
        ResourceKey { path: path.to_owned(), size }
    }

    /// Exact equality over path and size.
    pub fn same_as(&self, other: &ResourceKey) -> (r: bool)
        ensures
            r == (self@ == other@),
    {
        self.size == other.size && self.path == other.path
    }
}

/// What a list of entries maps each key to; a later entry for a key shadows
/// an earlier one.
pub open spec fn entries_map<V>(entries: Seq<(ResourceKey, V)>) -> Map<(Seq<char>, i32), V>
    decreases entries.len(),
{
    if entries.len() == 0 {
        Map::empty()
    } else {
        entries_map(entries.drop_last()).insert(entries.last().0@, entries.last().1)
    }
}

/// The cache's contents and the handle handed out, for a request of `key`
/// when the factory, if it is asked, gives `made`. On a hit the stored
/// handle comes back and nothing changes; on a miss a made handle is stored
/// under `key` and handed out, and a failure stores nothing.
pub open spec fn lookup_or_insert<V>(m: Map<(Seq<char>, i32), V>, key: (Seq<char>, i32), made: Option<V>) -> (
    Map<(Seq<char>, i32), V>,
    Option<V>,
) {
    if m.contains_key(key) {
        (m, Some(m[key]))
    } else {
        match made {
            Some(v) => (m.insert(key, v), Some(v)),
            None => (m, None),
        }
    }
}

/// The value behind a handed-out reference, if any.
pub open spec fn deref_handle<V>(r: Option<&V>) -> Option<V> {
    match r {
        Some(v) => Some(*v),
        None => None,
    }
}

/// Past the last entry for `key`, no entry changes what `key` maps to.
proof fn lemma_map_ignores_later<V>(entries: Seq<(ResourceKey, V)>, i: int, key: (Seq<char>, i32))
    requires
        0 <= i <= entries.len(),
        forall|j: int| i <= j < entries.len() ==> entries[j].0@ != key,
    ensures
        entries_map(entries).contains_key(key) == entries_map(entries.take(i)).contains_key(key),
        entries_map(entries).contains_key(key) ==> entries_map(entries)[key] == entries_map(entries.take(i))[key],
    decreases entries.len(),
{
    if entries.len() > i {
        let p = entries.drop_last();
        assert(p.take(i) =~= entries.take(i));
        lemma_map_ignores_later(p, i, key);
    } else {
        assert(entries.take(i) =~= entries);
    }
}

/// A cache of resources of type `V`; entries live as long as the cache.
pub struct ResourceCache<V> {
    entries: Vec<(ResourceKey, V)>,
}

impl<V> View for ResourceCache<V> {
    type V = Map<(Seq<char>, i32), V>;

    closed spec fn view(&self) -> Map<(Seq<char>, i32), V> {
        entries_map(self.entries@)
    }
}

impl<V> ResourceCache<V> {
    /// An empty cache.
    pub fn new() -> (r: ResourceCache<V>)
        ensures
            r@ == Map::<(Seq<char>, i32), V>::empty(),
    {
        ResourceCache { entries: Vec::new() }
    }

    /// The position of the entry that the cache's contents take for `key`.
    fn find(&self, key: &ResourceKey) -> (r: Option<usize>)
        ensures
            match r {
                Some(i) => i < self.entries@.len() && self@.contains_key(key@) && self@[key@] == self.entries@[i as int].1,
                None => !self@.contains_key(key@),
            },
    {
        let mut i: usize = self.entries.len();
        while i > 0
            invariant
                i <= self.entries@.len(),
                forall|j: int| i <= j < self.entries@.len() ==> self.entries@[j].0@ != key@,
            decreases i,
        {
            if self.entries[i - 1].0.same_as(key) {
                proof {
                    lemma_map_ignores_later(self.entries@, i as int, key@);
                    assert(self.entries@.take(i as int).drop_last() =~= self.entries@.take(i - 1));
                }
                return Some(i - 1);
            }
            i = i - 1;
        }
        proof {
            lemma_map_ignores_later(self.entries@, 0, key@);
        }
        None
    }

    /// The resource stored under `key`, made by `factory` on the first
    /// request. On a hit `factory` is not called and the cache is left as it
    /// is. On a miss `factory` is called once: what it makes is stored and
    /// handed out; when it fails, nothing is stored and `None` comes back.
    pub fn get_or_create<F: FnOnce() -> Option<V>>(&mut self, key: ResourceKey, factory: F) -> (r: Option<&V>)
        requires
            factory.requires(()),
        ensures
            old(self)@.contains_key(key@) ==> (final(self)@, deref_handle(r)) == lookup_or_insert(
                old(self)@,
                key@,
                None,
            ),
            !old(self)@.contains_key(key@) ==> exists|made: Option<V>|
                factory.ensures((), made) && (final(self)@, deref_handle(r)) == lookup_or_insert(
                    old(self)@,
                    key@,
                    made,
                ),
    {
        match self.find(&key) {
            Some(i) => Some(&self.entries[i].1),
            None => {
                let made = factory();
                let ghost made_g = made;
                assert(factory.ensures((), made_g));
                match made {
                    Some(v) => {
                        let ghost k = key@;
                        self.entries.push((key, v));
                        let n = self.entries.len() - 1;
                        proof {
                            assert(self.entries@.drop_last() =~= old(self).entries@);
                            assert(self@ == old(self)@.insert(k, made_g->0));
                        }
                        let r = Some(&self.entries[n].1);
                        assert((self@, deref_handle(r)) == lookup_or_insert(old(self)@, k, made_g));
                        r
                    },
                    None => {
                        assert((self@, deref_handle(None::<&V>)) == lookup_or_insert(old(self)@, key@, made_g));
                        None
                    },
                }
            },
        }
    }
}

/// Asking twice for one key makes at most one resource: once the first
/// request has handed out a resource, the second is a hit that hands out the
/// same resource and leaves the cache as it is, whatever its factory would
/// have made.
pub proof fn lemma_cache_identity<V>(
    m: Map<(Seq<char>, i32), V>,
    key: (Seq<char>, i32),
    first: Option<V>,
    second: Option<V>,
)
    ensures
        lookup_or_insert(m, key, first).1 is Some ==> lookup_or_insert(
            lookup_or_insert(m, key, first).0,
            key,
            second,
        ) == lookup_or_insert(m, key, first),
{
}

/// Keys that differ in size never collide: a request for one size leaves
/// what the cache holds for any other size of the same path as it was.
pub proof fn lemma_cache_isolation<V>(
    m: Map<(Seq<char>, i32), V>,
    path: Seq<char>,
    size: i32,
    other_size: i32,
    made: Option<V>,
)
    requires
        size != other_size,
    ensures
        lookup_or_insert(m, (path, other_size), made).0.contains_key((path, size)) == m.contains_key(
            (path, size),
        ),
        m.contains_key((path, size)) ==> lookup_or_insert(m, (path, other_size), made).0[(path, size)] == m[(
        path,
        size,
        )],
{
}

} // verus!
