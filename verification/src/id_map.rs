use std::collections::hash_map::{Entry, RandomState};
use std::collections::HashMap;
use std::hash::BuildHasher;
use vstd::prelude::*;
use vstd::std_specs::hash::builds_valid_hashers;
use vstd::std_specs::iter::IteratorSpec;
use crate::context::IdContext;
use crate::id::Id;
use crate::laws::law_listing_has_len;
use crate::std_hash_map::{
    hash_map_capacity, hash_map_hasher, hash_map_iter_mut, hash_map_shrink_to_fit,
    hash_map_values_mut, hash_map_with_capacity_and_hasher, hash_map_with_hasher,
};

verus! {

broadcast use {vstd::std_specs::hash::group_hash_axioms, vstd::function::group_function_axioms};

/// A hashmap with `Id<T>`s as opaque keys.
///
/// The map owns an [`IdContext`] of the family `T`, so [`IdMap::insert_new`]
/// can hand out a fresh identifier for each value it stores.
///
/// Its model is a finite `Map<u64, T>` (its view), keyed by the raw values
/// of the identifiers, together with the counter of its context
/// ([`IdMap::counter`]). The contracts of the methods that consult the hash
/// table assume that the hash builder `S` builds deterministic hashers, as
/// `std::hash::BuildHasher` requires of its implementations; `RandomState`,
/// the default, does.
#[derive(Debug)]
#[verifier::reject_recursive_types(S)]
pub struct IdMap<T, S = RandomState> {
    context: IdContext<T>,
    map: HashMap<u64, T, S>,
}

/// The raw values of a sequence of identifiers.
pub open spec fn raw_ids<T>(ids: Seq<Id<T>>) -> Seq<u64> {
    ids.map_values(|id: Id<T>| id@)
}

/// `keys` names every key of `m`, each exactly once, in some order.
pub open spec fn lists_dom<V>(m: Map<u64, V>, keys: Seq<u64>) -> bool {
    &&& keys.no_duplicates()
    &&& keys.to_set() == m.dom()
}

/// The raw identifiers of a sequence of entries.
pub open spec fn entry_ids<T, R>(entries: Seq<(Id<T>, R)>) -> Seq<u64> {
    entries.map_values(|e: (Id<T>, R)| e.0@)
}

/// What a table's entry iterator yields (each entry once, with the value
/// the table holds under its key) lists the table's domain.
proof fn lemma_entries_list_dom<V>(m: Map<u64, V>, pairs: Seq<(&u64, &V)>)
    requires
        pairs.no_duplicates(),
        forall|i: int|
            0 <= i < pairs.len() ==> m.contains_key(*pairs[i].0) && m[*pairs[i].0] == *pairs[i].1,
        forall|k: u64| #[trigger] m.contains_key(k) ==> pairs.contains((&k, &m[k])),
    ensures
        lists_dom(m, pairs.map_values(|p: (&u64, &V)| *p.0)),
{
    let keys = pairs.map_values(|p: (&u64, &V)| *p.0);
    assert forall|i: int, j: int| 0 <= i < keys.len() && 0 <= j < keys.len() && i != j implies keys[i]
        != keys[j] by {
        if keys[i] == keys[j] {
            assert(pairs[i] == pairs[j]);
        }
    }
    assert forall|k: u64| #[trigger] m.contains_key(k) implies keys.to_set().contains(k) by {
        let i = choose|i: int| 0 <= i < pairs.len() && pairs[i] == (&k, &m[k]);
        assert(keys[i] == k);
    }
    assert(keys.to_set() =~= m.dom());
}

/// The table that storing `entries` one after another builds: a later entry
/// under an identifier replaces an earlier one.
pub open spec fn entries_map<T>(entries: Seq<(Id<T>, T)>) -> Map<u64, T>
    decreases entries.len(),
{
    if entries.len() == 0 {
        Map::empty()
    } else {
        let last = entries.last();
        entries_map(entries.drop_last()).insert(last.0@, last.1)
    }
}

/// The largest raw identifier among `entries`, or zero when there is none.
pub open spec fn max_raw_id<T>(entries: Seq<(Id<T>, T)>) -> u64
    decreases entries.len(),
{
    if entries.len() == 0 {
        0
    } else {
        let rest = max_raw_id(entries.drop_last());
        if entries.last().0@ > rest {
            entries.last().0@
        } else {
            rest
        }
    }
}

impl<T, S> View for IdMap<T, S> {
    type V = Map<u64, T>;

    closed spec fn view(&self) -> Map<u64, T> {
        self.map@
    }
}

impl<T, S> IdMap<T, S> {
    /// A map holds finitely many entries, whatever its hash builder: its
    /// keys are what the table's key iterator lists.
    pub proof fn lemma_view_finite(&self)
        ensures
            self@.dom().finite(),
    {
        let keys = vstd::std_specs::hash::spec_keys_iter(&self.map).remaining().unref();
        assert(keys.to_set() == self.map@.dom());
        vstd::seq_lib::seq_to_set_is_finite(keys);
    }

    /// The counter of the map's context: the raw value of the identifier
    /// that the next [`IdMap::insert_new`] hands out.
    pub closed spec fn counter(&self) -> u64 {
        self.context@
    }

    /// Every stored identifier lies below the counter, so the next
    /// identifier [`IdMap::insert_new`] hands out is not in the map yet.
    /// Fresh maps, [`IdMap::from_entries`], [`IdMap::insert_new`],
    /// [`IdMap::clear`] and [`IdMap::drain`] leave it holding; operations
    /// that keep the counter and add no identifier keep it
    /// ([`law_fresh_ids_kept`](crate::laws::law_fresh_ids_kept)).
    pub open spec fn ids_below_counter(&self) -> bool {
        forall|k: u64| #[trigger] self@.contains_key(k) ==> k < self.counter()
    }
}

impl<T> IdMap<T, RandomState> {

    /// An empty map with a fresh context, using the default hasher.
    pub fn new() -> (r: IdMap<T, RandomState>)
        ensures
            r@ == Map::<u64, T>::empty(),
            r.counter() == 0,
    {
        IdMap::from_map_raw(HashMap::new())
    }

    /// An empty map with a fresh context and room for at least `capacity`
    /// entries, using the default hasher.
    pub fn with_capacity(capacity: usize) -> (r: IdMap<T, RandomState>)
        ensures
            r@ == Map::<u64, T>::empty(),
            r.counter() == 0,
    {
        IdMap::from_map_raw(HashMap::with_capacity(capacity))
    }
}

impl<T, S> IdMap<T, S> {
    /// Pairs a fresh context with an existing table.
    fn from_map_raw(map: HashMap<u64, T, S>) -> (r: IdMap<T, S>)
        ensures
            r@ == map@,
            r.counter() == 0,
    {
        IdMap { context: IdContext::new(), map }
    }

    /// An empty map with a fresh context, using the given hash builder.
    pub fn with_hasher(hash_builder: S) -> (r: IdMap<T, S>)
        ensures
            r@ == Map::<u64, T>::empty(),
            r.counter() == 0,
    {
        let map = hash_map_with_hasher(hash_builder);
        assert(map@ =~= Map::<u64, T>::empty());
        IdMap::from_map_raw(map)
    }

    /// An empty map with a fresh context and room for at least `capacity`
    /// entries, using the given hash builder.
    pub fn with_capacity_and_hasher(capacity: usize, hash_builder: S) -> (r: IdMap<T, S>)
        ensures
            r@ == Map::<u64, T>::empty(),
            r.counter() == 0,
    {
        let map = hash_map_with_capacity_and_hasher(capacity, hash_builder);
        assert(map@ =~= Map::<u64, T>::empty());
        IdMap::from_map_raw(map)
    }

    /// The number of entries the map can hold without reallocating; at least
    /// the number it holds.
    pub fn capacity(&self) -> (c: usize)
        ensures
            c >= self@.len(),
    {
        hash_map_capacity(&self.map)
    }

    /// The number of entries.
    pub fn len(&self) -> (n: usize)
        requires
            builds_valid_hashers::<S>(),
        ensures
            n == self@.len(),
            self@.dom().finite(),
    {
        proof {
            self.lemma_view_finite();
        }
        self.map.len()
    }

    /// Whether the map holds no entry.
    pub fn is_empty(&self) -> (b: bool)
        ensures
            b == (self@ == Map::<u64, T>::empty()),
            b == (self@.len() == 0),
            self@.dom().finite(),
    {
        let b = self.map.is_empty();
        assert(b ==> self@ =~= Map::<u64, T>::empty());
        proof {
            self.lemma_view_finite();
            crate::laws::law_is_empty_iff_len_zero(self);
        }
        b
    }

    /// Removes every entry and resets the context, so identifiers are handed
    /// out from zero again.
    pub fn clear(&mut self)
        ensures
            final(self)@ == Map::<u64, T>::empty(),
            final(self).counter() == 0,
    {
        self.context = IdContext::new();
        self.map.clear();
    }

    /// The map's hash builder. The hash builder is opaque here (the table's
    /// model holds only its entries), so no clause says which one it is.
    pub fn hasher(&self) -> &S {
        hash_map_hasher(&self.map)
    }

    /// Every identifier with a value in the map, each once, in the table's
    /// (unspecified) order.
    pub fn ids(&self) -> (r: Vec<Id<T>>)
        requires
            builds_valid_hashers::<S>(),
        ensures
            lists_dom(self@, raw_ids(r@)),
            r@.len() == self@.len(),
    {
        let keys = self.map.keys();
        let ghost all = keys.remaining();
        let mut r: Vec<Id<T>> = Vec::new();
        for k in it: keys
            invariant
                it.seq() == all,
                r@.len() == it.index(),
                forall|i: int| 0 <= i < it.index() ==> #[trigger] r@[i]@ == *all[i],
        {
            r.push(Id::from_raw(*k));
        }
        assert(raw_ids(r@) =~= all.unref());
        proof {
            law_listing_has_len(self@, raw_ids(r@));
        }
        r
    }

    /// Every entry of the map, each once, in the table's (unspecified) order:
    /// an identifier with a reference to the value stored under it.
    pub fn iter(&self) -> (r: Vec<(Id<T>, &T)>)
        requires
            builds_valid_hashers::<S>(),
        ensures
            lists_dom(self@, entry_ids(r@)),
            r@.len() == self@.len(),
            forall|i: int| 0 <= i < r@.len() ==> *(#[trigger] r@[i]).1 == self@[r@[i].0@],
    {
        let entries = self.map.iter();
        let ghost all = entries.remaining();
        let mut r: Vec<(Id<T>, &T)> = Vec::new();
        for kv in it: entries
            invariant
                it.seq() == all,
                r@.len() == it.index(),
                forall|i: int|
                    0 <= i < it.index() ==> (#[trigger] r@[i]).0@ == *all[i].0 && r@[i].1 == all[i].1,
        {
            let (k, v) = kv;
            r.push((Id::from_raw(*k), v));
        }
        proof {
            lemma_entries_list_dom(self.map@, all);
            assert(entry_ids(r@) =~= all.map_values(|p: (&u64, &T)| *p.0));
            law_listing_has_len(self@, entry_ids(r@));
        }
        r
    }

    /// A reference to every value of the map, each entry once, in the
    /// table's (unspecified) order of its identifiers.
    pub fn values(&self) -> (r: Vec<&T>)
        requires
            builds_valid_hashers::<S>(),
        ensures
            r@.len() == self@.len(),
            exists|keys: Seq<u64>|
                {
                    &&& lists_dom(self@, keys)
                    &&& #[trigger] keys.len() == r@.len()
                    &&& forall|i: int| 0 <= i < r@.len() ==> *r@[i] == self@[keys[i]]
                },
    {
        let entries = self.map.iter();
        let ghost all = entries.remaining();
        let mut r: Vec<&T> = Vec::new();
        for kv in it: entries
            invariant
                it.seq() == all,
                r@.len() == it.index(),
                forall|i: int| 0 <= i < it.index() ==> #[trigger] r@[i] == all[i].1,
        {
            let (_, v) = kv;
            r.push(v);
        }
        proof {
            let keys = all.map_values(|p: (&u64, &T)| *p.0);
            lemma_entries_list_dom(self.map@, all);
            assert(keys.len() == r@.len());
            law_listing_has_len(self@, keys);
        }
        r
    }

    /// Every entry of the map, each once, in the table's (unspecified)
    /// order: an identifier with a mutable reference to the value stored
    /// under it. The map keeps its identifiers and its counter; what is
    /// written through a reference is what it holds under that identifier
    /// afterwards.
    pub fn iter_mut(&mut self) -> (r: Vec<(Id<T>, &mut T)>)
        requires
            builds_valid_hashers::<S>(),
        ensures
            lists_dom(old(self)@, entry_ids(r@)),
            r@.len() == old(self)@.len(),
            forall|i: int| 0 <= i < r@.len() ==> *(#[trigger] r@[i]).1 == old(self)@[r@[i].0@],
            final(self).counter() == old(self).counter(),
            final(self)@.dom() == old(self)@.dom(),
            forall|i: int|
                0 <= i < r@.len() ==> final(self)@[(#[trigger] r@[i]).0@] == *final(r@[i].1),
    {
        let r = hash_map_iter_mut(&mut self.map);
        proof {
            law_listing_has_len(old(self)@, entry_ids(r@));
        }
        r
    }

    /// A mutable reference to every value of the map, each entry once, in
    /// the table's (unspecified) order of its identifiers. The map keeps its
    /// identifiers and its counter; what is written through a reference is
    /// what it holds under that identifier afterwards.
    pub fn values_mut(&mut self) -> (r: Vec<&mut T>)
        requires
            builds_valid_hashers::<S>(),
        ensures
            final(self).counter() == old(self).counter(),
            final(self)@.dom() == old(self)@.dom(),
            r@.len() == old(self)@.len(),
            exists|keys: Seq<u64>|
                {
                    &&& lists_dom(old(self)@, keys)
                    &&& #[trigger] keys.len() == r@.len()
                    &&& forall|i: int| 0 <= i < r@.len() ==> *r@[i] == old(self)@[keys[i]]
                    &&& forall|i: int| 0 <= i < r@.len() ==> final(self)@[keys[i]] == *final(r@[i])
                },
    {
        let r = hash_map_values_mut(&mut self.map);
        proof {
            let keys = choose|keys: Seq<u64>|
                lists_dom(old(self)@, keys) && #[trigger] keys.len() == r@.len();
            law_listing_has_len(old(self)@, keys);
        }
        r
    }
}

impl<T, S: BuildHasher> IdMap<T, S> {
    /// Reserves room for at least `additional` more entries; the entries and
    /// the counter stay as they are. The capacity is what the allocator gave
    /// and is not part of the model, so no clause speaks of it.
    pub fn reserve(&mut self, additional: usize)
        ensures
            final(self)@ == old(self)@,
            final(self).counter() == old(self).counter(),
    {
        self.map.reserve(additional);
    }

    /// Shrinks the capacity as much as possible; the entries and the counter
    /// stay as they are. The capacity is what the allocator gave and is not
    /// part of the model, so no clause speaks of it.
    pub fn shrink_to_fit(&mut self)
        ensures
            final(self)@ == old(self)@,
            final(self).counter() == old(self).counter(),
    {
        hash_map_shrink_to_fit(&mut self.map);
    }

    /// The value stored under `id`, if any.
    pub fn get(&self, id: Id<T>) -> (r: Option<&T>)
        requires
            builds_valid_hashers::<S>(),
        ensures
            match r {
                Some(v) => self@.contains_key(id@) && *v == self@[id@],
                None => !self@.contains_key(id@),
            },
    {
        self.map.get(&id.raw())
    }

    /// Whether a value is stored under `id`.
    pub fn contains_id(&self, id: Id<T>) -> (b: bool)
        requires
            builds_valid_hashers::<S>(),
        ensures
            b == self@.contains_key(id@),
    {
        self.map.contains_key(&id.raw())
    }

    /// A mutable reference to the value stored under `id`, if any. Whatever
    /// is written through it is what the map holds under `id` afterwards.
    pub fn get_mut(&mut self, id: Id<T>) -> (r: Option<&mut T>)
        requires
            builds_valid_hashers::<S>(),
        ensures
            final(self).counter() == old(self).counter(),
            match r {
                Some(v) => {
                    &&& old(self)@.contains_key(id@)
                    &&& *v == old(self)@[id@]
                    &&& final(self)@ == old(self)@.insert(id@, *final(v))
                },
                None => !old(self)@.contains_key(id@) && final(self)@ == old(self)@,
            },
    {
        match self.map.entry(id.raw()) {
            Entry::Occupied(e) => Some(e.into_mut()),
            Entry::Vacant(_) => None,
        }
    }

    /// Removes every entry and returns the values, each once, in the
    /// table's (unspecified) order of their identifiers; the context is
    /// reset, so identifiers are handed out from zero again.
    pub fn drain(&mut self) -> (r: Vec<T>)
        requires
            builds_valid_hashers::<S>(),
        ensures
            final(self)@ == Map::<u64, T>::empty(),
            final(self).counter() == 0,
            r@.len() == old(self)@.len(),
            exists|keys: Seq<u64>|
                {
                    &&& lists_dom(old(self)@, keys)
                    &&& #[trigger] keys.len() == r@.len()
                    &&& forall|i: int| 0 <= i < r@.len() ==> r@[i] == old(self)@[keys[i]]
                },
    {
        self.context = IdContext::new();
        let ids = self.ids();
        let ghost keys = raw_ids(ids@);
        let mut r: Vec<T> = Vec::new();
        let mut i: usize = 0;
        while i < ids.len()
            invariant
                builds_valid_hashers::<S>(),
                self.counter() == 0,
                keys == raw_ids(ids@),
                lists_dom(old(self)@, keys),
                0 <= i <= ids.len(),
                r@.len() == i,
                forall|j: int| 0 <= j < i ==> r@[j] == old(self)@[keys[j]],
                forall|k: u64|
                    #[trigger] self@.contains_key(k) <==> old(self)@.contains_key(k)
                        && !keys.take(i as int).contains(k),
                forall|k: u64| #[trigger] self@.contains_key(k) ==> self@[k] == old(self)@[k],
            decreases ids.len() - i,
        {
            let id = ids[i];
            let ghost k = keys[i as int];
            let ghost before = self@;
            proof {
                assert(id@ == k);
                assert(keys.to_set().contains(k));
                if keys.take(i as int).contains(k) {
                    let j = choose|j: int| 0 <= j < i && keys.take(i as int)[j] == k;
                    assert(keys[j] == keys[i as int]);
                }
                assert(self@.contains_key(k));
            }
            let v = self.map.remove(&id.raw());
            match v {
                Some(v) => r.push(v),
                None => {},
            }
            proof {
                assert(self@ == before.remove(k));
                assert(keys.take(i + 1) =~= keys.take(i as int).push(k));
                assert forall|x: u64| #[trigger] self@.contains_key(x) <==> old(self)@.contains_key(x)
                    && !keys.take(i + 1).contains(x) by {
                    broadcast use vstd::seq_lib::group_seq_properties;

                }
            }
            i = i + 1;
        }
        proof {
            assert(keys.take(i as int) =~= keys);
            assert(self@ =~= Map::<u64, T>::empty());
            law_listing_has_len(old(self)@, keys);
        }
        r
    }

    /// Keeps only the entries for which `f` answers `true`.
    ///
    /// `f` is called once for every entry, with its identifier and a mutable
    /// reference to its value; an entry that stays holds what `f` left
    /// behind the reference. The counter is left as it is.
    pub fn retain<F>(&mut self, mut f: F)
        where
            F: FnMut(Id<T>, &mut T) -> bool,
        requires
            builds_valid_hashers::<S>(),
            forall|id: Id<T>, v: &mut T|
                old(self)@.contains_key(id@) && *v == old(self)@[id@] ==> call_requires(f, (id, v)),
        ensures
            final(self).counter() == old(self).counter(),
            forall|k: u64| #[trigger] final(self)@.contains_key(k) ==> old(self)@.contains_key(k),
            forall|k: u64|
                #[trigger] old(self)@.contains_key(k) ==> exists|id: Id<T>, v: &mut T, keep: bool|
                    {
                        &&& id@ == k
                        &&& *v == old(self)@[k]
                        &&& #[trigger] call_ensures(f, (id, v), keep)
                        &&& final(self)@.get(k) == (if keep {
                            Some(*final(v))
                        } else {
                            None
                        })
                    },
    {
        let ids = self.ids();
        let ghost keys = raw_ids(ids@);
        let ghost f0 = f;
        let mut i: usize = 0;
        while i < ids.len()
            invariant
                builds_valid_hashers::<S>(),
                f == f0,
                forall|id: Id<T>, v: &mut T|
                    old(self)@.contains_key(id@) && *v == old(self)@[id@] ==> call_requires(
                        f0,
                        (id, v),
                    ),
                self.counter() == old(self).counter(),
                keys == raw_ids(ids@),
                lists_dom(old(self)@, keys),
                0 <= i <= ids.len(),
                forall|x: u64| #[trigger] self@.contains_key(x) ==> old(self)@.contains_key(x),
                forall|x: u64|
                    #[trigger] old(self)@.contains_key(x) && !keys.take(i as int).contains(x)
                        ==> self@.contains_key(x) && self@[x] == old(self)@[x],
                forall|x: u64|
                    #[trigger] keys.take(i as int).contains(x) ==> exists|id: Id<T>, v: &mut T, keep: bool|
                    {
                        &&& id@ == x
                        &&& *v == old(self)@[x]
                        &&& #[trigger] call_ensures(f0, (id, v), keep)
                        &&& self@.get(x) == (if keep {
                            Some(*final(v))
                        } else {
                            None
                        })
                    },
            decreases ids.len() - i,
        {
            let id = ids[i];
            let ghost k = keys[i as int];
            let ghost before = self@;
            proof {
                assert(id@ == k);
                assert(keys.to_set().contains(k));
                if keys.take(i as int).contains(k) {
                    let j = choose|j: int| 0 <= j < i && keys.take(i as int)[j] == k;
                    assert(keys[j] == keys[i as int]);
                }
                assert(self@.contains_key(k));
            }
            let ghost mut after: Option<T> = None;
            let ghost mut kept = false;
            match self.map.entry(id.raw()) {
                Entry::Occupied(mut e) => {
                    let v = e.get_mut();
                    let ghost start = *v;
                    let keep = f(id, v);
                    proof {
                        after = Some(*v);
                        kept = keep;
                        assert(exists|w: &mut T|
                            call_ensures(f0, (id, w), keep) && *w == start && Some(*final(w)) == after);
                    }
                    if !keep {
                        let _ = e.remove();
                    }
                },
                Entry::Vacant(_) => {},
            }
            proof {
                if kept {
                    assert(self@ == before.insert(k, after.unwrap()));
                } else {
                    assert(self@ == before.remove(k));
                }
                assert(keys.take(i + 1) =~= keys.take(i as int).push(k));
                broadcast use vstd::seq_lib::group_seq_properties;
            }
            i = i + 1;
        }
        proof {
            assert(keys.take(i as int) =~= keys);
        }
    }

    /// Stores `value` under a fresh identifier from the map's context and
    /// returns that identifier.
    ///
    /// The identifier is the counter, which then moves up by one (it must
    /// not be at `u64::MAX`). When every stored identifier lies below the
    /// counter, the new one was not in the map before, and that stays so.
    pub fn insert_new(&mut self, value: T) -> (id: Id<T>)
        requires
            builds_valid_hashers::<S>(),
            old(self).counter() < u64::MAX,
        ensures
            id@ == old(self).counter(),
            final(self).counter() == old(self).counter() + 1,
            final(self)@ == old(self)@.insert(id@, value),
            old(self).ids_below_counter() ==> {
                &&& !old(self)@.contains_key(id@)
                &&& final(self).ids_below_counter()
            },
    {
        let id = self.context.next_id();
        let _ = self.map.insert(id.raw(), value);
        proof {
            if old(self).ids_below_counter() {
                assert forall|k: u64| #[trigger] self@.contains_key(k) implies k < self.counter() by {
                    if k != id@ {
                        assert(old(self)@.contains_key(k));
                    }
                }
            }
        }
        id
    }

    /// Stores `value` under `id`, returning the value stored there before,
    /// if any. The context is left as it is.
    pub fn insert(&mut self, id: Id<T>, value: T) -> (r: Option<T>)
        requires
            builds_valid_hashers::<S>(),
        ensures
            final(self)@ == old(self)@.insert(id@, value),
            final(self).counter() == old(self).counter(),
            match r {
                Some(v) => old(self)@.contains_key(id@) && v == old(self)@[id@],
                None => !old(self)@.contains_key(id@),
            },
    {
        self.map.insert(id.raw(), value)
    }

    /// Removes the value stored under `id` and returns it, if any.
    pub fn remove(&mut self, id: Id<T>) -> (r: Option<T>)
        requires
            builds_valid_hashers::<S>(),
        ensures
            final(self)@ == old(self)@.remove(id@),
            final(self).counter() == old(self).counter(),
            match r {
                Some(v) => old(self)@.contains_key(id@) && v == old(self)@[id@],
                None => !old(self)@.contains_key(id@),
            },
    {
        self.map.remove(&id.raw())
    }
}

impl<T, S: BuildHasher> std::ops::Index<Id<T>> for IdMap<T, S> {
    type Output = T;

    /// The value stored under `id`, which must be present (indexing a map
    /// at an absent identifier is a caller's error).
    fn index(&self, id: Id<T>) -> (r: &T)
        ensures
            *r == self@[id@],
    {
        match self.map.get(&id.raw()) {
            Some(v) => v,
            None => vstd::pervasive::unreached(),
        }
    }
}

impl<T, S: BuildHasher> vstd::std_specs::core::IndexSpecImpl<Id<T>> for IdMap<T, S> {
    /// Indexing is defined where a value is stored under the identifier.
    open spec fn index_req(&self, id: &Id<T>) -> bool {
        builds_valid_hashers::<S>() && self@.contains_key(id@)
    }
}

impl<T: Clone, S: Clone> Clone for IdMap<T, S> {
    /// A copy with the same counter, holding under each identifier of this
    /// map a clone of the value stored there.
    fn clone(&self) -> (r: Self)
        ensures
            r@.dom() == self@.dom(),
            forall|k: u64| #[trigger] r@.contains_key(k) ==> cloned::<T>(self@[k], r@[k]),
            r.counter() == self.counter(),
    {
        IdMap { context: self.context.duplicate(), map: self.map.clone() }
    }
}

impl<T, S: Default> Default for IdMap<T, S> {
    /// An empty map with a fresh context and the default hash builder.
    fn default() -> (r: Self)
        ensures
            r@ == Map::<u64, T>::empty(),
            r.counter() == 0,
    {
        IdMap::from_map_raw(HashMap::default())
    }
}

impl<T, S: BuildHasher + Default> IdMap<T, S> {
    /// Rebuilds a map from its entries, as when it is read back from a
    /// serialized form: the entries are stored one after another (a later
    /// entry under an identifier replaces an earlier one), and the counter
    /// is set one past the largest identifier (one past zero when there is
    /// none), so the map goes on handing out fresh identifiers.
    ///
    /// No identifier may be `u64::MAX`, past which the counter cannot move.
    pub fn from_entries(entries: Vec<(Id<T>, T)>) -> (r: IdMap<T, S>)
        requires
            builds_valid_hashers::<S>(),
            forall|i: int| 0 <= i < entries@.len() ==> (#[trigger] entries@[i]).0@ < u64::MAX,
        ensures
            r@ == entries_map(entries@),
            r.counter() == max_raw_id(entries@) + 1,
            r.ids_below_counter(),
            forall|i: int|
                0 <= i < entries@.len() ==> #[trigger] r@.contains_key(entries@[i].0@),
            forall|i: int|
                0 <= i < entries@.len() && (forall|j: int|
                    i < j < entries@.len() ==> entries@[j].0@ != entries@[i].0@) ==> r@[entries@[i].0@]
                    == (#[trigger] entries@[i]).1,
            forall|k: u64|
                #[trigger] r@.contains_key(k) ==> exists|i: int|
                    0 <= i < entries@.len() && (#[trigger] entries@[i]).0@ == k,
            forall|i: int| 0 <= i < entries@.len() ==> (#[trigger] entries@[i]).0@ < r.counter(),
            entries@.len() == 0 ==> r.counter() == 1,
            entries@.len() > 0 ==> exists|i: int|
                0 <= i < entries@.len() && r.counter() == (#[trigger] entries@[i]).0@ + 1,
    {
        let ghost all = entries@;
        let mut values: HashMap<u64, T, S> = HashMap::default();
        let mut current_id: u64 = 0;
        for e in it: entries.into_iter()
            invariant
                builds_valid_hashers::<S>(),
                it.seq() == all,
                forall|i: int| 0 <= i < all.len() ==> (#[trigger] all[i]).0@ < u64::MAX,
                values@ == entries_map(all.take(it.index())),
                current_id == max_raw_id(all.take(it.index())),
                current_id < u64::MAX,
                forall|k: u64| #[trigger] values@.contains_key(k) ==> k <= current_id,
        {
            let ghost n = it.index();
            proof {
                assert(all.take(n + 1).drop_last() =~= all.take(n));
            }
            let (key, value) = e;
            if key.raw() > current_id {
                current_id = key.raw();
            }
            let _ = values.insert(key.raw(), value);
        }
        proof {
            assert(all.take(all.len() as int) =~= all);
            crate::laws::law_entries_map_rebuilds(all);
            crate::laws::law_max_raw_id_is_largest(all);
        }
        let r = IdMap { context: IdContext::with_current_id(current_id + 1), map: values };
        r
    }
}

} // verus!
