use vstd::prelude::*;
use crate::context::IdContext;
use crate::id::{AtomicId, Id};
use vstd::std_specs::cmp::{PartialEqSpec, PartialOrdSpec};
use crate::id_map::{entries_map, lists_dom, max_raw_id, IdMap};

verus! {

/// Identifiers from one context never repeat: along a run of `next_id`
/// calls on one context, where `contexts[i]` is the context before the
/// `i`-th call and `ids[i]` what it handed out (so, by `next_id`'s contract,
/// `ids[i]` is the counter of `contexts[i]`, and `contexts[i + 1]`'s counter
/// is one higher), the `i`-th identifier is the starting counter plus `i`,
/// later identifiers compare greater, no two are equal, each was not issued
/// before its call and stays issued afterwards.
pub proof fn law_next_ids_distinct<F>(contexts: Seq<IdContext<F>>, ids: Seq<Id<F>>)
    requires
        contexts.len() == ids.len() + 1,
        forall|i: int| 0 <= i < ids.len() ==> #[trigger] ids[i]@ == contexts[i]@,
        forall|i: int| 0 <= i < ids.len() ==> #[trigger] contexts[i + 1]@ == contexts[i]@ + 1,
    ensures
        forall|i: int| 0 <= i < ids.len() ==> #[trigger] ids[i]@ == contexts[0]@ + i,
        forall|i: int, j: int| 0 <= i < j < ids.len() ==> ids[i]@ < ids[j]@ && ids[i] != ids[j],
        forall|i: int| 0 <= i < ids.len() ==> !contexts[i].issued().contains(#[trigger] ids[i]@),
        forall|i: int, j: int|
            0 <= i < j < contexts.len() ==> #[trigger] contexts[j].issued().contains(ids[i]@),
{
    assert forall|i: int| 0 <= i < contexts.len() implies #[trigger] contexts[i]@ == contexts[0]@ + i by {
        lemma_counter_steps(contexts, ids, i);
    }
    assert forall|i: int, j: int| 0 <= i < j < ids.len() implies ids[i]@ < ids[j]@ && ids[i]
        != ids[j] by {
        assert(contexts[i]@ == contexts[0]@ + i);
        assert(contexts[j]@ == contexts[0]@ + j);
    }
    assert forall|i: int, j: int| 0 <= i < j < contexts.len() implies #[trigger] contexts[j].issued().contains(
        ids[i]@,
    ) by {
        assert(contexts[i]@ == contexts[0]@ + i);
        assert(contexts[j]@ == contexts[0]@ + j);
    }
}

proof fn lemma_counter_steps<F>(contexts: Seq<IdContext<F>>, ids: Seq<Id<F>>, i: int)
    requires
        contexts.len() == ids.len() + 1,
        forall|i: int| 0 <= i < ids.len() ==> #[trigger] contexts[i + 1]@ == contexts[i]@ + 1,
        0 <= i < contexts.len(),
    ensures
        contexts[i]@ == contexts[0]@ + i,
    decreases i,
{
    if i > 0 {
        lemma_counter_steps(contexts, ids, i - 1);
        assert(contexts[(i - 1) + 1]@ == contexts[i - 1]@ + 1);
    }
}

/// `after` is what `insert_new` makes of `before` when it hands out `id`
/// (as its contract states): `id` is the old counter, the counter moves up
/// by one, and the table gains an entry under `id`.
pub open spec fn insert_new_step<T, S>(before: IdMap<T, S>, after: IdMap<T, S>, id: u64) -> bool {
    &&& id == before.counter()
    &&& after.counter() == before.counter() + 1
    &&& after@ == before@.insert(id, after@[id])
}

/// `after` is what one of the other operations but `insert` makes of
/// `before` (as their contracts state): either the counter stays and no
/// identifier is added (`remove`, `get_mut`, `iter_mut`, `values_mut`,
/// `retain`, `reserve`, `shrink_to_fit`), or the map is emptied and its
/// context reset (`clear`, `drain`).
pub open spec fn keying_step<T, S>(before: IdMap<T, S>, after: IdMap<T, S>) -> bool {
    ||| after.counter() == before.counter() && forall|k: u64| #[trigger]
        after@.contains_key(k) ==> before@.contains_key(k)
    ||| after@ == Map::<u64, T>::empty() && after.counter() == 0
}

/// `insert_new` never overwrites an entry in a map whose stored identifiers
/// all lie below its counter (every constructor, `clone` of such a map and
/// `from_entries` make one) and that is then changed only by `insert_new`
/// and the other operations but `insert`: along such a run, where
/// `handed_out[i]` is the identifier the `i`-th step's `insert_new` handed
/// out (none for another operation), each handed-out identifier was not in
/// the map before, and every map of the run keeps its identifiers below its
/// counter.
pub proof fn law_insert_new_never_overwrites<T, S>(
    maps: Seq<IdMap<T, S>>,
    handed_out: Seq<Option<u64>>,
)
    requires
        maps.len() == handed_out.len() + 1,
        maps[0].ids_below_counter(),
        forall|i: int|
            0 <= i < handed_out.len() ==> match #[trigger] handed_out[i] {
                Some(id) => insert_new_step(maps[i], maps[i + 1], id),
                None => keying_step(maps[i], maps[i + 1]),
            },
    ensures
        forall|i: int| 0 <= i < maps.len() ==> (#[trigger] maps[i]).ids_below_counter(),
        forall|i: int|
            0 <= i < handed_out.len() ==> (#[trigger] handed_out[i] matches Some(id) ==> !maps[i]@.contains_key(id)),
{
    assert forall|i: int| 0 <= i < maps.len() implies (#[trigger] maps[i]).ids_below_counter() by {
        lemma_run_keeps_ids_below_counter(maps, handed_out, i);
    }
    assert forall|i: int| 0 <= i < handed_out.len() implies (#[trigger] handed_out[i] matches Some(
        id,
    ) ==> !maps[i]@.contains_key(id)) by {
        assert(maps[i].ids_below_counter());
    }
}

proof fn lemma_run_keeps_ids_below_counter<T, S>(
    maps: Seq<IdMap<T, S>>,
    handed_out: Seq<Option<u64>>,
    i: int,
)
    requires
        maps.len() == handed_out.len() + 1,
        maps[0].ids_below_counter(),
        forall|i: int|
            0 <= i < handed_out.len() ==> match #[trigger] handed_out[i] {
                Some(id) => insert_new_step(maps[i], maps[i + 1], id),
                None => keying_step(maps[i], maps[i + 1]),
            },
        0 <= i < maps.len(),
    ensures
        maps[i].ids_below_counter(),
    decreases i,
{
    if i > 0 {
        lemma_run_keeps_ids_below_counter(maps, handed_out, i - 1);
        let before = maps[i - 1];
        let after = maps[i];
        assert(maps[(i - 1) + 1] == after);
        match handed_out[i - 1] {
            Some(id) => {
                assert forall|k: u64| #[trigger] after@.contains_key(k) implies k < after.counter() by {
                    if k != id {
                        assert(before@.contains_key(k));
                    }
                }
            },
            None => {
                assert forall|k: u64| #[trigger] after@.contains_key(k) implies k < after.counter() by {
                    if after.counter() == before.counter() {
                        assert(before@.contains_key(k));
                    }
                }
            },
        }
    }
}

/// A read gives back the last write: once a map has taken `insert(id, v)`
/// (or `insert_new(v)` handing out `id`), `get(id)` finds `v`, and every
/// other identifier reads as it did before.
pub proof fn law_read_after_write<T, S>(before: &IdMap<T, S>, after: &IdMap<T, S>, id: u64, v: T, other: u64)
    requires
        after@ == before@.insert(id, v),
    ensures
        after@.contains_key(id),
        after@[id] == v,
        other != id ==> after@.get(other) == before@.get(other),
{
}

/// An operation that keeps the counter and adds no identifier (`remove`,
/// `get_mut`, `iter_mut`, `values_mut`, `retain`, `reserve`,
/// `shrink_to_fit`) keeps every stored identifier below the counter, so
/// `insert_new` goes on handing out identifiers that are not in the map.
pub proof fn law_fresh_ids_kept<T, S>(before: &IdMap<T, S>, after: &IdMap<T, S>)
    requires
        before.ids_below_counter(),
        after.counter() == before.counter(),
        forall|k: u64| #[trigger] after@.contains_key(k) ==> before@.contains_key(k),
    ensures
        after.ids_below_counter(),
{
}

/// Removing an identifier undoes inserting it when it was absent before:
/// `insert(id, v)` followed by `remove(id)` leaves the table as it was.
pub proof fn law_remove_undoes_insert<T>(table: Map<u64, T>, id: u64, v: T)
    requires
        !table.contains_key(id),
    ensures
        table.insert(id, v).remove(id) == table,
{
    assert(table.insert(id, v).remove(id) =~= table);
}

/// A listing of a table's identifiers (what `ids`, `iter`, `values` and
/// `drain` hand back) has exactly as many items as the table has entries.
pub proof fn law_listing_has_len<V>(table: Map<u64, V>, keys: Seq<u64>)
    requires
        lists_dom(table, keys),
    ensures
        keys.len() == table.len(),
{
    keys.unique_seq_to_set();
}

/// A map is empty exactly when its length is zero: `is_empty` and
/// `len() == 0` agree, whatever the hash builder.
pub proof fn law_is_empty_iff_len_zero<T, S>(m: &IdMap<T, S>)
    ensures
        (m@ == Map::<u64, T>::empty()) <==> (m@.len() == 0),
{
    m.lemma_view_finite();
    if m@.len() == 0 {
        m@.dom().lemma_len0_is_empty();
        assert(m@ =~= Map::<u64, T>::empty());
    }
}

/// Identifiers are equal exactly when their raw values are: `==` on `Id`
/// (and on `AtomicId`) is equality of raw values, so it is reflexive,
/// symmetric and transitive, and two identifiers handed out by one context
/// at different calls are never equal.
pub proof fn law_id_eq_is_raw_eq<F>(a: Id<F>, b: Id<F>, x: AtomicId<F>, y: AtomicId<F>)
    ensures
        a.eq_spec(&b) <==> a@ == b@,
        a.eq_spec(&a),
        a.eq_spec(&b) == b.eq_spec(&a),
        x.eq_spec(&y) <==> x@ == y@,
        x.eq_spec(&x),
{
}

/// Identifiers are ordered by their raw values: `partial_cmp` (and so `<`,
/// `<=`, `>`, `>=`) answers `Less`, `Equal` or `Greater` exactly as the first
/// raw value is below, equal to or above the second; it always answers,
/// agrees with `==`, and reverses when its arguments are swapped.
pub proof fn law_id_order_is_numeric<F>(a: Id<F>, b: Id<F>, x: AtomicId<F>, y: AtomicId<F>)
    ensures
        a.partial_cmp_spec(&b) == Some(std::cmp::Ordering::Less) <==> a@ < b@,
        a.partial_cmp_spec(&b) == Some(std::cmp::Ordering::Equal) <==> a@ == b@,
        a.partial_cmp_spec(&b) == Some(std::cmp::Ordering::Greater) <==> a@ > b@,
        a.partial_cmp_spec(&b) is Some,
        a.partial_cmp_spec(&b) == Some(std::cmp::Ordering::Equal) <==> a.eq_spec(&b),
        a.partial_cmp_spec(&b) == Some(std::cmp::Ordering::Less) <==> b.partial_cmp_spec(&a)
            == Some(std::cmp::Ordering::Greater),
        x.partial_cmp_spec(&y) == Some(std::cmp::Ordering::Less) <==> x@ < y@,
        x.partial_cmp_spec(&y) == Some(std::cmp::Ordering::Equal) <==> x@ == y@,
        x.partial_cmp_spec(&y) == Some(std::cmp::Ordering::Greater) <==> x@ > y@,
{
}

/// Storing entries one after another keeps every one of their identifiers,
/// each holding the value of the last entry with that identifier, and adds
/// no other identifier: what `from_entries` rebuilds from a serialized map.
pub proof fn law_entries_map_rebuilds<T>(entries: Seq<(Id<T>, T)>)
    ensures
        forall|i: int|
            0 <= i < entries.len() ==> #[trigger] entries_map(entries).contains_key(entries[i].0@),
        forall|i: int|
            0 <= i < entries.len() && (forall|j: int|
                i < j < entries.len() ==> entries[j].0@ != entries[i].0@) ==> entries_map(
                entries,
            )[entries[i].0@] == (#[trigger] entries[i]).1,
        forall|k: u64|
            #[trigger] entries_map(entries).contains_key(k) ==> exists|i: int|
                0 <= i < entries.len() && (#[trigger] entries[i]).0@ == k,
    decreases entries.len(),
{
    if entries.len() > 0 {
        let rest = entries.drop_last();
        let n = entries.len() - 1;
        law_entries_map_rebuilds(rest);
        assert(entries.last() == entries[n]);
        assert(entries_map(entries) == entries_map(rest).insert(entries[n].0@, entries[n].1));
        assert forall|i: int| 0 <= i < entries.len() implies #[trigger] entries_map(
            entries,
        ).contains_key(entries[i].0@) by {
            if i < n {
                assert(rest[i] == entries[i]);
            }
        }
        assert forall|i: int|
            0 <= i < entries.len() && (forall|j: int|
                i < j < entries.len() ==> entries[j].0@ != entries[i].0@) implies entries_map(
            entries,
        )[entries[i].0@] == (#[trigger] entries[i]).1 by {
            if i < n {
                assert(rest[i] == entries[i]);
                assert(entries[n].0@ != entries[i].0@);
                assert forall|j: int| i < j < rest.len() implies rest[j].0@ != rest[i].0@ by {
                    assert(rest[j] == entries[j]);
                }
            }
        }
        assert forall|k: u64| #[trigger] entries_map(entries).contains_key(k) implies exists|i: int|
            0 <= i < entries.len() && (#[trigger] entries[i]).0@ == k by {
            if k != entries[n].0@ {
                assert(entries_map(rest).contains_key(k));
                let i = choose|i: int| 0 <= i < rest.len() && (#[trigger] rest[i]).0@ == k;
                assert(entries[i] == rest[i]);
            }
        }
    }
}

/// The largest raw identifier among entries is at least every one of them
/// and is one of them (zero when there is none), so `from_entries` sets the
/// counter one past the largest identifier.
pub proof fn law_max_raw_id_is_largest<T>(entries: Seq<(Id<T>, T)>)
    ensures
        forall|i: int| 0 <= i < entries.len() ==> (#[trigger] entries[i]).0@ <= max_raw_id(entries),
        entries.len() == 0 ==> max_raw_id(entries) == 0,
        entries.len() > 0 ==> exists|i: int|
            0 <= i < entries.len() && max_raw_id(entries) == (#[trigger] entries[i]).0@,
    decreases entries.len(),
{
    if entries.len() > 0 {
        let rest = entries.drop_last();
        let n = entries.len() - 1;
        law_max_raw_id_is_largest(rest);
        assert forall|i: int| 0 <= i < entries.len() implies (#[trigger] entries[i]).0@ <= max_raw_id(
            entries,
        ) by {
            if i < n {
                assert(rest[i] == entries[i]);
            }
        }
        assert(entries.last() == entries[n]);
        if max_raw_id(entries) == entries[n].0@ {
            assert(0 <= n < entries.len() && max_raw_id(entries) == entries[n].0@);
        } else if rest.len() > 0 {
            let i = choose|i: int| 0 <= i < rest.len() && max_raw_id(rest) == (#[trigger] rest[i]).0@;
            assert(entries[i] == rest[i]);
        } else {
            assert(entries[n].0@ >= 0);
        }
    }
}

} // verus!
