# id_context

Typed identifiers, the contexts that hand them out, and a hash map keyed by
them, each with a proved contract.

- `src/id.rs`: `Id<F>` and `AtomicId<F>`; equality and order by raw value.
- `src/context.rs`: `IdContext<F>`, a counter; `next_id` hands out each
  value once.
- `src/atomic_context.rs`: `AtomicIdContext<F>`, the same counter in an
  atomic cell shared between threads.
- `src/id_map.rs`: `IdMap<T, S>`, a `std::collections::HashMap` keyed by raw
  identifiers together with an `IdContext<T>`; its model is a `Map<u64, T>`
  and the context's counter.
- `src/std_hash_map.rs`: the `HashMap` methods vstd does not specify, each
  behind one function whose contract repeats std's documentation.
- `src/laws.rs`: properties relating several operations, proved.
- `app/`: serde support (`SerdeId`, `SerdeIdMap`) around the library.
