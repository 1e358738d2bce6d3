//! Typed, unforgeable-by-accident identifiers and a hash map keyed by them.
//!
//! An [`IdContext`] hands out [`Id`]s by counting up from zero; the type
//! parameter `F` is a "family" that keeps identifiers of unrelated contexts
//! from being mixed up. [`IdMap`] pairs a context with a hash map so that
//! inserting a value yields a fresh identifier for it.

mod atomic_context;
mod context;
mod id;
mod id_map;
mod std_hash_map;
pub mod laws;

pub use atomic_context::AtomicIdContext;
pub use context::IdContext;
pub use id::{AtomicId, Id};
pub use id_map::{entries_map, entry_ids, lists_dom, max_raw_id, raw_ids, IdMap};
