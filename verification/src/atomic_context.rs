use std::marker::PhantomData;
use std::sync::atomic::AtomicU64;
use vstd::prelude::*;
use crate::id::Id;

verus! {

/// An atomic ID context.
///
/// This is just like [`IdContext`](crate::IdContext), but it operates
/// atomically and can be shared between threads: `next_id` takes `&self`.
/// Its counter lives in an atomic cell that other threads may move at any
/// time, so it has no model here; see [`AtomicIdContext::next_id`].
#[derive(Debug)]
pub struct AtomicIdContext<F = ()> {
    current_id: AtomicU64,
    family: PhantomData<F>,
}

impl<F> AtomicIdContext<F> {
    /// Creates a new atomic ID context whose counter starts at zero. The
    /// counter is an atomic cell with no model here, so no clause states it.
    pub fn new() -> AtomicIdContext<F> {
        AtomicIdContext { current_id: AtomicU64::new(0), family: PhantomData }
    }

    /// Spawns the next ID for this context: the counter before a
    /// sequentially consistent atomic increment. What it is depends on the
    /// calls other threads made before it, so no clause states it.
    pub fn next_id(&self) -> Id<F> {
        let id = self.current_id.fetch_add(1, std::sync::atomic::Ordering::SeqCst);
        Id::from_raw(id)
    }
}

impl<F> Default for AtomicIdContext<F> {
    fn default() -> AtomicIdContext<F> {
        AtomicIdContext::new()
    }
}

} // verus!
