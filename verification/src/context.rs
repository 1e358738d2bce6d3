use std::marker::PhantomData;
use vstd::prelude::*;
use crate::id::Id;

verus! {

/// A context for spawning unique IDs.
///
/// The type parameter is to allow you to specify a "family" so that IDs can
/// be impossible to mix up. This is optional: the family defaults to the unit
/// type `()`.
///
/// The context is modelled by its counter (its view): the next identifier it
/// will hand out. Every identifier below the counter has been handed out
/// exactly once (see [`IdContext::issued`]).
#[derive(Debug)]
pub struct IdContext<F = ()> {
    current_id: u64,
    family: PhantomData<F>,
}

impl<F> View for IdContext<F> {
    type V = u64;

    closed spec fn view(&self) -> u64 {
        self.current_id
    }
}

impl<F> IdContext<F> {
    /// The raw values of all identifiers this context has handed out so far:
    /// every value below its counter.
    pub open spec fn issued(&self) -> Set<u64> {
        Set::new(|i: u64| i < self@)
    }

    /// A context whose counter starts at `current_id`.
    pub(crate) fn with_current_id(current_id: u64) -> (r: IdContext<F>)
        ensures
            r@ == current_id,
    {
        IdContext { current_id, family: PhantomData }
    }

    /// Creates a new ID context.
    pub fn new() -> (r: IdContext<F>)
        ensures
            r@ == 0,
            r.issued() == Set::<u64>::empty(),
    {
        let r = IdContext { current_id: 0, family: PhantomData };
        assert(r.issued() =~= Set::<u64>::empty());
        r
    }

    /// Spawns the next unique ID for this context.
    ///
    /// The identifier is the current counter, which then moves up by one;
    /// so it was never handed out before, and afterwards it counts as
    /// issued. The counter must not be at `u64::MAX`, where the increment
    /// would overflow.
    pub fn next_id(&mut self) -> (id: Id<F>)
        requires
            old(self)@ < u64::MAX,
        ensures
            id@ == old(self)@,
            final(self)@ == old(self)@ + 1,
            !old(self).issued().contains(id@),
            final(self).issued() == old(self).issued().insert(id@),
    {
        let id = self.current_id;
        self.current_id = self.current_id + 1;
        assert(self.issued() =~= old(self).issued().insert(id));
        Id::from_raw(id)
    }

    /// A second context with the same counter (and so the same issued set).
    pub(crate) fn duplicate(&self) -> (r: IdContext<F>)
        ensures
            r@ == self@,
    {
        IdContext { current_id: self.current_id, family: PhantomData }
    }
}

impl<F> Default for IdContext<F> {
    fn default() -> (r: IdContext<F>)
        ensures
            r@ == 0,
    {
        IdContext::new()
    }
}

} // verus!
