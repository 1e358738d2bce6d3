use std::marker::PhantomData;
use vstd::prelude::*;
use vstd::std_specs::cmp::PartialEqSpecImpl;
use vstd::std_specs::cmp::PartialOrdSpecImpl;

verus! {

/// An identifier handed out by an [`IdContext`](crate::IdContext) (or an
/// [`IdMap`](crate::IdMap)). Its meaning is the raw counter value it was
/// made from; the family `F` only exists at the type level.
#[derive(Debug)]
pub struct Id<F = ()> {
    id: u64,
    family: PhantomData<F>,
}

impl<F> View for Id<F> {
    type V = u64;

    closed spec fn view(&self) -> u64 {
        self.id
    }
}

impl<F> Id<F> {
    /// Rebuilds an identifier from its raw counter value (used when an
    /// identifier is read back from a serialized form).
    pub fn from_raw(id: u64) -> (r: Id<F>)
        ensures
            r@ == id,
    {
        Id { id, family: PhantomData }
    }

    /// The raw counter value of this identifier.
    pub fn raw(&self) -> (r: u64)
        ensures
            r == self@,
    {
        self.id
    }
}

impl<F> Clone for Id<F> {
    fn clone(&self) -> (r: Self)
        ensures
            r == *self,
    {
        Id { id: self.id, family: PhantomData }
    }
}

impl<F> Copy for Id<F> {
}

impl<F> PartialEq for Id<F> {
    fn eq(&self, other: &Self) -> (r: bool)
        ensures
            r == (self@ == other@),
    {
        self.id == other.id
    }
}

impl<F> PartialEqSpecImpl for Id<F> {
    open spec fn obeys_eq_spec() -> bool {
        true
    }

    open spec fn eq_spec(&self, other: &Self) -> bool {
        self@ == other@
    }
}

impl<F> Eq for Id<F> {
}

impl<F> PartialOrd for Id<F> {
    fn partial_cmp(&self, other: &Self) -> (r: Option<std::cmp::Ordering>)
        ensures
            r == Some(std::cmp::Ordering::Less) <==> self@ < other@,
            r == Some(std::cmp::Ordering::Equal) <==> self@ == other@,
            r == Some(std::cmp::Ordering::Greater) <==> self@ > other@,
    {
        if self.id < other.id {
            Some(std::cmp::Ordering::Less)
        } else if self.id == other.id {
            Some(std::cmp::Ordering::Equal)
        } else {
            Some(std::cmp::Ordering::Greater)
        }
    }
}

impl<F> PartialOrdSpecImpl for Id<F> {
    open spec fn obeys_partial_cmp_spec() -> bool {
        true
    }

    open spec fn partial_cmp_spec(&self, other: &Self) -> Option<std::cmp::Ordering> {
        if self@ < other@ {
            Some(std::cmp::Ordering::Less)
        } else if self@ == other@ {
            Some(std::cmp::Ordering::Equal)
        } else {
            Some(std::cmp::Ordering::Greater)
        }
    }
}

impl<F> Ord for Id<F> {
    /// Compares the raw counter values with `u64`'s own `Ord::cmp`, which
    /// std documents as the numeric order: `Less`, `Equal` or `Greater` as
    /// the first value is below, equal to or above the second.
    #[verifier::external_body]
    fn cmp(&self, other: &Self) -> (r: std::cmp::Ordering)
        ensures
            r == (if self@ < other@ {
                std::cmp::Ordering::Less
            } else if self@ == other@ {
                std::cmp::Ordering::Equal
            } else {
                std::cmp::Ordering::Greater
            }),
    {
        self.id.cmp(&other.id)
    }
}

impl<F> std::hash::Hash for Id<F> {
    /// Hashes the raw counter value, as `u64`'s own `Hash` does; nothing is
    /// claimed of the hasher's state afterwards.
    #[verifier::external_body]
    fn hash<H: std::hash::Hasher>(&self, state: &mut H) {
        self.id.hash(state)
    }
}

/// An identifier of the same shape as [`Id`], kept apart from it by type.
#[derive(Debug)]
pub struct AtomicId<F = ()> {
    id: u64,
    family: PhantomData<F>,
}

impl<F> View for AtomicId<F> {
    type V = u64;

    closed spec fn view(&self) -> u64 {
        self.id
    }
}

impl<F> Clone for AtomicId<F> {
    fn clone(&self) -> (r: Self)
        ensures
            r == *self,
    {
        AtomicId { id: self.id, family: PhantomData }
    }
}

impl<F> Copy for AtomicId<F> {
}

impl<F> PartialEq for AtomicId<F> {
    fn eq(&self, other: &Self) -> (r: bool)
        ensures
            r == (self@ == other@),
    {
        self.id == other.id
    }
}

impl<F> PartialEqSpecImpl for AtomicId<F> {
    open spec fn obeys_eq_spec() -> bool {
        true
    }

    open spec fn eq_spec(&self, other: &Self) -> bool {
        self@ == other@
    }
}

impl<F> Eq for AtomicId<F> {
}

impl<F> PartialOrd for AtomicId<F> {
    fn partial_cmp(&self, other: &Self) -> (r: Option<std::cmp::Ordering>)
        ensures
            r == Some(std::cmp::Ordering::Less) <==> self@ < other@,
            r == Some(std::cmp::Ordering::Equal) <==> self@ == other@,
            r == Some(std::cmp::Ordering::Greater) <==> self@ > other@,
    {
        if self.id < other.id {
            Some(std::cmp::Ordering::Less)
        } else if self.id == other.id {
            Some(std::cmp::Ordering::Equal)
        } else {
            Some(std::cmp::Ordering::Greater)
        }
    }
}

impl<F> PartialOrdSpecImpl for AtomicId<F> {
    open spec fn obeys_partial_cmp_spec() -> bool {
        true
    }

    open spec fn partial_cmp_spec(&self, other: &Self) -> Option<std::cmp::Ordering> {
        if self@ < other@ {
            Some(std::cmp::Ordering::Less)
        } else if self@ == other@ {
            Some(std::cmp::Ordering::Equal)
        } else {
            Some(std::cmp::Ordering::Greater)
        }
    }
}

impl<F> Ord for AtomicId<F> {
    /// Compares the raw counter values with `u64`'s own `Ord::cmp`, which
    /// std documents as the numeric order: `Less`, `Equal` or `Greater` as
    /// the first value is below, equal to or above the second.
    #[verifier::external_body]
    fn cmp(&self, other: &Self) -> (r: std::cmp::Ordering)
        ensures
            r == (if self@ < other@ {
                std::cmp::Ordering::Less
            } else if self@ == other@ {
                std::cmp::Ordering::Equal
            } else {
                std::cmp::Ordering::Greater
            }),
    {
        self.id.cmp(&other.id)
    }
}

impl<F> std::hash::Hash for AtomicId<F> {
    /// Hashes the raw counter value, as `u64`'s own `Hash` does; nothing is
    /// claimed of the hasher's state afterwards.
    #[verifier::external_body]
    fn hash<H: std::hash::Hasher>(&self, state: &mut H) {
        self.id.hash(state)
    }
}

} // verus!
