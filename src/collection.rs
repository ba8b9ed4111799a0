use vstd::prelude::*;
use vstd::std_specs::cmp::PartialEqSpec;

use crate::model::has_match;

verus! {

/// A container that knows its size and can be searched.
pub trait Collection<T> {
    /// The elements, in the container's order.
    spec fn items(&self) -> Seq<T>;

    /// The backend's own invariant; every operation keeps it.
    spec fn well_formed(&self) -> bool;

    fn len(&self) -> (r: usize)
        requires
            self.well_formed(),
        ensures
            r == self.items().len(),
    ;

    fn is_empty(&self) -> (r: bool)
        requires
            self.well_formed(),
        ensures
            r == (self.items().len() == 0),
    {
        self.len() == 0
    }

    /// Whether some element equals `other`.
    fn contains(&self, other: &T) -> (r: bool) where T: PartialEq
        requires
            self.well_formed(),
        ensures
            T::obeys_eq_spec() ==> (r == has_match(self.items(), other)),
    ;
}

/// A container whose contents can be dropped at once.
pub trait CollectionMut<T>: Collection<T> {
    fn clear(&mut self)
        requires
            old(self).well_formed(),
        ensures
            final(self).well_formed(),
            final(self).items() == Seq::<T>::empty(),
    ;
}

} // verus!
