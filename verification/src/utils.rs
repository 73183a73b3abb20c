use vstd::prelude::*;

use std::marker::PhantomData;

verus! {

/// An item decoded from a buffer, with how many bytes remain and how many
/// were consumed.
#[derive(Clone, Debug, Eq, PartialEq, Ord, PartialOrd, Hash)]
pub struct Decoded<T> {
    pub item: Option<T>,
    pub remains: usize,
    pub consumed: usize,
}

/// Factory of filter services: each service it creates applies a clone of
/// the filter factory to the streams it is called with.
#[derive(Debug)]
pub struct FilterServiceFactory<T, F> {
    filter: T,
    _t: PhantomData<F>,
}

/// Service that applies a filter factory to each stream it is called with.
#[derive(Debug)]
pub struct FilterService<T, F> {
    filter: T,
    _t: PhantomData<F>,
}

impl<T, F> FilterServiceFactory<T, F> {
    /// The filter factory held.
    pub closed spec fn filter_factory(&self) -> T {
        self.filter
    }
}

impl<T, F> FilterService<T, F> {
    /// The filter factory held.
    pub closed spec fn filter_factory(&self) -> T {
        self.filter
    }
}

/// Creates a filter service factory around `filter`.
pub fn filter<T, F>(factory: T) -> (r: FilterServiceFactory<T, F>) where T: Clone
    ensures
        r.filter_factory() == factory,
{
    FilterServiceFactory { filter: factory, _t: PhantomData }
}

impl<T, F> FilterServiceFactory<T, F> where T: Clone {
    /// Creates a service: it always succeeds, with a clone of the filter
    /// factory.
    pub fn create(&self, cfg: ()) -> (r: Result<FilterService<T, F>, ()>)
        ensures
            r is Ok,
            cloned(self.filter_factory(), r->Ok_0.filter_factory()),
    {
        Ok(FilterService { filter: self.filter.clone(), _t: PhantomData })
    }
}

} // verus!
