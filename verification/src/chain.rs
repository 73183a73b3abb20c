use vstd::prelude::*;

use std::marker::PhantomData;

use crate::service::{IntoService, IntoServiceFactory, Service, ServiceFactory};

verus! {

/// Chain builder: holds one service, to which more can be composed.
#[derive(Debug)]
pub struct ServiceChain<Svc, Req> {
    service: Svc,
    _t: PhantomData<Req>,
}

/// Service factory builder: holds one factory, to which more can be composed.
#[derive(Debug)]
pub struct ServiceChainFactory<T, Req, C = ()> {
    factory: T,
    _t: PhantomData<(Req, C)>,
}

impl<Svc, Req> ServiceChain<Svc, Req> {
    /// The service held by the chain.
    pub closed spec fn service(&self) -> Svc {
        self.service
    }
}

impl<T, Req, C> ServiceChainFactory<T, Req, C> {
    /// The factory held by the chain.
    pub closed spec fn factory(&self) -> T {
        self.factory
    }
}

/// Starts a chain with one service: whatever `service` converts into.
pub fn chain<Svc, Req, F>(service: F) -> (r: ServiceChain<Svc, Req>) where
    Svc: Service<Req>,
    F: IntoService<Svc, Req>,

    ensures
        call_ensures(F::into_service, (service,), r.service()),
{
    ServiceChain { service: service.into_service(), _t: PhantomData }
}

/// Starts a chain factory with one factory: whatever `factory` converts into.
pub fn chain_factory<T, R, C, F>(factory: F) -> (r: ServiceChainFactory<T, R, C>) where
    T: ServiceFactory<R, C>,
    F: IntoServiceFactory<T, R, C>,

    ensures
        call_ensures(F::into_factory, (factory,), r.factory()),
{
    ServiceChainFactory { factory: factory.into_factory(), _t: PhantomData }
}

impl<Svc, Req> Clone for ServiceChain<Svc, Req> where Svc: Clone {
    /// A chain holding a clone of the service.
    fn clone(&self) -> (r: Self)
        ensures
            cloned(self.service(), r.service()),
    {
        ServiceChain { service: self.service.clone(), _t: PhantomData }
    }
}

impl<T, R, C> Clone for ServiceChainFactory<T, R, C> where T: Clone {
    /// A chain factory holding a clone of the factory.
    fn clone(&self) -> (r: Self)
        ensures
            cloned(self.factory(), r.factory()),
    {
        ServiceChainFactory { factory: self.factory.clone(), _t: PhantomData }
    }
}

/// A chain converts into the service it holds.
impl<Svc, Req> IntoService<Svc, Req> for ServiceChain<Svc, Req> where Svc: Service<Req> {
    fn into_service(self) -> (r: Svc)
        ensures
            r == self.service(),
    {
        self.service
    }
}

/// A chain factory converts into the factory it holds.
impl<T, R, C> IntoServiceFactory<T, R, C> for ServiceChainFactory<T, R, C> where
    T: ServiceFactory<R, C>,
 {
    fn into_factory(self) -> (r: T)
        ensures
            r == self.factory(),
    {
        self.factory
    }
}

/// A chain started from a service holds that very service, so converting the
/// chain back gives the service it was started with.
pub proof fn law_chain_holds_service<Svc, Req>(service: Svc, c: ServiceChain<Svc, Req>) where
    Svc: Service<Req>,

    requires
        call_ensures(Svc::into_service, (service,), c.service()),
    ensures
        c.service() == service,
{
}

/// A chain factory started from a factory holds that very factory.
pub proof fn law_chain_factory_holds_factory<T, R, C>(
    factory: T,
    c: ServiceChainFactory<T, R, C>,
) where T: ServiceFactory<R, C>
    requires
        call_ensures(T::into_factory, (factory,), c.factory()),
    ensures
        c.factory() == factory,
{
}

} // verus!
