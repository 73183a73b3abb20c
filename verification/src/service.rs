use vstd::prelude::*;

use std::rc::Rc;
use std::task::Context;

verus! {

/// std's task context, carried opaquely to `Service::poll`.
#[verifier::external_type_specification]
#[verifier::external_body]
pub struct ExContext<'a>(Context<'a>);

/// A function of a request to a response, producing either the response or
/// an error. Requests are a type parameter, so one service can accept many
/// request types; the response and error types are fixed per impl.
///
/// The asynchronous protocol (readiness, call, shutdown) is driven outside
/// the verified crate; here the trait carries the types that composition
/// checks against.
pub trait Service<Req> {
    /// Responses given by the service.
    type Response;

    /// Errors produced by the service.
    type Error;

    /// Polls the service from the current task, which lets it drive its
    /// own state. A service with no such state is always fine.
    fn poll(&self, cx: &mut Context<'_>) -> (r: Result<(), Self::Error>)
        default_ensures
            r is Ok,
    {
        Ok(())
    }
}

/// A factory of services, configured with `Cfg`: the response and error types
/// of the services it makes, their type, and the error of building one.
pub trait ServiceFactory<Req, Cfg = ()> {
    /// Responses given by the created services.
    type Response;

    /// Errors produced by the created services.
    type Error;

    /// The kind of service created by this factory.
    type Service: Service<Req, Response = Self::Response, Error = Self::Error>;

    /// Errors potentially raised while building a service.
    type InitError;
}

/// Types that can be turned into a service.
pub trait IntoService<Svc, Req> where Svc: Service<Req> {
    /// Converts `self` into the service.
    fn into_service(self) -> Svc;
}

/// Types that can be turned into a service factory.
pub trait IntoServiceFactory<T, Req, Cfg = ()> where T: ServiceFactory<Req, Cfg> {
    /// Converts `self` into the factory.
    fn into_factory(self) -> T;
}

/// A shared reference to a service is the same service.
impl<'a, S, Req> Service<Req> for &'a S where S: Service<Req> {
    type Response = S::Response;

    type Error = S::Error;

    /// Polls the service referred to and returns its result. No clause ties
    /// the result to that call: a call with a `&mut` argument gives Verus no
    /// `call_ensures` fact to state it with.
    fn poll(&self, cx: &mut Context<'_>) -> (r: Result<(), S::Error>) {
        (**self).poll(cx)
    }
}

/// A boxed service is the same service.
impl<S, Req> Service<Req> for Box<S> where S: Service<Req> {
    type Response = S::Response;

    type Error = S::Error;

    /// Polls the boxed service and returns its result. No clause ties the
    /// result to that call: a call with a `&mut` argument gives Verus no
    /// `call_ensures` fact to state it with.
    fn poll(&self, cx: &mut Context<'_>) -> (r: Result<(), S::Error>) {
        (**self).poll(cx)
    }
}

/// A shared factory makes the same services.
impl<S, Req, Cfg> ServiceFactory<Req, Cfg> for Rc<S> where S: ServiceFactory<Req, Cfg> {
    type Response = S::Response;

    type Error = S::Error;

    type Service = S::Service;

    type InitError = S::InitError;
}

/// A service is already a service: converting it hands it back.
impl<Svc, Req> IntoService<Svc, Req> for Svc where Svc: Service<Req> {
    fn into_service(self) -> (r: Svc)
        ensures
            r == self,
    {
        self
    }
}

/// A factory is already a factory: converting it hands it back.
impl<T, Req, Cfg> IntoServiceFactory<T, Req, Cfg> for T where T: ServiceFactory<Req, Cfg> {
    fn into_factory(self) -> (r: T)
        ensures
            r == self,
    {
        self
    }
}

} // verus!
