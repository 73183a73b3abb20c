use ntex_driver::chain::{chain, chain_factory, ServiceChain, ServiceChainFactory};
use ntex_driver::service::{IntoService, IntoServiceFactory, Service, ServiceFactory};
use std::sync::Arc;
use std::task::{Context, Wake, Waker};

use ntex_driver::utils::{filter, Decoded, FilterService, FilterServiceFactory};

#[derive(Clone, Debug, PartialEq)]
struct Echo(u32);

impl Service<u8> for Echo {
    type Response = u64;
    type Error = ();
}

#[derive(Clone, Debug, PartialEq)]
struct EchoFactory(u32);

impl ServiceFactory<u8> for EchoFactory {
    type Response = u64;
    type Error = ();
    type Service = Echo;
    type InitError = ();
}

#[test]
fn chain_hands_back_the_service() {
    let c: ServiceChain<Echo, u8> = chain(Echo(3));
    let c2 = c.clone();
    assert_eq!(c.into_service(), Echo(3));
    assert_eq!(IntoService::<Echo, u8>::into_service(c2), Echo(3));
}

#[test]
fn chain_of_chain_hands_back_the_service() {
    let inner: ServiceChain<Echo, u8> = chain(Echo(5));
    let outer: ServiceChain<Echo, u8> = chain(inner);
    assert_eq!(outer.into_service(), Echo(5));
}

#[test]
fn chain_factory_hands_back_the_factory() {
    let c: ServiceChainFactory<EchoFactory, u8> = chain_factory(EchoFactory(4));
    let c2 = c.clone();
    assert_eq!(c.into_factory(), EchoFactory(4));
    assert_eq!(IntoServiceFactory::<EchoFactory, u8>::into_factory(c2), EchoFactory(4));
}

#[test]
fn service_is_its_own_service() {
    assert_eq!(IntoService::<Echo, u8>::into_service(Echo(9)), Echo(9));
    assert_eq!(IntoServiceFactory::<EchoFactory, u8>::into_factory(EchoFactory(9)), EchoFactory(9));
}

#[test]
fn filter_factory_creates_services() {
    let f: FilterServiceFactory<u32, ()> = filter(42u32);
    let s: Result<FilterService<u32, ()>, ()> = f.create(());
    assert!(s.is_ok());
}

#[test]
fn decoded_orders_by_fields() {
    let a = Decoded { item: Some(1u8), remains: 0, consumed: 3 };
    let b = Decoded { item: Some(1u8), remains: 0, consumed: 4 };
    assert!(a < b);
    assert_eq!(a.clone(), a);
    let d: Decoded<u8> = Decoded { item: None, remains: 2, consumed: 0 };
    assert!(d < a);
}

struct NoWake;

impl Wake for NoWake {
    fn wake(self: Arc<Self>) {}
}

#[test]
fn poll_defaults_to_ready() {
    let waker = Waker::from(Arc::new(NoWake));
    let mut cx = Context::from_waker(&waker);
    let e = Echo(1);
    assert_eq!(Service::<u8>::poll(&e, &mut cx), Ok(()));
    let boxed = Box::new(Echo(2));
    assert_eq!(Service::<u8>::poll(&boxed, &mut cx), Ok(()));
    assert_eq!(Service::<u8>::poll(&&e, &mut cx), Ok(()));
}

#[test]
fn builders_print_their_names() {
    let f: FilterServiceFactory<u32, ()> = filter(42u32);
    assert!(format!("{:?}", f).contains("FilterServiceFactory"));
    let s: FilterService<u32, ()> = f.create(()).unwrap();
    assert!(format!("{:?}", s).contains("FilterService"));
    let c: ServiceChain<Echo, u8> = chain(Echo(1));
    assert!(format!("{:?}", c).contains("ServiceChain"));
    let cf: ServiceChainFactory<EchoFactory, u8> = chain_factory(EchoFactory(1));
    assert!(format!("{:?}", cf).contains("ServiceChainFactory"));
}
