use std::sync::atomic::{AtomicU64, Ordering};
use std::sync::Arc;

use pontifex::demo::{Echo, HealthCheck};
use pontifex::route::route_hash;
use pontifex::server::Error;
use pontifex::{Request, Router};

#[test]
fn registered_routes_are_found_by_hash() {
    let router = Router::new().route::<Echo>(1u8).unwrap().route::<HealthCheck>(2u8).unwrap();
    assert!(router.contains(0x7fbb_ccac));
    assert!(router.contains(0x90ef_2279));
    assert!(!router.contains(0x3854_bef1));
    assert_eq!(router.handler(0x7fbb_ccac).ok(), Some(&1u8));
    assert_eq!(router.handler(0x90ef_2279).ok(), Some(&2u8));
}

#[test]
fn unknown_hash_has_no_handler() {
    let router = Router::new().route::<Echo>(1u8).unwrap();
    match router.handler(0x3854_bef1) {
        Err(Error::UnknownRequest(h)) => assert_eq!(h, 0x3854_bef1),
        _ => panic!("expected UnknownRequest"),
    }
}

#[test]
fn duplicate_registration_by_id_is_rejected() {
    let result = Router::new().register("echo_v1", 1u8).unwrap().route::<Echo>(2u8);
    match result {
        Err(Error::DuplicateRoute(h)) => assert_eq!(h, 0x7fbb_ccac),
        _ => panic!("expected DuplicateRoute"),
    }
}

#[test]
fn duplicate_registration_is_rejected() {
    let result = Router::new().route::<Echo>(1u8).unwrap().route::<Echo>(2u8);
    match result {
        Err(Error::DuplicateRoute(h)) => assert_eq!(h, Echo::type_id()),
        _ => panic!("expected DuplicateRoute"),
    }
}

#[test]
fn colliding_route_ids_are_rejected() {
    assert_eq!(route_hash("costarring"), route_hash("liquid"));
    let result = Router::new().register("costarring", 1u8).unwrap().register("liquid", 2u8);
    match result {
        Err(Error::RouteCollision(h)) => assert_eq!(h, 0x5e4d_aa9d),
        _ => panic!("expected RouteCollision"),
    }
}

#[test]
fn state_is_shared_not_copied() {
    let router: Router<AtomicU64, u8> = Router::with_state(AtomicU64::new(0));
    let first = Arc::clone(router.state());
    let second = Arc::clone(router.state());
    first.fetch_add(5, Ordering::SeqCst);
    assert_eq!(second.load(Ordering::SeqCst), 5);
    assert!(Arc::ptr_eq(&first, &second));
}
