use pontifex::demo::{Echo, HealthCheck};
use pontifex::route::route_hash;
use pontifex::Request;

#[test]
fn route_hash_is_fnv1a_32() {
    assert_eq!(route_hash(""), 0x811c_9dc5);
    assert_eq!(route_hash("a"), 0xe40c_292c);
    assert_eq!(route_hash("echo_v1"), 0x7fbb_ccac);
    assert_eq!(route_hash("health_v1"), 0x90ef_2279);
    assert_eq!(route_hash("missing_v1"), 0x3854_bef1);
}

#[test]
fn route_hash_is_deterministic() {
    let owned = String::from("echo_v1");
    assert_eq!(route_hash(&owned), route_hash("echo_v1"));
    assert_eq!(route_hash("echo_v1"), route_hash("echo_v1"));
    assert_ne!(route_hash("echo_v1"), route_hash("echo_v2"));
}

#[test]
fn request_types_carry_their_route() {
    assert_eq!(Echo::route_id(), "echo_v1");
    assert_eq!(HealthCheck::route_id(), "health_v1");
    assert_eq!(Echo::type_id(), 0x7fbb_ccac);
    assert_eq!(HealthCheck::type_id(), 0x90ef_2279);
}
