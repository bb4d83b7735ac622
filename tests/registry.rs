use joshu_relay::registry::Registry;

fn two_clients() -> Registry<u32> {
    let mut reg = Registry::new();
    assert!(reg.register("A".to_string(), 1).is_ok());
    assert!(reg.register("B".to_string(), 2).is_ok());
    reg
}

#[test]
fn pong_reaches_only_client_a() {
    let reg = two_clients();
    let (h, payload) = reg.route(b"{\"cmd\":\"pong\",\"id\":\"A\"}").unwrap();
    assert_eq!(*h, 1);
    assert_eq!(payload, "{\"cmd\":\"pong\",\"id\":\"A\"}");
    let (h, _) = reg.route(b"{\"id\":\"B\"}").unwrap();
    assert_eq!(*h, 2);
}

#[test]
fn unknown_id_reaches_nobody() {
    let reg = two_clients();
    assert!(reg.route(b"{\"cmd\":\"pong\",\"id\":\"C\"}").is_none());
    assert!(reg.route(b"{\"cmd\":\"pong\"}").is_none());
    assert!(reg.route(b"\xff\xfe").is_none());
    assert_eq!(reg.len(), 2);
}

#[test]
fn duplicate_id_is_refused() {
    let mut reg = two_clients();
    assert_eq!(reg.register("A".to_string(), 9), Err(9));
    assert_eq!(reg.lookup(&"A".to_string()), Some(&1));
    assert_eq!(reg.len(), 2);
}

#[test]
fn removed_connection_gets_no_reply() {
    let mut reg = two_clients();
    assert_eq!(reg.remove(&"A".to_string()), Some(1));
    assert_eq!(reg.remove(&"A".to_string()), None);
    assert_eq!(reg.lookup(&"A".to_string()), None);
    assert!(reg.route(b"{\"id\":\"A\"}").is_none());
    assert_eq!(reg.lookup(&"B".to_string()), Some(&2));
    assert_eq!(reg.len(), 1);
}

#[test]
fn fresh_ids_are_hyphenated_and_distinct() {
    let mut reg: Registry<u32> = Registry::new();
    let a = reg.register_fresh(1).unwrap();
    let b = reg.register_fresh(2).unwrap();
    assert_eq!(a.len(), 36);
    assert_eq!(b.len(), 36);
    assert_ne!(a, b);
    assert_eq!(a.matches('-').count(), 4);
    assert_eq!(reg.lookup(&a), Some(&1));
    assert_eq!(reg.lookup(&b), Some(&2));
}

#[test]
fn empty_registry_routes_nothing() {
    let reg: Registry<u32> = Registry::new();
    assert_eq!(reg.len(), 0);
    assert!(reg.route(b"{\"id\":\"A\"}").is_none());
}

#[test]
fn fresh_registration_succeeds_beside_short_ids() {
    let mut reg = two_clients();
    let id = reg.register_fresh(3).unwrap();
    assert_eq!(id.len(), 36);
    assert_eq!(reg.lookup(&id), Some(&3));
    assert_eq!(reg.len(), 3);
}
