use relay_core::codec::Event;
use relay_core::registry::{pump_frame, should_deliver, ConnectionCounter, BROADCAST_ID};

#[test]
fn allocated_ids_are_distinct_and_positive() {
    let mut counter = ConnectionCounter::new();
    let a = counter.allocate();
    let b = counter.allocate();
    let c = counter.allocate();
    assert_eq!(a, 1);
    assert_eq!(b, 2);
    assert_eq!(c, 3);
    assert!(a != b && b != c && a != c);
    assert!(a != BROADCAST_ID && b != BROADCAST_ID && c != BROADCAST_ID);
}

#[test]
fn broadcast_reaches_every_pump() {
    for conn in [1, 2, 3, 100] {
        assert!(should_deliver(BROADCAST_ID, conn));
    }
}

#[test]
fn targeted_event_reaches_only_its_owner() {
    assert!(should_deliver(2, 2));
    assert!(!should_deliver(2, 1));
    assert!(!should_deliver(2, 3));
    assert!(!should_deliver(7, 2));
}

#[test]
fn pump_forwards_only_its_own_frames() {
    let broadcast = Event::new(BROADCAST_ID, "Message".to_string(), "\"all\"".to_string());
    let targeted = Event::new(2, "Message".to_string(), "\"two\"".to_string());

    // every pump forwards a broadcast; only pump 2 forwards the targeted event
    for conn in [1, 2, 3] {
        let t = pump_frame(conn, &broadcast).unwrap();
        let v: serde_json::Value = serde_json::from_str(&t).unwrap();
        assert_eq!(v.get("id").unwrap().as_i64().unwrap(), 0);
        assert_eq!(v.get("dat").unwrap().as_str().unwrap(), "all");
    }
    assert!(pump_frame(1, &targeted).is_none());
    assert!(pump_frame(3, &targeted).is_none());
    let t = pump_frame(2, &targeted).unwrap();
    let v: serde_json::Value = serde_json::from_str(&t).unwrap();
    assert_eq!(v.get("id").unwrap().as_i64().unwrap(), 2);
    assert_eq!(v.get("dat").unwrap().as_str().unwrap(), "two");
}
