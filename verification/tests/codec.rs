use relay_core::codec::{reencode_frame, Event};

#[test]
fn reencode_preserves_name_and_dat() {
    let t = reencode_frame(4, "{\"name\":\"Jump\",\"dat\":{\"x\":1,\"y\":[true,null]}}").unwrap();
    let v: serde_json::Value = serde_json::from_str(&t).unwrap();
    assert_eq!(v.get("id").unwrap().as_i64().unwrap(), 4);
    assert_eq!(v.get("name").unwrap().as_str().unwrap(), "Jump");
    let dat = v.get("dat").unwrap();
    assert_eq!(dat.get("x").unwrap().as_i64().unwrap(), 1);
    let y = dat.get("y").unwrap().as_array().unwrap();
    assert_eq!(y.len(), 2);
    assert_eq!(y[0].as_bool().unwrap(), true);
    assert!(y[1].is_null());
}

#[test]
fn reencode_keeps_string_payload_exactly() {
    let t = reencode_frame(1, "{\"name\":\"Message\",\"dat\":\"hi there\"}").unwrap();
    let v: serde_json::Value = serde_json::from_str(&t).unwrap();
    assert_eq!(v.get("name").unwrap().as_str().unwrap(), "Message");
    assert_eq!(v.get("dat").unwrap().as_str().unwrap(), "hi there");
}

#[test]
fn reencode_rejects_malformed_frames() {
    assert!(reencode_frame(1, "not json at all").is_none());
    assert!(reencode_frame(1, "{\"dat\":1}").is_none());
    assert!(reencode_frame(1, "{\"name\":7,\"dat\":1}").is_none());
    assert!(reencode_frame(1, "{\"name\":\"A\"}").is_none());
}

#[test]
fn decode_takes_the_callers_connection_id() {
    let e = Event::from(2, "{\"id\":99,\"name\":\"A\",\"dat\":1}").unwrap();
    assert_eq!(e.id, 2);
    assert_eq!(e.name, "A");
    assert_eq!(e.dat, "1");
}

#[test]
fn decode_fails_without_name_or_dat() {
    assert!(Event::from(1, "{}").is_err());
    assert!(Event::from(1, "{\"name\":\"A\"}").is_err());
    assert!(Event::from(1, "{\"name\":null,\"dat\":1}").is_err());
    assert!(Event::from(1, "[1,2]").is_err());
    let fault = Event::from(1, "{").unwrap_err();
    assert_eq!(fault.message(), "malformed message");
}

#[test]
fn encode_always_writes_the_recipient() {
    let e = Event::new(0, "Message".to_string(), "\"all\"".to_string());
    let t = e.encode().unwrap();
    let v: serde_json::Value = serde_json::from_str(&t).unwrap();
    assert_eq!(v.get("id").unwrap().as_i64().unwrap(), 0);
    assert_eq!(v.get("name").unwrap().as_str().unwrap(), "Message");
    assert_eq!(v.get("dat").unwrap().as_str().unwrap(), "all");
}

#[test]
fn builder_keeps_its_fields() {
    let e = Event::new(3, "Abort".to_string(), "null".to_string());
    assert_eq!(e.id, 3);
    assert_eq!(e.name, "Abort");
    assert_eq!(e.dat, "null");
}

#[test]
fn reencode_preserves_float_payload_text_exactly() {
    // a double whose text a best-effort float parse would alter;
    // the codec's contract promises the payload text byte-exact
    let frame = "{\"name\":\"Message\",\"dat\":51.248178375505404}";
    let e1 = Event::from(1, frame).unwrap();
    let t = e1.encode().unwrap();
    let e2 = Event::from(2, &t).unwrap();
    assert_eq!(e1.dat, e2.dat);
    assert_eq!(e1.name, e2.name);
    assert_eq!(e1.dat, "51.248178375505404");
}
