use joshu_relay::message::{read_reply, tag_message};

#[test]
fn ping_is_tagged_with_sender_id() {
    let out = tag_message(b"{\"cmd\":\"ping\"}", "A");
    assert_eq!(out, Some("{\"cmd\":\"ping\",\"id\":\"A\"}".to_string()));
}

#[test]
fn existing_id_is_overwritten() {
    let out = tag_message(b"{\"id\":\"forged\",\"n\":1}", "B");
    assert_eq!(out, Some("{\"id\":\"B\",\"n\":1}".to_string()));
}

#[test]
fn surrounding_whitespace_is_ignored() {
    let out = tag_message(b"  {\"a\":[1,2]}\n", "c");
    assert_eq!(out, Some("{\"a\":[1,2],\"id\":\"c\"}".to_string()));
}

#[test]
fn nested_values_are_kept() {
    let out = tag_message(b"{\"q\":{\"x\":\"y\"},\"t\":true}", "Z");
    assert_eq!(out, Some("{\"id\":\"Z\",\"q\":{\"x\":\"y\"},\"t\":true}".to_string()));
}

#[test]
fn garbage_is_dropped() {
    assert_eq!(tag_message(b"hello there", "A"), None);
    assert_eq!(tag_message(b"{\"cmd\":", "A"), None);
    assert_eq!(tag_message(b"", "A"), None);
}

#[test]
fn invalid_utf8_is_dropped() {
    assert_eq!(tag_message(&[0x7b, 0xff, 0xfe, 0x7d], "A"), None);
}

#[test]
fn non_object_json_is_dropped() {
    assert_eq!(tag_message(b"[1,2,3]", "A"), None);
    assert_eq!(tag_message(b"\"text\"", "A"), None);
    assert_eq!(tag_message(b"42", "A"), None);
}

#[test]
fn reply_id_and_payload_are_read() {
    let r = read_reply(b"{\"cmd\":\"pong\",\"id\":\"A\"}\n").unwrap();
    assert_eq!(r.id, "A");
    assert_eq!(r.payload, "{\"cmd\":\"pong\",\"id\":\"A\"}");
}

#[test]
fn reply_payload_is_verbatim() {
    let r = read_reply(b" { \"id\" : \"k\", \"b\" : 2 } ").unwrap();
    assert_eq!(r.id, "k");
    assert_eq!(r.payload, "{ \"id\" : \"k\", \"b\" : 2 }");
}

#[test]
fn reply_without_string_id_is_unrouted() {
    assert!(read_reply(b"{\"cmd\":\"pong\"}").is_none());
    assert!(read_reply(b"{\"id\":7}").is_none());
    assert!(read_reply(b"not json").is_none());
    assert!(read_reply(b"[\"id\"]").is_none());
}
