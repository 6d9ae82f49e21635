use nostr_scrolls::{read_relays, Event, IntoHandle, Relay};

fn tag(items: &[&str]) -> Vec<String> {
    items.iter().map(|s| s.to_string()).collect()
}

fn sample_event(kind: u16, tags: Vec<Vec<String>>) -> Event {
    let id: [u8; 32] = core::array::from_fn(|i| i as u8);
    let pubkey = [0xabu8; 32];
    Event::new(17, id, pubkey, kind, 1_700_000_000, "hello".to_string(), tags)
}

#[test]
fn event_getters() {
    let e = sample_event(1, vec![tag(&["t", "asknostr"])]);
    assert_eq!(e.handle(), 17);
    assert_eq!(e.kind(), 1);
    assert_eq!(e.created_at(), 1_700_000_000);
    assert_eq!(e.content(), "hello");
    assert_eq!(e.id_hex(), "000102030405060708090a0b0c0d0e0f101112131415161718191a1b1c1d1e1f");
    assert_eq!(e.pubkey_hex(), "ab".repeat(32));
    let expected_id: [u8; 32] = core::array::from_fn(|i| i as u8);
    assert_eq!(e.id().as_bytes(), &expected_id);
    assert_eq!(e.pubkey().as_bytes(), &[0xab; 32]);
}

#[test]
fn tag_queries_by_index() {
    let e = sample_event(1, vec![tag(&["p", "x", "y"]), vec![], tag(&["e"])]);
    assert_eq!(e.tag_count(), 3);
    assert_eq!(e.tag_items_count(0), Some(3));
    assert_eq!(e.tag_items_count(1), None);
    assert_eq!(e.tag_items_count(2), Some(1));
    assert_eq!(e.tag_items_count(3), None);
    assert_eq!(e.tag_item(0, 2), Some("y"));
    assert_eq!(e.tag_item(0, 3), None);
    assert_eq!(e.tag_item(5, 0), None);
}

#[test]
fn tag_bytes_by_index() {
    let hex = "ff".repeat(32);
    let e = sample_event(1, vec![tag(&["p", &hex, "nothex"])]);
    assert_eq!(e.tag_item_bytes(0, 1), Some([0xff; 32]));
    assert_eq!(e.tag_item_bytes(0, 2), None);
    assert_eq!(e.tag_item_bytes(1, 1), None);
}

#[test]
fn tag_queries_by_name_use_first_tag() {
    let hex = "01".repeat(32);
    let e = sample_event(
        1,
        vec![tag(&["e", "first"]), tag(&["p", &hex]), tag(&["e", "second", "more"])],
    );
    assert_eq!(e.tag_item_by_name("e", 1), Some("first"));
    // The first tag named "e" has no third item; later tags are not consulted.
    assert_eq!(e.tag_item_by_name("e", 2), None);
    assert_eq!(e.tag_item_by_name("x", 0), None);
    assert_eq!(e.tag_item_by_name_bytes("p", 1), Some([1u8; 32]));
    assert_eq!(e.tag_item_by_name_bytes("e", 1), None);
}

#[test]
fn event_id_hex_decodes_back() {
    let e = sample_event(1, vec![]);
    let id_hex = e.id_hex().to_string();
    let tagged = sample_event(1, vec![tag(&["e", &id_hex])]);
    assert_eq!(tagged.tag_item_bytes(0, 1), Some(*e.id().as_bytes()));
}

#[test]
fn relays_from_relay_list() {
    let e = sample_event(
        10002,
        vec![
            tag(&["r", "wss://a"]),
            tag(&["r", "wss://b", "write"]),
            tag(&["r", "wss://c", "read"]),
            tag(&["r", "wss://d", ""]),
            tag(&["r", "wss://e", "other"]),
            tag(&["r"]),
        ],
    );
    let relays = read_relays(&e, 10);
    assert_eq!(relays.len(), 4);
    assert!(matches!(relays[0], Relay::Both("wss://a")));
    assert!(matches!(relays[1], Relay::Write("wss://b")));
    assert!(matches!(relays[2], Relay::Read("wss://c")));
    assert!(matches!(relays[3], Relay::Both("wss://d")));
    assert_eq!(relays[1].url(), "wss://b");
    assert!(relays[0].is_read() && relays[0].is_write());
    assert!(relays[1].is_write() && !relays[1].is_read());
    assert!(relays[2].is_read() && !relays[2].is_write());
}

#[test]
fn relays_respect_limit_and_kind() {
    let tags = vec![tag(&["r", "wss://a"]), tag(&["r", "wss://b"]), tag(&["r", "wss://c"])];
    let e = sample_event(10002, tags.clone());
    assert_eq!(read_relays(&e, 2).len(), 2);
    assert_eq!(read_relays(&e, 0).len(), 0);
    let other = sample_event(3, tags);
    assert_eq!(read_relays(&other, 10).len(), 0);
}
