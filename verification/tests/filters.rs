use nostr_scrolls::filter::{is_ascii_alphabetic, FilterOp};
use nostr_scrolls::{EventId, Filter, IntoHandle, PublicKey, StaticFilter};

fn describe(op: &FilterOp) -> String {
    match op {
        FilterOp::Author(k) => format!("author:{}", k.as_bytes()[0]),
        FilterOp::AuthorHex(s) => format!("author_hex:{}", s),
        FilterOp::Id(i) => format!("id:{}", i.as_bytes()[0]),
        FilterOp::IdHex(s) => format!("id_hex:{}", s),
        FilterOp::Kind(k) => format!("kind:{}", k),
        FilterOp::Tag(t, v) => format!("tag:{}:{}", t, v),
        FilterOp::TagBytes(t, b) => format!("tag_bytes:{}:{}", t, b[0]),
        FilterOp::Limit(n) => format!("limit:{}", n),
        FilterOp::Since(n) => format!("since:{}", n),
        FilterOp::Until(n) => format!("until:{}", n),
        FilterOp::Search(s) => format!("search:{}", s),
        FilterOp::Relay(s) => format!("relay:{}", s),
        FilterOp::CloseOnEose => "close_on_eose".to_string(),
    }
}

#[test]
fn filter_records_steps_in_order() {
    let key = PublicKey::from([5u8; 32]);
    let request = Filter::new()
        .author(&key)
        .kind(1)
        .tag('t', "asknostr")
        .limit(10)
        .since(100)
        .until(200)
        .search("nostr")
        .send_to("wss://relay.example")
        .subscribe();
    let steps: Vec<String> = request.ops.iter().map(describe).collect();
    assert_eq!(
        steps,
        vec![
            "author:5",
            "kind:1",
            "tag:116:asknostr",
            "limit:10",
            "since:100",
            "until:200",
            "search:nostr",
            "relay:wss://relay.example",
        ]
    );
    assert!(!request.close_on_eose);
}

#[test]
fn filter_close_on_eose() {
    let request = Filter::new().kind(7).close_on_eose().subscribe();
    let steps: Vec<String> = request.ops.iter().map(describe).collect();
    assert_eq!(steps, vec!["kind:7", "close_on_eose"]);
    assert!(request.close_on_eose);
    let sub = request.subscription(42);
    assert_eq!(sub.handle(), 42);
}

#[test]
fn filter_hex_ids_and_binary_tags() {
    let hex = "ab".repeat(32);
    let request = Filter::new()
        .author_hex(&hex)
        .id_hex(&hex)
        .id(&EventId::from([3u8; 32]))
        .tag_bytes('p', &[9u8; 32])
        .subscribe();
    let steps: Vec<String> = request.ops.iter().map(describe).collect();
    assert_eq!(
        steps,
        vec![format!("author_hex:{}", hex), format!("id_hex:{}", hex), "id:3".to_string(), "tag_bytes:112:9".to_string()]
    );
}

#[test]
fn limit_is_truncated_to_32_bits() {
    let request = Filter::new().limit(usize::MAX).subscribe();
    let steps: Vec<String> = request.ops.iter().map(describe).collect();
    assert_eq!(steps, vec![format!("limit:{}", u32::MAX)]);
}

#[test]
fn default_filter_is_empty() {
    let request = Filter::default().subscribe();
    assert!(request.ops.is_empty());
    assert!(!request.close_on_eose);
}

#[test]
fn ascii_tag_letters() {
    assert!(is_ascii_alphabetic('a'));
    assert!(is_ascii_alphabetic('Z'));
    assert!(!is_ascii_alphabetic('1'));
    assert!(!is_ascii_alphabetic('é'));
}

#[test]
fn static_filter_accumulates_and_restarts() {
    let mut filter = StaticFilter::new();
    filter.kind(6);
    filter.kind(7);
    filter.close_on_eose();
    let first = filter.subscribe();
    let steps: Vec<String> = first.ops.iter().map(describe).collect();
    assert_eq!(steps, vec!["kind:6", "kind:7", "close_on_eose"]);
    assert!(first.close_on_eose);

    filter.limit(3);
    let second = filter.subscribe();
    let steps: Vec<String> = second.ops.iter().map(describe).collect();
    assert_eq!(steps, vec!["limit:3"]);
    assert!(!second.close_on_eose);

    let empty = StaticFilter::default().subscribe();
    assert!(empty.ops.is_empty());
}
