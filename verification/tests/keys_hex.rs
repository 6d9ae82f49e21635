use nostr_scrolls::hex::{encode_hex_lower, hex32_from_bytes};
use nostr_scrolls::{EventId, PublicKey};

fn sample() -> [u8; 32] {
    core::array::from_fn(|i| (i as u8).wrapping_mul(7).wrapping_add(3))
}

#[test]
fn short_forms() {
    let bytes = sample();
    let key = PublicKey::from(bytes);
    let short = key.short();
    assert!(key.matches_short(&short));
    let other = PublicKey::from([0u8; 32]);
    assert!(!other.matches_short(&short));
    assert!(short == key.short());

    let id = EventId::from(bytes);
    let sid = id.short();
    assert!(id.matches_short(&sid));
    assert!(!EventId::from([9u8; 32]).matches_short(&sid));
}

#[test]
fn short_form_differs_only_in_middle() {
    let mut a = [0u8; 32];
    let mut b = [0u8; 32];
    a[10] = 1;
    b[20] = 2;
    let ka = PublicKey::from(a);
    let kb = PublicKey::from(b);
    assert!(ka.matches_short(&kb.short()));
    assert!(!(ka == kb));
    let mut c = [0u8; 32];
    c[31] = 1;
    assert!(!PublicKey::from(c).matches_short(&ka.short()));
}

#[test]
fn hex_encoding() {
    let s = encode_hex_lower(&[0x00, 0x0f, 0xab, 0xff]);
    assert_eq!(s, "000fabff");
}

#[test]
fn hex_roundtrip() {
    let bytes = sample();
    let text = encode_hex_lower(&bytes);
    assert_eq!(text.len(), 64);
    assert_eq!(hex32_from_bytes(text.as_bytes()), Some(bytes));
    let upper = text.to_uppercase();
    assert_eq!(hex32_from_bytes(upper.as_bytes()), Some(bytes));
}

#[test]
fn hex_decoding_refusals() {
    assert_eq!(hex32_from_bytes(b"abcd"), None);
    let mut text = "0".repeat(64).into_bytes();
    text[5] = b'g';
    assert_eq!(hex32_from_bytes(&text), None);
}
