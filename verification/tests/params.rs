use nostr_scrolls::params::{peek_presence_flag, read_i32, read_presence_flag, read_u32};
use nostr_scrolls::{NegativeNumber, PositiveNumber, PublicKey, ReadParam};

#[test]
fn presence_flags() {
    let buf = [0u8, 1u8];
    assert!(!peek_presence_flag(&buf, 0));
    assert!(peek_presence_flag(&buf, 1));
    let mut offset = 0usize;
    assert!(!read_presence_flag(&buf, &mut offset));
    assert_eq!(offset, 1);
    assert!(read_presence_flag(&buf, &mut offset));
    assert_eq!(offset, 2);
}

#[test]
fn little_endian_integers() {
    let buf = [0x78u8, 0x56, 0x34, 0x12, 0xff, 0xff, 0xff, 0xff];
    let mut offset = 0usize;
    assert_eq!(read_u32(&buf, &mut offset), 0x1234_5678);
    assert_eq!(offset, 4);
    assert_eq!(read_i32(&buf, &mut offset), -1);
    assert_eq!(offset, 8);
}

#[test]
fn required_numbers() {
    let buf = [1u8, 0x2a, 0, 0, 0, 1, 0xfe, 0xff, 0xff, 0xff];
    let mut offset = 0usize;
    assert!(<u32 as ReadParam>::check_param(&buf, 0));
    assert_eq!(<u32 as ReadParam>::read_param(&buf, &mut offset), 42);
    assert_eq!(offset, 5);
    assert_eq!(<i32 as ReadParam>::read_param(&buf, &mut offset), -2);
    assert_eq!(offset, 10);
}

#[test]
fn absent_required_number_is_refused() {
    let buf = [0u8, 1, 2, 3, 4];
    assert!(!<i32 as ReadParam>::check_param(&buf, 0));
    let short = [1u8, 1, 2];
    assert!(!<i32 as ReadParam>::check_param(&short, 0));
}

#[test]
fn optional_parameters() {
    let buf = [0u8, 1, 7, 0, 0, 0];
    let mut offset = 0usize;
    assert!(<Option<i32> as ReadParam>::check_param(&buf, 0));
    assert_eq!(<Option<i32> as ReadParam>::read_param(&buf, &mut offset), None);
    assert_eq!(offset, 1);
    assert_eq!(<Option<i32> as ReadParam>::read_param(&buf, &mut offset), Some(7));
    assert_eq!(offset, 6);
    let bad = [2u8];
    assert!(!<Option<i32> as ReadParam>::check_param(&bad, 0));
}

#[test]
fn string_parameter() {
    let mut buf = vec![1u8, 5, 0, 0, 0];
    buf.extend_from_slice(b"hello");
    buf.push(9);
    let mut offset = 0usize;
    assert!(<&str as ReadParam>::check_param(&buf, 0));
    let s = <&str as ReadParam>::read_param(&buf, &mut offset);
    assert_eq!(s, "hello");
    assert_eq!(offset, 10);
}

#[test]
fn string_parameter_invalid_utf8_or_short() {
    let buf = [1u8, 2, 0, 0, 0, 0xff, 0xfe];
    assert!(!<&str as ReadParam>::check_param(&buf, 0));
    let short = [1u8, 9, 0, 0, 0, b'a'];
    assert!(!<&str as ReadParam>::check_param(&short, 0));
}

#[test]
fn public_key_parameter() {
    let mut buf = vec![1u8];
    for i in 0..32u8 {
        buf.push(i);
    }
    let mut offset = 0usize;
    assert!(<PublicKey as ReadParam>::check_param(&buf, 0));
    let key = <PublicKey as ReadParam>::read_param(&buf, &mut offset);
    assert_eq!(offset, 33);
    let expected: [u8; 32] = core::array::from_fn(|i| i as u8);
    assert_eq!(key.as_bytes(), &expected);
    assert!(!<PublicKey as ReadParam>::check_param(&buf[..20], 0));
}

#[test]
fn signed_number_parameters() {
    let positive = [1u8, 3, 0, 0, 0];
    let negative = [1u8, 0xfd, 0xff, 0xff, 0xff];
    assert!(<PositiveNumber as ReadParam>::check_param(&positive, 0));
    assert!(!<PositiveNumber as ReadParam>::check_param(&negative, 0));
    assert!(<NegativeNumber as ReadParam>::check_param(&negative, 0));
    assert!(!<NegativeNumber as ReadParam>::check_param(&positive, 0));

    let mut offset = 0usize;
    let p = <PositiveNumber as ReadParam>::read_param(&positive, &mut offset);
    assert_eq!(u32::from(p), 3);
    assert_eq!(usize::from(p), 3);
    let mut offset = 0usize;
    let n = <NegativeNumber as ReadParam>::read_param(&negative, &mut offset);
    assert_eq!(i32::from(n), -3);
    assert_eq!(isize::from(n), -3);
}

#[test]
fn zero_is_both_signs() {
    let zero = [1u8, 0, 0, 0, 0];
    assert!(<PositiveNumber as ReadParam>::check_param(&zero, 0));
    assert!(<NegativeNumber as ReadParam>::check_param(&zero, 0));
}
