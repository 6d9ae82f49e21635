//! Hexadecimal text for 32-byte values (keys and event ids).
use vstd::prelude::*;
use vstd::utf8::{encode_utf8, is_ascii_chars, is_ascii_chars_encode_utf8};

verus! {

/// The value of a hexadecimal digit, upper or lower case, by its character
/// code; -1 for anything else.
pub open spec fn hex_value(c: int) -> int {
    if 48 <= c <= 57 {
        c - 48
    } else if 97 <= c <= 102 {
        c - 87
    } else if 65 <= c <= 70 {
        c - 55
    } else {
        -1
    }
}

/// The text is exactly 64 hexadecimal digits.
pub open spec fn hex32_ok(text: Seq<u8>) -> bool {
    &&& text.len() == 64
    &&& forall|i: int| 0 <= i < 64 ==> hex_value(#[trigger] text[i] as int) >= 0
}

/// The 32 bytes that 64 hexadecimal digits spell, high digit first.
pub open spec fn hex32_bytes(text: Seq<u8>) -> Seq<u8> {
    Seq::new(
        32,
        |i: int| (16 * hex_value(text[2 * i] as int) + hex_value(text[2 * i + 1] as int)) as u8,
    )
}

/// The 32 bytes that the text spells, when it is 64 hexadecimal digits.
pub open spec fn decode_hex32(text: Seq<u8>) -> Option<Seq<u8>> {
    if hex32_ok(text) {
        Some(hex32_bytes(text))
    } else {
        None
    }
}

/// The lower-case hexadecimal digit for a value below 16.
pub open spec fn hex_char(n: int) -> char {
    if n < 10 {
        (48 + n) as char
    } else {
        (87 + n) as char
    }
}

/// Lower-case hexadecimal text of the bytes, two digits per byte, high first.
pub open spec fn hex_lower(b: Seq<u8>) -> Seq<char> {
    Seq::new(
        2 * b.len(),
        |i: int|
            if i % 2 == 0 {
                hex_char((b[i / 2] / 16) as int)
            } else {
                hex_char((b[i / 2] % 16) as int)
            },
    )
}

/// `String::push`: appends the character.
#[verifier::external_body]
pub(crate) fn string_push(s: &mut String, c: char)
    ensures
        final(s)@ == old(s)@.push(c),
{
    s.push(c)
}

/// The lower-case hexadecimal digit for `n`.
fn hex_digit(n: u8) -> (c: char)
    requires
        n < 16,
    ensures
        c == hex_char(n as int),
{
    if n < 10 {
        (48 + n) as char
    } else {
        (87 + n) as char
    }
}

/// Lower-case hexadecimal text of the bytes.
pub fn encode_hex_lower(bytes: &[u8]) -> (s: String)
    ensures
        s@ == hex_lower(bytes@),
{
    let mut s = String::new();
    let n = bytes.len();
    let mut i: usize = 0;
    while i < n
        invariant
            n == bytes@.len(),
            0 <= i <= n,
            s@.len() == 2 * i,
            forall|j: int| 0 <= j < 2 * i ==> #[trigger] s@[j] == hex_lower(bytes@)[j],
        decreases n - i,
    {
        let b = bytes[i];
        let ghost before = s@;
        string_push(&mut s, hex_digit(b / 16));
        string_push(&mut s, hex_digit(b % 16));
        proof {
            let h = hex_lower(bytes@);
            assert(h[2 * i as int] == hex_char((b / 16) as int));
            assert(h[2 * i + 1] == hex_char((b % 16) as int)) by {
                assert((2 * i + 1) / 2 == i as int);
                assert((2 * i + 1) % 2 == 1);
            }
            assert forall|j: int| 0 <= j < 2 * (i + 1) implies #[trigger] s@[j] == h[j] by {
                if j < 2 * i {
                    assert(s@[j] == before[j]);
                }
            }
        }
        i = i + 1;
    }
    assert(s@ =~= hex_lower(bytes@));
    s
}

/// The value of the hexadecimal digit with character code `c`, if it is one.
fn digit_value(c: u8) -> (v: Option<u8>)
    ensures
        match v {
            Some(x) => hex_value(c as int) >= 0 && x == hex_value(c as int),
            None => hex_value(c as int) < 0,
        },
{
    if 48 <= c && c <= 57 {
        Some(c - 48)
    } else if 97 <= c && c <= 102 {
        Some(c - 87)
    } else if 65 <= c && c <= 70 {
        Some(c - 55)
    } else {
        None
    }
}

/// The 32 bytes that the text spells, when it is exactly 64 hexadecimal
/// digits; `None` otherwise.
pub fn hex32_from_bytes(text: &[u8]) -> (r: Option<[u8; 32]>)
    ensures
        match r {
            Some(b) => decode_hex32(text@) == Some(b@),
            None => decode_hex32(text@) is None,
        },
{
    if text.len() != 64 {
        return None;
    }
    let mut out = [0u8; 32];
    let mut i: usize = 0;
    while i < 32
        invariant
            text@.len() == 64,
            out@.len() == 32,
            0 <= i <= 32,
            forall|j: int| 0 <= j < 2 * i ==> hex_value(#[trigger] text@[j] as int) >= 0,
            forall|j: int| 0 <= j < i ==> #[trigger] out@[j] == hex32_bytes(text@)[j],
        decreases 32 - i,
    {
        let hi = digit_value(text[2 * i]);
        let lo = digit_value(text[2 * i + 1]);
        match (hi, lo) {
            (Some(h), Some(l)) => {
                out[i] = 16 * h + l;
            },
            _ => {
                return None;
            },
        }
        i = i + 1;
    }
    assert(out@ =~= hex32_bytes(text@));
    Some(out)
}

/// Decoding the UTF-8 bytes of the lower-case text of 32 bytes gives the
/// bytes back.
pub proof fn lemma_hex_roundtrip(b: Seq<u8>)
    requires
        b.len() == 32,
    ensures
        decode_hex32(encode_utf8(hex_lower(b))) == Some(b),
{
    let h = hex_lower(b);
    assert(is_ascii_chars(h)) by {
        assert forall|i: int| 0 <= i < h.len() implies '\0' <= #[trigger] h[i] <= '\u{7f}' by {
            let v = if i % 2 == 0 { b[i / 2] / 16 } else { b[i / 2] % 16 };
            assert(h[i] == hex_char(v as int));
        }
    }
    is_ascii_chars_encode_utf8(h);
    let t = encode_utf8(h);
    assert forall|i: int| 0 <= i < 64 implies hex_value(#[trigger] t[i] as int) >= 0 by {
        let v = if i % 2 == 0 { b[i / 2] / 16 } else { b[i / 2] % 16 };
        assert(h[i] == hex_char(v as int));
        assert(h[i] as u8 == t[i]);
    }
    assert forall|i: int| 0 <= i < 32 implies #[trigger] hex32_bytes(t)[i] == b[i] by {
        assert(h[2 * i] == hex_char((b[i] / 16) as int));
        assert(h[2 * i + 1] == hex_char((b[i] % 16) as int)) by {
            assert((2 * i + 1) / 2 == i);
            assert((2 * i + 1) % 2 == 1);
        }
        assert(h[2 * i] as u8 == t[2 * i]);
        assert(h[2 * i + 1] as u8 == t[2 * i + 1]);
    }
    assert(hex32_bytes(t) =~= b);
}

/// The hexadecimal text of bytes has two characters per byte, high four bits
/// first; a digit below ten is `0`..`9` and one of ten or more is `a`..`f`.
pub proof fn lemma_hex_lower_digits(b: Seq<u8>)
    ensures
        hex_lower(b).len() == 2 * b.len(),
        forall|i: int|
            0 <= i < b.len() ==> {
                let hi = #[trigger] b[i] as int / 16;
                let lo = b[i] as int % 16;
                &&& hex_lower(b)[2 * i] == if hi < 10 {
                    (48 + hi) as char
                } else {
                    (97 + (hi - 10)) as char
                }
                &&& hex_lower(b)[2 * i + 1] == if lo < 10 {
                    (48 + lo) as char
                } else {
                    (97 + (lo - 10)) as char
                }
            },
{
    assert forall|i: int| 0 <= i < b.len() implies {
        let hi = #[trigger] b[i] as int / 16;
        let lo = b[i] as int % 16;
        &&& hex_lower(b)[2 * i] == if hi < 10 {
            (48 + hi) as char
        } else {
            (97 + (hi - 10)) as char
        }
        &&& hex_lower(b)[2 * i + 1] == if lo < 10 {
            (48 + lo) as char
        } else {
            (97 + (lo - 10)) as char
        }
    } by {
        assert((2 * i) / 2 == i && (2 * i) % 2 == 0);
        assert((2 * i + 1) / 2 == i && (2 * i + 1) % 2 == 1);
    }
}

/// Text decodes to 32 bytes exactly when it is 64 hexadecimal digits (`0`..`9`,
/// `a`..`f` or `A`..`F`); byte `i` is then 16 times the value of digit `2i`
/// plus the value of digit `2i + 1`.
pub proof fn lemma_decode_hex32_digits(t: Seq<u8>)
    ensures
        decode_hex32(t) is Some <==> (t.len() == 64 && forall|k: int|
            0 <= k < 64 ==> (48 <= #[trigger] t[k] <= 57 || 65 <= t[k] <= 70 || 97 <= t[k] <= 102)),
        decode_hex32(t) is Some ==> decode_hex32(t).unwrap().len() == 32,
        decode_hex32(t) is Some ==> forall|i: int|
            0 <= i < 32 ==> #[trigger] decode_hex32(t).unwrap()[i] as int == 16 * (if t[2 * i] <= 57 {
                t[2 * i] - 48
            } else if t[2 * i] <= 70 {
                t[2 * i] - 55
            } else {
                t[2 * i] - 87
            }) + (if t[2 * i + 1] <= 57 {
                t[2 * i + 1] - 48
            } else if t[2 * i + 1] <= 70 {
                t[2 * i + 1] - 55
            } else {
                t[2 * i + 1] - 87
            }),
{
    if decode_hex32(t) is Some {
        assert forall|i: int| 0 <= i < 32 implies #[trigger] decode_hex32(t).unwrap()[i] as int == 16 * (if t[2 * i] <= 57 {
            t[2 * i] - 48
        } else if t[2 * i] <= 70 {
            t[2 * i] - 55
        } else {
            t[2 * i] - 87
        }) + (if t[2 * i + 1] <= 57 {
            t[2 * i + 1] - 48
        } else if t[2 * i + 1] <= 70 {
            t[2 * i + 1] - 55
        } else {
            t[2 * i + 1] - 87
        }) by {
            assert(hex_value(t[2 * i] as int) >= 0);
            assert(hex_value(t[2 * i + 1] as int) >= 0);
        }
    }
}

} // verus!
