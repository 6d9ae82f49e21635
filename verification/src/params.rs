//! Decoding of the parameters that the host hands a scroll's `run` function.
//!
//! The host lays the parameters out one after another. Each starts with a
//! presence byte, `0x00` for an absent parameter or `0x01` for a present one,
//! followed, when present, by its payload:
//!
//! | Type         | Payload                                  |
//! | ------------ | ---------------------------------------- |
//! | `public_key` | 32 bytes                                 |
//! | `event`      | i32 handle (little endian)               |
//! | `string`     | u32 length (little endian), UTF-8 bytes  |
//! | `number`     | i32 (little endian)                      |
//! | `timestamp`  | u32 (little endian)                      |
//! | `relay`      | same as `string`                         |
use vstd::prelude::*;
use vstd::utf8::valid_utf8;
use vstd::string::StringSliceAdditionalSpecFns;

verus! {

/// The byte at `offset` is a presence flag: `0x00` or `0x01`.
pub open spec fn presence_ok(buf: Seq<u8>, offset: int) -> bool {
    0 <= offset < buf.len() && (buf[offset] == 0 || buf[offset] == 1)
}

/// The presence flag at `offset` says that a value follows.
pub open spec fn is_present(buf: Seq<u8>, offset: int) -> bool {
    buf[offset] == 1
}

/// The unsigned value of four bytes in little-endian order.
pub open spec fn le_u32(b: Seq<u8>) -> int {
    b[0] + 256 * b[1] + 65536 * b[2] + 16777216 * b[3]
}

/// The unsigned value of four bytes in big-endian order.
pub open spec fn be_u32(b: Seq<u8>) -> int {
    b[3] + 256 * b[2] + 65536 * b[1] + 16777216 * b[0]
}

/// A 32-bit pattern read as a two's complement integer.
pub open spec fn as_i32(x: int) -> int {
    if x < 0x8000_0000 {
        x
    } else {
        x - 0x1_0000_0000
    }
}

/// The four bytes that start at `offset`.
pub open spec fn word_at(buf: Seq<u8>, offset: int) -> Seq<u8> {
    buf.subrange(offset, offset + 4)
}

/// Whether a value is present, by the presence flag at `offset`.
///
/// The flag must be `0x00` (absent) or `0x01` (present).
pub fn peek_presence_flag(buf: &[u8], offset: usize) -> (present: bool)
    requires
        presence_ok(buf@, offset as int),
    ensures
        present == is_present(buf@, offset as int),
{
    buf[offset] == 1
}

/// Whether a value is present, by the presence flag at `*offset`; moves the
/// offset past the flag.
pub fn read_presence_flag(buf: &[u8], offset: &mut usize) -> (present: bool)
    requires
        presence_ok(buf@, *old(offset) as int),
    ensures
        present == is_present(buf@, *old(offset) as int),
        *final(offset) == *old(offset) + 1,
{
    // Reading the length brings its usize bound into the proof of the offsets below.
    let _len = buf.len();
    let present = peek_presence_flag(buf, *offset);
    *offset = *offset + 1;
    present
}

/// The unsigned value of the four bytes at `offset`, little endian.
fn le_u32_at(buf: &[u8], offset: usize) -> (v: u32)
    requires
        offset + 4 <= buf@.len(),
    ensures
        v == le_u32(word_at(buf@, offset as int)),
{
    let b0 = buf[offset] as u32;
    let b1 = buf[offset + 1] as u32;
    let b2 = buf[offset + 2] as u32;
    let b3 = buf[offset + 3] as u32;
    b0 + 256 * b1 + 65536 * b2 + 16777216 * b3
}

/// The unsigned value of the four bytes at `offset`, big endian.
pub fn be_u32_at(buf: &[u8], offset: usize) -> (v: u32)
    requires
        offset + 4 <= buf@.len(),
    ensures
        v == be_u32(word_at(buf@, offset as int)),
{
    let b0 = buf[offset] as u32;
    let b1 = buf[offset + 1] as u32;
    let b2 = buf[offset + 2] as u32;
    let b3 = buf[offset + 3] as u32;
    b3 + 256 * b2 + 65536 * b1 + 16777216 * b0
}

/// Reads a little-endian `u32` at `*offset` and moves the offset past it.
pub fn read_u32(buf: &[u8], offset: &mut usize) -> (v: u32)
    requires
        *old(offset) + 4 <= buf@.len(),
    ensures
        v == le_u32(word_at(buf@, *old(offset) as int)),
        *final(offset) == *old(offset) + 4,
{
    // Reading the length brings its usize bound into the proof of the offsets below.
    let _len = buf.len();
    let v = le_u32_at(buf, *offset);
    *offset = *offset + 4;
    v
}

/// Reads a little-endian `i32` at `*offset` and moves the offset past it.
pub fn read_i32(buf: &[u8], offset: &mut usize) -> (v: i32)
    requires
        *old(offset) + 4 <= buf@.len(),
    ensures
        v == as_i32(le_u32(word_at(buf@, *old(offset) as int))),
        *final(offset) == *old(offset) + 4,
{
    let u = read_u32(buf, offset);
    if u < 0x8000_0000 {
        u as i32
    } else {
        (u - 0x8000_0000) as i32 + i32::MIN
    }
}

/// `core::str::from_utf8`: the string that the bytes encode, when they are
/// valid UTF-8, and `None` otherwise.
#[verifier::external_body]
pub(crate) fn str_from_utf8<'a>(bytes: &'a [u8]) -> (r: Option<&'a str>)
    ensures
        r is Some <==> valid_utf8(bytes@),
        r matches Some(s) ==> s.spec_bytes() == bytes@,
{
    core::str::from_utf8(bytes).ok()
}

/// Reading parameters of a scroll's `run` function from the bytes that the
/// host laid out. Each parameter type implements this trait; `Option<T>` reads
/// an optional parameter.
pub trait ReadParam<'a>: Sized {
    /// The bytes at `offset` hold a well-formed parameter of this type.
    spec fn param_ok(buf: Seq<u8>, offset: int) -> bool;

    /// Where the parameter that starts at `offset` ends.
    spec fn param_end(buf: Seq<u8>, offset: int) -> int;

    /// `v` is the parameter that starts at `offset`.
    spec fn param_is(buf: Seq<u8>, offset: int, v: Self) -> bool;

    /// Whether the bytes at `offset` hold a well-formed parameter.
    fn check_param(buf: &[u8], offset: usize) -> (ok: bool)
        ensures
            ok == Self::param_ok(buf@, offset as int),
    ;

    /// Reads the parameter at `*offset` and moves the offset past it.
    fn read_param(buf: &'a [u8], offset: &mut usize) -> (v: Self)
        requires
            Self::param_ok(buf@, *old(offset) as int),
        ensures
            *final(offset) as int == Self::param_end(buf@, *old(offset) as int),
            Self::param_is(buf@, *old(offset) as int, v),
    ;
}

/// A present flag at `offset` followed by `len` more bytes, all inside `buf`.
pub open spec fn present_with(buf: Seq<u8>, offset: int, len: int) -> bool {
    &&& presence_ok(buf, offset)
    &&& is_present(buf, offset)
    &&& offset + 1 + len <= buf.len()
}

impl<'a> ReadParam<'a> for i32 {
    open spec fn param_ok(buf: Seq<u8>, offset: int) -> bool {
        present_with(buf, offset, 4)
    }

    open spec fn param_end(buf: Seq<u8>, offset: int) -> int {
        offset + 5
    }

    open spec fn param_is(buf: Seq<u8>, offset: int, v: i32) -> bool {
        v == as_i32(le_u32(word_at(buf, offset + 1)))
    }

    fn check_param(buf: &[u8], offset: usize) -> (ok: bool) {
        offset < buf.len() && buf[offset] == 1 && buf.len() - offset - 1 >= 4
    }

    fn read_param(buf: &'a [u8], offset: &mut usize) -> (v: i32) {
        read_presence_flag(buf, offset);
        read_i32(buf, offset)
    }
}

impl<'a> ReadParam<'a> for u32 {
    open spec fn param_ok(buf: Seq<u8>, offset: int) -> bool {
        present_with(buf, offset, 4)
    }

    open spec fn param_end(buf: Seq<u8>, offset: int) -> int {
        offset + 5
    }

    open spec fn param_is(buf: Seq<u8>, offset: int, v: u32) -> bool {
        v == le_u32(word_at(buf, offset + 1))
    }

    fn check_param(buf: &[u8], offset: usize) -> (ok: bool) {
        offset < buf.len() && buf[offset] == 1 && buf.len() - offset - 1 >= 4
    }

    fn read_param(buf: &'a [u8], offset: &mut usize) -> (v: u32) {
        read_presence_flag(buf, offset);
        read_u32(buf, offset)
    }
}

/// The byte length of the string parameter at `offset`.
pub open spec fn str_param_len(buf: Seq<u8>, offset: int) -> int {
    le_u32(word_at(buf, offset + 1))
}

/// The bytes of the string parameter at `offset`.
pub open spec fn str_param_bytes(buf: Seq<u8>, offset: int) -> Seq<u8> {
    buf.subrange(offset + 5, offset + 5 + str_param_len(buf, offset))
}

impl<'a> ReadParam<'a> for &'a str {
    open spec fn param_ok(buf: Seq<u8>, offset: int) -> bool {
        &&& present_with(buf, offset, 4)
        &&& offset + 5 + str_param_len(buf, offset) <= buf.len()
        &&& valid_utf8(str_param_bytes(buf, offset))
    }

    open spec fn param_end(buf: Seq<u8>, offset: int) -> int {
        offset + 5 + str_param_len(buf, offset)
    }

    open spec fn param_is(buf: Seq<u8>, offset: int, v: &'a str) -> bool {
        v.spec_bytes() == str_param_bytes(buf, offset)
    }

    fn check_param(buf: &[u8], offset: usize) -> (ok: bool) {
        if !(offset < buf.len() && buf[offset] == 1 && buf.len() - offset - 1 >= 4) {
            return false;
        }
        let len = le_u32_at(buf, offset + 1) as usize;
        if buf.len() - offset - 5 < len {
            return false;
        }
        let bytes = vstd::slice::slice_subrange(buf, offset + 5, offset + 5 + len);
        str_from_utf8(bytes).is_some()
    }

    fn read_param(buf: &'a [u8], offset: &mut usize) -> (v: &'a str) {
        // Reading the length brings its usize bound into the proof of the offsets below.
        let _total = buf.len();
        read_presence_flag(buf, offset);
        let len = read_u32(buf, offset) as usize;
        let bytes = vstd::slice::slice_subrange(buf, *offset, *offset + len);
        *offset = *offset + len;
        match str_from_utf8(bytes) {
            Some(s) => s,
            None => {
                proof {
                    assert(false);
                }
                ""
            },
        }
    }
}

impl<'a, T: ReadParam<'a>> ReadParam<'a> for Option<T> {
    open spec fn param_ok(buf: Seq<u8>, offset: int) -> bool {
        &&& presence_ok(buf, offset)
        &&& is_present(buf, offset) ==> T::param_ok(buf, offset)
    }

    open spec fn param_end(buf: Seq<u8>, offset: int) -> int {
        if is_present(buf, offset) {
            T::param_end(buf, offset)
        } else {
            offset + 1
        }
    }

    open spec fn param_is(buf: Seq<u8>, offset: int, v: Option<T>) -> bool {
        if is_present(buf, offset) {
            v matches Some(x) && T::param_is(buf, offset, x)
        } else {
            v is None
        }
    }

    fn check_param(buf: &[u8], offset: usize) -> (ok: bool) {
        if !(offset < buf.len() && (buf[offset] == 0 || buf[offset] == 1)) {
            return false;
        }
        if buf[offset] == 0 {
            true
        } else {
            T::check_param(buf, offset)
        }
    }

    fn read_param(buf: &'a [u8], offset: &mut usize) -> (v: Option<T>) {
        // Reading the length brings its usize bound into the proof of the offsets below.
        let _total = buf.len();
        if !peek_presence_flag(buf, *offset) {
            *offset = *offset + 1;
            return None;
        }
        Some(T::read_param(buf, offset))
    }
}

/// Four bytes read as a little-endian number: the first byte is the lowest;
/// as a big-endian number: the first byte is the highest.
pub proof fn lemma_word_values(buf: Seq<u8>, offset: int)
    requires
        0 <= offset,
        offset + 4 <= buf.len(),
    ensures
        le_u32(word_at(buf, offset)) == buf[offset] + 256 * buf[offset + 1] + 65536 * buf[offset + 2]
            + 16777216 * buf[offset + 3],
        be_u32(word_at(buf, offset)) == 16777216 * buf[offset] + 65536 * buf[offset + 1] + 256 * buf[
            offset + 2] + buf[offset + 3],
{
}

/// A string parameter is a present flag, its byte length as a four-byte
/// little-endian number, then that many bytes of UTF-8: reading it ends right
/// after those bytes, and the string read is exactly those bytes.
pub proof fn lemma_str_param_layout<'a>(buf: Seq<u8>, offset: int, v: &'a str)
    requires
        <&'a str as ReadParam<'a>>::param_ok(buf, offset),
    ensures
        buf[offset] == 1,
        <&'a str as ReadParam<'a>>::param_end(buf, offset) == offset + 5 + buf[offset + 1] + 256 * buf[
            offset + 2] + 65536 * buf[offset + 3] + 16777216 * buf[offset + 4],
        <&'a str as ReadParam<'a>>::param_end(buf, offset) <= buf.len(),
        <&'a str as ReadParam<'a>>::param_is(buf, offset, v) <==> v.spec_bytes() =~= buf.subrange(
            offset + 5,
            <&'a str as ReadParam<'a>>::param_end(buf, offset),
        ),
{
    lemma_word_values(buf, offset + 1);
}

/// A `timestamp` parameter is a present flag and a four-byte little-endian
/// number, which is the value read.
pub proof fn lemma_u32_param_layout(buf: Seq<u8>, offset: int, v: u32)
    requires
        <u32 as ReadParam<'static>>::param_ok(buf, offset),
    ensures
        buf[offset] == 1,
        <u32 as ReadParam<'static>>::param_end(buf, offset) == offset + 5,
        <u32 as ReadParam<'static>>::param_is(buf, offset, v) <==> v == buf[offset + 1] + 256 * buf[offset + 2]
            + 65536 * buf[offset + 3] + 16777216 * buf[offset + 4],
{
    lemma_word_values(buf, offset + 1);
}

/// A `number` parameter is a present flag and a four-byte little-endian
/// two's complement number, which is the value read.
pub proof fn lemma_i32_param_layout(buf: Seq<u8>, offset: int, v: i32)
    requires
        <i32 as ReadParam<'static>>::param_ok(buf, offset),
    ensures
        buf[offset] == 1,
        <i32 as ReadParam<'static>>::param_end(buf, offset) == offset + 5,
        <i32 as ReadParam<'static>>::param_is(buf, offset, v) <==> v == {
            let u = buf[offset + 1] + 256 * buf[offset + 2] + 65536 * buf[offset + 3] + 16777216 * buf[
                offset + 4];
            if u < 0x8000_0000 {
                u
            } else {
                u - 0x1_0000_0000
            }
        },
{
    lemma_word_values(buf, offset + 1);
}

/// An absent optional parameter is the single byte `0x00`: reading it gives
/// `None` and moves past that byte. A present one is read as the parameter
/// itself.
pub proof fn lemma_option_param_layout<'a, T: ReadParam<'a>>(buf: Seq<u8>, offset: int, v: Option<T>)
    requires
        0 <= offset < buf.len(),
    ensures
        buf[offset] == 0 ==> <Option<T> as ReadParam<'a>>::param_ok(buf, offset),
        buf[offset] == 0 ==> <Option<T> as ReadParam<'a>>::param_end(buf, offset) == offset + 1,
        buf[offset] == 0 ==> (<Option<T> as ReadParam<'a>>::param_is(buf, offset, v) <==> v is None),
        buf[offset] == 1 ==> (<Option<T> as ReadParam<'a>>::param_ok(buf, offset) <==> T::param_ok(buf, offset)),
        buf[offset] == 1 ==> <Option<T> as ReadParam<'a>>::param_end(buf, offset) == T::param_end(buf, offset),
        buf[offset] == 1 ==> (<Option<T> as ReadParam<'a>>::param_is(buf, offset, v) <==> (v matches Some(x)
            && T::param_is(buf, offset, x))),
        buf[offset] > 1 ==> !<Option<T> as ReadParam<'a>>::param_ok(buf, offset),
{
}

} // verus!
