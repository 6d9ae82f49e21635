//! Reading what the host writes into the scroll's memory, and checking sizes
//! of what is handed to the host.
use vstd::prelude::*;
use vstd::utf8::valid_utf8;
use vstd::string::StringSliceAdditionalSpecFns;
use crate::errors::Error;
use crate::params::{be_u32, be_u32_at, str_from_utf8, word_at};

verus! {

/// Ensures a length matches an expected value, failing with a detailed
/// mismatch error.
pub fn compare_size(size: usize, expected: usize) -> (r: Result<(), Error>)
    ensures
        r == (if size != expected {
            Err(Error::SizeMismatch { expected, found: size })
        } else {
            Ok(())
        }),
{
    if size != expected {
        return Err(Error::SizeMismatch { expected, found: size });
    }
    Ok(())
}

/// Validates that a byte length fits within a signed 32-bit integer.
pub fn ensure_size(size: usize) -> (r: Result<(), Error>)
    ensures
        r == (if size > i32::MAX {
            Err(Error::SizeOverflow)
        } else {
            Ok(())
        }),
{
    if size > 2147483647 {
        return Err(Error::SizeOverflow);
    }
    Ok(())
}

/// The byte length of the length-prefixed string at the start of `mem`.
pub open spec fn prefixed_len(mem: Seq<u8>) -> int {
    be_u32(word_at(mem, 0))
}

/// The bytes of the length-prefixed string at the start of `mem`.
pub open spec fn prefixed_bytes(mem: Seq<u8>) -> Seq<u8> {
    mem.subrange(4, 4 + prefixed_len(mem))
}

/// `mem` starts with a 4-byte big-endian length followed by that many bytes
/// of UTF-8.
pub open spec fn prefixed_string_ok(mem: Seq<u8>) -> bool {
    &&& 4 <= mem.len()
    &&& 4 + prefixed_len(mem) <= mem.len()
    &&& valid_utf8(prefixed_bytes(mem))
}

/// Whether `mem` starts with a well-formed length-prefixed string.
pub fn slice_string_ok(mem: &[u8]) -> (ok: bool)
    ensures
        ok == prefixed_string_ok(mem@),
{
    if mem.len() < 4 {
        return false;
    }
    let len = be_u32_at(mem, 0) as usize;
    if mem.len() - 4 < len {
        return false;
    }
    let bytes = vstd::slice::slice_subrange(mem, 4, 4 + len);
    str_from_utf8(bytes).is_some()
}

/// Reads a length-prefixed UTF-8 string: a 4-byte big-endian length at the
/// start of `mem`, followed by that many bytes of string data. The result
/// borrows from `mem`.
pub fn read_slice_string<'a>(mem: &'a [u8]) -> (s: &'a str)
    requires
        prefixed_string_ok(mem@),
    ensures
        s.spec_bytes() == prefixed_bytes(mem@),
{
    // Reading the length brings its usize bound into the proof of the offsets below.
    let _total = mem.len();
    let len = be_u32_at(mem, 0) as usize;
    let bytes = vstd::slice::slice_subrange(mem, 4, 4 + len);
    match str_from_utf8(bytes) {
        Some(s) => s,
        None => {
            proof {
                assert(false);
            }
            ""
        },
    }
}

/// A length-prefixed string is a four-byte big-endian length, highest byte
/// first, followed by that many bytes, which are the string.
pub proof fn lemma_prefixed_layout(mem: Seq<u8>)
    requires
        4 <= mem.len(),
    ensures
        prefixed_len(mem) == 16777216 * mem[0] + 65536 * mem[1] + 256 * mem[2] + mem[3],
        prefixed_string_ok(mem) ==> prefixed_bytes(mem) =~= mem.subrange(
            4,
            4 + 16777216 * mem[0] + 65536 * mem[1] + 256 * mem[2] + mem[3],
        ),
{
    crate::params::lemma_word_values(mem, 0);
}

} // verus!
