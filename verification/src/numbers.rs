//! Numbers with a sign that the host guarantees.
use vstd::prelude::*;
use crate::params::{ReadParam, le_u32, word_at, as_i32, present_with, read_presence_flag, read_i32};

verus! {

/// A number that can't be negative.
#[derive(Clone, Copy)]
pub struct PositiveNumber(i32);

/// A number that can't be positive.
#[derive(Clone, Copy)]
pub struct NegativeNumber(i32);

impl View for PositiveNumber {
    type V = i32;

    closed spec fn view(&self) -> i32 {
        self.0
    }
}

impl View for NegativeNumber {
    type V = i32;

    closed spec fn view(&self) -> i32 {
        self.0
    }
}

impl PositiveNumber {
    #[verifier::type_invariant]
    closed spec fn inv(self) -> bool {
        self.0 >= 0
    }

}

impl NegativeNumber {
    #[verifier::type_invariant]
    closed spec fn inv(self) -> bool {
        self.0 <= 0
    }

}

/// The `number` parameter at `offset`.
pub open spec fn number_at(buf: Seq<u8>, offset: int) -> int {
    as_i32(le_u32(word_at(buf, offset + 1)))
}

impl<'a> ReadParam<'a> for PositiveNumber {
    /// A present `number` that is not negative.
    open spec fn param_ok(buf: Seq<u8>, offset: int) -> bool {
        present_with(buf, offset, 4) && number_at(buf, offset) >= 0
    }

    open spec fn param_end(buf: Seq<u8>, offset: int) -> int {
        offset + 5
    }

    open spec fn param_is(buf: Seq<u8>, offset: int, v: PositiveNumber) -> bool {
        v@ == number_at(buf, offset)
    }

    fn check_param(buf: &[u8], offset: usize) -> (ok: bool) {
        if !<i32 as ReadParam>::check_param(buf, offset) {
            return false;
        }
        let mut at = offset;
        read_presence_flag(buf, &mut at);
        read_i32(buf, &mut at) >= 0
    }

    fn read_param(buf: &'a [u8], offset: &mut usize) -> (v: PositiveNumber) {
        let num = <i32 as ReadParam>::read_param(buf, offset);
        PositiveNumber(num)
    }
}

impl<'a> ReadParam<'a> for NegativeNumber {
    /// A present `number` that is not positive.
    open spec fn param_ok(buf: Seq<u8>, offset: int) -> bool {
        present_with(buf, offset, 4) && number_at(buf, offset) <= 0
    }

    open spec fn param_end(buf: Seq<u8>, offset: int) -> int {
        offset + 5
    }

    open spec fn param_is(buf: Seq<u8>, offset: int, v: NegativeNumber) -> bool {
        v@ == number_at(buf, offset)
    }

    fn check_param(buf: &[u8], offset: usize) -> (ok: bool) {
        if !<i32 as ReadParam>::check_param(buf, offset) {
            return false;
        }
        let mut at = offset;
        read_presence_flag(buf, &mut at);
        read_i32(buf, &mut at) <= 0
    }

    fn read_param(buf: &'a [u8], offset: &mut usize) -> (v: NegativeNumber) {
        let num = <i32 as ReadParam>::read_param(buf, offset);
        NegativeNumber(num)
    }
}

impl From<PositiveNumber> for u32 {
    fn from(value: PositiveNumber) -> (r: u32)
        ensures
            r == value@,
    {
        proof {
            use_type_invariant(&value);
        }
        value.0 as u32
    }
}

impl vstd::std_specs::convert::FromSpecImpl<PositiveNumber> for u32 {
    open spec fn obeys_from_spec() -> bool {
        true
    }

    open spec fn from_spec(value: PositiveNumber) -> u32 {
        value@ as u32
    }
}

impl From<PositiveNumber> for usize {
    fn from(value: PositiveNumber) -> (r: usize)
        ensures
            r == value@,
    {
        proof {
            use_type_invariant(&value);
        }
        value.0 as usize
    }
}

impl vstd::std_specs::convert::FromSpecImpl<PositiveNumber> for usize {
    open spec fn obeys_from_spec() -> bool {
        true
    }

    open spec fn from_spec(value: PositiveNumber) -> usize {
        value@ as usize
    }
}

impl From<NegativeNumber> for i32 {
    fn from(value: NegativeNumber) -> (r: i32)
        ensures
            r == value@,
    {
        value.0
    }
}

impl vstd::std_specs::convert::FromSpecImpl<NegativeNumber> for i32 {
    open spec fn obeys_from_spec() -> bool {
        true
    }

    open spec fn from_spec(value: NegativeNumber) -> i32 {
        value@
    }
}

impl From<NegativeNumber> for isize {
    fn from(value: NegativeNumber) -> (r: isize)
        ensures
            r == value@,
    {
        value.0 as isize
    }
}

impl vstd::std_specs::convert::FromSpecImpl<NegativeNumber> for isize {
    open spec fn obeys_from_spec() -> bool {
        true
    }

    open spec fn from_spec(value: NegativeNumber) -> isize {
        value@ as isize
    }
}

/// A `number` parameter read as a positive or negative number is the present
/// flag and four bytes of little-endian two's complement; it is well-formed
/// only with the required sign, and the number read is that value.
pub proof fn lemma_signed_number_layout(buf: Seq<u8>, offset: int, p: PositiveNumber, n: NegativeNumber)
    requires
        0 <= offset,
        offset + 5 <= buf.len(),
        buf[offset] == 1,
    ensures
        ({
            let u = buf[offset + 1] + 256 * buf[offset + 2] + 65536 * buf[offset + 3] + 16777216 * buf[
                offset + 4];
            let value = if u < 0x8000_0000 {
                u
            } else {
                u - 0x1_0000_0000
            };
            &&& <PositiveNumber as ReadParam<'static>>::param_ok(buf, offset) <==> value >= 0
            &&& <NegativeNumber as ReadParam<'static>>::param_ok(buf, offset) <==> value <= 0
            &&& <PositiveNumber as ReadParam<'static>>::param_is(buf, offset, p) <==> p@ == value
            &&& <NegativeNumber as ReadParam<'static>>::param_is(buf, offset, n) <==> n@ == value
        }),
        <PositiveNumber as ReadParam<'static>>::param_end(buf, offset) == offset + 5,
        <NegativeNumber as ReadParam<'static>>::param_end(buf, offset) == offset + 5,
{
    crate::params::lemma_word_values(buf, offset + 1);
}

} // verus!
