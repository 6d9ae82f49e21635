//! Errors of the SDK.
use vstd::prelude::*;
use vstd::string::StringExecFns;
use crate::hex::string_push;

verus! {

/// nostr-scrolls errors
#[derive(Debug, PartialEq, Eq, Structural, Clone, Copy)]
pub enum Error {
    /// Value exceeds the maximum size representable by [`i32::MAX`].
    SizeOverflow,
    /// The actual value size doesn't match the expected size.
    SizeMismatch {
        /// Expected length of the value.
        expected: usize,
        /// Actual length encountered.
        found: usize,
    },
    /// Invalid tag, it must be an ASCII alphabetic character
    InvalidTag,
}

/// The decimal digit for a value below 10.
pub open spec fn digit_char(d: int) -> char {
    (48 + d) as char
}

/// Decimal text of a natural number, without leading zeros.
pub open spec fn decimal(n: nat) -> Seq<char>
    decreases n,
{
    if n < 10 {
        seq![digit_char(n as int)]
    } else {
        decimal(n / 10).push(digit_char((n % 10) as int))
    }
}

/// The human-readable description of an error.
pub open spec fn error_message(e: Error) -> Seq<char> {
    match e {
        Error::SizeOverflow => "size exceeds maximum allowed value of "@ + decimal(2147483647),
        Error::SizeMismatch { expected, found } => "expected value of size "@ + decimal(
            expected as nat,
        ) + ", got "@ + decimal(found as nat),
        Error::InvalidTag => "invalid tag, should be an ASCII alphabetic character"@,
    }
}

/// Appends the decimal text of `n`.
fn push_decimal(s: &mut String, n: usize)
    ensures
        final(s)@ == old(s)@ + decimal(n as nat),
    decreases n,
{
    if n >= 10 {
        push_decimal(s, n / 10);
    }
    let d = (n % 10) as u8;
    string_push(s, (48 + d) as char);
    assert(final(s)@ =~= old(s)@ + decimal(n as nat)) by {
        if n < 10 {
            assert(n % 10 == n);
        }
    }
}

impl Error {
    /// The human-readable description of the error.
    pub fn message(&self) -> (r: String)
        ensures
            r@ == error_message(*self),
    {
        let mut s = String::new();
        match *self {
            Error::SizeOverflow => {
                s.append("size exceeds maximum allowed value of ");
                push_decimal(&mut s, 2147483647);
            },
            Error::SizeMismatch { expected, found } => {
                s.append("expected value of size ");
                push_decimal(&mut s, expected);
                s.append(", got ");
                push_decimal(&mut s, found);
            },
            Error::InvalidTag => {
                s.append("invalid tag, should be an ASCII alphabetic character");
            },
        }
        assert(s@ =~= error_message(*self));
        s
    }
}

/// The decimal text of a number is made of the digits `0`..`9`, has no leading
/// zero, ends with the units digit, and before it holds the text of the number
/// divided by ten.
pub proof fn lemma_decimal_digits(n: nat)
    ensures
        decimal(n).len() > 0,
        decimal(n).last() == (48 + n % 10) as char,
        n >= 10 ==> decimal(n).drop_last() == decimal(n / 10),
        n < 10 ==> decimal(n).len() == 1,
        n > 0 ==> decimal(n)[0] != '0',
        forall|i: int| 0 <= i < decimal(n).len() ==> '0' <= #[trigger] decimal(n)[i] <= '9',
    decreases n,
{
    if n >= 10 {
        lemma_decimal_digits(n / 10);
        assert(decimal(n).drop_last() =~= decimal(n / 10));
        assert forall|i: int| 0 <= i < decimal(n).len() implies '0' <= #[trigger] decimal(n)[i] <= '9' by {
            if i < decimal(n).len() - 1 {
                assert(decimal(n)[i] == decimal(n / 10)[i]);
            }
        }
        assert(decimal(n)[0] == decimal(n / 10)[0]);
    }
}

} // verus!
