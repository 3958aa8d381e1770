//! Lenient reading of switches.

use crate::error::IntError;
use crate::text::{decimal, parse_decimal};
use vstd::prelude::*;

verus! {

/// A value that can be read from the text of a number, without failing.
pub trait Parse: Sized {
    fn int_parse(value: String) -> Self;
}

/// Whether `text` writes the number one. Text that writes no number stands
/// for zero.
pub open spec fn writes_one(text: Seq<char>) -> bool {
    decimal(text, u64::MAX as nat) == Ok::<nat, IntError>(1)
}

impl Parse for bool {
    /// A switch is on where its text writes the number one, and off for any
    /// other text.
    #[inline]
    fn int_parse(value: String) -> (on: bool)
        ensures
            on == writes_one(value@),
    {
        match parse_decimal(value.as_str(), u64::MAX) {
            Ok(number) => number == 1,
            Err(_) => false,
        }
    }
}

} // verus!
