//! The output volume, read from the answer of the sound settings query.

use crate::numbers::{i32_of_text, parse_i32};
use crate::text::{chars_of, trim, trim_slice};
use vstd::prelude::*;

verus! {

/// The volume that an answer shows: the integer that the answer writes once
/// the white space around it is cut off, or -1 where it writes none.
pub open spec fn volume_percent(answer: Seq<char>) -> i32 {
    match i32_of_text(trim(answer)) {
        Some(v) => v,
        None => -1i32,
    }
}

/// Reads the output volume from the answer of the sound settings query.
pub fn parse_volume(answer: &str) -> (v: i32)
    ensures
        v == volume_percent(answer@),
{
    let chars = chars_of(answer);
    match parse_i32(trim_slice(chars.as_slice())) {
        Some(v) => v,
        None => -1,
    }
}

} // verus!
