//! Two callbacks for the tail of a list of tokens, given as text.

use vstd::prelude::*;
use vstd::string::StringSliceAdditionalSpecFns;

verus! {

/// The length of a tail, in bytes.
pub fn compute_len(s: &str) -> (len: Option<usize>)
    ensures
        len == Some(s.spec_bytes().len() as usize),
{
    Some(s.len())
}

/// No length, whatever the tail holds: this callback leaves it to the
/// caller to show the tail.
pub fn show_tail(s: &str) -> (len: Option<usize>)
    ensures
        len is None,
{
    None
}

} // verus!
