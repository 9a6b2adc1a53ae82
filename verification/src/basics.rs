//! Lines of text. Printing them is left to the caller.

use vstd::prelude::*;

verus! {

/// The line `FOO`, for the caller to print.
pub fn foo() -> (line: &'static str)
    ensures
        line@ == "FOO"@,
{
    "FOO"
}

/// The line `Export test B`, for the caller to print.
pub fn macro_user() -> (line: &'static str)
    ensures
        line@ == "Export test B"@,
{
    "Export test B"
}

} // verus!
