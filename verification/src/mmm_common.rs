//! What a key press asks of the filter text.

use vstd::prelude::*;

verus! {

/// A change to the filter text, or the wish to leave.
#[derive(Clone, Copy, Debug, PartialEq, Eq, Structural)]
pub enum UpdateType {
    NoUpdate,
    Quit,
    Char(char),
    Backspace,
    Clear,
}

} // verus!
