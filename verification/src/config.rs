//! The settings of a typing test.

use vstd::prelude::*;

verus! {

/// What the user chose for a test.
#[derive(Clone, Copy, Debug, PartialEq, Eq, Structural)]
pub struct TypeingConfig {
    /// The number of words shown in each test.
    pub num_words: usize,
}

} // verus!
