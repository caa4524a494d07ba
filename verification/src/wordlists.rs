//! The word lists that a test can draw from.

use vstd::prelude::*;

verus! {

/// A word list that comes with the program, or the one of the system.
#[derive(Clone, Copy, Debug, PartialEq, Eq, PartialOrd, Structural)]
pub enum BuiltInWordlist {
    /// The 250 most frequent English words.
    Top250,
    /// The 500 most frequent English words.
    Top500,
    /// The 1000 most frequent English words.
    Top1000,
    /// The 2500 most frequent English words.
    Top2500,
    /// The 5000 most frequent English words.
    Top5000,
    /// The 10000 most frequent English words.
    Top10000,
    /// The 25000 most frequent English words.
    Top25000,
    /// English words that are often misspelled.
    CommonlyMisspelled,
    /// The word list of the operating system.
    OS,
}

} // verus!
