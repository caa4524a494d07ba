//! The one error type of the library.

use vstd::prelude::*;
use vstd::string::*;

use crate::decimal::{decimal, to_decimal};

verus! {

/// A failure, carried as a message for the user.
#[derive(Debug)]
pub struct TypeingError {
    pub msg: String,
}

/// What is said of a terminal of `rows` rows where `required` rows are needed.
pub open spec fn height_message(required: nat, rows: nat) -> Seq<char> {
    "终端高度太短! Typeing 至少需要 "@ + decimal(required) + " 行，得到 "@ + decimal(rows) + " 行"@
}

/// What is said of a terminal of `cols` columns where `required` columns are
/// needed.
pub open spec fn width_message(required: nat, cols: nat) -> Seq<char> {
    "终端宽度太低! Typeing 至少需要 "@ + decimal(required) + " 列，得到 "@ + decimal(cols) + " 列"@
}

/// How the error shows itself when it ends the program.
pub open spec fn report(msg: Seq<char>) -> Seq<char> {
    "TypeingError: "@ + msg
}

impl TypeingError {
    /// The error for a terminal that has too few rows.
    pub fn too_few_rows(required: u128, rows: u16) -> (e: TypeingError)
        ensures
            e.msg@ == height_message(required as nat, rows as nat),
    {
        let mut msg = String::from_str("终端高度太短! Typeing 至少需要 ");
        msg.append(to_decimal(required).as_str());
        msg.append(" 行，得到 ");
        msg.append(to_decimal(rows as u128).as_str());
        msg.append(" 行");
        TypeingError { msg }
    }

    /// The error for a terminal that has too few columns.
    pub fn too_few_columns(required: u128, cols: u16) -> (e: TypeingError)
        ensures
            e.msg@ == width_message(required as nat, cols as nat),
    {
        let mut msg = String::from_str("终端宽度太低! Typeing 至少需要 ");
        msg.append(to_decimal(required).as_str());
        msg.append(" 列，得到 ");
        msg.append(to_decimal(cols as u128).as_str());
        msg.append(" 列");
        TypeingError { msg }
    }

    /// The line that reports the error: its message behind the type's name.
    pub fn to_report(&self) -> (r: String)
        ensures
            r@ == report(self.msg@),
    {
        String::from_str("TypeingError: ").concat(self.msg.as_str())
    }
}

impl From<String> for TypeingError {
    fn from(value: String) -> (e: TypeingError) {
        TypeingError { msg: value }
    }
}

impl vstd::std_specs::convert::FromSpecImpl<String> for TypeingError {
    open spec fn obeys_from_spec() -> bool {
        true
    }

    open spec fn from_spec(value: String) -> TypeingError {
        TypeingError { msg: value }
    }
}

} // verus!
