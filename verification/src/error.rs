//! The errors of the library: why a caller's input was turned away, and what
//! the table library reported.

use vstd::prelude::*;

verus! {

/// A value that does not fit the fixed-width field it was meant for. It is
/// found before any byte is written, so the builder is as it was.
#[derive(Clone, Copy, Debug, PartialEq, Eq, Structural)]
pub enum ValidationError {
    /// An extension name longer than the name field of a sub-header.
    NameTooLong,
    /// An extension name with a zero byte in it: the field is zero-padded,
    /// so a reader would see the name cut short.
    NameHasNul,
    /// A comment that, with its terminator, is longer than the text field.
    CommentTooLong,
    /// A comment with a zero byte in it.
    CommentHasNul,
    /// A header value whose width is not that of the field it was given for,
    /// or a field that the header of this family does not have.
    FieldMismatch,
    /// A block that would carry the rule past the length its 16-bit offsets
    /// can express.
    RuleTooLong,
}

/// An error that the table library reported: the code that the operating
/// system gave, and the library's words for it.
#[derive(Clone, Copy, Debug, PartialEq)]
pub struct IptcError {
    /// The code of the error.
    pub code: i32,
    /// What the code means, in words.
    pub message: &'static str,
}

impl IptcError {
    /// The error with the given code and message.
    pub fn new(code: i32, message: &'static str) -> (error: IptcError)
        ensures
            error.code == code,
            error.message == message,
    {
        IptcError { code, message }
    }
}

} // verus!
