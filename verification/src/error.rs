//! The error that every stage of the pipeline reports: where, and what.

use vstd::prelude::*;
use vstd::string::StringExecFns;
use crate::text::{decimal, push_char, push_decimal};

verus! {

/// An error in a source file: the file, the line counted from one, and a message.
#[derive(Clone, Debug, PartialEq)]
pub struct FlushError(pub String, pub usize, pub String);

/// The mathematical value of a [`FlushError`].
pub ghost struct FlushErrorView {
    pub file: Seq<char>,
    pub line: usize,
    pub message: Seq<char>,
}

impl DeepView for FlushError {
    type V = FlushErrorView;

    open spec fn deep_view(&self) -> FlushErrorView {
        FlushErrorView { file: self.0@, line: self.1, message: self.2@ }
    }
}

/// The text shown for an error: the place on one line, the message on the next.
pub open spec fn rendering(e: FlushErrorView) -> Seq<char> {
    "=> "@ + e.file + seq![':'] + decimal(e.line as nat) + seq!['\n'] + "error: "@ + e.message
}

impl FlushError {
    /// The text shown for this error.
    pub fn to_string(&self) -> (r: String)
        ensures
            r@ == rendering(self.deep_view()),
    {
        let mut out = String::from_str("=> ");
        out.append(self.0.as_str());
        push_char(&mut out, ':');
        push_decimal(&mut out, self.1 as u64);
        push_char(&mut out, '\n');
        out.append("error: ");
        out.append(self.2.as_str());
        out
    }
}

} // verus!
