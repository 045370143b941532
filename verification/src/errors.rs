//! Errors surfaced by the G-code pipeline.
//!
//! A [`SimpleError`] is a bare message from the stage that detected the
//! problem; a [`LineError`] carries the same message together with the
//! 1-based file line it was detected at, when one is known.

use vstd::prelude::*;
use crate::text::{dec_u64, spec_dec_nat};

verus! {

/// A bare diagnostic message.
#[derive(Debug)]
pub struct SimpleError(pub String);

/// A diagnostic message, annotated with a file line when one is known.
#[derive(Debug)]
pub struct LineError {
    pub error: SimpleError,
    pub line: Option<u64>,
}

impl SimpleError {
    /// Attach a 1-based file line to the message.
    pub fn at_line(self, line: u64) -> (r: LineError)
        ensures
            r.error.0@ == self.0@,
            r.line == Some(line),
    {
        LineError { error: self, line: Some(line) }
    }

    /// Wrap the message without a file line.
    pub fn no_line(self) -> (r: LineError)
        ensures
            r.error.0@ == self.0@,
            r.line is None,
    {
        LineError { error: self, line: None }
    }

    /// The displayed form of the message: `Error: <message>` and a newline.
    pub fn to_text(&self) -> (s: String)
        ensures
            s@ == spec_simple_error_text(self.0@),
    {
        let mut s = String::from_str("Error: ");
        s.append(self.0.as_str());
        s.append("\n");
        s
    }
}

/// The displayed form of a bare message.
pub open spec fn spec_simple_error_text(msg: Seq<char>) -> Seq<char> {
    "Error: "@ + msg + "\n"@
}

/// The displayed form of an annotated message.
pub open spec fn spec_line_error_text(msg: Seq<char>, line: Option<u64>) -> Seq<char> {
    match line {
        Some(n) => "At line "@ + spec_dec_nat(n as nat) + ":\n"@ + spec_simple_error_text(msg),
        None => spec_simple_error_text(msg),
    }
}

impl LineError {
    /// The displayed form: an `At line N:` prefix when a line is known,
    /// then the message.
    pub fn to_text(&self) -> (s: String)
        ensures
            s@ == spec_line_error_text(self.error.0@, self.line),
    {
        match self.line {
            Some(n) => {
                let mut s = String::from_str("At line ");
                let d = dec_u64(n);
                s.append(d.as_str());
                s.append(":\n");
                let t = self.error.to_text();
                s.append(t.as_str());
                s
            },
            None => self.error.to_text(),
        }
    }
}

} // verus!
