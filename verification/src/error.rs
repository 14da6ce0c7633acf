//! The error taxonomy of the report parser.

use vstd::prelude::*;

verus! {

/// An error that occurred while processing report data from Timewarrior.
///
/// The taxonomy is flat: reading the input failed, the session body failed
/// to decode, or the header was not shaped as `key: value` lines followed by
/// a blank-line separator.  Diagnostic text rides along as a string payload.
#[derive(Debug)]
pub enum ReportError {
    /// The input stream could not be fully read.
    IO(String),
    /// The session body failed to parse as the expected JSON shape,
    /// including timestamp-format violations.
    Decode(String),
    /// The header/body separator or a header line's key/value separator
    /// was missing.
    MalformedInput(String),
}

impl ReportError {
    /// The diagnostic text carried by the error.
    pub open spec fn text(&self) -> Seq<char> {
        match self {
            ReportError::IO(s) => s@,
            ReportError::Decode(s) => s@,
            ReportError::MalformedInput(s) => s@,
        }
    }

    /// Borrow the diagnostic text.
    pub fn message(&self) -> (r: &String)
        ensures
            r@ == self.text(),
    {
        match self {
            ReportError::IO(s) => s,
            ReportError::Decode(s) => s,
            ReportError::MalformedInput(s) => s,
        }
    }

    /// A display form: the kind of the error followed by its diagnostic text.
    pub fn display_string(&self) -> (r: String)
        ensures
            match self {
                ReportError::IO(s) => r@ == "IOError: "@ + s@,
                ReportError::Decode(s) => r@ == "DecodeError: "@ + s@,
                ReportError::MalformedInput(s) => r@ == "MalformedInputError: "@ + s@,
            },
    {
        match self {
            ReportError::IO(s) => String::from_str("IOError: ").concat(s.as_str()),
            ReportError::Decode(s) => String::from_str("DecodeError: ").concat(s.as_str()),
            ReportError::MalformedInput(s) => {
                String::from_str("MalformedInputError: ").concat(s.as_str())
            },
        }
    }
}

} // verus!
