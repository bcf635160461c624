//! Error values.

use crate::text::Text;
use vstd::prelude::*;
use vstd::string::StringExecFns;

verus! {

/// Failure inside the parser: a numeral, a hemisphere letter or a range was not
/// as it should be, or no layout matched.
#[derive(Debug)]
pub struct ParseErrorInternal;

impl ParseErrorInternal {
    /// What the error says when shown.
    pub fn message(&self) -> (r: String)
        ensures
            r@ == "Parse error"@,
    {
        String::from_str("Parse error")
    }
}

/// Failure of a parse function. It wraps the text that was given, untouched.
#[derive(Debug)]
pub struct GeoParseError<T: Text>(pub T);

impl<T: Text> GeoParseError<T> {
    /// What the error says when shown: a fixed lead, then the text that failed.
    pub fn message(&self) -> (r: String)
        ensures
            r@ == "Error parsing coordinates from "@ + self.0.text(),
    {
        let mut r = String::from_str("Error parsing coordinates from ");
        r.append(self.0.as_text());
        r
    }
}

} // verus!
