use vstd::prelude::*;

verus! {

/// A field that may appear once in a chart appeared twice.
#[derive(Debug)]
pub struct DuplicateFieldError(pub &'static str);

impl DuplicateFieldError {
    /// The message for this error: ``Duplicate map field `name` ``.
    pub fn message(&self) -> (m: String)
        ensures
            m@ == "Duplicate map field `"@ + self.0@ + "`"@,
    {
        let m = "Duplicate map field `".to_owned();
        let m = m.concat(self.0);
        m.concat("`")
    }
}

/// Why a parser gave up.
///
/// `Error` lets an enclosing choice try its next alternative; `Failure`
/// stops the whole parse (the input committed to one reading and broke it).
#[derive(Debug, Clone, Copy, PartialEq, Eq, Structural)]
pub enum ParseError {
    Error,
    Failure,
}

} // verus!
