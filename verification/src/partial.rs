//! The outcome of a parse that may stop early.
use vstd::prelude::*;

verus! {

/// What was parsed, and the error that stopped the parse if one did.
///
/// Both outcomes carry a whole value of `Parsed`: a parse that stops early hands out what
/// it had built up to the offending line.
#[derive(Debug, Clone, Copy)]
pub struct PartialParseResult<Parsed, Error> {
    /// What was parsed before the end of the input or the error.
    pub parsed: Parsed,
    /// The error that stopped the parse; `None` where the input was read to its end.
    pub error: Option<Error>,
}

impl<Parsed, Error> PartialParseResult<Parsed, Error> {
    /// The outcome of a parse that read its input to the end.
    pub fn new_complete(parsed: Parsed) -> (r: Self)
        ensures
            r.parsed == parsed,
            r.error is None,
    {
        PartialParseResult { parsed, error: None }
    }

    /// The outcome of a parse that `error` stopped.
    pub fn new_partial(parsed: Parsed, error: Error) -> (r: Self)
        ensures
            r.parsed == parsed,
            r.error == Some(error),
    {
        PartialParseResult { parsed, error: Some(error) }
    }

    /// Whether the input was read to its end.
    pub fn is_complete(&self) -> (r: bool)
        ensures
            r == (self.error is None),
    {
        self.error.is_none()
    }

    /// What was parsed, whether or not an error stopped the parse.
    pub fn into_partial(self) -> (r: Parsed)
        ensures
            r == self.parsed,
    {
        self.parsed
    }

    /// What was parsed if the input was read to its end, else the error.
    pub fn try_into_complete(self) -> (r: Result<Parsed, Error>)
        ensures
            r == match self.error {
                Some(error) => Err::<Parsed, Error>(error),
                None => Ok(self.parsed),
            },
    {
        match self.error {
            Some(error) => Err(error),
            None => Ok(self.parsed),
        }
    }
}

} // verus!
