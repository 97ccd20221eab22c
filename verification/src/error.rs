use vstd::prelude::*;

verus! {

/// Failures that abort an assembly run before any output text is produced.
#[derive(Clone, Copy, Debug, PartialEq, Eq, Structural)]
pub enum Error {
    /// The module does not define an entry point function.
    MissingEntryPointFunction,
    /// A reachable function body holds a construct with no defined lowering.
    UnsupportedOperation,
}

impl Error {
    /// A short description of the failure, suitable for reporting to a caller.
    pub fn message(&self) -> (r: &'static str)
        ensures
            r@ == (match self {
                Error::MissingEntryPointFunction => "the entry point function was not defined"@,
                Error::UnsupportedOperation => "an operation has no defined lowering"@,
            }),
    {
        match self {
            Error::MissingEntryPointFunction => "the entry point function was not defined",
            Error::UnsupportedOperation => "an operation has no defined lowering",
        }
    }
}

} // verus!
