use vstd::prelude::*;

verus! {

#[verifier::external_type_specification]
#[verifier::external_body]
pub struct ExIoError(std::io::Error);

#[verifier::external_type_specification]
#[verifier::external_body]
pub struct ExJsonError(serde_json::Error);

#[verifier::external_type_specification]
#[verifier::external_body]
pub struct ExIgnoreError(ignore::Error);

/// Every way a command can fail.
#[derive(Debug)]
pub enum AppError {
    /// A file could not be read, written or resolved.
    ReadError(std::io::Error),
    /// The backing document is not a valid state.
    ParseError(serde_json::Error),
    /// A condition the user has to fix, with its message.
    CustomError(String),
    /// A traversal pattern or ignore rule could not be built.
    GitIgnoreError(ignore::Error),
}

} // verus!
