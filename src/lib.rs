use vstd::prelude::*;

pub mod config;
pub mod default_config;
pub mod parser;

verus! {

/// Declares `std::io::Error` so that an error of this library can carry one;
/// nothing here looks inside it.
#[verifier::external_type_specification]
#[verifier::external_body]
pub struct ExIoError(std::io::Error);

/// Everything that can go wrong between the command line and the search.
#[derive(Debug)]
pub enum ErrorKind {
    /// No query was given.
    QueryEmpty,
    /// No file name was given.
    FilenameEmpty,
    /// A flag that takes a value was the last token.
    FailedParseArgs,
    /// The command line held no tokens at all.
    NotEnoughArgs,
    /// The file to search could not be opened.
    FileErr(std::io::Error),
}

} // verus!
