use vstd::prelude::*;

verus! {

/// The errors of the command line tool.
#[derive(Clone, Debug)]
pub enum CliError {
    /// A required argument was not given.
    ArgumentRequired(String),
    /// No command was given.
    CommandRequired,
    /// No command of that name exists.
    InvalidCommand(String),
    /// The arguments could not be read.
    ArgumentParseError,
    /// A query expression could not be parsed: the expression, and the
    /// parser's message where there is one.
    PromqlError(String, Option<String>),
}

} // verus!
