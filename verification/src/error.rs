use vstd::prelude::*;

verus! {

/// Process exit code of a successful run.
pub const EXIT_SUCCESS: u8 = 0;

/// Exit code for invalid command-line usage.
pub const EXIT_USAGE: u8 = 2;

/// Exit code for project and configuration failures.
pub const EXIT_PROJECT: u8 = 3;

/// Exit code for query failures.
pub const EXIT_QUERY: u8 = 4;

/// Exit code for database and integrity failures.
pub const EXIT_DATABASE: u8 = 5;

/// Exit code for source-conflict failures.
pub const EXIT_CONFLICT: u8 = 6;

/// Exit code for input/output failures.
pub const EXIT_IO: u8 = 7;

/// A failure of the command-line client: the process exit code and the
/// message printed on standard error.
#[derive(Debug)]
pub struct CliError {
    pub code: u8,
    pub message: String,
}

/// The two kinds of failure that an embedded database operation reports,
/// each with the text of the underlying error.
#[derive(Debug)]
pub enum DatabaseFailure {
    Query(String),
    Storage(String),
}

impl CliError {
    pub fn new(code: u8, message: String) -> (error: Self)
        ensures
            error.code == code,
            error.message@ == message@,
    {
        CliError { code, message }
    }

    pub fn usage(message: String) -> (error: Self)
        ensures
            error.code == EXIT_USAGE,
            error.message@ == message@,
    {
        Self::new(EXIT_USAGE, message)
    }

    pub fn project(message: String) -> (error: Self)
        ensures
            error.code == EXIT_PROJECT,
            error.message@ == message@,
    {
        Self::new(EXIT_PROJECT, message)
    }

    /// Query failures exit with the query code, storage failures with the
    /// database code; the message is the failure's own text.
    pub fn database(error: DatabaseFailure) -> (result: Self)
        ensures
            match error {
                DatabaseFailure::Query(text) => result.code == EXIT_QUERY && result.message@
                    == text@,
                DatabaseFailure::Storage(text) => result.code == EXIT_DATABASE && result.message@
                    == text@,
            },
    {
        match error {
            DatabaseFailure::Query(text) => Self::new(EXIT_QUERY, text),
            DatabaseFailure::Storage(text) => Self::new(EXIT_DATABASE, text),
        }
    }
}

} // verus!
