//! The checks a query batch passes before anything is executed, and the
//! choice of how each statement is executed.
//!
//! Whether a statement compiles as a read and whether it compiles as a
//! write is decided by the query engine; the functions here take those two
//! verdicts as arguments (`StatementCheck`) and decide the rest.
use vstd::prelude::*;

use crate::args::{fails_with, usage, ErrorView, QueryOptions};
use crate::error::{CliError, EXIT_QUERY};
use crate::format::OutputFormat;
use crate::split::{split_complete, split_complete_spec, views};
use crate::text::{append, decimal, owned, push_decimal};

verus! {

/// What the query engine says of one statement: the message of its
/// failure to compile as a read (`None` when it compiles as a read), and
/// whether it compiles as a write.
#[derive(Debug)]
pub struct StatementCheck {
    pub read_error: Option<String>,
    pub writes: bool,
}

/// `"statement N: "` for the statement at `index` (counted from zero).
pub open spec fn statement_prefix(index: int) -> Seq<char> {
    "statement "@ + decimal((index + 1) as nat) + ": "@
}

/// The verdict on one statement of a batch of `count`: a read is accepted;
/// a write is accepted unless the batch is read-only; anything else fails
/// with the read error, numbered when the batch holds several statements.
pub open spec fn statement_verdict(
    read_error: Option<Seq<char>>,
    writes: bool,
    read_only: bool,
    index: int,
    count: int,
) -> Option<ErrorView> {
    match read_error {
        None => None,
        Some(error) => if writes {
            if read_only {
                Some(
                    (
                        EXIT_QUERY,
                        (if count > 1 {
                            statement_prefix(index)
                        } else {
                            Seq::empty()
                        }) + "read-only mode rejects mutating statements"@,
                    ),
                )
            } else {
                None
            }
        } else {
            Some(
                (
                    EXIT_QUERY,
                    if count == 1 {
                        error
                    } else {
                        statement_prefix(index) + error
                    },
                ),
            )
        },
    }
}

fn numbered(index: usize) -> (text: String)
    requires
        index < usize::MAX,
    ensures
        text@ == statement_prefix(index as int),
{
    let mut text = owned("statement ");
    push_decimal(&mut text, (index + 1) as u64);
    append(&mut text, ": ");
    text
}

/// Accepts or rejects one statement of a batch of `statement_count`;
/// `index` is its place in the batch, counted from zero.
pub fn validate_statement(
    read_error: Option<String>,
    writes: bool,
    read_only: bool,
    index: usize,
    statement_count: usize,
) -> (result: Result<(), CliError>)
    requires
        index < usize::MAX,
    ensures
        match statement_verdict(
            match read_error {
                Some(e) => Some(e@),
                None => None,
            },
            writes,
            read_only,
            index as int,
            statement_count as int,
        ) {
            None => result is Ok,
            Some(e) => fails_with(result, e),
        },
{
    let error = match read_error {
        None => return Ok(()),
        Some(error) => error,
    };
    if writes {
        if read_only {
            let mut message = if statement_count > 1 {
                numbered(index)
            } else {
                String::new()
            };
            append(&mut message, "read-only mode rejects mutating statements");
            return Err(CliError::new(EXIT_QUERY, message));
        }
        return Ok(());
    }
    let message = if statement_count == 1 {
        error
    } else {
        let mut text = numbered(index);
        append(&mut text, error.as_str());
        text
    };
    Err(CliError::new(EXIT_QUERY, message))
}

/// The view of an optional read error.
pub open spec fn read_error_view(check: StatementCheck) -> Option<Seq<char>> {
    match check.read_error {
        Some(e) => Some(e@),
        None => None,
    }
}

/// The first rejection among the statements from `i` on, if any.
pub open spec fn first_rejection(checks: Seq<StatementCheck>, read_only: bool, i: int) -> Option<
    ErrorView,
>
    decreases checks.len() - i,
{
    if i < 0 || i >= checks.len() {
        None
    } else {
        match statement_verdict(
            read_error_view(checks[i]),
            checks[i].writes,
            read_only,
            i,
            checks.len() as int,
        ) {
            Some(e) => Some(e),
            None => first_rejection(checks, read_only, i + 1),
        }
    }
}

/// Checks every statement of a batch in order and fails with the first
/// rejection.
pub fn validate_statements(checks: &Vec<StatementCheck>, read_only: bool) -> (result: Result<
    (),
    CliError,
>)
    ensures
        match first_rejection(checks@, read_only, 0) {
            None => result is Ok,
            Some(e) => fails_with(result, e),
        },
{
    let mut i: usize = 0;
    while i < checks.len()
        invariant
            i <= checks@.len(),
            first_rejection(checks@, read_only, i as int) == first_rejection(
                checks@,
                read_only,
                0,
            ),
        decreases checks@.len() - i,
    {
        let check = &checks[i];
        let read_error = match &check.read_error {
            Some(e) => Some(owned(e.as_str())),
            None => None,
        };
        let verdict = validate_statement(read_error, check.writes, read_only, i, checks.len());
        if verdict.is_err() {
            return verdict;
        }
        i += 1;
    }
    Ok(())
}

/// The statements of a query input: every statement the splitter finds,
/// the unterminated rest included; input without any is a usage error.
pub open spec fn input_statements(source: Seq<char>) -> Result<Seq<Seq<char>>, ErrorView> {
    match split_complete_spec(source, true) {
        Some(statements) => if statements.len() == 0 {
            Err(usage("query input is empty"@))
        } else {
            Ok(statements)
        },
        None => Err(usage("query input is empty"@)),
    }
}

/// Splits a query input into its statements.
pub fn prepare_input(source: &str) -> (result: Result<Vec<String>, CliError>)
    ensures
        match input_statements(source@) {
            Ok(statements) => result matches Ok(v) && views(v@) == statements,
            Err(e) => fails_with(result, e),
        },
{
    let statements = match split_complete(source, true) {
        Ok(statements) => statements,
        Err(e) => return Err(e),
    };
    if statements.len() == 0 {
        return Err(CliError::usage(owned("query input is empty")));
    }
    Ok(statements)
}

/// The message for a CSV batch of several statements.
pub open spec fn csv_batch_message() -> Seq<char> {
    "--format csv supports one statement per invocation because result schemas may differ; use --format jsonl for multi-statement input"@
}

/// CSV output holds one statement's result only.
pub fn validate_batch_format(format: OutputFormat, statement_count: usize) -> (result: Result<
    (),
    CliError,
>)
    ensures
        format == OutputFormat::Csv && statement_count > 1 ==> fails_with(
            result,
            usage(csv_batch_message()),
        ),
        !(format == OutputFormat::Csv && statement_count > 1) ==> result is Ok,
{
    if format == OutputFormat::Csv && statement_count > 1 {
        return Err(
            CliError::usage(
                owned(
                    "--format csv supports one statement per invocation because result schemas may differ; use --format jsonl for multi-statement input",
                ),
            ),
        );
    }
    Ok(())
}

/// A project synchronization: the project directory and the database.
#[derive(Debug)]
pub struct SyncRequest {
    pub project: String,
    pub database: String,
}

/// Whether a statement mutates the graph: it is no read but a write.
pub open spec fn mutates(check: StatementCheck) -> bool {
    check.read_error is Some && check.writes
}

/// Whether any statement of the batch mutates the graph.
pub open spec fn any_mutation(checks: Seq<StatementCheck>) -> bool {
    exists|i: int| 0 <= i < checks.len() && #[trigger] mutates(checks[i])
}

/// The synchronization of the query's project into its database.
pub open spec fn sync_of(options: QueryOptions, request: SyncRequest) -> bool {
    options.common.project matches Some(p) && request.project@ == p@ && request.database@
        == options.common.database@
}

fn project_sync(options: &QueryOptions) -> (request: Option<SyncRequest>)
    ensures
        match request {
            Some(r) => sync_of(*options, r),
            None => options.common.project is None,
        },
{
    match &options.common.project {
        Some(project) => Some(
            SyncRequest {
                project: owned(project.as_str()),
                database: owned(options.common.database.as_str()),
            },
        ),
        None => None,
    }
}

/// Projects are NDB-first: the database is the truth. A query in a project
/// whose human-readable source is enabled first reconciles that source
/// with the database; otherwise nothing is synchronized.
pub fn synchronize_for_query(options: &QueryOptions, source_enabled: bool) -> (request: Option<
    SyncRequest,
>)
    ensures
        options.common.project is Some && source_enabled ==> (request matches Some(r) && sync_of(
            *options,
            r,
        )),
        !(options.common.project is Some && source_enabled) ==> request is None,
{
    if source_enabled {
        project_sync(options)
    } else {
        None
    }
}

/// After the statements ran, a batch that mutated the graph of a project
/// with enabled source reconciles the source again, so that it shows the
/// committed writes.
pub fn synchronize_after_writes(
    options: &QueryOptions,
    source_enabled: bool,
    checks: &Vec<StatementCheck>,
) -> (request: Option<SyncRequest>)
    ensures
        options.common.project is Some && source_enabled && any_mutation(checks@) ==> (
        request matches Some(r) && sync_of(*options, r)),
        !(options.common.project is Some && source_enabled && any_mutation(checks@))
            ==> request is None,
{
    if !source_enabled {
        return None;
    }
    let mut found = false;
    let mut i: usize = 0;
    while i < checks.len()
        invariant
            i <= checks@.len(),
            found <==> exists|j: int| 0 <= j < i && #[trigger] mutates(checks@[j]),
        decreases checks@.len() - i,
    {
        if checks[i].read_error.is_some() && checks[i].writes {
            found = true;
        }
        assert(mutates(checks@[i as int]) == (checks@[i as int].read_error is Some
            && checks@[i as int].writes));
        i += 1;
    }
    if found {
        project_sync(options)
    } else {
        None
    }
}

/// A query runs interactively when asked to, or when it has neither an
/// inline query nor a file and standard input is a terminal.
pub fn is_interactive(options: &QueryOptions, stdin_is_terminal: bool) -> (interactive: bool)
    ensures
        interactive == (options.interactive || (options.query is None && options.file is None
            && stdin_is_terminal)),
{
    options.interactive || (options.query.is_none() && options.file.is_none() && stdin_is_terminal)
}

/// A read-only batch is rejected as soon as any of its statements is a
/// mutation (a write that is not also a read).
pub proof fn lemma_read_only_rejects_writes(checks: Seq<StatementCheck>, i: int)
    requires
        0 <= i < checks.len(),
        checks[i].read_error is Some,
        checks[i].writes,
    ensures
        first_rejection(checks, true, 0) is Some,
{
    lemma_rejection_reaches(checks, 0, i);
}

proof fn lemma_rejection_reaches(checks: Seq<StatementCheck>, k: int, i: int)
    requires
        0 <= k <= i < checks.len(),
        checks[i].read_error is Some,
        checks[i].writes,
    ensures
        first_rejection(checks, true, k) is Some,
    decreases i - k,
{
    if k < i {
        lemma_rejection_reaches(checks, k + 1, i);
    }
}

} // verus!
