//! Database administration over the server: what its replies must be, and
//! the rows that report each operation.
use vstd::prelude::*;

use crate::args::{fails_with, CommandView, DatabaseCommand, ErrorView};
use crate::error::{CliError, EXIT_DATABASE};
use crate::remote::{
    base64_decoding, base64_encoded, decoded_as, encode_chunk, unexpected_database_response,
    unexpected_response,
};
use crate::tables::{row_matches, rows_match, text_value, Cell};
use crate::text::{owned, text_eq};
use crate::value::QueryValue;

verus! {

/// A reply to a snapshot restore request: the state and byte count that
/// the server reports, or `None` for a reply of another kind.
pub type RestoreReply = Option<(String, u64)>;

/// Whether the reply reports the given state and byte count.
pub open spec fn reports(reply: RestoreReply, state: Seq<char>, bytes: u64) -> bool {
    reply matches Some(r) && r.0@ == state && r.1 == bytes
}

/// The server must be `ready` with no bytes received before the first
/// chunk is sent.
pub fn restore_ready(reply: &RestoreReply) -> (result: Result<(), CliError>)
    ensures
        reports(*reply, "ready"@, 0) ==> result is Ok,
        !reports(*reply, "ready"@, 0) ==> fails_with(result, unexpected_response()),
{
    match reply {
        Some((state, bytes)) => if text_eq(state.as_str(), "ready") && *bytes == 0 {
            Ok(())
        } else {
            unexpected_database_response()
        },
        None => unexpected_database_response(),
    }
}

/// Each chunk must be acknowledged as `chunk_accepted`, whatever count the
/// server reports with it.
pub fn chunk_accepted(reply: &RestoreReply) -> (result: Result<(), CliError>)
    ensures
        (reply matches Some(r) && r.0@ == "chunk_accepted"@) ==> result is Ok,
        !(reply matches Some(r) && r.0@ == "chunk_accepted"@) ==> fails_with(
            result,
            unexpected_response(),
        ),
{
    match reply {
        Some((state, _)) => if text_eq(state.as_str(), "chunk_accepted") {
            Ok(())
        } else {
            unexpected_database_response()
        },
        None => unexpected_database_response(),
    }
}

/// The commit must report `restored` with exactly the size of the file.
pub fn restore_committed(reply: &RestoreReply, total_bytes: u64) -> (result: Result<(), CliError>)
    ensures
        reports(*reply, "restored"@, total_bytes) ==> result is Ok,
        !reports(*reply, "restored"@, total_bytes) ==> fails_with(result, unexpected_response()),
{
    match reply {
        Some((state, bytes)) => if text_eq(state.as_str(), "restored") && *bytes == total_bytes {
            Ok(())
        } else {
            unexpected_database_response()
        },
        None => unexpected_database_response(),
    }
}

/// One chunk of a snapshot upload.
#[derive(Debug)]
pub struct RestoreChunk {
    pub sequence: u64,
    pub data: String,
}

/// The next chunk of a snapshot upload: chunks are numbered from zero
/// without gaps, and the data is the Base64 text of the bytes read, which
/// decodes back to them.
pub fn next_restore_chunk(sequence: &mut u64, bytes: &[u8]) -> (chunk: RestoreChunk)
    requires
        *old(sequence) < u64::MAX,
        bytes@.len() <= usize::MAX / 2,
    ensures
        chunk.sequence == *old(sequence),
        *final(sequence) == *old(sequence) + 1,
        chunk.data@ == base64_encoded(bytes@),
        base64_decoding(chunk.data@) == decoded_as(bytes@),
{
    let chunk = RestoreChunk { sequence: *sequence, data: encode_chunk(bytes) };
    *sequence = *sequence + 1;
    chunk
}

/// The error for a server count beyond the query integer range.
pub open spec fn integer_range_error() -> ErrorView {
    (EXIT_DATABASE, "server integer exceeds CLI range"@)
}

/// A count reported by the server as a query integer.
pub fn integer(value: u64) -> (result: Result<QueryValue, CliError>)
    ensures
        value <= i64::MAX ==> result == Ok::<QueryValue, CliError>(QueryValue::Integer(value as i64)),
        value > i64::MAX ==> fails_with(result, integer_range_error()),
{
    if value > 9223372036854775807u64 {
        Err(CliError::new(EXIT_DATABASE, owned("server integer exceeds CLI range")))
    } else {
        Ok(QueryValue::Integer(value as i64))
    }
}

/// A database as the server lists it.
#[derive(Debug)]
pub struct DatabaseSummary {
    pub id: String,
    pub name: String,
    pub state: String,
}

pub open spec fn summary_cells(d: DatabaseSummary) -> Seq<Cell> {
    seq![Cell::Text(d.id@), Cell::Text(d.name@), Cell::Text(d.state@)]
}

/// One row per database: identifier, name and state.
pub fn summary_rows(databases: &Vec<DatabaseSummary>) -> (rows: Vec<Vec<QueryValue>>)
    ensures
        rows_match(rows@, databases@.map_values(|d: DatabaseSummary| summary_cells(d))),
{
    let ghost cells = databases@.map_values(|d: DatabaseSummary| summary_cells(d));
    let mut rows: Vec<Vec<QueryValue>> = Vec::new();
    let mut i: usize = 0;
    while i < databases.len()
        invariant
            i <= databases@.len(),
            cells == databases@.map_values(|d: DatabaseSummary| summary_cells(d)),
            rows@.len() == i,
            forall|j: int| 0 <= j < i ==> row_matches(#[trigger] rows@[j]@, cells[j]),
        decreases databases@.len() - i,
    {
        let d = &databases[i];
        let mut row: Vec<QueryValue> = Vec::new();
        row.push(text_value(d.id.as_str()));
        row.push(text_value(d.name.as_str()));
        row.push(text_value(d.state.as_str()));
        assert(row_matches(row@, cells[i as int]));
        rows.push(row);
        i += 1;
    }
    rows
}

/// What the server reports of one database.
#[derive(Debug)]
pub struct DatabaseDetails {
    pub summary: DatabaseSummary,
    pub ndb_format_version: u32,
    pub generation: u64,
    pub logical_checksum: String,
    pub healthy: bool,
    pub schemas: u64,
    pub nodes: u64,
    pub edges: u64,
}

/// Whether every count of the report fits the query integer range.
pub open spec fn details_fit(d: DatabaseDetails) -> bool {
    d.generation <= i64::MAX && d.schemas <= i64::MAX && d.nodes <= i64::MAX && d.edges
        <= i64::MAX
}

pub open spec fn details_cells(d: DatabaseDetails) -> Seq<Cell> {
    seq![
        Cell::Text(d.summary.id@),
        Cell::Text(d.summary.name@),
        Cell::Text(d.summary.state@),
        Cell::Int(d.ndb_format_version as int),
        Cell::Int(d.generation as int),
        Cell::Text(d.logical_checksum@),
        Cell::Bool(d.healthy),
        Cell::Int(d.schemas as int),
        Cell::Int(d.nodes as int),
        Cell::Int(d.edges as int),
    ]
}

/// The row of `nostdb database inspect`; a count beyond the query integer
/// range fails it.
pub fn details_row(d: &DatabaseDetails) -> (result: Result<Vec<QueryValue>, CliError>)
    ensures
        details_fit(*d) ==> (result matches Ok(row) && row_matches(row@, details_cells(*d))),
        !details_fit(*d) ==> fails_with(result, integer_range_error()),
{
    let generation = match integer(d.generation) {
        Ok(v) => v,
        Err(e) => return Err(e),
    };
    let schemas = match integer(d.schemas) {
        Ok(v) => v,
        Err(e) => return Err(e),
    };
    let nodes = match integer(d.nodes) {
        Ok(v) => v,
        Err(e) => return Err(e),
    };
    let edges = match integer(d.edges) {
        Ok(v) => v,
        Err(e) => return Err(e),
    };
    let mut row: Vec<QueryValue> = Vec::new();
    row.push(text_value(d.summary.id.as_str()));
    row.push(text_value(d.summary.name.as_str()));
    row.push(text_value(d.summary.state.as_str()));
    row.push(QueryValue::Integer(d.ndb_format_version as i64));
    row.push(generation);
    row.push(text_value(d.logical_checksum.as_str()));
    row.push(QueryValue::Boolean(d.healthy));
    row.push(schemas);
    row.push(nodes);
    row.push(edges);
    Ok(row)
}

/// A row of three texts.
pub fn text_row(a: &str, b: &str, c: &str) -> (row: Vec<QueryValue>)
    ensures
        row_matches(row@, seq![Cell::Text(a@), Cell::Text(b@), Cell::Text(c@)]),
{
    let mut row: Vec<QueryValue> = Vec::new();
    row.push(text_value(a));
    row.push(text_value(b));
    row.push(text_value(c));
    row
}

/// The row of `nostdb database import-logical`: the database, the number
/// of modules imported, and `imported`.
pub fn imported_row(name: &str, modules: u64) -> (result: Result<Vec<QueryValue>, CliError>)
    ensures
        modules <= i64::MAX ==> (result matches Ok(row) && row_matches(
            row@,
            seq![Cell::Text(name@), Cell::Int(modules as int), Cell::Text("imported"@)],
        )),
        modules > i64::MAX ==> fails_with(result, integer_range_error()),
{
    let count = match integer(modules) {
        Ok(v) => v,
        Err(e) => return Err(e),
    };
    let mut row: Vec<QueryValue> = Vec::new();
    row.push(text_value(name));
    row.push(count);
    row.push(text_value("imported"));
    Ok(row)
}

/// The row of `nostdb server ping`: the server and `ready`.
pub fn ping_row(server: &str) -> (row: Vec<QueryValue>)
    ensures
        row_matches(row@, seq![Cell::Text(server@), Cell::Text("ready"@)]),
{
    let mut row: Vec<QueryValue> = Vec::new();
    row.push(text_value(server));
    row.push(text_value("ready"));
    row
}

/// A server's reply to a database operation, as far as its report reads
/// it. `Completed` stands for a snapshot stream that was written or
/// restored to its end; `Other` for any reply that fits no operation.
#[derive(Debug)]
pub enum DatabaseReply {
    Created(DatabaseSummary),
    Listed(Vec<DatabaseSummary>),
    Inspected(DatabaseDetails),
    Renamed(DatabaseSummary),
    Dropped { id: String, name: String },
    Completed,
    LogicalPackage,
    LogicalImported(u64),
    Other,
}

/// The columns of a summary table.
pub open spec fn summary_columns() -> Seq<Seq<char>> {
    seq!["id"@, "name"@, "state"@]
}

/// The columns of `database inspect`.
pub open spec fn details_columns() -> Seq<Seq<char>> {
    seq![
        "id"@,
        "name"@,
        "state"@,
        "ndb_format"@,
        "generation"@,
        "checksum"@,
        "healthy"@,
        "schemas"@,
        "nodes"@,
        "edges"@,
    ]
}

/// A report of three columns whose single row holds three texts.
pub open spec fn single_row(
    columns: Seq<Seq<char>>,
    a: Seq<char>,
    b: Seq<char>,
    c: Seq<char>,
) -> Result<(Seq<Seq<char>>, Seq<Seq<Cell>>), ErrorView> {
    Ok((columns, seq![seq![Cell::Text(a), Cell::Text(b), Cell::Text(c)]]))
}

/// The table that reports a database operation, given the server's reply:
/// each operation expects one kind of reply, and any other fails.
pub open spec fn database_report(command: CommandView, reply: DatabaseReply) -> Result<
    (Seq<Seq<char>>, Seq<Seq<Cell>>),
    ErrorView,
> {
    match (command, reply) {
        (CommandView::Create(_), DatabaseReply::Created(d)) => Ok(
            (summary_columns(), seq![summary_cells(d)]),
        ),
        (CommandView::List, DatabaseReply::Listed(ds)) => Ok(
            (summary_columns(), ds@.map_values(|d: DatabaseSummary| summary_cells(d))),
        ),
        (CommandView::Inspect(_), DatabaseReply::Inspected(d)) => if details_fit(d) {
            Ok((details_columns(), seq![details_cells(d)]))
        } else {
            Err(integer_range_error())
        },
        (CommandView::Rename(_, _), DatabaseReply::Renamed(d)) => Ok(
            (summary_columns(), seq![summary_cells(d)]),
        ),
        (CommandView::Drop(_, _), DatabaseReply::Dropped { id, name }) => single_row(
            summary_columns(),
            id@,
            name@,
            "dropped"@,
        ),
        (CommandView::Snapshot(name, output), DatabaseReply::Completed) => single_row(
            seq!["database"@, "output"@, "state"@],
            name,
            output,
            "snapshot_written"@,
        ),
        (CommandView::Restore(name, file), DatabaseReply::Completed) => single_row(
            seq!["database"@, "input"@, "state"@],
            name,
            file,
            "restored"@,
        ),
        (CommandView::ExportLogical(name, output), DatabaseReply::LogicalPackage) => single_row(
            seq!["database"@, "output"@, "state"@],
            name,
            output,
            "logical_package_written"@,
        ),
        (CommandView::ImportLogical(name, _), DatabaseReply::LogicalImported(modules)) => if modules
            <= i64::MAX {
            Ok(
                (
                    seq!["database"@, "modules"@, "state"@],
                    seq![seq![Cell::Text(name), Cell::Int(modules as int), Cell::Text("imported"@)]],
                ),
            )
        } else {
            Err(integer_range_error())
        },
        _ => Err(unexpected_response()),
    }
}

fn names3(a: &str, b: &str, c: &str) -> (names: Vec<String>)
    ensures
        names@.map_values(|s: String| s@) == seq![a@, b@, c@],
{
    let mut names: Vec<String> = Vec::new();
    names.push(owned(a));
    names.push(owned(b));
    names.push(owned(c));
    assert(names@.map_values(|s: String| s@) =~= seq![a@, b@, c@]);
    names
}

fn details_names() -> (names: Vec<String>)
    ensures
        names@.map_values(|s: String| s@) == details_columns(),
{
    let mut names: Vec<String> = Vec::new();
    names.push(owned("id"));
    names.push(owned("name"));
    names.push(owned("state"));
    names.push(owned("ndb_format"));
    names.push(owned("generation"));
    names.push(owned("checksum"));
    names.push(owned("healthy"));
    names.push(owned("schemas"));
    names.push(owned("nodes"));
    names.push(owned("edges"));
    assert(names@.map_values(|s: String| s@) =~= details_columns());
    names
}

/// Checks the server's reply to a database operation and builds the table
/// that reports it: its columns and rows.
pub fn database_outcome(command: &DatabaseCommand, reply: DatabaseReply) -> (result: Result<
    (Vec<String>, Vec<Vec<QueryValue>>),
    CliError,
>)
    ensures
        match database_report(command@, reply) {
            Ok((columns, cells)) => result matches Ok((c, rows)) && c@.map_values(
                |s: String| s@,
            ) == columns && rows_match(rows@, cells),
            Err(e) => fails_with(result, e),
        },
{
    match (command, reply) {
        (DatabaseCommand::Create(_), DatabaseReply::Created(d)) => {
            let mut rows: Vec<Vec<QueryValue>> = Vec::new();
            rows.push(text_row(d.id.as_str(), d.name.as_str(), d.state.as_str()));
            Ok((names3("id", "name", "state"), rows))
        },
        (DatabaseCommand::List, DatabaseReply::Listed(ds)) => {
            Ok((names3("id", "name", "state"), summary_rows(&ds)))
        },
        (DatabaseCommand::Inspect(_), DatabaseReply::Inspected(d)) => {
            let row = match details_row(&d) {
                Ok(row) => row,
                Err(e) => return Err(e),
            };
            let mut rows: Vec<Vec<QueryValue>> = Vec::new();
            rows.push(row);
            Ok((details_names(), rows))
        },
        (DatabaseCommand::Rename { .. }, DatabaseReply::Renamed(d)) => {
            let mut rows: Vec<Vec<QueryValue>> = Vec::new();
            rows.push(text_row(d.id.as_str(), d.name.as_str(), d.state.as_str()));
            Ok((names3("id", "name", "state"), rows))
        },
        (DatabaseCommand::Drop { .. }, DatabaseReply::Dropped { id, name }) => {
            let mut rows: Vec<Vec<QueryValue>> = Vec::new();
            rows.push(text_row(id.as_str(), name.as_str(), "dropped"));
            Ok((names3("id", "name", "state"), rows))
        },
        (DatabaseCommand::Snapshot { name, output }, DatabaseReply::Completed) => {
            let mut rows: Vec<Vec<QueryValue>> = Vec::new();
            rows.push(text_row(name.as_str(), output.as_str(), "snapshot_written"));
            Ok((names3("database", "output", "state"), rows))
        },
        (DatabaseCommand::Restore { name, file }, DatabaseReply::Completed) => {
            let mut rows: Vec<Vec<QueryValue>> = Vec::new();
            rows.push(text_row(name.as_str(), file.as_str(), "restored"));
            Ok((names3("database", "input", "state"), rows))
        },
        (DatabaseCommand::ExportLogical { name, output }, DatabaseReply::LogicalPackage) => {
            let mut rows: Vec<Vec<QueryValue>> = Vec::new();
            rows.push(text_row(name.as_str(), output.as_str(), "logical_package_written"));
            Ok((names3("database", "output", "state"), rows))
        },
        (DatabaseCommand::ImportLogical { name, .. }, DatabaseReply::LogicalImported(modules)) => {
            let row = match imported_row(name.as_str(), modules) {
                Ok(row) => row,
                Err(e) => return Err(e),
            };
            let mut rows: Vec<Vec<QueryValue>> = Vec::new();
            rows.push(row);
            Ok((names3("database", "modules", "state"), rows))
        },
        _ => unexpected_database_response(),
    }
}

} // verus!
