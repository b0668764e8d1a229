//! The rows of the administrative tables: schemas, unresolved references,
//! database information and counts, synchronization, integrity, imports
//! and the project doctor.
use vstd::prelude::*;

use crate::args::{fails_with, ErrorView};
use crate::error::{CliError, EXIT_DATABASE};
use crate::text::{append, decimal, join3, owned, push_char, push_decimal};
use crate::value::{hex_digit, hex_digit_of, QueryValue};

verus! {

/// What a table cell holds, as the specifications speak of it.
pub enum Cell {
    Null,
    Text(Seq<char>),
    Int(int),
    Bool(bool),
}

/// Whether a value is the cell.
pub open spec fn cell_matches(value: QueryValue, cell: Cell) -> bool {
    match cell {
        Cell::Null => value is Null,
        Cell::Text(t) => value matches QueryValue::String(s) && s@ == t,
        Cell::Int(i) => value matches QueryValue::Integer(v) && v == i,
        Cell::Bool(b) => value == QueryValue::Boolean(b),
    }
}

/// Whether a row holds exactly the cells.
pub open spec fn row_matches(row: Seq<QueryValue>, cells: Seq<Cell>) -> bool {
    &&& row.len() == cells.len()
    &&& forall|i: int| 0 <= i < row.len() ==> cell_matches(#[trigger] row[i], cells[i])
}

/// Whether the rows hold exactly the cells, row by row.
pub open spec fn rows_match(rows: Seq<Vec<QueryValue>>, cells: Seq<Seq<Cell>>) -> bool {
    &&& rows.len() == cells.len()
    &&& forall|i: int| 0 <= i < rows.len() ==> row_matches(#[trigger] rows[i]@, cells[i])
}

pub(crate) fn text_value(t: &str) -> (v: QueryValue)
    ensures
        cell_matches(v, Cell::Text(t@)),
{
    QueryValue::String(owned(t))
}

/// One property of a schema.
#[derive(Debug)]
pub struct SchemaProperty {
    pub name: String,
    pub property_type: String,
}

/// A schema: its identity, state, properties and number of constraints.
#[derive(Debug)]
pub struct SchemaInfo {
    pub identity: String,
    pub state: String,
    pub properties: Vec<SchemaProperty>,
    pub constraints: u64,
}

/// The rows of one schema: one per property, or one with null property
/// cells when it has none; the count of constraints is shown as a signed
/// 64-bit integer.
pub open spec fn schema_cells(s: SchemaInfo) -> Seq<Seq<Cell>> {
    let c = Cell::Int((s.constraints as i64) as int);
    if s.properties@.len() == 0 {
        seq![seq![Cell::Text(s.identity@), Cell::Text(s.state@), Cell::Null, Cell::Null, c]]
    } else {
        s.properties@.map_values(
            |p: SchemaProperty|
                seq![
                    Cell::Text(s.identity@),
                    Cell::Text(s.state@),
                    Cell::Text(p.name@),
                    Cell::Text(p.property_type@),
                    c,
                ],
        )
    }
}

/// The rows of the schemas, in order.
pub open spec fn schemas_cells(schemas: Seq<SchemaInfo>) -> Seq<Seq<Cell>>
    decreases schemas.len(),
{
    if schemas.len() == 0 {
        seq![]
    } else {
        schemas_cells(schemas.drop_last()) + schema_cells(schemas.last())
    }
}

/// The table of schemas.
pub fn schema_rows(values: Vec<SchemaInfo>) -> (rows: Vec<Vec<QueryValue>>)
    ensures
        rows_match(rows@, schemas_cells(values@)),
{
    let mut rows: Vec<Vec<QueryValue>> = Vec::new();
    let mut i: usize = 0;
    while i < values.len()
        invariant
            i <= values@.len(),
            rows_match(rows@, schemas_cells(values@.take(i as int))),
        decreases values@.len() - i,
    {
        let schema = &values[i];
        let ghost before = rows@;
        let ghost cells = schema_cells(*schema);
        let constraints = schema.constraints as i64;
        if schema.properties.len() == 0 {
            let mut row: Vec<QueryValue> = Vec::new();
            row.push(text_value(schema.identity.as_str()));
            row.push(text_value(schema.state.as_str()));
            row.push(QueryValue::Null);
            row.push(QueryValue::Null);
            row.push(QueryValue::Integer(constraints));
            assert(row_matches(row@, cells[0]));
            rows.push(row);
            assert(rows@[before.len() as int] == row);
        } else {
            let mut k: usize = 0;
            while k < schema.properties.len()
                invariant
                    k <= schema.properties@.len(),
                    cells == schema_cells(*schema),
                    schema.properties@.len() > 0,
                    constraints == schema.constraints as i64,
                    rows@.len() == before.len() + k,
                    forall|j: int| 0 <= j < before.len() ==> #[trigger] rows@[j] == before[j],
                    forall|j: int|
                        0 <= j < k ==> row_matches(#[trigger] rows@[before.len() + j]@, cells[j]),
                decreases schema.properties@.len() - k,
            {
                let property = &schema.properties[k];
                let mut row: Vec<QueryValue> = Vec::new();
                row.push(text_value(schema.identity.as_str()));
                row.push(text_value(schema.state.as_str()));
                row.push(text_value(property.name.as_str()));
                row.push(text_value(property.property_type.as_str()));
                row.push(QueryValue::Integer(constraints));
                assert(row_matches(row@, cells[k as int]));
                rows.push(row);
                k += 1;
            }
        }
        proof {
            assert(values@.take(i + 1).drop_last() == values@.take(i as int));
            let prev = schemas_cells(values@.take(i as int));
            let all = schemas_cells(values@.take(i + 1));
            assert(all == prev + cells);
            assert(rows@.len() == before.len() + cells.len());
            assert forall|j: int| 0 <= j < rows@.len() implies row_matches(
                #[trigger] rows@[j]@,
                all[j],
            ) by {
                if j < before.len() {
                    assert(rows@[j] == before[j]);
                    assert(row_matches(before[j]@, prev[j]));
                } else {
                    let jj = j - before.len();
                    assert(all[j] == cells[jj]);
                    assert(row_matches(rows@[before.len() + jj]@, cells[jj]));
                }
            }
        }
        i += 1;
    }
    assert(values@.take(values@.len() as int) == values@);
    rows
}

/// A reference that did not resolve: its kind, the internal node
/// identifier if it has one, its identity and state.
#[derive(Debug)]
pub struct UnresolvedInfo {
    pub kind: String,
    pub internal_id: Option<u64>,
    pub identity: String,
    pub state: String,
}

/// Whether an internal identifier exceeds the query integer range.
pub open spec fn id_too_large(value: UnresolvedInfo) -> bool {
    value.internal_id matches Some(id) && id > i64::MAX
}

pub open spec fn unresolved_cells(value: UnresolvedInfo) -> Seq<Cell> {
    seq![
        Cell::Text(value.kind@),
        match value.internal_id {
            Some(id) => Cell::Int(id as int),
            None => Cell::Null,
        },
        Cell::Text(value.identity@),
        Cell::Text(value.state@),
    ]
}

/// The error for an internal identifier out of the query integer range.
pub open spec fn id_range_error() -> ErrorView {
    (EXIT_DATABASE, "internal Node ID exceeds the query Integer range"@)
}

/// The table of unresolved references; an internal identifier above
/// `i64::MAX` cannot be shown and fails the whole table.
pub fn unresolved_rows(values: Vec<UnresolvedInfo>) -> (result: Result<
    Vec<Vec<QueryValue>>,
    CliError,
>)
    ensures
        (exists|i: int| 0 <= i < values@.len() && id_too_large(#[trigger] values@[i]))
            ==> fails_with(result, id_range_error()),
        !(exists|i: int| 0 <= i < values@.len() && id_too_large(#[trigger] values@[i]))
            ==> (result matches Ok(rows) && rows_match(
            rows@,
            values@.map_values(|v: UnresolvedInfo| unresolved_cells(v)),
        )),
{
    let ghost cells = values@.map_values(|v: UnresolvedInfo| unresolved_cells(v));
    let mut rows: Vec<Vec<QueryValue>> = Vec::new();
    let mut i: usize = 0;
    while i < values.len()
        invariant
            i <= values@.len(),
            cells == values@.map_values(|v: UnresolvedInfo| unresolved_cells(v)),
            forall|j: int| 0 <= j < i ==> !id_too_large(#[trigger] values@[j]),
            rows@.len() == i,
            forall|j: int| 0 <= j < i ==> row_matches(#[trigger] rows@[j]@, cells[j]),
        decreases values@.len() - i,
    {
        let value = &values[i];
        let id = match value.internal_id {
            None => QueryValue::Null,
            Some(id) => {
                if id > 9223372036854775807u64 {
                    return Err(
                        CliError::new(
                            EXIT_DATABASE,
                            owned("internal Node ID exceeds the query Integer range"),
                        ),
                    );
                }
                QueryValue::Integer(id as i64)
            },
        };
        let mut row: Vec<QueryValue> = Vec::new();
        row.push(text_value(value.kind.as_str()));
        row.push(id);
        row.push(text_value(value.identity.as_str()));
        row.push(text_value(value.state.as_str()));
        rows.push(row);
        i += 1;
    }
    Ok(rows)
}

/// The `n` lowest hexadecimal digits of a number, zero-padded, as
/// `{:0nx}` writes a number below `16^n`.
pub open spec fn hex_fixed(value: nat, width: nat) -> Seq<char>
    decreases width,
{
    if width == 0 {
        seq![]
    } else {
        hex_fixed(value / 16, (width - 1) as nat).push(hex_digit((value % 16) as int))
    }
}

fn push_hex_fixed(t: &mut String, value: u64, width: usize)
    ensures
        final(t)@ == old(t)@ + hex_fixed(value as nat, width as nat),
    decreases width,
{
    if width > 0 {
        push_hex_fixed(t, value / 16, width - 1);
        push_char(t, hex_digit_of((value % 16) as u8));
    }
}

/// Sixteen lowercase hexadecimal digits of a 64-bit number.
pub fn hex16(value: u64) -> (t: String)
    ensures
        t@ == hex_fixed(value as nat, 16),
{
    let mut t = String::new();
    push_hex_fixed(&mut t, value, 16);
    t
}


/// What `nostdb inspect` reports of a database.
#[derive(Debug)]
pub struct DatabaseInfo {
    pub ndb_format_version: u32,
    pub schema_revision: u32,
    pub generation: u64,
    pub logical_checksum: u64,
    pub source_managed: bool,
}

/// The row of `nostdb inspect`: the generation is shown as a signed 64-bit
/// integer and the checksum as sixteen hexadecimal digits.
pub open spec fn inspect_cells(info: DatabaseInfo) -> Seq<Cell> {
    seq![
        Cell::Int(info.ndb_format_version as int),
        Cell::Int(info.schema_revision as int),
        Cell::Int((info.generation as i64) as int),
        Cell::Text(hex_fixed(info.logical_checksum as nat, 16)),
        Cell::Bool(info.source_managed),
    ]
}

pub fn inspect_row(info: &DatabaseInfo) -> (row: Vec<QueryValue>)
    ensures
        row_matches(row@, inspect_cells(*info)),
{
    let mut row: Vec<QueryValue> = Vec::new();
    row.push(QueryValue::Integer(info.ndb_format_version as i64));
    row.push(QueryValue::Integer(info.schema_revision as i64));
    row.push(QueryValue::Integer(info.generation as i64));
    row.push(QueryValue::String(hex16(info.logical_checksum)));
    row.push(QueryValue::Boolean(info.source_managed));
    row
}

/// The object counts of a database.
#[derive(Debug)]
pub struct Counts {
    pub schemas: u64,
    pub nodes: u64,
    pub edges: u64,
    pub adjacency: u64,
    pub properties: u64,
}

/// The row of `nostdb stats`: each count as a signed 64-bit integer.
pub open spec fn stats_cells(counts: Counts) -> Seq<Cell> {
    seq![
        Cell::Int((counts.schemas as i64) as int),
        Cell::Int((counts.nodes as i64) as int),
        Cell::Int((counts.edges as i64) as int),
        Cell::Int((counts.adjacency as i64) as int),
        Cell::Int((counts.properties as i64) as int),
    ]
}

pub fn stats_row(counts: &Counts) -> (row: Vec<QueryValue>)
    ensures
        row_matches(row@, stats_cells(*counts)),
{
    let mut row: Vec<QueryValue> = Vec::new();
    row.push(QueryValue::Integer(counts.schemas as i64));
    row.push(QueryValue::Integer(counts.nodes as i64));
    row.push(QueryValue::Integer(counts.edges as i64));
    row.push(QueryValue::Integer(counts.adjacency as i64));
    row.push(QueryValue::Integer(counts.properties as i64));
    row
}

/// The row of `nostdb sync`: the semantic hash, the number of attempts and
/// the number of warnings.
pub fn sync_row(semantic_hash: &str, attempts: u32, warnings: usize) -> (row: Vec<QueryValue>)
    ensures
        row_matches(
            row@,
            seq![
                Cell::Text(semantic_hash@),
                Cell::Int(attempts as int),
                Cell::Int((warnings as i64) as int),
            ],
        ),
{
    let mut row: Vec<QueryValue> = Vec::new();
    row.push(text_value(semantic_hash));
    row.push(QueryValue::Integer(attempts as i64));
    row.push(QueryValue::Integer(warnings as i64));
    row
}

/// The error of an integrity check that found problems.
pub open spec fn integrity_error(findings: nat) -> ErrorView {
    (EXIT_DATABASE, "integrity check found "@ + decimal(findings) + " problem(s)"@)
}

/// The outcome of `nostdb check`: a valid database gives the row
/// `true, 0`; otherwise the number of findings is reported as an error.
pub fn check_outcome(valid: bool, findings: usize) -> (result: Result<Vec<QueryValue>, CliError>)
    ensures
        valid ==> (result matches Ok(row) && row_matches(row@, seq![Cell::Bool(true), Cell::Int(0)])),
        !valid ==> fails_with(result, integrity_error(findings as nat)),
{
    if valid {
        let mut row: Vec<QueryValue> = Vec::new();
        row.push(QueryValue::Boolean(true));
        row.push(QueryValue::Integer(0));
        Ok(row)
    } else {
        let mut message = owned("integrity check found ");
        push_decimal(&mut message, findings as u64);
        append(&mut message, " problem(s)");
        Err(CliError::new(EXIT_DATABASE, message))
    }
}

/// `kind: message`, the line printed for each integrity finding.
pub fn finding_line(kind: &str, message: &str) -> (line: String)
    ensures
        line@ == kind@ + ": "@ + message@,
{
    join3(kind, ": ", message)
}

/// The rows of a module mapping: each module path with its identifier.
pub fn module_rows(modules: &Vec<(String, String)>) -> (rows: Vec<Vec<QueryValue>>)
    ensures
        rows_match(
            rows@,
            modules@.map_values(|m: (String, String)| seq![Cell::Text(m.0@), Cell::Text(m.1@)]),
        ),
{
    let ghost cells = modules@.map_values(
        |m: (String, String)| seq![Cell::Text(m.0@), Cell::Text(m.1@)],
    );
    let mut rows: Vec<Vec<QueryValue>> = Vec::new();
    let mut i: usize = 0;
    while i < modules.len()
        invariant
            i <= modules@.len(),
            cells == modules@.map_values(
                |m: (String, String)| seq![Cell::Text(m.0@), Cell::Text(m.1@)],
            ),
            rows@.len() == i,
            forall|j: int| 0 <= j < i ==> row_matches(#[trigger] rows@[j]@, cells[j]),
        decreases modules@.len() - i,
    {
        let mut row: Vec<QueryValue> = Vec::new();
        row.push(text_value(modules[i].0.as_str()));
        row.push(text_value(modules[i].1.as_str()));
        assert(row_matches(row@, cells[i as int]));
        rows.push(row);
        i += 1;
    }
    rows
}

/// The row of `nostdb sync` for an NDB-only project, whose database alone
/// is the project: nothing is synchronized and nothing warned of.
pub fn ndb_only_sync_row() -> (row: Vec<QueryValue>)
    ensures
        row_matches(row@, seq![Cell::Text("ndb_only"@), Cell::Int(0), Cell::Int(0)]),
{
    let mut row: Vec<QueryValue> = Vec::new();
    row.push(text_value("ndb_only"));
    row.push(QueryValue::Integer(0));
    row.push(QueryValue::Integer(0));
    row
}

} // verus!
