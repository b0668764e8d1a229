//! Statement results and how they are written.
use vstd::prelude::*;

use crate::format::OutputFormat;
use crate::render::{
    concat, join, render_table_data, rows_fit, rows_view, table_output, utf8, push_text,
};
use crate::split::views;
use crate::text::owned;
use crate::value::QueryValue;

verus! {

/// The columns and rows of a read result.
#[derive(Debug)]
pub struct QueryResult {
    pub columns: Vec<String>,
    pub rows: Vec<Vec<QueryValue>>,
}

/// The counts of changes a write made.
#[derive(Debug)]
pub struct WriteSummary {
    pub nodes_created: u64,
    pub edges_created: u64,
    pub nodes_deleted: u64,
    pub edges_deleted: u64,
    pub properties_set: u64,
    pub properties_removed: u64,
}

/// A write's optional returned table and its summary.
#[derive(Debug)]
pub struct WriteResult {
    pub result: Option<QueryResult>,
    pub summary: WriteSummary,
}

/// The result of one statement.
#[derive(Debug)]
pub enum StatementResult {
    Read(QueryResult),
    Write(WriteResult),
}

/// The names of the columns of a write summary.
pub open spec fn summary_columns() -> Seq<Seq<char>> {
    seq![
        "nodes_created"@,
        "edges_created"@,
        "nodes_deleted"@,
        "edges_deleted"@,
        "properties_set"@,
        "properties_removed"@,
    ]
}

/// The one row of a write summary; each count is shown as a signed 64-bit
/// integer (the conversion wraps above `i64::MAX`).
pub open spec fn summary_row(summary: WriteSummary) -> Seq<QueryValue> {
    seq![
        QueryValue::Integer(summary.nodes_created as i64),
        QueryValue::Integer(summary.edges_created as i64),
        QueryValue::Integer(summary.nodes_deleted as i64),
        QueryValue::Integer(summary.edges_deleted as i64),
        QueryValue::Integer(summary.properties_set as i64),
        QueryValue::Integer(summary.properties_removed as i64),
    ]
}

/// The output of a read result.
pub open spec fn query_output(result: QueryResult, format: OutputFormat) -> Seq<u8> {
    table_output(views(result.columns@), rows_view(result.rows@), format)
}

/// The output of a write: its returned table, if any; in a text table
/// that is followed by the summary table, which is also what is written
/// when nothing was returned.
pub open spec fn write_output(result: WriteResult, format: OutputFormat) -> Seq<u8> {
    let summary = table_output(summary_columns(), seq![summary_row(result.summary)], format);
    match result.result {
        Some(table) => if format != OutputFormat::Table {
            query_output(table, format)
        } else {
            query_output(table, format) + summary
        },
        None => summary,
    }
}

/// The output of one statement.
pub open spec fn statement_output(result: StatementResult, format: OutputFormat) -> Seq<u8> {
    match result {
        StatementResult::Read(table) => query_output(table, format),
        StatementResult::Write(write) => write_output(write, format),
    }
}

/// Whether a text table can be written for the result.
pub open spec fn query_fits(result: QueryResult, format: OutputFormat) -> bool {
    format == OutputFormat::Table ==> rows_fit(result.columns@.len() as int, rows_view(result.rows@))
}

pub open spec fn statement_fits(result: StatementResult, format: OutputFormat) -> bool {
    match result {
        StatementResult::Read(table) => query_fits(table, format),
        StatementResult::Write(write) => match write.result {
            Some(table) => query_fits(table, format),
            None => true,
        },
    }
}

/// The bytes without their trailing line feeds and carriage returns.
pub open spec fn trim_line_end(bytes: Seq<u8>) -> Seq<u8>
    decreases bytes.len(),
{
    if bytes.len() > 0 && (bytes.last() == 10 || bytes.last() == 13) {
        trim_line_end(bytes.drop_last())
    } else {
        bytes
    }
}

/// The output of several statements: one JSON array of their documents
/// when there are several in JSON, else their outputs one after another.
pub open spec fn batch_output(results: Seq<StatementResult>, format: OutputFormat) -> Seq<u8> {
    if format == OutputFormat::Json && results.len() > 1 {
        utf8("["@) + join(
            results.map_values(
                |r: StatementResult| trim_line_end(statement_output(r, OutputFormat::Json)),
            ),
            utf8(","@),
        ) + utf8("]\n"@)
    } else {
        concat(results.map_values(|r: StatementResult| statement_output(r, format)))
    }
}

/// Removes the trailing line feeds and carriage returns.
pub fn trim_line_ending(bytes: &mut Vec<u8>)
    ensures
        final(bytes)@ == trim_line_end(old(bytes)@),
{
    while bytes.len() > 0 && (bytes[bytes.len() - 1] == 10 || bytes[bytes.len() - 1] == 13)
        invariant
            trim_line_end(bytes@) == trim_line_end(old(bytes)@),
        decreases bytes@.len(),
    {
        bytes.pop();
    }
}

/// Writes a read result.
pub fn render_query(result: &QueryResult, format: OutputFormat, output: &mut Vec<u8>)
    requires
        query_fits(*result, format),
    ensures
        final(output)@ == old(output)@ + query_output(*result, format),
{
    render_table_data(&result.columns, &result.rows, format, output);
}

/// Writes a write result.
pub fn render_write(result: &WriteResult, format: OutputFormat, output: &mut Vec<u8>)
    requires
        match result.result {
            Some(table) => query_fits(table, format),
            None => true,
        },
    ensures
        final(output)@ == old(output)@ + write_output(*result, format),
{
    let ghost start = output@;
    if let Some(table) = &result.result {
        render_query(table, format, output);
        if format != OutputFormat::Table {
            return;
        }
    }
    let ghost middle = output@;
    let summary = &result.summary;
    let columns = vec![
        owned("nodes_created"),
        owned("edges_created"),
        owned("nodes_deleted"),
        owned("edges_deleted"),
        owned("properties_set"),
        owned("properties_removed"),
    ];
    let rows = vec![
        vec![
            QueryValue::Integer(summary.nodes_created as i64),
            QueryValue::Integer(summary.edges_created as i64),
            QueryValue::Integer(summary.nodes_deleted as i64),
            QueryValue::Integer(summary.edges_deleted as i64),
            QueryValue::Integer(summary.properties_set as i64),
            QueryValue::Integer(summary.properties_removed as i64),
        ],
    ];
    assert(views(columns@) =~= summary_columns());
    assert(rows_view(rows@) =~= seq![summary_row(result.summary)]);
    assert(rows_fit(columns@.len() as int, rows_view(rows@)));
    render_table_data(&columns, &rows, format, output);
}

/// Writes one statement's result.
pub fn render_statement(result: &StatementResult, format: OutputFormat, output: &mut Vec<u8>)
    requires
        statement_fits(*result, format),
    ensures
        final(output)@ == old(output)@ + statement_output(*result, format),
{
    match result {
        StatementResult::Read(table) => render_query(table, format, output),
        StatementResult::Write(write) => render_write(write, format, output),
    }
}

/// Writes the results of a batch of statements: several JSON documents
/// are framed as one array, other outputs are written one after another.
pub fn render_statement_batch(
    results: &Vec<StatementResult>,
    format: OutputFormat,
    output: &mut Vec<u8>,
)
    requires
        forall|k: int| 0 <= k < results@.len() ==> statement_fits(#[trigger] results@[k], format),
    ensures
        final(output)@ == old(output)@ + batch_output(results@, format),
{
    if format == OutputFormat::Json && results.len() > 1 {
        let ghost items = results@.map_values(
            |r: StatementResult| trim_line_end(statement_output(r, OutputFormat::Json)),
        );
        push_text(output, "[");
        let ghost base = output@;
        let mut i: usize = 0;
        while i < results.len()
            invariant
                i <= results@.len(),
                format == OutputFormat::Json,
                forall|k: int| 0 <= k < results@.len() ==> statement_fits(#[trigger] results@[k], format),
                items == results@.map_values(
                    |r: StatementResult| trim_line_end(statement_output(r, OutputFormat::Json)),
                ),
                output@ == base + join(items.take(i as int), utf8(","@)),
            decreases results@.len() - i,
        {
            proof {
                crate::render::lemma_join_take(items, utf8(","@), i as int);
            }
            if i > 0 {
                push_text(output, ",");
            }
            let mut item: Vec<u8> = Vec::new();
            render_statement(&results[i], OutputFormat::Json, &mut item);
            trim_line_ending(&mut item);
            output.append(&mut item);
            i += 1;
        }
        assert(items.take(results@.len() as int) == items);
        push_text(output, "]\n");
    } else {
        let ghost items = results@.map_values(|r: StatementResult| statement_output(r, format));
        let ghost base = output@;
        let mut i: usize = 0;
        while i < results.len()
            invariant
                i <= results@.len(),
                forall|k: int| 0 <= k < results@.len() ==> statement_fits(#[trigger] results@[k], format),
                items == results@.map_values(|r: StatementResult| statement_output(r, format)),
                output@ == base + concat(items.take(i as int)),
            decreases results@.len() - i,
        {
            proof {
                crate::render::lemma_concat_take(items, i as int);
            }
            render_statement(&results[i], format, output);
            i += 1;
        }
        assert(items.take(results@.len() as int) == items);
    }
}

/// A batch of one statement writes exactly what that statement writes
/// alone: a single JSON result keeps its `{columns, rows}` document.
pub proof fn lemma_single_statement_batch(result: StatementResult, format: OutputFormat)
    ensures
        batch_output(seq![result], format) == statement_output(result, format),
{
    let items = seq![result].map_values(|r: StatementResult| statement_output(r, format));
    assert(items.drop_last() =~= Seq::<Seq<u8>>::empty());
    assert(items.last() == statement_output(result, format));
    assert(concat(items.drop_last()) =~= Seq::<u8>::empty());
}

fn query_fits_check(result: &QueryResult, format: OutputFormat) -> (fits: bool)
    ensures
        fits == query_fits(*result, format),
{
    if format != OutputFormat::Table {
        return true;
    }
    let mut r: usize = 0;
    while r < result.rows.len()
        invariant
            r <= result.rows@.len(),
            format == OutputFormat::Table,
            forall|k: int| 0 <= k < r ==> #[trigger] result.rows@[k]@.len() <= result.columns@.len(),
        decreases result.rows@.len() - r,
    {
        if result.rows[r].len() > result.columns.len() {
            assert(rows_view(result.rows@)[r as int].len() > result.columns@.len());
            return false;
        }
        r += 1;
    }
    assert forall|k: int| 0 <= k < rows_view(result.rows@).len() implies #[trigger] rows_view(
        result.rows@,
    )[k].len() <= result.columns@.len() by {
        assert(result.rows@[k]@.len() <= result.columns@.len());
    }
    true
}

/// Whether a text table can show every table of the result (a row longer
/// than its columns cannot be shown).
pub fn statement_fits_check(result: &StatementResult, format: OutputFormat) -> (fits: bool)
    ensures
        fits == statement_fits(*result, format),
{
    match result {
        StatementResult::Read(table) => query_fits_check(table, format),
        StatementResult::Write(write) => match &write.result {
            Some(table) => query_fits_check(table, format),
            None => true,
        },
    }
}

} // verus!
