//! Project diagnostics and the messages of project and synchronization
//! failures.
use vstd::prelude::*;

use crate::error::{
    CliError, EXIT_PROJECT,
};
use crate::text::{
    append, decimal, join_text, lemma_join_text_take, owned, push_decimal,
};
use crate::value::QueryValue;

verus! {

/// One diagnostic of a project compilation: the module it belongs to (its
/// path, if it belongs to one), the byte range it points at, if any, its
/// code, severity and message.
#[derive(Debug)]
pub struct Diagnostic {
    pub module: Option<String>,
    pub range: Option<(u64, u64)>,
    pub code: String,
    pub severity: String,
    pub message: String,
}

/// The module part of a diagnostic line: the override, else the module's
/// path, else `<project>`.
pub open spec fn module_text(d: Diagnostic, module_override: Option<Seq<char>>) -> Seq<char> {
    match module_override {
        Some(path) => path,
        None => match d.module {
            Some(path) => path@,
            None => "<project>"@,
        },
    }
}

/// `start..end`.
pub open spec fn range_text(start: u64, end: u64) -> Seq<char> {
    decimal(start as nat) + ".."@ + decimal(end as nat)
}

/// `module:bytes start..end: code severity: message`, with `bytes -` when
/// the diagnostic points at no range.
pub open spec fn diagnostic_line(d: Diagnostic, module_override: Option<Seq<char>>) -> Seq<char> {
    module_text(d, module_override) + ":"@ + match d.range {
        Some(r) => "bytes "@ + range_text(r.0, r.1),
        None => "bytes -"@,
    } + ": "@ + d.code@ + " "@ + d.severity@ + ": "@ + d.message@
}

/// The lines of all diagnostics, one per line.
pub open spec fn diagnostics_text(
    diagnostics: Seq<Diagnostic>,
    module_override: Option<Seq<char>>,
) -> Seq<char> {
    join_text(
        diagnostics.map_values(|d: Diagnostic| diagnostic_line(d, module_override)),
        "\n"@,
    )
}

fn push_range(text: &mut String, start: u64, end: u64)
    ensures
        final(text)@ == old(text)@ + range_text(start, end),
{
    push_decimal(text, start);
    append(text, "..");
    push_decimal(text, end);
}

fn push_diagnostic_line(text: &mut String, d: &Diagnostic, module_override: Option<&str>)
    ensures
        final(text)@ == old(text)@ + diagnostic_line(
            *d,
            match module_override {
                Some(p) => Some(p@),
                None => None,
            },
        ),
{
    let ghost start = text@;
    match module_override {
        Some(path) => append(text, path),
        None => match &d.module {
            Some(path) => append(text, path.as_str()),
            None => append(text, "<project>"),
        },
    }
    append(text, ":");
    let ghost after_module = text@;
    match d.range {
        Some((s, e)) => {
            append(text, "bytes ");
            push_range(text, s, e);
        },
        None => append(text, "bytes -"),
    }
    let ghost after_range = text@;
    append(text, ": ");
    append(text, d.code.as_str());
    append(text, " ");
    append(text, d.severity.as_str());
    append(text, ": ");
    append(text, d.message.as_str());
    assert(text@ =~= start + diagnostic_line(
        *d,
        match module_override {
            Some(p) => Some(p@),
            None => None,
        },
    ));
}

/// The diagnostics, one line each; `module_override` replaces the module
/// of every line.
pub fn format_project_diagnostics(
    diagnostics: &Vec<Diagnostic>,
    module_override: Option<&str>,
) -> (text: String)
    ensures
        text@ == diagnostics_text(
            diagnostics@,
            match module_override {
                Some(p) => Some(p@),
                None => None,
            },
        ),
{
    let ghost m = match module_override {
        Some(p) => Some(p@),
        None => None,
    };
    let ghost lines = diagnostics@.map_values(|d: Diagnostic| diagnostic_line(d, m));
    let mut text = String::new();
    let mut i: usize = 0;
    while i < diagnostics.len()
        invariant
            i <= diagnostics@.len(),
            m == match module_override {
                Some(p) => Some(p@),
                None => None,
            },
            lines == diagnostics@.map_values(|d: Diagnostic| diagnostic_line(d, m)),
            text@ == join_text(lines.take(i as int), "\n"@),
        decreases diagnostics@.len() - i,
    {
        proof {
            lemma_join_text_take(lines, "\n"@, i as int);
        }
        if i > 0 {
            append(&mut text, "\n");
        }
        push_diagnostic_line(&mut text, &diagnostics[i], module_override);
        i += 1;
    }
    assert(lines.take(diagnostics@.len() as int) == lines);
    text
}

/// Whether a value is the given text.
pub open spec fn is_text(value: QueryValue, text: Seq<char>) -> bool {
    value matches QueryValue::String(s) && s@ == text
}

/// The table row of a diagnostic: module (or `<project>`), range (or
/// `-`), code, severity and message.
pub open spec fn diagnostic_row_matches(row: Seq<QueryValue>, d: Diagnostic) -> bool {
    &&& row.len() == 5
    &&& is_text(
        row[0],
        match d.module {
            Some(path) => path@,
            None => "<project>"@,
        },
    )
    &&& is_text(
        row[1],
        match d.range {
            Some(r) => range_text(r.0, r.1),
            None => "-"@,
        },
    )
    &&& is_text(row[2], d.code@)
    &&& is_text(row[3], d.severity@)
    &&& is_text(row[4], d.message@)
}

/// One table row per diagnostic.
pub fn diagnostic_rows(diagnostics: Vec<Diagnostic>) -> (rows: Vec<Vec<QueryValue>>)
    ensures
        rows@.len() == diagnostics@.len(),
        forall|i: int|
            0 <= i < rows@.len() ==> diagnostic_row_matches(#[trigger] rows@[i]@, diagnostics@[i]),
{
    let mut rows: Vec<Vec<QueryValue>> = Vec::new();
    let mut i: usize = 0;
    while i < diagnostics.len()
        invariant
            i <= diagnostics@.len(),
            rows@.len() == i,
            forall|k: int|
                0 <= k < i ==> diagnostic_row_matches(#[trigger] rows@[k]@, diagnostics@[k]),
        decreases diagnostics@.len() - i,
    {
        let d = &diagnostics[i];
        let module = match &d.module {
            Some(path) => owned(path.as_str()),
            None => owned("<project>"),
        };
        let range = match d.range {
            Some((s, e)) => {
                let mut text = String::new();
                push_range(&mut text, s, e);
                text
            },
            None => owned("-"),
        };
        let mut row: Vec<QueryValue> = Vec::new();
        row.push(QueryValue::String(module));
        row.push(QueryValue::String(range));
        row.push(QueryValue::String(owned(d.code.as_str())));
        row.push(QueryValue::String(owned(d.severity.as_str())));
        row.push(QueryValue::String(owned(d.message.as_str())));
        rows.push(row);
        i += 1;
    }
    rows
}

/// A failed project compilation: its error diagnostics, or another failure
/// with its text.
#[derive(Debug)]
pub enum CompileFailure {
    Diagnostics(Vec<Diagnostic>),
    Other(String),
}

/// The message of a failed compilation: the count of error diagnostics and
/// their lines, or the failure's own text.
pub open spec fn compile_message(error: CompileFailure) -> Seq<char> {
    match error {
        CompileFailure::Diagnostics(ds) => "project compilation failed with "@ + decimal(
            ds@.len(),
        ) + " error diagnostic(s):\n"@ + diagnostics_text(ds@, None),
        CompileFailure::Other(text) => text@,
    }
}

pub fn compile_error_message(error: &CompileFailure) -> (message: String)
    ensures
        message@ == compile_message(*error),
{
    match error {
        CompileFailure::Diagnostics(ds) => {
            let mut message = owned("project compilation failed with ");
            push_decimal(&mut message, ds.len() as u64);
            append(&mut message, " error diagnostic(s):\n");
            let lines = format_project_diagnostics(ds, None);
            append(&mut message, lines.as_str());
            message
        },
        CompileFailure::Other(text) => owned(text.as_str()),
    }
}

/// A failed synchronization: a compilation failure, or another failure
/// with its text.
#[derive(Debug)]
pub enum SyncFailure {
    Compile(CompileFailure),
    Other(String),
}

pub open spec fn sync_message(error: SyncFailure) -> Seq<char> {
    match error {
        SyncFailure::Compile(c) => compile_message(c),
        SyncFailure::Other(text) => text@,
    }
}

pub fn sync_error_message(error: &SyncFailure) -> (message: String)
    ensures
        message@ == sync_message(*error),
{
    match error {
        SyncFailure::Compile(c) => compile_error_message(c),
        SyncFailure::Other(text) => owned(text.as_str()),
    }
}

/// A failed synchronization is a project error with the message above.
pub fn sync_failure(error: &SyncFailure) -> (result: CliError)
    ensures
        result.code == EXIT_PROJECT,
        result.message@ == sync_message(*error),
{
    CliError::project(sync_error_message(error))
}

} // verus!
