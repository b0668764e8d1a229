use vstd::prelude::*;

use vstd::utf8::{encode_scalar, encode_utf8};

use crate::error::{CliError, EXIT_USAGE};
use crate::render::{concat, csv_row, jsonl_line, table_output, utf8};
use crate::value::QueryValue;
use crate::text::{join3, text_eq};

verus! {

/// The machine and human output formats.
#[derive(Clone, Copy, Debug, PartialEq, Eq, Structural)]
pub enum OutputFormat {
    Table,
    Json,
    Jsonl,
    Csv,
}

/// The format named by `value`, if any.
pub open spec fn format_named(value: Seq<char>) -> Option<OutputFormat> {
    if value == "table"@ {
        Some(OutputFormat::Table)
    } else if value == "json"@ {
        Some(OutputFormat::Json)
    } else if value == "jsonl"@ {
        Some(OutputFormat::Jsonl)
    } else if value == "csv"@ {
        Some(OutputFormat::Csv)
    } else {
        None
    }
}

impl OutputFormat {
    /// Parses `table`, `json`, `jsonl` or `csv`; any other name is a usage error.
    pub fn parse(value: &str) -> (result: Result<Self, CliError>)
        ensures
            match format_named(value@) {
                Some(format) => result == Ok::<Self, CliError>(format),
                None => result matches Err(e) && e.code == EXIT_USAGE && e.message@
                    == "unknown output format `"@ + value@ + "`"@,
            },
    {
        if text_eq(value, "table") {
            Ok(OutputFormat::Table)
        } else if text_eq(value, "json") {
            Ok(OutputFormat::Json)
        } else if text_eq(value, "jsonl") {
            Ok(OutputFormat::Jsonl)
        } else if text_eq(value, "csv") {
            Ok(OutputFormat::Csv)
        } else {
            Err(CliError::usage(join3("unknown output format `", value, "`")))
        }
    }
}


proof fn lemma_concat_append(a: Seq<Seq<u8>>, b: Seq<Seq<u8>>)
    ensures
        concat(a + b) == concat(a) + concat(b),
    decreases b.len(),
{
    if b.len() == 0 {
        assert(a + b =~= a);
        assert(concat(a) + concat(b) =~= concat(a));
    } else {
        lemma_concat_append(a, b.drop_last());
        assert((a + b).drop_last() =~= a + b.drop_last());
        assert(concat(a + b) =~= concat(a) + concat(b));
    }
}

proof fn lemma_open_brace()
    ensures
        utf8("{\"columns\":["@).len() > 0,
        utf8("{\"columns\":["@)[0] == 123u8,
{
    reveal_strlit("{\"columns\":[");
    let s = "{\"columns\":["@;
    assert(s[0] == '{');
    assert((123u32 & 0x7Fu32) as u8 == 123u8) by (bit_vector);
    assert(encode_scalar(s[0] as u32) == seq![123u8]);
    assert(encode_utf8(s) == encode_scalar(s[0] as u32) + encode_utf8(s.drop_first()));
}

/// Each format name means its own format: the four names give four
/// distinct formats. `jsonl` writes one line per row, so no rows write
/// nothing and rows written together are the rows written one batch after
/// the other; `json` writes one document, opening with `{`, even without
/// rows; `csv` writes its header record even without rows; `table` is the
/// remaining one.
pub proof fn lemma_format_names(
    a: Seq<char>,
    b: Seq<char>,
    columns: Seq<Seq<char>>,
    rows: Seq<Seq<QueryValue>>,
    more: Seq<Seq<QueryValue>>,
)
    ensures
        format_named(a) is Some && format_named(a) == format_named(b) ==> a == b,
        format_named("table"@) is Some && format_named("json"@) is Some && format_named("jsonl"@)
            is Some && format_named("csv"@) is Some,
        table_output(columns, Seq::empty(), format_named("jsonl"@)->0) == Seq::<u8>::empty(),
        table_output(columns, rows + more, format_named("jsonl"@)->0) == table_output(
            columns,
            rows,
            format_named("jsonl"@)->0,
        ) + table_output(columns, more, format_named("jsonl"@)->0),
        table_output(columns, rows, format_named("json"@)->0).len() > 0 && table_output(
            columns,
            rows,
            format_named("json"@)->0,
        )[0] == 123u8,
        table_output(columns, Seq::empty(), format_named("csv"@)->0) == csv_row(columns),
{
    reveal_strlit("table");
    reveal_strlit("json");
    reveal_strlit("jsonl");
    reveal_strlit("csv");
    assert("json"@ != "table"@) by { assert("json"@.len() != "table"@.len()); }
    assert("jsonl"@ != "table"@) by { assert("jsonl"@[0] != "table"@[0]); }
    assert("jsonl"@ != "json"@) by { assert("jsonl"@.len() != "json"@.len()); }
    assert("csv"@ != "table"@) by { assert("csv"@.len() != "table"@.len()); }
    assert("csv"@ != "json"@) by { assert("csv"@.len() != "json"@.len()); }
    assert("csv"@ != "jsonl"@) by { assert("csv"@.len() != "jsonl"@.len()); }
    let line = |r: Seq<QueryValue>| jsonl_line(columns, r);
    assert((rows + more).map_values(line) =~= rows.map_values(line) + more.map_values(line));
    lemma_concat_append(rows.map_values(line), more.map_values(line));
    assert(Seq::<Seq<QueryValue>>::empty().map_values(line) =~= Seq::<Seq<u8>>::empty());
    lemma_open_brace();
    let csv_lines = Seq::<Seq<QueryValue>>::empty().map_values(
        |r: Seq<QueryValue>| csv_row(crate::render::row_texts(r)),
    );
    assert(csv_lines =~= Seq::<Seq<u8>>::empty());
    assert(csv_row(columns) + concat(csv_lines) =~= csv_row(columns));
}

} // verus!
