//! Rendering result tables as text tables, JSON, JSON lines and CSV.
//!
//! Output is the byte sequence written to standard output.
use vstd::prelude::*;
use vstd::utf8::encode_utf8;

use crate::format::OutputFormat;
use crate::split::views;
use crate::text::{decimal, push_decimal, signed_decimal, push_signed_decimal};
use crate::value::{
    bool_text, display, display_value, hex, hex_text, EdgeKind, EdgeValue, NodeValue, QueryValue,
};

verus! {

/// The UTF-8 bytes of a text.
pub open spec fn utf8(s: Seq<char>) -> Seq<u8> {
    encode_utf8(s)
}

/// The items with `separator` between consecutive ones.
pub open spec fn join(items: Seq<Seq<u8>>, separator: Seq<u8>) -> Seq<u8>
    decreases items.len(),
{
    if items.len() == 0 {
        seq![]
    } else if items.len() == 1 {
        items[0]
    } else {
        join(items.drop_last(), separator) + separator + items.last()
    }
}

/// The concatenation of the items.
pub open spec fn concat(items: Seq<Seq<u8>>) -> Seq<u8>
    decreases items.len(),
{
    if items.len() == 0 {
        seq![]
    } else {
        concat(items.drop_last()) + items.last()
    }
}

pub proof fn lemma_join_take(items: Seq<Seq<u8>>, separator: Seq<u8>, i: int)
    requires
        0 <= i < items.len(),
    ensures
        join(items.take(i + 1), separator) == if i == 0 {
            items[0]
        } else {
            join(items.take(i), separator) + separator + items[i]
        },
{
    assert(items.take(i + 1).drop_last() == items.take(i));
}

pub proof fn lemma_concat_take(items: Seq<Seq<u8>>, i: int)
    requires
        0 <= i < items.len(),
    ensures
        concat(items.take(i + 1)) == concat(items.take(i)) + items[i],
{
    assert(items.take(i + 1).drop_last() == items.take(i));
}

/// The lowercase hexadecimal digit, as an ASCII byte, for a value below sixteen.
pub open spec fn hex_byte(d: int) -> u8 {
    if d < 10 {
        (48 + d) as u8
    } else {
        (87 + d) as u8
    }
}

/// How one byte of a text is written inside a JSON string: quote,
/// backslash, newline, carriage return and tab get their short escapes,
/// other control bytes below 0x20 become `\u00XX`, and every other byte is
/// written unchanged (so characters outside ASCII keep their UTF-8 bytes).
pub open spec fn json_escape_byte(b: u8) -> Seq<u8> {
    if b == 34 {
        seq![92u8, 34u8]
    } else if b == 92 {
        seq![92u8, 92u8]
    } else if b == 10 {
        seq![92u8, 110u8]
    } else if b == 13 {
        seq![92u8, 114u8]
    } else if b == 9 {
        seq![92u8, 116u8]
    } else if b < 32 {
        seq![92u8, 117u8, 48u8, 48u8, hex_byte(b as int / 16), hex_byte(b as int % 16)]
    } else {
        seq![b]
    }
}

pub open spec fn json_escape(bytes: Seq<u8>) -> Seq<u8>
    decreases bytes.len(),
{
    if bytes.len() == 0 {
        seq![]
    } else {
        json_escape(bytes.drop_last()) + json_escape_byte(bytes.last())
    }
}

/// A text as a JSON string literal.
pub open spec fn json_string(s: Seq<char>) -> Seq<u8> {
    seq![34u8] + json_escape(utf8(s)) + seq![34u8]
}

/// The JSON name of an edge kind.
pub open spec fn edge_kind_name(kind: EdgeKind) -> Seq<char> {
    match kind {
        EdgeKind::Directed => "directed"@,
        EdgeKind::Undirected => "directionless"@,
        EdgeKind::Bidirectional => "bidirectional"@,
    }
}

/// The JSON of a value. Integers, durations (in nanoseconds) and floats are
/// bare numbers, bytes a string of hexadecimal digits, lists arrays, maps
/// objects, nodes `{"id","labels","properties"}` and edges
/// `{"id","kind","source","target","type","properties"}`.
pub open spec fn json_value(value: QueryValue) -> Seq<u8>
    decreases value,
{
    match value {
        QueryValue::Null => utf8("null"@),
        QueryValue::Boolean(b) => utf8(bool_text(b)),
        QueryValue::Integer(i) => utf8(signed_decimal(i as int)),
        QueryValue::Float(text) => utf8(text@),
        QueryValue::String(text) => json_string(text@),
        QueryValue::Bytes(bytes) => json_string(hex_text(bytes@)),
        QueryValue::Duration(nanos) => utf8(signed_decimal(nanos as int)),
        QueryValue::List(values) => utf8("["@) + json_list(values@) + utf8("]"@),
        QueryValue::Mapping(entries) => utf8("{"@) + json_entries(entries@) + utf8("}"@),
        QueryValue::Node(node) => utf8("{\"id\":"@) + utf8(decimal(node.id as nat)) + utf8(
            ",\"labels\":["@,
        ) + join(views(node.labels@).map_values(|l: Seq<char>| json_string(l)), utf8(","@))
            + utf8("],\"properties\":{"@) + json_entries(node.properties@) + utf8("}}"@),
        QueryValue::Edge(edge) => json_edge_fields(edge) + json_entries(edge.properties@) + utf8(
            "}}"@,
        ),
    }
}

/// The members of an edge's JSON object up to the opening of its properties.
pub open spec fn json_edge_fields(edge: EdgeValue) -> Seq<u8> {
    utf8("{\"id\":"@) + utf8(decimal(edge.id as nat)) + utf8(",\"kind\":"@) + json_string(
        edge_kind_name(edge.kind),
    ) + utf8(",\"source\":"@) + utf8(decimal(edge.source as nat)) + utf8(",\"target\":"@)
        + utf8(decimal(edge.target as nat)) + utf8(",\"type\":"@) + json_relationship(edge.relationship_type) + utf8(
        ",\"properties\":{"@,
    )
}

/// The JSON of an edge's optional relationship type.
pub open spec fn json_relationship(relationship_type: Option<String>) -> Seq<u8> {
    match relationship_type {
        Some(t) => json_string(t@),
        None => utf8("null"@),
    }
}

/// The JSON of the values, separated by commas.
pub open spec fn json_list(values: Seq<QueryValue>) -> Seq<u8>
    decreases values,
{
    if values.len() == 0 {
        seq![]
    } else if values.len() == 1 {
        json_value(values[0])
    } else {
        json_list(values.drop_last()) + utf8(","@) + json_value(values.last())
    }
}

/// The members `"key":value` of a JSON object, separated by commas.
pub open spec fn json_entries(entries: Seq<(String, QueryValue)>) -> Seq<u8>
    decreases entries,
{
    if entries.len() == 0 {
        seq![]
    } else if entries.len() == 1 {
        json_string(entries[0].0@) + utf8(":"@) + json_value(entries[0].1)
    } else {
        json_entries(entries.drop_last()) + utf8(","@) + json_string(entries.last().0@) + utf8(
            ":"@,
        ) + json_value(entries.last().1)
    }
}

/// Appends the UTF-8 bytes of a text.
pub fn push_text(output: &mut Vec<u8>, text: &str)
    ensures
        final(output)@ == old(output)@ + utf8(text@),
{
    let bytes = text.as_bytes();
    let mut i: usize = 0;
    while i < bytes.len()
        invariant
            bytes@ == utf8(text@),
            i <= bytes@.len(),
            output@ == old(output)@ + bytes@.take(i as int),
        decreases bytes@.len() - i,
    {
        output.push(bytes[i]);
        i += 1;
        assert(bytes@.take(i as int) == bytes@.take(i - 1).push(bytes@[i - 1]));
    }
    assert(bytes@.take(bytes@.len() as int) == bytes@);
}

fn hex_byte_of(d: u8) -> (b: u8)
    requires
        d < 16,
    ensures
        b == hex_byte(d as int),
{
    if d < 10 {
        48 + d
    } else {
        87 + d
    }
}

/// Writes a text as a JSON string literal.
pub fn write_json_string(output: &mut Vec<u8>, value: &str)
    ensures
        final(output)@ == old(output)@ + json_string(value@),
{
    output.push(34);
    let ghost base = output@;
    let bytes = value.as_bytes();
    let mut i: usize = 0;
    while i < bytes.len()
        invariant
            bytes@ == utf8(value@),
            i <= bytes@.len(),
            base == old(output)@ + seq![34u8],
            output@ == base + json_escape(bytes@.take(i as int)),
        decreases bytes@.len() - i,
    {
        let b = bytes[i];
        if b == 34 {
            output.push(92);
            output.push(34);
        } else if b == 92 {
            output.push(92);
            output.push(92);
        } else if b == 10 {
            output.push(92);
            output.push(110);
        } else if b == 13 {
            output.push(92);
            output.push(114);
        } else if b == 9 {
            output.push(92);
            output.push(116);
        } else if b < 32 {
            output.push(92);
            output.push(117);
            output.push(48);
            output.push(48);
            output.push(hex_byte_of(b / 16));
            output.push(hex_byte_of(b % 16));
        } else {
            output.push(b);
        }
        i += 1;
        assert(bytes@.take(i as int).drop_last() == bytes@.take(i - 1));
    }
    assert(bytes@.take(bytes@.len() as int) == bytes@);
    output.push(34);
}

fn write_decimal(output: &mut Vec<u8>, n: u64)
    ensures
        final(output)@ == old(output)@ + utf8(decimal(n as nat)),
{
    let mut text = String::new();
    push_decimal(&mut text, n);
    assert(text@ == decimal(n as nat));
    push_text(output, text.as_str());
}

fn write_signed_decimal(output: &mut Vec<u8>, i: i64)
    ensures
        final(output)@ == old(output)@ + utf8(signed_decimal(i as int)),
{
    let mut text = String::new();
    push_signed_decimal(&mut text, i);
    assert(text@ == signed_decimal(i as int));
    push_text(output, text.as_str());
}

fn write_json_entries(output: &mut Vec<u8>, entries: &Vec<(String, QueryValue)>)
    ensures
        final(output)@ == old(output)@ + json_entries(entries@),
    decreases entries,
{
    let ghost base = output@;
    let mut i: usize = 0;
    while i < entries.len()
        invariant
            i <= entries@.len(),
            output@ == base + json_entries(entries@.take(i as int)),
        decreases entries@.len() - i,
    {
        if i > 0 {
            push_text(output, ",");
        }
        write_json_string(output, entries[i].0.as_str());
        push_text(output, ":");
        proof {
            assert(decreases_to!(*entries => entries@));
            assert(decreases_to!(entries@ => entries@[i as int]));
            assert(decreases_to!(entries@[i as int] => entries@[i as int].1));
        }
        write_json_value(output, &entries[i].1);
        i += 1;
        assert(entries@.take(i as int).drop_last() == entries@.take(i - 1));
    }
    assert(entries@.take(entries@.len() as int) == entries@);
}

fn write_json_labels(output: &mut Vec<u8>, labels: &Vec<String>)
    ensures
        final(output)@ == old(output)@ + join(
            views(labels@).map_values(|l: Seq<char>| json_string(l)),
            utf8(","@),
        ),
{
    let ghost items = views(labels@).map_values(|l: Seq<char>| json_string(l));
    let ghost base = output@;
    let mut i: usize = 0;
    while i < labels.len()
        invariant
            i <= labels@.len(),
            items == views(labels@).map_values(|l: Seq<char>| json_string(l)),
            output@ == base + join(items.take(i as int), utf8(","@)),
        decreases labels@.len() - i,
    {
        proof {
            lemma_join_take(items, utf8(","@), i as int);
        }
        if i > 0 {
            push_text(output, ",");
        }
        write_json_string(output, labels[i].as_str());
        i += 1;
    }
    assert(items.take(labels@.len() as int) == items);
}

/// Writes the JSON of a value.
pub fn write_json_value(output: &mut Vec<u8>, value: &QueryValue)
    ensures
        final(output)@ == old(output)@ + json_value(*value),
    decreases value,
{
    match value {
        QueryValue::Null => {
            push_text(output, "null");
        },
        QueryValue::Boolean(b) => {
            if *b {
                push_text(output, "true");
            } else {
                push_text(output, "false");
            }
        },
        QueryValue::Integer(i) => write_signed_decimal(output, *i),
        QueryValue::Float(text) => push_text(output, text.as_str()),
        QueryValue::String(text) => write_json_string(output, text.as_str()),
        QueryValue::Bytes(bytes) => {
            let text = hex(bytes.as_slice());
            write_json_string(output, text.as_str());
        },
        QueryValue::Duration(nanos) => write_signed_decimal(output, *nanos),
        QueryValue::List(values) => {
            push_text(output, "[");
            let ghost base = output@;
            let mut i: usize = 0;
            while i < values.len()
                invariant
                    *value == QueryValue::List(*values),
                    i <= values@.len(),
                    output@ == base + json_list(values@.take(i as int)),
                decreases values@.len() - i,
            {
                if i > 0 {
                    push_text(output, ",");
                }
                proof {
                    assert(decreases_to!(*value => value->List_0));
                    assert(decreases_to!(value->List_0 => values@));
                    assert(decreases_to!(values@ => values@[i as int]));
                }
                write_json_value(output, &values[i]);
                i += 1;
                assert(values@.take(i as int).drop_last() == values@.take(i - 1));
            }
            assert(values@.take(values@.len() as int) == values@);
            push_text(output, "]");
        },
        QueryValue::Mapping(entries) => {
            push_text(output, "{");
            proof {
                assert(decreases_to!(*value => value->Mapping_0));
            }
            write_json_entries(output, entries);
            push_text(output, "}");
        },
        QueryValue::Node(node) => {
            proof {
                assert(decreases_to!(*value => value->Node_0));
            }
            write_json_node(output, node);
        },
        QueryValue::Edge(edge) => {
            proof {
                assert(decreases_to!(*value => value->Edge_0));
            }
            write_json_edge(output, edge);
        },
    }
}

#[verifier::rlimit(60)]
fn write_json_node(output: &mut Vec<u8>, node: &NodeValue)
    ensures
        final(output)@ == old(output)@ + json_value(QueryValue::Node(*node)),
    decreases node,
{
    push_text(output, "{\"id\":");
    write_decimal(output, node.id);
    push_text(output, ",\"labels\":[");
    write_json_labels(output, &node.labels);
    push_text(output, "],\"properties\":{");
    proof {
        assert(decreases_to!(*node => node.properties));
    }
    write_json_entries(output, &node.properties);
    push_text(output, "}}");
}

fn write_json_edge_fields(output: &mut Vec<u8>, edge: &EdgeValue)
    ensures
        final(output)@ == old(output)@ + json_edge_fields(*edge),
{
    let ghost start = output@;
    let ghost mut written: Seq<u8> = seq![];
    push_text(output, "{\"id\":");
    proof { written = written + utf8("{\"id\":"@); }
    write_decimal(output, edge.id);
    proof { written = written + utf8(decimal(edge.id as nat)); }
    assert(output@ =~= start + written);
    push_text(output, ",\"kind\":");
    proof { written = written + utf8(",\"kind\":"@); }
    assert(output@ =~= start + written);
    match edge.kind {
        EdgeKind::Directed => write_json_string(output, "directed"),
        EdgeKind::Undirected => write_json_string(output, "directionless"),
        EdgeKind::Bidirectional => write_json_string(output, "bidirectional"),
    }
    proof { written = written + json_string(edge_kind_name(edge.kind)); }
    assert(output@ =~= start + written);
    push_text(output, ",\"source\":");
    proof { written = written + utf8(",\"source\":"@); }
    assert(output@ =~= start + written);
    write_decimal(output, edge.source);
    proof { written = written + utf8(decimal(edge.source as nat)); }
    assert(output@ =~= start + written);
    push_text(output, ",\"target\":");
    proof { written = written + utf8(",\"target\":"@); }
    assert(output@ =~= start + written);
    write_decimal(output, edge.target);
    proof { written = written + utf8(decimal(edge.target as nat)); }
    assert(output@ =~= start + written);
    push_text(output, ",\"type\":");
    proof { written = written + utf8(",\"type\":"@); }
    assert(output@ =~= start + written);
    match &edge.relationship_type {
        Some(t) => write_json_string(output, t.as_str()),
        None => push_text(output, "null"),
    }
    proof {
        written = written + json_relationship(edge.relationship_type);
    }
    assert(output@ =~= start + written);
    push_text(output, ",\"properties\":{");
    proof { written = written + utf8(",\"properties\":{"@); }
    assert(output@ =~= start + written);
    assert(written == json_edge_fields(*edge));
}

fn write_json_edge(output: &mut Vec<u8>, edge: &EdgeValue)
    ensures
        final(output)@ == old(output)@ + json_value(QueryValue::Edge(*edge)),
    decreases edge,
{
    write_json_edge_fields(output, edge);
    proof {
        assert(decreases_to!(*edge => edge.properties));
    }
    write_json_entries(output, &edge.properties);
    push_text(output, "}}");
}

/// The views of the rows of a result.
pub open spec fn rows_view(rows: Seq<Vec<QueryValue>>) -> Seq<Seq<QueryValue>> {
    rows.map_values(|row: Vec<QueryValue>| row@)
}

/// The display texts of a row.
pub open spec fn row_texts(row: Seq<QueryValue>) -> Seq<Seq<char>> {
    row.map_values(|v: QueryValue| display(v))
}

/// The display texts of all rows.
pub open spec fn cell_texts(rows: Seq<Seq<QueryValue>>) -> Seq<Seq<Seq<char>>> {
    rows.map_values(|row: Seq<QueryValue>| row_texts(row))
}

/// The views of rows of texts.
pub open spec fn texts_view(cells: Seq<Vec<String>>) -> Seq<Seq<Seq<char>>> {
    cells.map_values(|row: Vec<String>| views(row@))
}

/// A row as a JSON array.
pub open spec fn json_row(row: Seq<QueryValue>) -> Seq<u8> {
    utf8("["@) + join(row.map_values(|v: QueryValue| json_value(v)), utf8(","@)) + utf8("]"@)
}

/// The JSON document `{"columns":[...],"rows":[[...],...]}` and a newline.
pub open spec fn json_table(columns: Seq<Seq<char>>, rows: Seq<Seq<QueryValue>>) -> Seq<u8> {
    utf8("{\"columns\":["@) + join(columns.map_values(|c: Seq<char>| json_string(c)), utf8(","@))
        + utf8("],\"rows\":["@) + join(rows.map_values(|r: Seq<QueryValue>| json_row(r)), utf8(","@))
        + utf8("]}\n"@)
}

/// The value of a row in column `i`, or null when the row is shorter.
pub open spec fn row_cell(row: Seq<QueryValue>, i: int) -> QueryValue {
    if 0 <= i < row.len() {
        row[i]
    } else {
        QueryValue::Null
    }
}

/// One JSON-lines object: each column name with the row's value.
pub open spec fn jsonl_line(columns: Seq<Seq<char>>, row: Seq<QueryValue>) -> Seq<u8> {
    utf8("{"@) + join(
        Seq::new(
            columns.len(),
            |i: int| json_string(columns[i]) + utf8(":"@) + json_value(row_cell(row, i)),
        ),
        utf8(","@),
    ) + utf8("}\n"@)
}

/// One JSON object per row, each on its own line.
pub open spec fn jsonl_table(columns: Seq<Seq<char>>, rows: Seq<Seq<QueryValue>>) -> Seq<u8> {
    concat(rows.map_values(|r: Seq<QueryValue>| jsonl_line(columns, r)))
}

/// Whether a CSV field must be quoted: it holds a comma, a quote, a line
/// feed or a carriage return.
pub open spec fn csv_needs_quotes(bytes: Seq<u8>) -> bool {
    exists|i: int|
        0 <= i < bytes.len() && (#[trigger] bytes[i] == 44 || bytes[i] == 34 || bytes[i] == 10
            || bytes[i] == 13)
}

/// The bytes with every quote doubled.
pub open spec fn csv_double_quotes(bytes: Seq<u8>) -> Seq<u8>
    decreases bytes.len(),
{
    if bytes.len() == 0 {
        seq![]
    } else {
        csv_double_quotes(bytes.drop_last()) + if bytes.last() == 34 {
            seq![34u8, 34u8]
        } else {
            seq![bytes.last()]
        }
    }
}

/// A CSV field: the text itself, or quoted with inner quotes doubled when it
/// needs quoting.
pub open spec fn csv_field(text: Seq<char>) -> Seq<u8> {
    let bytes = utf8(text);
    if csv_needs_quotes(bytes) {
        seq![34u8] + csv_double_quotes(bytes) + seq![34u8]
    } else {
        bytes
    }
}

/// A CSV record: the fields separated by commas, then a newline.
pub open spec fn csv_row(fields: Seq<Seq<char>>) -> Seq<u8> {
    join(fields.map_values(|f: Seq<char>| csv_field(f)), utf8(","@)) + utf8("\n"@)
}

/// The header record followed by one record of display texts per row.
pub open spec fn csv_table(columns: Seq<Seq<char>>, rows: Seq<Seq<QueryValue>>) -> Seq<u8> {
    csv_row(columns) + concat(rows.map_values(|r: Seq<QueryValue>| csv_row(row_texts(r))))
}

/// The width of a text in a text table: its length in bytes.
pub open spec fn text_width(text: Seq<char>) -> int {
    utf8(text).len() as int
}

/// The widest text, in bytes, among the rows' values in column `i`.
pub open spec fn cell_width(cells: Seq<Seq<Seq<char>>>, i: int) -> int
    decreases cells.len(),
{
    if cells.len() == 0 {
        0
    } else {
        let rest = cell_width(cells.drop_last(), i);
        let last = if 0 <= i < cells.last().len() {
            text_width(cells.last()[i])
        } else {
            0
        };
        if rest >= last {
            rest
        } else {
            last
        }
    }
}

/// The width of each column: its widest text, the header included.
pub open spec fn column_widths(columns: Seq<Seq<char>>, cells: Seq<Seq<Seq<char>>>) -> Seq<int> {
    Seq::new(
        columns.len(),
        |i: int|
            if text_width(columns[i]) >= cell_width(cells, i) {
                text_width(columns[i])
            } else {
                cell_width(cells, i)
            },
    )
}

/// `n` copies of a byte (none when `n` is not positive).
pub open spec fn repeat_byte(b: u8, n: int) -> Seq<u8> {
    Seq::new(if n > 0 { n as nat } else { 0 }, |_i: int| b)
}

/// A text left-aligned in a field of `width` characters: padded with
/// spaces up to that many characters, and never cut.
pub open spec fn padded(text: Seq<char>, width: int) -> Seq<u8> {
    utf8(text) + repeat_byte(32, width - text.len())
}

/// A table line: the texts padded to their column widths, separated by
/// `" | "`, then a newline.
pub open spec fn table_line(texts: Seq<Seq<char>>, widths: Seq<int>) -> Seq<u8> {
    join(Seq::new(texts.len(), |i: int| padded(texts[i], widths[i])), utf8(" | "@)) + utf8("\n"@)
}

/// The line under the header: dashes as wide as each column, joined by
/// `"-+-"`, then a newline.
pub open spec fn rule_line(widths: Seq<int>) -> Seq<u8> {
    join(widths.map_values(|w: int| repeat_byte(45, w)), utf8("-+-"@)) + utf8("\n"@)
}

/// A text table: the header, the rule, and one line per row.
pub open spec fn text_table(columns: Seq<Seq<char>>, rows: Seq<Seq<QueryValue>>) -> Seq<u8> {
    let cells = cell_texts(rows);
    let widths = column_widths(columns, cells);
    table_line(columns, widths) + rule_line(widths) + concat(
        cells.map_values(|row: Seq<Seq<char>>| table_line(row, widths)),
    )
}

/// The output of a result table in the given format.
pub open spec fn table_output(
    columns: Seq<Seq<char>>,
    rows: Seq<Seq<QueryValue>>,
    format: OutputFormat,
) -> Seq<u8> {
    match format {
        OutputFormat::Table => text_table(columns, rows),
        OutputFormat::Json => json_table(columns, rows),
        OutputFormat::Jsonl => jsonl_table(columns, rows),
        OutputFormat::Csv => csv_table(columns, rows),
    }
}

/// Whether no row has more values than there are columns, which a text
/// table needs.
pub open spec fn rows_fit(column_count: int, rows: Seq<Seq<QueryValue>>) -> bool {
    forall|r: int| 0 <= r < rows.len() ==> #[trigger] rows[r].len() <= column_count
}

/// Writes one CSV record.
pub fn write_csv_row(output: &mut Vec<u8>, values: &Vec<String>)
    ensures
        final(output)@ == old(output)@ + csv_row(views(values@)),
{
    let ghost items = views(values@).map_values(|f: Seq<char>| csv_field(f));
    let ghost base = output@;
    let mut i: usize = 0;
    while i < values.len()
        invariant
            i <= values@.len(),
            items == views(values@).map_values(|f: Seq<char>| csv_field(f)),
            output@ == base + join(items.take(i as int), utf8(","@)),
        decreases values@.len() - i,
    {
        proof {
            lemma_join_take(items, utf8(","@), i as int);
        }
        if i > 0 {
            push_text(output, ",");
        }
        write_csv_field(output, values[i].as_str());
        i += 1;
    }
    assert(items.take(values@.len() as int) == items);
    push_text(output, "\n");
}

fn write_csv_field(output: &mut Vec<u8>, value: &str)
    ensures
        final(output)@ == old(output)@ + csv_field(value@),
{
    let bytes = value.as_bytes();
    let mut quote = false;
    let mut i: usize = 0;
    while i < bytes.len()
        invariant
            bytes@ == utf8(value@),
            i <= bytes@.len(),
            !quote ==> forall|j: int|
                0 <= j < i ==> !(bytes@[j] == 44 || bytes@[j] == 34 || bytes@[j] == 10 || bytes@[j]
                    == 13),
            quote ==> csv_needs_quotes(bytes@),
        decreases bytes@.len() - i,
    {
        let b = bytes[i];
        if b == 44 || b == 34 || b == 10 || b == 13 {
            quote = true;
        }
        i += 1;
    }
    if quote {
        output.push(34);
        let ghost base = output@;
        let mut k: usize = 0;
        while k < bytes.len()
            invariant
                bytes@ == utf8(value@),
                k <= bytes@.len(),
                output@ == base + csv_double_quotes(bytes@.take(k as int)),
            decreases bytes@.len() - k,
        {
            if bytes[k] == 34 {
                output.push(34);
                output.push(34);
            } else {
                output.push(bytes[k]);
            }
            k += 1;
            assert(bytes@.take(k as int).drop_last() == bytes@.take(k - 1));
        }
        assert(bytes@.take(bytes@.len() as int) == bytes@);
        output.push(34);
    } else {
        push_text(output, value);
    }
}

/// The display texts of every value of every row.
fn display_rows(rows: &Vec<Vec<QueryValue>>) -> (cells: Vec<Vec<String>>)
    ensures
        texts_view(cells@) == cell_texts(rows_view(rows@)),
{
    let mut cells: Vec<Vec<String>> = Vec::new();
    let mut r: usize = 0;
    while r < rows.len()
        invariant
            r <= rows@.len(),
            cells@.len() == r,
            forall|k: int| 0 <= k < r ==> #[trigger] views(cells@[k]@) == row_texts(rows@[k]@),
        decreases rows@.len() - r,
    {
        let row = &rows[r];
        let mut texts: Vec<String> = Vec::new();
        let mut c: usize = 0;
        while c < row.len()
            invariant
                c <= row@.len(),
                texts@.len() == c,
                forall|k: int| 0 <= k < c ==> #[trigger] texts@[k]@ == display(row@[k]),
            decreases row@.len() - c,
        {
            texts.push(display_value(&row[c]));
            c += 1;
        }
        assert(views(texts@) =~= row_texts(row@));
        cells.push(texts);
        r += 1;
    }
    assert(texts_view(cells@) =~= cell_texts(rows_view(rows@)));
    cells
}

/// The length of a text in bytes.
pub fn byte_len(text: &str) -> (n: usize)
    ensures
        n == utf8(text@).len(),
{
    text.as_bytes().len()
}

/// The widths of the columns of a text table.
fn widths_of(columns: &Vec<String>, cells: &Vec<Vec<String>>) -> (widths: Vec<usize>)
    ensures
        widths@.map_values(|w: usize| w as int) == column_widths(views(columns@), texts_view(cells@)),
{
    let ghost all = texts_view(cells@);
    let ghost target = column_widths(views(columns@), all);
    let mut widths: Vec<usize> = Vec::new();
    let mut i: usize = 0;
    while i < columns.len()
        invariant
            i <= columns@.len(),
            all == texts_view(cells@),
            target == column_widths(views(columns@), all),
            widths@.len() == i,
            forall|k: int| 0 <= k < i ==> #[trigger] widths@[k] as int == target[k],
        decreases columns@.len() - i,
    {
        let mut width: usize = byte_len(columns[i].as_str());
        assert(views(columns@)[i as int] == columns@[i as int]@);
        let mut cell_max: usize = 0;
        let mut r: usize = 0;
        while r < cells.len()
            invariant
                r <= cells@.len(),
                i < columns@.len(),
                all == texts_view(cells@),
                width == text_width(views(columns@)[i as int]),
                cell_max == cell_width(all.take(r as int), i as int),
            decreases cells@.len() - r,
        {
            assert(all.take(r + 1).drop_last() == all.take(r as int));
            assert(all[r as int] == views(cells@[r as int]@));
            if i < cells[r].len() {
                assert(all[r as int][i as int] == cells@[r as int]@[i as int]@);
                let w = byte_len(cells[r][i].as_str());
                if w > cell_max {
                    cell_max = w;
                }
            }
            r += 1;
        }
        assert(all.take(cells@.len() as int) == all);
        if cell_max > width {
            width = cell_max;
        }
        widths.push(width);
        i += 1;
    }
    assert(widths@.map_values(|w: usize| w as int) =~= target);
    widths
}

fn write_repeat(output: &mut Vec<u8>, b: u8, n: usize)
    ensures
        final(output)@ == old(output)@ + repeat_byte(b, n as int),
{
    let ghost base = output@;
    let mut k: usize = 0;
    while k < n
        invariant
            k <= n,
            output@ == base + repeat_byte(b, k as int),
        decreases n - k,
    {
        output.push(b);
        k += 1;
        assert(repeat_byte(b, k as int) == repeat_byte(b, k - 1).push(b));
    }
}

fn write_padded(output: &mut Vec<u8>, text: &str, width: usize)
    ensures
        final(output)@ == old(output)@ + padded(text@, width as int),
{
    push_text(output, text);
    let count = text.unicode_len();
    if count < width {
        write_repeat(output, 32, width - count);
    } else {
        write_repeat(output, 32, 0);
    }
}

fn write_table_line(output: &mut Vec<u8>, texts: &Vec<String>, widths: &Vec<usize>)
    requires
        texts@.len() <= widths@.len(),
    ensures
        final(output)@ == old(output)@ + table_line(
            views(texts@),
            widths@.map_values(|w: usize| w as int),
        ),
{
    let ghost ws = widths@.map_values(|w: usize| w as int);
    let ghost items = Seq::new(
        views(texts@).len(),
        |i: int| padded(views(texts@)[i], ws[i]),
    );
    let ghost base = output@;
    let mut i: usize = 0;
    while i < texts.len()
        invariant
            i <= texts@.len() <= widths@.len(),
            ws == widths@.map_values(|w: usize| w as int),
            items == Seq::new(views(texts@).len(), |i: int| padded(views(texts@)[i], ws[i])),
            output@ == base + join(items.take(i as int), utf8(" | "@)),
        decreases texts@.len() - i,
    {
        proof {
            lemma_join_take(items, utf8(" | "@), i as int);
        }
        if i > 0 {
            push_text(output, " | ");
        }
        write_padded(output, texts[i].as_str(), widths[i]);
        i += 1;
    }
    assert(items.take(texts@.len() as int) == items);
    push_text(output, "\n");
}

fn write_rule_line(output: &mut Vec<u8>, widths: &Vec<usize>)
    ensures
        final(output)@ == old(output)@ + rule_line(widths@.map_values(|w: usize| w as int)),
{
    let ghost ws = widths@.map_values(|w: usize| w as int);
    let ghost items = ws.map_values(|w: int| repeat_byte(45, w));
    let ghost base = output@;
    let mut i: usize = 0;
    while i < widths.len()
        invariant
            i <= widths@.len(),
            ws == widths@.map_values(|w: usize| w as int),
            items == ws.map_values(|w: int| repeat_byte(45, w)),
            output@ == base + join(items.take(i as int), utf8("-+-"@)),
        decreases widths@.len() - i,
    {
        proof {
            lemma_join_take(items, utf8("-+-"@), i as int);
        }
        if i > 0 {
            push_text(output, "-+-");
        }
        write_repeat(output, 45, widths[i]);
        i += 1;
    }
    assert(items.take(widths@.len() as int) == items);
    push_text(output, "\n");
}

/// Writes a text table: header, rule, and one line per row, each column as
/// wide as its widest text in bytes.
pub fn render_text_table(columns: &Vec<String>, rows: &Vec<Vec<QueryValue>>, output: &mut Vec<u8>)
    requires
        rows_fit(columns@.len() as int, rows_view(rows@)),
    ensures
        final(output)@ == old(output)@ + text_table(views(columns@), rows_view(rows@)),
{
    let cells = display_rows(rows);
    let widths = widths_of(columns, &cells);
    let ghost ws = widths@.map_values(|w: usize| w as int);
    let ghost all = texts_view(cells@);
    let ghost items = all.map_values(|row: Seq<Seq<char>>| table_line(row, ws));
    write_table_line(output, columns, &widths);
    write_rule_line(output, &widths);
    let ghost base = output@;
    let mut r: usize = 0;
    while r < cells.len()
        invariant
            r <= cells@.len(),
            cells@.len() == rows@.len(),
            widths@.len() == columns@.len(),
            rows_fit(columns@.len() as int, rows_view(rows@)),
            all == texts_view(cells@),
            all == cell_texts(rows_view(rows@)),
            ws == widths@.map_values(|w: usize| w as int),
            items == all.map_values(|row: Seq<Seq<char>>| table_line(row, ws)),
            output@ == base + concat(items.take(r as int)),
        decreases cells@.len() - r,
    {
        proof {
            lemma_concat_take(items, r as int);
            assert(views(cells@[r as int]@).len() == rows@[r as int]@.len());
            assert(rows_view(rows@)[r as int].len() <= columns@.len());
        }
        write_table_line(output, &cells[r], &widths);
        r += 1;
    }
    assert(items.take(cells@.len() as int) == items);
}

fn write_json_row(output: &mut Vec<u8>, row: &Vec<QueryValue>)
    ensures
        final(output)@ == old(output)@ + json_row(row@),
{
    let ghost items = row@.map_values(|v: QueryValue| json_value(v));
    push_text(output, "[");
    let ghost base = output@;
    let mut i: usize = 0;
    while i < row.len()
        invariant
            i <= row@.len(),
            items == row@.map_values(|v: QueryValue| json_value(v)),
            output@ == base + join(items.take(i as int), utf8(","@)),
        decreases row@.len() - i,
    {
        proof {
            lemma_join_take(items, utf8(","@), i as int);
        }
        if i > 0 {
            push_text(output, ",");
        }
        write_json_value(output, &row[i]);
        i += 1;
    }
    assert(items.take(row@.len() as int) == items);
    push_text(output, "]");
}

#[verifier::rlimit(30)]
fn write_json_table(output: &mut Vec<u8>, columns: &Vec<String>, rows: &Vec<Vec<QueryValue>>)
    ensures
        final(output)@ == old(output)@ + json_table(views(columns@), rows_view(rows@)),
{
    let ghost start = output@;
    let ghost names = views(columns@).map_values(|c: Seq<char>| json_string(c));
    let ghost lines = rows_view(rows@).map_values(|r: Seq<QueryValue>| json_row(r));
    push_text(output, "{\"columns\":[");
    let ghost base = output@;
    let mut i: usize = 0;
    while i < columns.len()
        invariant
            i <= columns@.len(),
            names == views(columns@).map_values(|c: Seq<char>| json_string(c)),
            output@ == base + join(names.take(i as int), utf8(","@)),
        decreases columns@.len() - i,
    {
        proof {
            lemma_join_take(names, utf8(","@), i as int);
        }
        if i > 0 {
            push_text(output, ",");
        }
        write_json_string(output, columns[i].as_str());
        i += 1;
    }
    assert(names.take(columns@.len() as int) == names);
    push_text(output, "],\"rows\":[");
    let ghost middle = output@;
    let mut r: usize = 0;
    while r < rows.len()
        invariant
            r <= rows@.len(),
            lines == rows_view(rows@).map_values(|r: Seq<QueryValue>| json_row(r)),
            output@ == middle + join(lines.take(r as int), utf8(","@)),
        decreases rows@.len() - r,
    {
        proof {
            lemma_join_take(lines, utf8(","@), r as int);
        }
        if r > 0 {
            push_text(output, ",");
        }
        write_json_row(output, &rows[r]);
        r += 1;
    }
    assert(lines.take(rows@.len() as int) == lines);
    push_text(output, "]}\n");
    assert(output@ =~= start + json_table(views(columns@), rows_view(rows@)));
}

#[verifier::rlimit(40)]
fn write_jsonl_line(output: &mut Vec<u8>, columns: &Vec<String>, row: &Vec<QueryValue>)
    ensures
        final(output)@ == old(output)@ + jsonl_line(views(columns@), row@),
{
    let ghost cols = views(columns@);
    let ghost items = Seq::new(
        cols.len(),
        |i: int| json_string(cols[i]) + utf8(":"@) + json_value(row_cell(row@, i)),
    );
    push_text(output, "{");
    let ghost base = output@;
    let null = QueryValue::Null;
    let mut i: usize = 0;
    while i < columns.len()
        invariant
            i <= columns@.len(),
            cols == views(columns@),
            null == QueryValue::Null,
            items == Seq::new(
                cols.len(),
                |i: int| json_string(cols[i]) + utf8(":"@) + json_value(row_cell(row@, i)),
            ),
            output@ == base + join(items.take(i as int), utf8(","@)),
        decreases columns@.len() - i,
    {
        proof {
            lemma_join_take(items, utf8(","@), i as int);
        }
        if i > 0 {
            push_text(output, ",");
        }
        let ghost before = output@;
        write_json_string(output, columns[i].as_str());
        push_text(output, ":");
        if i < row.len() {
            write_json_value(output, &row[i]);
        } else {
            write_json_value(output, &null);
        }
        assert(output@ =~= before + items[i as int]);
        i += 1;
    }
    assert(items.take(columns@.len() as int) == items);
    push_text(output, "}\n");
}

/// Writes a result table in the given format: a text table, one JSON
/// document, one JSON object per line, or CSV with a header record.
pub fn render_table_data(
    columns: &Vec<String>,
    rows: &Vec<Vec<QueryValue>>,
    format: OutputFormat,
    output: &mut Vec<u8>,
)
    requires
        format == OutputFormat::Table ==> rows_fit(columns@.len() as int, rows_view(rows@)),
    ensures
        final(output)@ == old(output)@ + table_output(views(columns@), rows_view(rows@), format),
{
    match format {
        OutputFormat::Table => render_text_table(columns, rows, output),
        OutputFormat::Json => write_json_table(output, columns, rows),
        OutputFormat::Jsonl => {
            let ghost lines = rows_view(rows@).map_values(
                |r: Seq<QueryValue>| jsonl_line(views(columns@), r),
            );
            let ghost base = output@;
            let mut r: usize = 0;
            while r < rows.len()
                invariant
                    r <= rows@.len(),
                    lines == rows_view(rows@).map_values(
                        |r: Seq<QueryValue>| jsonl_line(views(columns@), r),
                    ),
                    output@ == base + concat(lines.take(r as int)),
                decreases rows@.len() - r,
            {
                proof {
                    lemma_concat_take(lines, r as int);
                }
                write_jsonl_line(output, columns, &rows[r]);
                r += 1;
            }
            assert(lines.take(rows@.len() as int) == lines);
        },
        OutputFormat::Csv => {
            write_csv_row(output, columns);
            let ghost lines = rows_view(rows@).map_values(
                |r: Seq<QueryValue>| csv_row(row_texts(r)),
            );
            let ghost base = output@;
            let mut r: usize = 0;
            while r < rows.len()
                invariant
                    r <= rows@.len(),
                    lines == rows_view(rows@).map_values(
                        |r: Seq<QueryValue>| csv_row(row_texts(r)),
                    ),
                    output@ == base + concat(lines.take(r as int)),
                decreases rows@.len() - r,
            {
                proof {
                    lemma_concat_take(lines, r as int);
                }
                let row = &rows[r];
                let mut texts: Vec<String> = Vec::new();
                let mut c: usize = 0;
                while c < row.len()
                    invariant
                        c <= row@.len(),
                        texts@.len() == c,
                        forall|k: int| 0 <= k < c ==> #[trigger] texts@[k]@ == display(row@[k]),
                    decreases row@.len() - c,
                {
                    texts.push(display_value(&row[c]));
                    c += 1;
                }
                assert(views(texts@) =~= row_texts(row@));
                write_csv_row(output, &texts);
                r += 1;
            }
            assert(lines.take(rows@.len() as int) == lines);
        },
    }
}

} // verus!
