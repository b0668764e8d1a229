//! Results that a server sends as JSON, and their conversion to query
//! values.
use vstd::prelude::*;

use crate::args::{fails_with, ErrorView};
use crate::error::{CliError, EXIT_DATABASE};
use crate::format::OutputFormat;
use crate::render::{
    cell_texts, csv_row, csv_table, json_entries, json_table, jsonl_table, text_table, json_list, json_row, json_string, json_value, jsonl_line,
    push_text, render_table_data, row_cell, row_texts, rows_fit, rows_view, table_output, utf8,
};
use crate::result::{summary_columns, trim_line_end, trim_line_ending};
use crate::split::views;
use crate::text::{owned, text_eq};
use crate::value::{display, display_entries, display_list, QueryValue};

verus! {

/// A JSON number: its value as a signed 64-bit integer when it is one, else
/// the text of its nearest 64-bit float when it has one, and its own JSON
/// text.
#[derive(Debug, PartialEq)]
pub struct JsonNumber {
    pub integer: Option<i64>,
    pub float: Option<String>,
    pub text: String,
}

/// A JSON value; an object holds its members in order.
#[derive(Debug, PartialEq)]
pub enum JsonValue {
    Null,
    Bool(bool),
    Number(JsonNumber),
    String(String),
    Array(Vec<JsonValue>),
    Object(Vec<(String, JsonValue)>),
}

/// Whether `q` is the query value of the JSON value `j`: null, booleans and
/// strings carry over; a number is an integer when it fits 64 bits, else a
/// float, else its text; arrays become lists and objects maps, member by
/// member.
pub open spec fn converts(j: JsonValue, q: QueryValue) -> bool
    decreases j,
{
    match j {
        JsonValue::Null => q is Null,
        JsonValue::Bool(b) => q == QueryValue::Boolean(b),
        JsonValue::Number(n) => match n.integer {
            Some(i) => q == QueryValue::Integer(i),
            None => match n.float {
                Some(t) => q matches QueryValue::Float(s) && s@ == t@,
                None => q matches QueryValue::String(s) && s@ == n.text@,
            },
        },
        JsonValue::String(s) => q matches QueryValue::String(t) && t@ == s@,
        JsonValue::Array(items) => q matches QueryValue::List(values) && converts_list(
            items@,
            values@,
        ),
        JsonValue::Object(members) => q matches QueryValue::Mapping(entries) && converts_members(
            members@,
            entries@,
        ),
    }
}

/// Whether the values are the query values of the items, in order.
pub open spec fn converts_list(items: Seq<JsonValue>, values: Seq<QueryValue>) -> bool
    decreases items,
{
    &&& items.len() == values.len()
    &&& items.len() > 0 ==> converts_list(items.drop_last(), values.drop_last()) && converts(
        items.last(),
        values.last(),
    )
}

/// Whether the entries are the members with their values converted.
pub open spec fn converts_members(
    members: Seq<(String, JsonValue)>,
    entries: Seq<(String, QueryValue)>,
) -> bool
    decreases members,
{
    &&& members.len() == entries.len()
    &&& members.len() > 0 ==> converts_members(members.drop_last(), entries.drop_last())
        && entries.last().0@ == members.last().0@ && converts(members.last().1, entries.last().1)
}

/// The query value of a JSON value.
pub fn json_query_value(value: &JsonValue) -> (q: QueryValue)
    ensures
        converts(*value, q),
    decreases value,
{
    match value {
        JsonValue::Null => QueryValue::Null,
        JsonValue::Bool(b) => QueryValue::Boolean(*b),
        JsonValue::Number(n) => match n.integer {
            Some(i) => QueryValue::Integer(i),
            None => match &n.float {
                Some(t) => QueryValue::Float(owned(t.as_str())),
                None => QueryValue::String(owned(n.text.as_str())),
            },
        },
        JsonValue::String(s) => QueryValue::String(owned(s.as_str())),
        JsonValue::Array(items) => {
            let mut values: Vec<QueryValue> = Vec::new();
            let mut i: usize = 0;
            while i < items.len()
                invariant
                    *value == JsonValue::Array(*items),
                    i <= items@.len(),
                    converts_list(items@.take(i as int), values@),
                decreases items@.len() - i,
            {
                proof {
                    assert(decreases_to!(*value => value->Array_0));
                    assert(decreases_to!(value->Array_0 => items@));
                    assert(decreases_to!(items@ => items@[i as int]));
                }
                let q = json_query_value(&items[i]);
                let ghost before = values@;
                values.push(q);
                proof {
                    assert(items@.take(i + 1).drop_last() == items@.take(i as int));
                    assert(values@.drop_last() == before);
                }
                i += 1;
            }
            assert(items@.take(items@.len() as int) == items@);
            QueryValue::List(values)
        },
        JsonValue::Object(members) => {
            let mut entries: Vec<(String, QueryValue)> = Vec::new();
            let mut i: usize = 0;
            while i < members.len()
                invariant
                    *value == JsonValue::Object(*members),
                    i <= members@.len(),
                    converts_members(members@.take(i as int), entries@),
                decreases members@.len() - i,
            {
                proof {
                    assert(decreases_to!(*value => value->Object_0));
                    assert(decreases_to!(value->Object_0 => members@));
                    assert(decreases_to!(members@ => members@[i as int]));
                    assert(decreases_to!(members@[i as int] => members@[i as int].1));
                }
                let q = json_query_value(&members[i].1);
                let ghost before = entries@;
                entries.push((owned(members[i].0.as_str()), q));
                proof {
                    assert(members@.take(i + 1).drop_last() == members@.take(i as int));
                    assert(entries@.drop_last() == before);
                }
                i += 1;
            }
            assert(members@.take(members@.len() as int) == members@);
            QueryValue::Mapping(entries)
        },
    }
}

/// Two query values of the same JSON value are written alike, both as JSON
/// and as text.
pub proof fn lemma_converts_same_output(j: JsonValue, a: QueryValue, b: QueryValue)
    requires
        converts(j, a),
        converts(j, b),
    ensures
        json_value(a) == json_value(b),
        display(a) == display(b),
    decreases j,
{
    match j {
        JsonValue::Array(items) => {
            let va = a->List_0;
            let vb = b->List_0;
            lemma_list_same_output(items@, va@, vb@);
        },
        JsonValue::Object(members) => {
            let ea = a->Mapping_0;
            let eb = b->Mapping_0;
            lemma_members_same_output(members@, ea@, eb@);
        },
        _ => {},
    }
}

proof fn lemma_list_same_output(items: Seq<JsonValue>, a: Seq<QueryValue>, b: Seq<QueryValue>)
    requires
        converts_list(items, a),
        converts_list(items, b),
    ensures
        json_list(a) == json_list(b),
        display_list(a) == display_list(b),
    decreases items,
{
    if items.len() > 0 {
        lemma_list_same_output(items.drop_last(), a.drop_last(), b.drop_last());
        lemma_converts_same_output(items.last(), a.last(), b.last());
        if items.len() == 1 {
            assert(a[0] == a.last());
            assert(b[0] == b.last());
        }
    }
}

proof fn lemma_members_same_output(
    members: Seq<(String, JsonValue)>,
    a: Seq<(String, QueryValue)>,
    b: Seq<(String, QueryValue)>,
)
    requires
        converts_members(members, a),
        converts_members(members, b),
    ensures
        json_entries(a) == json_entries(b),
        display_entries(a) == display_entries(b),
    decreases members,
{
    if members.len() > 0 {
        lemma_members_same_output(members.drop_last(), a.drop_last(), b.drop_last());
        lemma_converts_same_output(members.last().1, a.last().1, b.last().1);
        if members.len() == 1 {
            assert(a[0] == a.last());
            assert(b[0] == b.last());
        }
    }
}

/// The value of the first member named `key`, in an object; nothing in any
/// other value.
pub open spec fn member(j: JsonValue, key: Seq<char>) -> Option<JsonValue> {
    match j {
        JsonValue::Object(members) => first_member(members@, key, 0),
        _ => None,
    }
}

pub open spec fn first_member(members: Seq<(String, JsonValue)>, key: Seq<char>, i: int) -> Option<
    JsonValue,
>
    decreases members.len() - i,
{
    if i < 0 || i >= members.len() {
        None
    } else if members[i].0@ == key {
        Some(members[i].1)
    } else {
        first_member(members, key, i + 1)
    }
}

/// The value of the first member named `key`.
pub fn find_member<'a>(members: &'a Vec<(String, JsonValue)>, key: &str) -> (result: Option<
    &'a JsonValue,
>)
    ensures
        match first_member(members@, key@, 0) {
            Some(v) => result matches Some(r) && *r == v,
            None => result is None,
        },
{
    let mut i: usize = 0;
    while i < members.len()
        invariant
            i <= members@.len(),
            first_member(members@, key@, i as int) == first_member(members@, key@, 0),
        decreases members@.len() - i,
    {
        if text_eq(members[i].0.as_str(), key) {
            return Some(&members[i].1);
        }
        i += 1;
    }
    None
}

/// Looks up a member of an object.
pub fn get<'a>(value: &'a JsonValue, key: &str) -> (result: Option<&'a JsonValue>)
    ensures
        match member(*value, key@) {
            Some(v) => result matches Some(r) && *r == v,
            None => result is None,
        },
{
    match value {
        JsonValue::Object(members) => find_member(members, key),
        _ => None,
    }
}

proof fn lemma_converts_list_index(items: Seq<JsonValue>, values: Seq<QueryValue>, k: int)
    requires
        converts_list(items, values),
        0 <= k < items.len(),
    ensures
        converts(items[k], values[k]),
    decreases items.len(),
{
    if k < items.len() - 1 {
        lemma_converts_list_index(items.drop_last(), values.drop_last(), k);
    }
}

/// Whether the rows of query values are those of the JSON rows.
pub open spec fn converts_rows(json_rows: Seq<Seq<JsonValue>>, rows: Seq<Seq<QueryValue>>) -> bool {
    &&& json_rows.len() == rows.len()
    &&& forall|r: int| 0 <= r < rows.len() ==> converts_list(json_rows[r], #[trigger] rows[r])
}

proof fn lemma_row_same_output(
    columns: Seq<Seq<char>>,
    json_row: Seq<JsonValue>,
    a: Seq<QueryValue>,
    b: Seq<QueryValue>,
)
    requires
        converts_list(json_row, a),
        converts_list(json_row, b),
    ensures
        row_texts(a) == row_texts(b),
        crate::render::json_row(a) == crate::render::json_row(b),
        jsonl_line(columns, a) == jsonl_line(columns, b),
{
    assert forall|k: int| 0 <= k < a.len() implies json_value(#[trigger] a[k]) == json_value(b[k])
        && display(a[k]) == display(b[k]) by {
        lemma_converts_list_index(json_row, a, k);
        lemma_converts_list_index(json_row, b, k);
        lemma_converts_same_output(json_row[k], a[k], b[k]);
    }
    assert(row_texts(a) =~= row_texts(b));
    assert(a.map_values(|v: QueryValue| json_value(v)) =~= b.map_values(
        |v: QueryValue| json_value(v),
    ));
    assert forall|i: int| 0 <= i < columns.len() implies json_value(row_cell(a, i)) == json_value(
        row_cell(b, i),
    ) by {
        if 0 <= i < a.len() {
            assert(json_value(a[i]) == json_value(b[i]));
        }
    }
    assert(Seq::new(
        columns.len(),
        |i: int| json_string(columns[i]) + utf8(":"@) + json_value(row_cell(a, i)),
    ) =~= Seq::new(
        columns.len(),
        |i: int| json_string(columns[i]) + utf8(":"@) + json_value(row_cell(b, i)),
    ));
}

/// Whether two rows of query values are written alike in every format.
pub open spec fn rows_alike(columns: Seq<Seq<char>>, a: Seq<Seq<QueryValue>>, b: Seq<Seq<QueryValue>>) -> bool {
    &&& a.len() == b.len()
    &&& forall|r: int|
        0 <= r < a.len() ==> #[trigger] row_texts(a[r]) == row_texts(b[r]) && json_row(a[r])
            == json_row(b[r]) && jsonl_line(columns, a[r]) == jsonl_line(columns, b[r])
}

proof fn lemma_rows_alike(
    columns: Seq<Seq<char>>,
    json_rows: Seq<Seq<JsonValue>>,
    a: Seq<Seq<QueryValue>>,
    b: Seq<Seq<QueryValue>>,
)
    requires
        converts_rows(json_rows, a),
        converts_rows(json_rows, b),
    ensures
        rows_alike(columns, a, b),
{
    assert forall|r: int| 0 <= r < a.len() implies #[trigger] row_texts(a[r]) == row_texts(b[r])
        && json_row(a[r]) == json_row(b[r]) && jsonl_line(columns, a[r]) == jsonl_line(
        columns,
        b[r],
    ) by {
        assert(converts_list(json_rows[r], a[r]));
        assert(converts_list(json_rows[r], b[r]));
        lemma_row_same_output(columns, json_rows[r], a[r], b[r]);
    }
}

proof fn lemma_alike_text(columns: Seq<Seq<char>>, a: Seq<Seq<QueryValue>>, b: Seq<Seq<QueryValue>>)
    requires
        rows_alike(columns, a, b),
    ensures
        text_table(columns, a) == text_table(columns, b),
{
    assert(cell_texts(a) =~= cell_texts(b)) by {
        assert forall|r: int| 0 <= r < a.len() implies cell_texts(a)[r] == cell_texts(b)[r] by {
            assert(row_texts(a[r]) == row_texts(b[r]));
        }
    }
}

proof fn lemma_alike_json(columns: Seq<Seq<char>>, a: Seq<Seq<QueryValue>>, b: Seq<Seq<QueryValue>>)
    requires
        rows_alike(columns, a, b),
    ensures
        json_table(columns, a) == json_table(columns, b),
{
    assert(a.map_values(|r: Seq<QueryValue>| json_row(r)) =~= b.map_values(
        |r: Seq<QueryValue>| json_row(r),
    )) by {
        assert forall|r: int| 0 <= r < a.len() implies json_row(a[r]) == json_row(b[r]) by {
            assert(row_texts(a[r]) == row_texts(b[r]));
        }
    }
}

proof fn lemma_alike_jsonl(columns: Seq<Seq<char>>, a: Seq<Seq<QueryValue>>, b: Seq<Seq<QueryValue>>)
    requires
        rows_alike(columns, a, b),
    ensures
        jsonl_table(columns, a) == jsonl_table(columns, b),
{
    assert(a.map_values(|r: Seq<QueryValue>| jsonl_line(columns, r)) =~= b.map_values(
        |r: Seq<QueryValue>| jsonl_line(columns, r),
    )) by {
        assert forall|r: int| 0 <= r < a.len() implies jsonl_line(columns, a[r]) == jsonl_line(
            columns,
            b[r],
        ) by {
            assert(row_texts(a[r]) == row_texts(b[r]));
        }
    }
}

proof fn lemma_alike_csv(columns: Seq<Seq<char>>, a: Seq<Seq<QueryValue>>, b: Seq<Seq<QueryValue>>)
    requires
        rows_alike(columns, a, b),
    ensures
        csv_table(columns, a) == csv_table(columns, b),
{
    assert(a.map_values(|r: Seq<QueryValue>| csv_row(row_texts(r))) =~= b.map_values(
        |r: Seq<QueryValue>| csv_row(row_texts(r)),
    )) by {
        assert forall|r: int| 0 <= r < a.len() implies row_texts(a[r]) == row_texts(b[r]) by {
            assert(row_texts(a[r]) == row_texts(b[r]));
        }
    }
}

/// Two conversions of the same JSON rows give the same table in every
/// format.
pub proof fn lemma_rows_same_output(
    columns: Seq<Seq<char>>,
    json_rows: Seq<Seq<JsonValue>>,
    a: Seq<Seq<QueryValue>>,
    b: Seq<Seq<QueryValue>>,
    format: OutputFormat,
)
    requires
        converts_rows(json_rows, a),
        converts_rows(json_rows, b),
    ensures
        table_output(columns, a, format) == table_output(columns, b, format),
{
    lemma_rows_alike(columns, json_rows, a, b);
    match format {
        OutputFormat::Table => lemma_alike_text(columns, a, b),
        OutputFormat::Json => lemma_alike_json(columns, a, b),
        OutputFormat::Jsonl => lemma_alike_jsonl(columns, a, b),
        OutputFormat::Csv => lemma_alike_csv(columns, a, b),
    }
}

/// The table of JSON rows in the given format.
pub open spec fn wire_table_output(
    columns: Seq<Seq<char>>,
    json_rows: Seq<Seq<JsonValue>>,
    format: OutputFormat,
) -> Seq<u8> {
    table_output(columns, choose|rows: Seq<Seq<QueryValue>>| converts_rows(json_rows, rows), format)
}

/// A database-side failure with the given message.
pub open spec fn db(message: Seq<char>) -> ErrorView {
    (EXIT_DATABASE, message)
}

/// Whether every item is a JSON string.
pub open spec fn all_text(items: Seq<JsonValue>) -> bool {
    forall|i: int| 0 <= i < items.len() ==> #[trigger] items[i] is String
}

/// Whether every item is a JSON array.
pub open spec fn all_arrays(items: Seq<JsonValue>) -> bool {
    forall|i: int| 0 <= i < items.len() ==> #[trigger] items[i] is Array
}

pub open spec fn texts_of(items: Seq<JsonValue>) -> Seq<Seq<char>> {
    items.map_values(|j: JsonValue| j->String_0@)
}

pub open spec fn arrays_of(items: Seq<JsonValue>) -> Seq<Seq<JsonValue>> {
    items.map_values(|j: JsonValue| j->Array_0@)
}

/// The columns and rows of a query result sent by the server: `columns` must
/// be an array of strings and `rows` an array of arrays.
pub open spec fn wire_query_spec(result: JsonValue) -> Result<
    (Seq<Seq<char>>, Seq<Seq<JsonValue>>),
    ErrorView,
> {
    match member(result, "columns"@) {
        Some(JsonValue::Array(items)) => if !all_text(items@) {
            Err(db("query column is not text"@))
        } else {
            match member(result, "rows"@) {
                Some(JsonValue::Array(rows)) => if !all_arrays(rows@) {
                    Err(db("query row is not an array"@))
                } else {
                    Ok((texts_of(items@), arrays_of(rows@)))
                },
                _ => Err(db("query rows are missing"@)),
            }
        },
        _ => Err(db("query columns are missing"@)),
    }
}

/// Whether a text table can be written for the result: no row is longer
/// than the columns (a text table cannot show such a row).
pub open spec fn wire_query_fits(result: JsonValue, format: OutputFormat) -> bool {
    match wire_query_spec(result) {
        Ok((columns, rows)) => format == OutputFormat::Table ==> forall|r: int|
            0 <= r < rows.len() ==> #[trigger] rows[r].len() <= columns.len(),
        Err(_) => true,
    }
}

fn database_error(message: &str) -> (result: CliError)
    ensures
        result.code == EXIT_DATABASE,
        result.message@ == message@,
{
    CliError::new(EXIT_DATABASE, owned(message))
}

/// Converts one row of a result.
fn convert_row(values: &Vec<JsonValue>) -> (row: Vec<QueryValue>)
    ensures
        converts_list(values@, row@),
{
    let mut row: Vec<QueryValue> = Vec::new();
    let mut i: usize = 0;
    while i < values.len()
        invariant
            i <= values@.len(),
            converts_list(values@.take(i as int), row@),
        decreases values@.len() - i,
    {
        let q = json_query_value(&values[i]);
        let ghost before = row@;
        row.push(q);
        proof {
            assert(values@.take(i + 1).drop_last() == values@.take(i as int));
            assert(row@.drop_last() == before);
        }
        i += 1;
    }
    assert(values@.take(values@.len() as int) == values@);
    row
}

/// The columns and converted rows of a query result sent by the server.
pub fn wire_query_table(result: &JsonValue) -> (table: Result<
    (Vec<String>, Vec<Vec<QueryValue>>),
    CliError,
>)
    ensures
        match wire_query_spec(*result) {
            Err(e) => fails_with(table, e),
            Ok((columns, rows)) => table matches Ok((c, v)) && views(c@) == columns
                && converts_rows(rows, rows_view(v@)),
        },
{
    let items = match get(result, "columns") {
        Some(JsonValue::Array(items)) => items,
        _ => return Err(database_error("query columns are missing")),
    };
    let mut columns: Vec<String> = Vec::new();
    let mut i: usize = 0;
    while i < items.len()
        invariant
            member(*result, "columns"@) == Some(JsonValue::Array(*items)),
            i <= items@.len(),
            columns@.len() == i,
            forall|k: int| 0 <= k < i ==> #[trigger] items@[k] is String && columns@[k]@
                == items@[k]->String_0@,
        decreases items@.len() - i,
    {
        match &items[i] {
            JsonValue::String(s) => columns.push(owned(s.as_str())),
            _ => return Err(database_error("query column is not text")),
        }
        i += 1;
    }
    assert(views(columns@) =~= texts_of(items@));
    let json_rows = match get(result, "rows") {
        Some(JsonValue::Array(rows)) => rows,
        _ => return Err(database_error("query rows are missing")),
    };
    let mut rows: Vec<Vec<QueryValue>> = Vec::new();
    let mut r: usize = 0;
    while r < json_rows.len()
        invariant
            member(*result, "columns"@) == Some(JsonValue::Array(*items)),
            member(*result, "rows"@) == Some(JsonValue::Array(*json_rows)),
            all_text(items@),
            views(columns@) == texts_of(items@),
            r <= json_rows@.len(),
            rows@.len() == r,
            forall|k: int| 0 <= k < r ==> #[trigger] json_rows@[k] is Array && converts_list(
                json_rows@[k]->Array_0@,
                rows@[k]@,
            ),
        decreases json_rows@.len() - r,
    {
        match &json_rows[r] {
            JsonValue::Array(values) => {
                let row = convert_row(values);
                rows.push(row);
            },
            _ => return Err(database_error("query row is not an array")),
        }
        r += 1;
    }
    proof {
        let jr = arrays_of(json_rows@);
        let rv = rows_view(rows@);
        assert forall|k: int| 0 <= k < rv.len() implies converts_list(jr[k], #[trigger] rv[k]) by {
            assert(json_rows@[k] is Array);
        }
    }
    Ok((columns, rows))
}

/// Writes a query result sent by the server in the given format; nothing
/// is written when the result is malformed.
pub fn render_wire_query(result: &JsonValue, format: OutputFormat, output: &mut Vec<u8>) -> (r: Result<
    (),
    CliError,
>)
    requires
        wire_query_fits(*result, format),
    ensures
        match wire_query_spec(*result) {
            Err(e) => fails_with(r, e) && final(output)@ == old(output)@,
            Ok((columns, rows)) => r is Ok && final(output)@ == old(output)@ + wire_table_output(
                columns,
                rows,
                format,
            ),
        },
{
    let (columns, rows) = match wire_query_table(result) {
        Ok(table) => table,
        Err(e) => return Err(e),
    };
    proof {
        let (cs, jr) = wire_query_spec(*result)->Ok_0;
        assert(converts_rows(jr, rows_view(rows@)));
        let chosen = choose|v: Seq<Seq<QueryValue>>| converts_rows(jr, v);
        lemma_rows_same_output(cs, jr, rows_view(rows@), chosen, format);
        if format == OutputFormat::Table {
            assert forall|k: int| 0 <= k < rows_view(rows@).len() implies #[trigger] rows_view(
                rows@,
            )[k].len() <= columns@.len() by {
                assert(converts_list(jr[k], rows_view(rows@)[k]));
                assert(jr[k].len() <= cs.len());
            }
        }
    }
    render_table_data(&columns, &rows, format, output);
    Ok(())
}

/// What writing a query result does: the bytes written, and the error if
/// it failed.
pub open spec fn query_out(result: JsonValue, format: OutputFormat) -> (Seq<u8>, Option<ErrorView>) {
    match wire_query_spec(result) {
        Err(e) => (Seq::empty(), Some(e)),
        Ok((columns, rows)) => (wire_table_output(columns, rows, format), None),
    }
}

/// The kind of a statement result, when it is a string.
pub open spec fn kind_of(statement: JsonValue) -> Option<Seq<char>> {
    match member(statement, "kind"@) {
        Some(JsonValue::String(k)) => Some(k@),
        _ => None,
    }
}

/// The six counts of a write summary, in the order of its table.
pub open spec fn summary_values(write: JsonValue) -> Result<Seq<JsonValue>, ErrorView> {
    match member(write, "summary"@) {
        Some(JsonValue::Object(members)) => if forall|k: int|
            0 <= k < 6 ==> #[trigger] first_member(members@, summary_columns()[k], 0) is Some {
            Ok(Seq::new(6, |k: int| first_member(members@, summary_columns()[k], 0)->0))
        } else {
            Err(db("write summary field is missing"@))
        },
        _ => Err(db("write summary is missing"@)),
    }
}

/// The returned table of a write, when it has one that is not null.
pub open spec fn write_table(write: JsonValue) -> Option<JsonValue> {
    match member(write, "result"@) {
        Some(r) => if r is Null {
            None
        } else {
            Some(r)
        },
        None => None,
    }
}

/// What writing a write result does: its returned table, if any; in a text
/// table (or without a returned table) the summary table follows.
pub open spec fn write_out(write: JsonValue, format: OutputFormat) -> (Seq<u8>, Option<ErrorView>) {
    let first = match write_table(write) {
        Some(r) => query_out(r, format),
        None => (Seq::<u8>::empty(), None::<ErrorView>),
    };
    if first.1 is Some {
        first
    } else if write_table(write) is Some && format != OutputFormat::Table {
        first
    } else {
        match summary_values(write) {
            Err(e) => (first.0, Some(e)),
            Ok(values) => (
                first.0 + wire_table_output(summary_columns(), seq![values], format),
                None,
            ),
        }
    }
}

/// What writing one statement result sent by the server does: a read
/// writes its table, a write as above; anything else is an error.
#[verifier::opaque]
pub open spec fn statement_out(statement: JsonValue, format: OutputFormat) -> (
    Seq<u8>,
    Option<ErrorView>,
) {
    match kind_of(statement) {
        Some(k) => if k == "read"@ {
            match member(statement, "result"@) {
                Some(r) => query_out(r, format),
                None => (Seq::empty(), Some(db("read result is missing"@))),
            }
        } else if k == "write"@ {
            match member(statement, "write"@) {
                Some(w) => write_out(w, format),
                None => (Seq::empty(), Some(db("write result is missing"@))),
            }
        } else {
            (Seq::empty(), Some(db("statement result has an unknown kind"@)))
        },
        None => (Seq::empty(), Some(db("statement result has an unknown kind"@))),
    }
}

/// Whether every table of the statement result can be written.
pub open spec fn wire_statement_fits(statement: JsonValue, format: OutputFormat) -> bool {
    &&& (member(statement, "result"@) matches Some(r) ==> wire_query_fits(r, format))
    &&& (member(statement, "write"@) matches Some(w) ==> (write_table(w) matches Some(r)
        ==> wire_query_fits(r, format)))
}

/// Whether the result of an operation is the outcome `out`.
pub open spec fn yields(r: Result<(), CliError>, out: Option<ErrorView>) -> bool {
    match out {
        None => r is Ok,
        Some(e) => fails_with(r, e),
    }
}

fn summary_names() -> (names: Vec<String>)
    ensures
        views(names@) == summary_columns(),
{
    let names = vec![
        owned("nodes_created"),
        owned("edges_created"),
        owned("nodes_deleted"),
        owned("edges_deleted"),
        owned("properties_set"),
        owned("properties_removed"),
    ];
    assert(views(names@) =~= summary_columns());
    names
}

fn render_wire_write(write: &JsonValue, format: OutputFormat, output: &mut Vec<u8>) -> (r: Result<
    (),
    CliError,
>)
    requires
        write_table(*write) matches Some(t) ==> wire_query_fits(t, format),
    ensures
        final(output)@ == old(output)@ + write_out(*write, format).0,
        yields(r, write_out(*write, format).1),
{
    let ghost start = output@;
    match get(write, "result") {
        Some(result) => {
            if !matches!(result, JsonValue::Null) {
                match render_wire_query(result, format, output) {
                    Err(e) => return Err(e),
                    Ok(()) => {},
                }
                if format != OutputFormat::Table {
                    return Ok(());
                }
            }
        },
        None => {},
    }
    let ghost middle = output@;
    let members = match get(write, "summary") {
        Some(JsonValue::Object(members)) => members,
        _ => return Err(database_error("write summary is missing")),
    };
    let columns = summary_names();
    let mut row: Vec<QueryValue> = Vec::new();
    let ghost json_row: Seq<JsonValue> = Seq::new(
        6,
        |k: int| first_member(members@, summary_columns()[k], 0)->0,
    );
    assert(summary_columns().len() == 6);
    let mut k: usize = 0;
    while k < 6
        invariant
            output@ == middle,
            start == old(output)@,
            middle == start + match write_table(*write) {
                Some(t) => query_out(t, format).0,
                None => Seq::<u8>::empty(),
            },
            match write_table(*write) {
                Some(t) => query_out(t, format).1 is None && format == OutputFormat::Table,
                None => true,
            },
            member(*write, "summary"@) == Some(JsonValue::Object(*members)),
            views(columns@) == summary_columns(),
            columns@.len() == 6,
            k <= 6,
            forall|j: int| 0 <= j < k ==> #[trigger] first_member(members@, summary_columns()[j], 0) is Some,
            json_row == Seq::new(6, |k: int| first_member(members@, summary_columns()[k], 0)->0),
            converts_list(json_row.take(k as int), row@),
        decreases 6 - k,
    {
        assert(columns@[k as int]@ == summary_columns()[k as int]);
        match find_member(members, columns[k].as_str()) {
            Some(value) => {
                let q = json_query_value(value);
                let ghost before = row@;
                row.push(q);
                proof {
                    assert(json_row.take(k + 1).drop_last() == json_row.take(k as int));
                    assert(row@.drop_last() == before);
                }
            },
            None => return Err(database_error("write summary field is missing")),
        }
        k += 1;
    }
    assert(json_row.take(6) == json_row);
    let mut rows: Vec<Vec<QueryValue>> = Vec::new();
    rows.push(row);
    proof {
        assert(summary_values(*write) == Ok::<Seq<JsonValue>, ErrorView>(json_row));
        let jr = seq![json_row];
        assert(converts_rows(jr, rows_view(rows@))) by {
            assert(rows_view(rows@)[0] == rows@[0]@);
        }
        let chosen = choose|v: Seq<Seq<QueryValue>>| converts_rows(jr, v);
        lemma_rows_same_output(summary_columns(), jr, rows_view(rows@), chosen, format);
        assert(rows_fit(columns@.len() as int, rows_view(rows@))) by {
            assert(rows_view(rows@)[0] == rows@[0]@);
        }
    }
    render_table_data(&columns, &rows, format, output);
    Ok(())
}

/// Writes one statement result sent by the server in the given format.
pub fn render_wire_statement(statement: &JsonValue, format: OutputFormat, output: &mut Vec<u8>) -> (r: Result<
    (),
    CliError,
>)
    requires
        wire_statement_fits(*statement, format),
    ensures
        final(output)@ == old(output)@ + statement_out(*statement, format).0,
        yields(r, statement_out(*statement, format).1),
{
    reveal(statement_out);
    let kind = match get(statement, "kind") {
        Some(JsonValue::String(kind)) => kind,
        _ => return Err(database_error("statement result has an unknown kind")),
    };
    if text_eq(kind.as_str(), "read") {
        match get(statement, "result") {
            Some(result) => render_wire_query(result, format, output),
            None => Err(database_error("read result is missing")),
        }
    } else if text_eq(kind.as_str(), "write") {
        match get(statement, "write") {
            Some(write) => render_wire_write(write, format, output),
            None => Err(database_error("write result is missing")),
        }
    } else {
        Err(database_error("statement result has an unknown kind"))
    }
}

/// The JSON array of several statement results after `k` of them: `[`,
/// then each result's document without its line ending, separated by
/// commas; the first failure stops it.
pub open spec fn array_prefix(statements: Seq<JsonValue>, k: int) -> (Seq<u8>, Option<ErrorView>)
    decreases k,
{
    if k <= 0 {
        (utf8("["@), None)
    } else {
        let prev = array_prefix(statements, k - 1);
        if prev.1 is Some {
            prev
        } else {
            let sep = if k - 1 > 0 {
                utf8(","@)
            } else {
                Seq::empty()
            };
            let item = statement_out(statements[k - 1], OutputFormat::Json);
            match item.1 {
                Some(e) => (prev.0 + sep, Some(e)),
                None => (prev.0 + sep + trim_line_end(item.0), None),
            }
        }
    }
}

/// The results written one after another, after `k` of them; the first
/// failure stops it.
pub open spec fn plain_prefix(statements: Seq<JsonValue>, format: OutputFormat, k: int) -> (
    Seq<u8>,
    Option<ErrorView>,
)
    decreases k,
{
    if k <= 0 {
        (Seq::empty(), None)
    } else {
        let prev = plain_prefix(statements, format, k - 1);
        if prev.1 is Some {
            prev
        } else {
            let item = statement_out(statements[k - 1], format);
            (prev.0 + item.0, item.1)
        }
    }
}

/// What writing a batch of statement results sent by the server does:
/// several results in JSON form one array; otherwise each is written in
/// turn.
pub open spec fn batch_out(statements: Seq<JsonValue>, format: OutputFormat) -> (
    Seq<u8>,
    Option<ErrorView>,
) {
    if format == OutputFormat::Json && statements.len() > 1 {
        let p = array_prefix(statements, statements.len() as int);
        if p.1 is Some {
            p
        } else {
            (p.0 + utf8("]\n"@), None)
        }
    } else {
        plain_prefix(statements, format, statements.len() as int)
    }
}

proof fn lemma_array_prefix_stops(statements: Seq<JsonValue>, k: int, m: int)
    requires
        0 <= k <= m,
        array_prefix(statements, k).1 is Some,
    ensures
        array_prefix(statements, m) == array_prefix(statements, k),
    decreases m - k,
{
    if m > k {
        lemma_array_prefix_stops(statements, k, m - 1);
    }
}

proof fn lemma_plain_prefix_stops(statements: Seq<JsonValue>, format: OutputFormat, k: int, m: int)
    requires
        0 <= k <= m,
        plain_prefix(statements, format, k).1 is Some,
    ensures
        plain_prefix(statements, format, m) == plain_prefix(statements, format, k),
    decreases m - k,
{
    if m > k {
        lemma_plain_prefix_stops(statements, format, k, m - 1);
    }
}

/// Writes the results of a batch of statements sent by the server.
pub fn render_wire_statement_batch(
    statements: &Vec<JsonValue>,
    format: OutputFormat,
    output: &mut Vec<u8>,
) -> (r: Result<(), CliError>)
    requires
        forall|k: int|
            0 <= k < statements@.len() ==> wire_statement_fits(#[trigger] statements@[k], format),
    ensures
        final(output)@ == old(output)@ + batch_out(statements@, format).0,
        yields(r, batch_out(statements@, format).1),
{
    let ghost start = output@;
    if format == OutputFormat::Json && statements.len() > 1 {
        push_text(output, "[");
        let mut i: usize = 0;
        while i < statements.len()
            invariant
                i <= statements@.len(),
                format == OutputFormat::Json && statements@.len() > 1,
                start == old(output)@,
                output@ == start + array_prefix(statements@, i as int).0,
                array_prefix(statements@, i as int).1 is None,
            decreases statements@.len() - i,
        {
            if i > 0 {
                push_text(output, ",");
            }
            let mut item: Vec<u8> = Vec::new();
            match render_wire_statement(&statements[i], OutputFormat::Json, &mut item) {
                Err(e) => {
                    proof {
                        assert(output@ == start + array_prefix(statements@, i + 1).0);
                        lemma_array_prefix_stops(statements@, i + 1, statements@.len() as int);
                    }
                    return Err(e);
                },
                Ok(()) => {},
            }
            trim_line_ending(&mut item);
            output.append(&mut item);
            i += 1;
        }
        push_text(output, "]\n");
        Ok(())
    } else {
        let mut i: usize = 0;
        while i < statements.len()
            invariant
                i <= statements@.len(),
                start == old(output)@,
                !(format == OutputFormat::Json && statements@.len() > 1),
                forall|k: int|
                    0 <= k < statements@.len() ==> wire_statement_fits(
                        #[trigger] statements@[k],
                        format,
                    ),
                output@ == start + plain_prefix(statements@, format, i as int).0,
                plain_prefix(statements@, format, i as int).1 is None,
            decreases statements@.len() - i,
        {
            let ghost before = output@;
            match render_wire_statement(&statements[i], format, output) {
                Err(e) => {
                    proof {
                        assert(output@ == start + plain_prefix(statements@, format, i + 1).0);
                        lemma_plain_prefix_stops(statements@, format, i + 1, statements@.len() as int);
                    }
                    return Err(e);
                },
                Ok(()) => {},
            }
            i += 1;
        }
        Ok(())
    }
}

/// A write that returns a table writes, in a machine format, that table
/// and nothing else: exactly what a read returning the same table writes,
/// so the output stays one document. Only in a text table does the write
/// summary follow the returned table.
pub proof fn lemma_write_with_table(write: JsonValue, format: OutputFormat)
    ensures
        write_table(write) is Some && format != OutputFormat::Table ==> write_out(write, format)
            == query_out(write_table(write)->0, format),
        write_table(write) is Some && format == OutputFormat::Table && query_out(
            write_table(write)->0,
            format,
        ).1 is None && summary_values(write) is Ok ==> write_out(write, format) == (
            query_out(write_table(write)->0, format).0 + wire_table_output(
                summary_columns(),
                seq![summary_values(write)->Ok_0],
                format,
            ),
            None::<ErrorView>,
        ),
{
}

/// The same, for a statement result that the server marks as a write.
pub proof fn lemma_write_statement_with_table(statement: JsonValue, format: OutputFormat)
    ensures
        kind_of(statement) == Some("write"@) && member(statement, "write"@) is Some && write_table(
            member(statement, "write"@)->0,
        ) is Some && format != OutputFormat::Table ==> statement_out(statement, format) == query_out(
            write_table(member(statement, "write"@)->0)->0,
            format,
        ),
{
    if kind_of(statement) == Some("write"@) && member(statement, "write"@) is Some {
        reveal_strlit("write");
        reveal_strlit("read");
        assert("write"@ != "read"@) by {
            assert("write"@.len() != "read"@.len());
        }
        reveal(statement_out);
        lemma_write_with_table(member(statement, "write"@)->0, format);
    }
}

/// A batch of one statement result sent by the server writes exactly what
/// that result writes alone.
pub proof fn lemma_single_wire_batch(statement: JsonValue, format: OutputFormat)
    ensures
        batch_out(seq![statement], format) == statement_out(statement, format),
{
    let item = statement_out(statement, format);
    assert(plain_prefix(seq![statement], format, 0) == (Seq::<u8>::empty(), None::<ErrorView>));
    assert(Seq::<u8>::empty() + item.0 =~= item.0);
}

fn wire_query_fits_check(result: &JsonValue, format: OutputFormat) -> (fits: bool)
    ensures
        fits == wire_query_fits(*result, format),
{
    if format != OutputFormat::Table {
        return true;
    }
    let (columns, rows) = match wire_query_table(result) {
        Ok(table) => table,
        Err(_) => return true,
    };
    let ghost jr = wire_query_spec(*result)->Ok_0.1;
    let mut r: usize = 0;
    while r < rows.len()
        invariant
            r <= rows@.len(),
            format == OutputFormat::Table,
            wire_query_spec(*result) is Ok,
            jr == wire_query_spec(*result)->Ok_0.1,
            views(columns@) == wire_query_spec(*result)->Ok_0.0,
            converts_rows(jr, rows_view(rows@)),
            forall|k: int| 0 <= k < r ==> #[trigger] jr[k].len() <= columns@.len(),
        decreases rows@.len() - r,
    {
        assert(converts_list(jr[r as int], rows_view(rows@)[r as int]));
        if rows[r].len() > columns.len() {
            return false;
        }
        r += 1;
    }
    true
}

/// Whether every table of a statement result sent by the server can be
/// written in the format.
pub fn wire_statement_fits_check(statement: &JsonValue, format: OutputFormat) -> (fits: bool)
    ensures
        fits == wire_statement_fits(*statement, format),
{
    let first = match get(statement, "result") {
        Some(result) => wire_query_fits_check(result, format),
        None => true,
    };
    if !first {
        return false;
    }
    match get(statement, "write") {
        Some(write) => match get(write, "result") {
            Some(result) => if matches!(result, JsonValue::Null) {
                true
            } else {
                wire_query_fits_check(result, format)
            },
            None => true,
        },
        None => true,
    }
}

} // verus!
