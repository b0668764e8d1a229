use nostos_cli::format::OutputFormat;
use nostos_cli::value::QueryValue;
use nostos_cli::wire::{
    json_query_value, render_wire_statement, render_wire_statement_batch, JsonNumber, JsonValue,
};

fn text(value: &str) -> JsonValue {
    JsonValue::String(value.to_owned())
}

fn number(value: i64) -> JsonValue {
    JsonValue::Number(JsonNumber { integer: Some(value), float: None, text: value.to_string() })
}

fn object(members: Vec<(&str, JsonValue)>) -> JsonValue {
    JsonValue::Object(members.into_iter().map(|(key, value)| (key.to_owned(), value)).collect())
}

fn read_statement(rows: Vec<JsonValue>) -> JsonValue {
    object(vec![
        ("kind", text("read")),
        (
            "result",
            object(vec![
                ("columns", JsonValue::Array(vec![text("value")])),
                ("rows", JsonValue::Array(rows)),
                ("ordered", JsonValue::Bool(true)),
            ]),
        ),
    ])
}

fn render(statement: &JsonValue, format: OutputFormat) -> (String, Option<String>) {
    let mut output = Vec::new();
    let result = render_wire_statement(statement, format, &mut output);
    (String::from_utf8(output).expect("UTF-8"), result.err().map(|error| error.message))
}

#[test]
fn remote_wire_results_use_the_existing_machine_formats() {
    let statement = read_statement(vec![
        JsonValue::Array(vec![number(1)]),
        JsonValue::Array(vec![number(2)]),
    ]);
    let mut output = Vec::new();
    render_wire_statement(&statement, OutputFormat::Jsonl, &mut output)
        .expect("wire result renders");
    assert_eq!(
        String::from_utf8(output).expect("UTF-8"),
        "{\"value\":1}\n{\"value\":2}\n"
    );
}

#[test]
fn json_values_become_query_values() {
    let float = JsonValue::Number(JsonNumber {
        integer: None,
        float: Some("1.5".to_owned()),
        text: "1.5".to_owned(),
    });
    assert_eq!(json_query_value(&float), QueryValue::Float("1.5".to_owned()));
    let value = JsonValue::Array(vec![JsonValue::Null, object(vec![("a", JsonValue::Bool(false))])]);
    assert_eq!(
        json_query_value(&value),
        QueryValue::List(vec![
            QueryValue::Null,
            QueryValue::Mapping(vec![("a".to_owned(), QueryValue::Boolean(false))]),
        ])
    );
}

fn write_statement(result: JsonValue, summary: JsonValue) -> JsonValue {
    object(vec![
        ("kind", text("write")),
        ("write", object(vec![("result", result), ("summary", summary)])),
    ])
}

fn summary() -> JsonValue {
    object(vec![
        ("properties_removed", number(0)),
        ("nodes_created", number(1)),
        ("edges_created", number(0)),
        ("nodes_deleted", number(0)),
        ("edges_deleted", number(0)),
        ("properties_set", number(2)),
    ])
}

#[test]
fn wire_writes_show_the_summary_in_column_order() {
    let statement = write_statement(JsonValue::Null, summary());
    let (output, error) = render(&statement, OutputFormat::Csv);
    assert_eq!(error, None);
    assert_eq!(
        output,
        "nodes_created,edges_created,nodes_deleted,edges_deleted,properties_set,properties_removed\n1,0,0,0,2,0\n"
    );
}

#[test]
fn a_missing_summary_field_fails_after_the_returned_table() {
    let table = object(vec![
        ("columns", JsonValue::Array(vec![text("n")])),
        ("rows", JsonValue::Array(vec![JsonValue::Array(vec![number(5)])])),
    ]);
    let statement = write_statement(table, object(vec![("nodes_created", number(1))]));
    let (output, error) = render(&statement, OutputFormat::Table);
    assert_eq!(output, "n\n-\n5\n");
    assert_eq!(error.as_deref(), Some("write summary field is missing"));
}

#[test]
fn malformed_wire_results_are_database_errors() {
    let (output, error) = render(&object(vec![("kind", text("other"))]), OutputFormat::Json);
    assert_eq!(output, "");
    assert_eq!(error.as_deref(), Some("statement result has an unknown kind"));
    let statement = object(vec![
        ("kind", text("read")),
        ("result", object(vec![("columns", JsonValue::Array(vec![number(1)]))])),
    ]);
    assert_eq!(render(&statement, OutputFormat::Json).1.as_deref(), Some("query column is not text"));
    let mut output = Vec::new();
    let error = render_wire_statement(&object(vec![("kind", text("read"))]), OutputFormat::Json, &mut output)
        .expect_err("missing result");
    assert_eq!(error.code, nostos_cli::error::EXIT_DATABASE);
    assert_eq!(error.message, "read result is missing");
}

#[test]
fn several_wire_results_in_json_form_one_array() {
    let statements = vec![
        read_statement(vec![JsonValue::Array(vec![number(1)])]),
        read_statement(vec![JsonValue::Array(vec![number(2)])]),
    ];
    let mut output = Vec::new();
    render_wire_statement_batch(&statements, OutputFormat::Json, &mut output).expect("renders");
    assert_eq!(
        String::from_utf8(output).expect("UTF-8"),
        "[{\"columns\":[\"value\"],\"rows\":[[1]]},{\"columns\":[\"value\"],\"rows\":[[2]]}]\n"
    );
}

#[test]
fn a_single_wire_result_renders_as_it_does_alone() {
    let statement = read_statement(vec![JsonValue::Array(vec![number(3)])]);
    let (alone, _) = render(&statement, OutputFormat::Json);
    let mut batch = Vec::new();
    render_wire_statement_batch(&vec![statement], OutputFormat::Json, &mut batch).expect("renders");
    assert_eq!(String::from_utf8(batch).expect("UTF-8"), alone);
}
