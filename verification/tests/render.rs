use nostos_cli::format::OutputFormat;
use nostos_cli::render::{render_table_data, write_json_string, write_json_value};
use nostos_cli::result::{
    render_statement_batch, trim_line_ending, QueryResult, StatementResult, WriteResult,
    WriteSummary,
};
use nostos_cli::value::{display_value, hex, EdgeKind, EdgeValue, NodeValue, QueryValue};

fn names(values: &[&str]) -> Vec<String> {
    values.iter().map(|value| value.to_string()).collect()
}

fn render(columns: &[&str], rows: &Vec<Vec<QueryValue>>, format: OutputFormat) -> String {
    let mut output = Vec::new();
    render_table_data(&names(columns), rows, format, &mut output);
    String::from_utf8(output).expect("UTF-8")
}

#[test]
fn json_and_csv_escape_machine_values() {
    let rows = vec![vec![QueryValue::String("a,\"b\n".to_owned())]];
    let mut json = Vec::new();
    render_table_data(&names(&["value"]), &rows, OutputFormat::Json, &mut json);
    assert_eq!(
        String::from_utf8(json).expect("UTF-8"),
        "{\"columns\":[\"value\"],\"rows\":[[\"a,\\\"b\\n\"]]}\n"
    );
    let mut csv = Vec::new();
    render_table_data(&names(&["value"]), &rows, OutputFormat::Csv, &mut csv);
    assert_eq!(
        String::from_utf8(csv).expect("UTF-8"),
        "value\n\"a,\"\"b\n\"\n"
    );
}

#[test]
fn text_tables_pad_each_column_to_its_widest_text() {
    let rows = vec![
        vec![QueryValue::Integer(1), QueryValue::String("Alice".to_owned())],
        vec![QueryValue::Integer(-20), QueryValue::Null],
    ];
    assert_eq!(
        render(&["id", "name"], &rows, OutputFormat::Table),
        "id  | name \n----+------\n1   | Alice\n-20 | null \n"
    );
}

#[test]
fn jsonl_fills_missing_cells_with_null() {
    let rows = vec![vec![QueryValue::Boolean(true)], vec![]];
    assert_eq!(
        render(&["a", "b"], &rows, OutputFormat::Jsonl),
        "{\"a\":true,\"b\":null}\n{\"a\":null,\"b\":null}\n"
    );
}

#[test]
fn json_escapes_control_characters() {
    let mut output = Vec::new();
    write_json_value(&mut output, &QueryValue::String("\t\u{1}é".to_owned()));
    assert_eq!(String::from_utf8(output).expect("UTF-8"), "\"\\t\\u0001é\"");
}

#[test]
fn values_have_display_and_json_forms() {
    let list = QueryValue::List(vec![
        QueryValue::Duration(5),
        QueryValue::Bytes(vec![0x0f, 0xa0]),
        QueryValue::Float("1.5".to_owned()),
    ]);
    assert_eq!(display_value(&list), "[5ns, 0fa0, 1.5]");
    let mut output = Vec::new();
    write_json_value(&mut output, &list);
    assert_eq!(String::from_utf8(output).expect("UTF-8"), "[5,\"0fa0\",1.5]");
    let map = QueryValue::Mapping(vec![
        ("k".to_owned(), QueryValue::Integer(1)),
        ("v".to_owned(), QueryValue::Null),
    ]);
    assert_eq!(display_value(&map), "{k: 1, v: null}");
    assert_eq!(hex(&[0, 255, 16]), "00ff10");
}

#[test]
fn nodes_and_edges_use_stable_json_shapes() {
    let node = QueryValue::Node(NodeValue {
        id: 7,
        labels: names(&["Person"]),
        properties: vec![("name".to_owned(), QueryValue::String("Ann".to_owned()))],
    });
    let mut output = Vec::new();
    write_json_value(&mut output, &node);
    assert_eq!(
        String::from_utf8(output).expect("UTF-8"),
        "{\"id\":7,\"labels\":[\"Person\"],\"properties\":{\"name\":\"Ann\"}}"
    );
    assert_eq!(display_value(&node), "node#7");
    let edge = QueryValue::Edge(EdgeValue {
        id: 3,
        kind: EdgeKind::Undirected,
        source: 1,
        target: 2,
        relationship_type: None,
        properties: vec![],
    });
    let mut output = Vec::new();
    write_json_value(&mut output, &edge);
    assert_eq!(
        String::from_utf8(output).expect("UTF-8"),
        "{\"id\":3,\"kind\":\"directionless\",\"source\":1,\"target\":2,\"type\":null,\"properties\":{}}"
    );
    assert_eq!(display_value(&edge), "edge#3");
}

fn read(value: i64) -> StatementResult {
    StatementResult::Read(QueryResult {
        columns: names(&["value"]),
        rows: vec![vec![QueryValue::Integer(value)]],
    })
}

#[test]
fn several_json_documents_form_one_array() {
    let results = vec![read(1), read(2)];
    let mut output = Vec::new();
    render_statement_batch(&results, OutputFormat::Json, &mut output);
    assert_eq!(
        String::from_utf8(output).expect("UTF-8"),
        "[{\"columns\":[\"value\"],\"rows\":[[1]]},{\"columns\":[\"value\"],\"rows\":[[2]]}]\n"
    );
    let mut lines = Vec::new();
    render_statement_batch(&results, OutputFormat::Jsonl, &mut lines);
    assert_eq!(String::from_utf8(lines).expect("UTF-8"), "{\"value\":1}\n{\"value\":2}\n");
}

#[test]
fn writes_show_their_summary() {
    let write = StatementResult::Write(WriteResult {
        result: None,
        summary: WriteSummary {
            nodes_created: 1,
            edges_created: 0,
            nodes_deleted: 0,
            edges_deleted: 0,
            properties_set: 2,
            properties_removed: 0,
        },
    });
    let mut output = Vec::new();
    render_statement_batch(&vec![write], OutputFormat::Csv, &mut output);
    assert_eq!(
        String::from_utf8(output).expect("UTF-8"),
        "nodes_created,edges_created,nodes_deleted,edges_deleted,properties_set,properties_removed\n1,0,0,0,2,0\n"
    );
}

#[test]
fn trailing_line_endings_are_trimmed() {
    let mut bytes = b"abc\r\n\n".to_vec();
    trim_line_ending(&mut bytes);
    assert_eq!(bytes, b"abc");
}

#[test]
fn a_single_json_result_keeps_its_document() {
    let mut alone = Vec::new();
    nostos_cli::result::render_statement(&read(5), OutputFormat::Json, &mut alone);
    let mut batch = Vec::new();
    render_statement_batch(&vec![read(5)], OutputFormat::Json, &mut batch);
    assert_eq!(alone, batch);
    assert_eq!(String::from_utf8(batch).expect("UTF-8"), "{\"columns\":[\"value\"],\"rows\":[[5]]}\n");
}

#[test]
fn hex_text_has_two_digits_per_byte() {
    for bytes in [vec![], vec![1u8], vec![0u8, 17, 255]] {
        assert_eq!(hex(&bytes).len(), 2 * bytes.len());
    }
}

#[test]
fn json_strings_read_back_as_the_same_text() {
    let text = "a\"b\\c\nd\re\tf\u{1}g\u{1f}h/é";
    let mut bytes = Vec::new();
    write_json_string(&mut bytes, text);
    assert_eq!(
        bytes,
        "\"a\\\"b\\\\c\\nd\\re\\tf\\u0001g\\u001fh/é\"".as_bytes()
    );
    let read: String = serde_json::from_slice(&bytes).expect("a JSON string");
    assert_eq!(read, text);
}
