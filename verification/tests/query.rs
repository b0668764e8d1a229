use nostos_cli::args::{finish_query, parse_query, QueryOptions, QueryParse};
use nostos_cli::error::{EXIT_QUERY, EXIT_USAGE};
use nostos_cli::format::OutputFormat;
use nostos_cli::query::{
    is_interactive, synchronize_after_writes, synchronize_for_query, validate_batch_format,
    validate_statement, validate_statements, StatementCheck,
};

fn options(values: &[&str]) -> QueryOptions {
    let arguments = values.iter().map(|value| value.to_string()).collect();
    match parse_query(arguments).expect("parses") {
        QueryParse::Arguments(arguments) => finish_query(arguments, None).expect("completes"),
        QueryParse::Help => panic!("help"),
    }
}

fn options_with_root(values: &[&str]) -> QueryOptions {
    let arguments = values.iter().map(|value| value.to_string()).collect();
    match parse_query(arguments).expect("parses") {
        QueryParse::Arguments(arguments) => {
            finish_query(arguments, Some("root.nostdb".to_owned())).expect("completes")
        }
        QueryParse::Help => panic!("help"),
    }
}

fn read() -> StatementCheck {
    StatementCheck { read_error: None, writes: false }
}

fn write() -> StatementCheck {
    StatementCheck { read_error: Some("not a read".to_owned()), writes: true }
}

fn invalid(message: &str) -> StatementCheck {
    StatementCheck { read_error: Some(message.to_owned()), writes: false }
}

#[test]
fn invalid_statements_report_the_read_error() {
    assert!(validate_statement(None, false, true, 0, 1).is_ok());
    let error = validate_statement(Some("syntax error".to_owned()), false, false, 0, 1)
        .expect_err("invalid");
    assert_eq!((error.code, error.message.as_str()), (EXIT_QUERY, "syntax error"));
    let error = validate_statement(Some("syntax error".to_owned()), false, false, 2, 3)
        .expect_err("invalid");
    assert_eq!(error.message, "statement 3: syntax error");
}

#[test]
fn read_only_batches_reject_writes() {
    assert!(validate_statement(Some("e".to_owned()), true, false, 0, 1).is_ok());
    let error = validate_statement(Some("e".to_owned()), true, true, 0, 1).expect_err("write");
    assert_eq!(error.message, "read-only mode rejects mutating statements");
    let error = validate_statement(Some("e".to_owned()), true, true, 9, 12).expect_err("write");
    assert_eq!(error.message, "statement 10: read-only mode rejects mutating statements");
    let error = validate_statements(&vec![read(), invalid("first"), invalid("second")], false)
        .expect_err("first rejection");
    assert_eq!(error.message, "statement 2: first");
    assert!(validate_statements(&vec![read(), write()], false).is_ok());
}

#[test]
fn csv_holds_one_statement() {
    assert!(validate_batch_format(OutputFormat::Csv, 1).is_ok());
    assert!(validate_batch_format(OutputFormat::Jsonl, 5).is_ok());
    let error = validate_batch_format(OutputFormat::Csv, 2).expect_err("csv batch");
    assert_eq!(error.code, EXIT_USAGE);
    assert!(error.message.contains("use --format jsonl"));
}

#[test]
fn ndb_first_writes_need_no_owner() {
    let project = options_with_root(&["CREATE (n)", "--project", "p"]);
    assert_eq!(project.common.database, "p/.nostdb/root.nostdb");
    assert!(validate_statements(&vec![write()], false).is_ok());
    assert!(synchronize_after_writes(&project, false, &vec![write()]).is_none());
    let request = synchronize_after_writes(&project, true, &vec![read(), write()])
        .expect("writes reconcile the source");
    assert_eq!(
        (request.project.as_str(), request.database.as_str()),
        ("p", "p/.nostdb/root.nostdb")
    );
    assert!(synchronize_after_writes(&project, true, &vec![read(), invalid("bad")]).is_none());
    let plain = options(&["CREATE (n)", "-d", "db"]);
    assert!(synchronize_after_writes(&plain, true, &vec![write()]).is_none());
}

#[test]
fn local_queries_synchronize_their_project() {
    let project = options_with_root(&["RETURN 1", "--project", "p"]);
    let request = synchronize_for_query(&project, true).expect("synchronizes");
    assert_eq!(
        (request.project.as_str(), request.database.as_str()),
        ("p", "p/.nostdb/root.nostdb")
    );
    assert!(synchronize_for_query(&project, false).is_none());
    assert!(synchronize_for_query(&options(&["RETURN 1", "-d", "db"]), true).is_none());
    assert!(is_interactive(&options(&["--interactive", "-d", "db"]), false));
    assert!(is_interactive(&options(&["-d", "x"]), true));
    assert!(!is_interactive(&options(&["RETURN 1", "-d", "db"]), true));
}
