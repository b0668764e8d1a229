use nostos_cli::error::EXIT_USAGE;
use nostos_cli::repl::{
    begin_transaction, commit_transaction, end_of_input, parse_remote_command,
    parse_session_command, prompt, queue_statement, require_project, rollback_transaction,
    session_continues, take_line, Line, RemoteCommand, SessionCommand, Transaction,
};

#[test]
fn lines_build_statements_across_prompts() {
    let mut buffer = String::new();
    assert_eq!(prompt(&buffer), "nostdb> ");
    match take_line(&mut buffer, "MATCH (n)\n") {
        Line::Statements(statements) => assert!(statements.is_empty()),
        Line::Command(_) => panic!("not a command"),
    }
    assert_eq!(buffer, "MATCH (n)\n");
    assert_eq!(prompt(&buffer), "...> ");
    match take_line(&mut buffer, "RETURN n; \n") {
        Line::Statements(statements) => assert_eq!(statements, ["MATCH (n)\nRETURN n"]),
        Line::Command(_) => panic!("not a command"),
    }
    assert_eq!(buffer, "");
    match take_line(&mut buffer, "  :quit \n") {
        Line::Command(command) => assert_eq!(command, ":quit"),
        Line::Statements(_) => panic!("a command"),
    }
    assert!(end_of_input("  \n").is_ok());
    let error = end_of_input("RETURN").expect_err("unterminated");
    assert_eq!(error.message, "unterminated query at end of input");
}

#[test]
fn a_colon_inside_a_statement_is_not_a_command() {
    let mut buffer = "RETURN\n".to_owned();
    match take_line(&mut buffer, ":x;\n") {
        Line::Statements(statements) => assert_eq!(statements, ["RETURN\n:x"]),
        Line::Command(_) => panic!("statement text"),
    }
}

#[test]
fn session_commands_are_recognised() {
    assert_eq!(parse_session_command(":q").expect("quit"), SessionCommand::Quit);
    assert_eq!(parse_session_command(":rollback").expect("rollback"), SessionCommand::Rollback);
    let error = parse_session_command(":bogus").expect_err("unknown");
    assert_eq!((error.code, error.message.as_str()), (EXIT_USAGE, "unknown REPL command `:bogus`"));
    assert!(session_continues(&error));
    assert_eq!(require_project(":sync", false).expect_err("project").message, ":sync requires --project");
    assert_eq!(parse_remote_command(":ping"), Ok(RemoteCommand::Ping));
    assert_eq!(
        parse_remote_command(":status"),
        Err("error: unknown remote REPL command `:status`".to_owned())
    );
}

#[test]
fn transactions_hand_over_their_statements_in_order() {
    let mut transaction: Transaction = None;
    let error = begin_transaction(&mut transaction, true).expect_err("project");
    assert_eq!(error.message, "explicit transactions are available only in NDB-only mode");
    assert_eq!(error.code, EXIT_USAGE);
    assert!(transaction.is_none());
    assert_eq!(rollback_transaction(&mut transaction).expect_err("none").code, EXIT_USAGE);
    assert_eq!(commit_transaction(&mut transaction).expect_err("none").message, "no transaction is active");
    begin_transaction(&mut transaction, false).expect("begins");
    assert_eq!(
        begin_transaction(&mut transaction, false).expect_err("twice").message,
        "a transaction is already active"
    );
    queue_statement(&mut transaction, "CREATE (a)".to_owned());
    queue_statement(&mut transaction, "CREATE (b)".to_owned());
    assert_eq!(commit_transaction(&mut transaction).expect("commits"), ["CREATE (a)", "CREATE (b)"]);
    assert!(transaction.is_none());
    begin_transaction(&mut transaction, false).expect("begins");
    assert_eq!(transaction, Some(vec![]));
    queue_statement(&mut transaction, "CREATE (c)".to_owned());
    let refused = begin_transaction(&mut transaction, false).expect_err("open");
    assert_eq!(refused.code, EXIT_USAGE);
    assert_eq!(transaction, Some(vec!["CREATE (c)".to_owned()]));
    rollback_transaction(&mut transaction).expect("rolls back");
    assert!(transaction.is_none());
    assert!(rollback_transaction(&mut transaction).is_err());
}

#[test]
fn statements_spanning_lines_are_read_as_the_whole_text() {
    let lines = ["RETURN 1; RET", "URN 2;\n", "RETURN 3;\n", "  RETURN\n", "4;"];
    let mut buffer = String::new();
    let mut statements = Vec::new();
    for line in lines {
        match take_line(&mut buffer, line) {
            Line::Statements(found) => statements.extend(found),
            Line::Command(_) => panic!("statement text"),
        }
    }
    let whole = lines.concat();
    let (expected, _) = nostos_cli::split::split_with_remainder(&whole).expect("splits");
    assert_eq!(statements, expected);
    assert_eq!(statements, ["RETURN 1", "RETURN 2", "RETURN 3", "RETURN\n4"]);
    assert_eq!(buffer, "");
}
