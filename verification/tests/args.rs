use nostos_cli::args::{
    finish_common, finish_query, parse_common, parse_database, parse_format, parse_init,
    parse_project, parse_query, parse_server, value, DatabaseCommand, QueryOptions, QueryParse,
};
use nostos_cli::command::{invocation, Command, Invocation};
use nostos_cli::error::EXIT_USAGE;
use nostos_cli::format::OutputFormat;
use nostos_cli::help::command_help;

fn args(values: &[&str]) -> Vec<String> {
    values.iter().map(|value| value.to_string()).collect()
}

fn query(values: &[&str]) -> QueryOptions {
    match parse_query(args(values)).expect("query parses") {
        QueryParse::Arguments(arguments) => finish_query(arguments, None).expect("query completes"),
        QueryParse::Help => panic!("unexpected help"),
    }
}

#[test]
fn remote_query_and_guarded_database_commands_parse_without_http_concepts() {
    let query = query(&[
        "RETURN 1",
        "--server",
        "nostos://127.0.0.1:7878",
        "--database",
        "knowledge",
        "--credential-file",
        "client.token",
        "--read-only",
    ]);
    assert!(query.read_only);
    assert_eq!(
        query.remote.expect("remote options exist").server,
        "nostos://127.0.0.1:7878"
    );
    assert_eq!(query.common.database, "knowledge");

    let drop = parse_database(args(&[
        "drop",
        "knowledge",
        "--confirm",
        "knowledge",
        "--server",
        "nostos://127.0.0.1:7878",
    ]))
    .expect("guarded drop parses");
    assert!(matches!(
        drop.command,
        DatabaseCommand::Drop { ref name, ref confirm_name }
            if name == "knowledge" && confirm_name == "knowledge"
    ));
    assert!(
        parse_database(args(&[
            "drop",
            "knowledge",
            "--server",
            "nostos://127.0.0.1:7878",
        ]))
        .is_err()
    );
}

fn query_in_project(values: &[&str], root: &str) -> QueryOptions {
    match parse_query(args(values)).expect("query parses") {
        QueryParse::Arguments(arguments) => {
            finish_query(arguments, Some(root.to_owned())).expect("query completes")
        }
        QueryParse::Help => panic!("unexpected help"),
    }
}

#[test]
fn project_queries_default_to_the_configured_root_database() {
    let options = query_in_project(&["CREATE (n {name: 'NDB only'})", "--project", "proj", "--format", "json"], "root.nostdb");
    assert_eq!(options.common.database, "proj/.nostdb/root.nostdb");
    assert_eq!(options.common.project.as_deref(), Some("proj"));
    assert_eq!(options.common.format, OutputFormat::Json);
    let options = query_in_project(&["RETURN 1", "--project", "proj", "--database", "x.nostdb"], "root.nostdb");
    assert_eq!(options.common.database, "x.nostdb");
    let parsed = parse_query(args(&["RETURN 1"])).expect("parses");
    let QueryParse::Arguments(arguments) = parsed else { panic!("help") };
    let error = finish_query(arguments, None).expect_err("no database");
    assert_eq!((error.code, error.message.as_str()), (EXIT_USAGE, "--database or --project is required"));
}

#[test]
fn the_owner_option_no_longer_exists() {
    let error = parse_query(args(&[
        "CREATE (n {name: 'should-not-exist'})",
        "--database",
        "owner.nostdb",
        "--owner",
        "11111111-1111-1111-1111-111111111111",
    ]))
    .expect_err("unknown option");
    assert_eq!((error.code, error.message.as_str()), (EXIT_USAGE, "unknown option `--owner`"));
}

#[test]
fn query_options_that_exclude_each_other_are_rejected() {
    let error = parse_query(args(&["RETURN 1", "--file", "x"])).expect_err("exclusive");
    assert_eq!(error.message, "QUERY and --file are mutually exclusive");
    let error = parse_query(args(&["RETURN 1", "RETURN 2"])).expect_err("two queries");
    assert_eq!(error.message, "only one inline query is allowed");
    let error = parse_query(args(&["--bogus"])).expect_err("unknown option");
    assert_eq!(error.message, "unknown option `--bogus`");
    assert!(matches!(parse_query(args(&["--help"])), Ok(QueryParse::Help)));
    let error = parse_query(args(&["RETURN 1", "--interactive"])).expect_err("interactive");
    assert_eq!(error.code, EXIT_USAGE);
    let arguments = match parse_query(args(&["RETURN 1", "--credential-file", "t", "-d", "db"])) {
        Ok(QueryParse::Arguments(arguments)) => arguments,
        _ => panic!("parses"),
    };
    let error = finish_query(arguments, None).expect_err("credential without server");
    assert_eq!((error.code, error.message.as_str()), (EXIT_USAGE, "--credential-file requires --server"));
}

#[test]
fn remote_query_rules_are_checked_when_finishing() {
    let parsed = parse_query(args(&["RETURN 1", "--server", "s"])).expect("parses");
    let QueryParse::Arguments(arguments) = parsed else { panic!("help") };
    let error = finish_query(arguments, None).expect_err("no database");
    assert_eq!(error.message, "remote query requires --database NAME");
    let parsed = parse_query(args(&["--credential-file", "c", "-d", "x"])).expect("parses");
    let QueryParse::Arguments(arguments) = parsed else { panic!("help") };
    let error = finish_query(arguments, None).expect_err("credential without server");
    assert_eq!(error.message, "--credential-file requires --server");
    let parsed = parse_query(args(&["--server", "s", "-d", "x", "--project", "p"])).expect("parses");
    let QueryParse::Arguments(arguments) = parsed else { panic!("help") };
    let error = finish_query(arguments, None).expect_err("project");
    assert_eq!(error.message, "remote query cannot use --project; import through the server lifecycle");
}

#[test]
fn commands_with_a_project_open_its_configured_database() {
    let arguments = parse_common(args(&["--project", "P", "--format", "json"]), true).expect("parses");
    let options = finish_common(arguments, Some("root.nostdb".to_owned())).expect("completes");
    assert_eq!(options.database, "P/.nostdb/root.nostdb");
    assert_eq!(options.project.as_deref(), Some("P"));
    assert_eq!(options.format, OutputFormat::Json);
    let arguments = parse_common(args(&["--project", "P/", "-d", "other.nostdb"]), false).expect("parses");
    let options = finish_common(arguments, Some("root.nostdb".to_owned())).expect("completes");
    assert_eq!(options.database, "other.nostdb");
    let error = parse_common(args(&["--format", "json"]), false).expect_err("nothing to open");
    assert_eq!(error.message, "--database or --project is required");
}

#[test]
fn init_reads_its_options() {
    let options = parse_init(args(&["init-dir"]));
    assert_eq!(options.expect_err("positional").message, "unknown option `init-dir`");
    let options = parse_init(args(&["--project", "d", "--database", "module.nostdb", "--allow-nonempty", "--format", "json"]))
        .expect("parses");
    assert_eq!(options.project, "d");
    assert_eq!(options.database.as_deref(), Some("module.nostdb"));
    assert!(options.allow_nonempty);
    assert_eq!(options.format, OutputFormat::Json);
    assert_eq!(parse_init(args(&[])).expect_err("project").message, "--project is required");
}

#[test]
fn option_values_and_formats_are_validated() {
    let error = parse_common(args(&["--database"]), false).expect_err("missing value");
    assert_eq!((error.code, error.message.as_str()), (EXIT_USAGE, "option requires a value"));
    let error = parse_common(args(&["-d", "x", "--format", "xml"]), false).expect_err("format");
    assert_eq!(error.message, "unknown output format `xml`");
    let options = parse_common(args(&["-d", "db", "--format", "csv"]), false).expect("parses");
    assert_eq!(options.database.as_deref(), Some("db"));
    assert_eq!(options.format, OutputFormat::Csv);
    let error = parse_common(args(&["-d", "db"]), true).expect_err("project required");
    assert_eq!(error.message, "--project is required");
    let mut index = 0;
    let arguments = args(&["--file", "f"]);
    assert_eq!(value(&arguments, &mut index).expect("value"), "f");
    assert_eq!(index, 1);
}

#[test]
fn format_project_and_server_commands_parse() {
    let options = parse_format(args(&["--file", "graph.nost", "--nostdb-version", "2", "--check"]))
        .expect("format parses");
    assert_eq!(options.language_version, Some(2));
    assert!(options.check);
    let error = parse_format(args(&["--file", "a", "--nostdb-version", "x"])).expect_err("version");
    assert_eq!(error.message, "--nostdb-version must be an unsigned integer");
    let error = parse_format(args(&["--file", "a", "-p", "p", "--nostdb-version", "1"]))
        .expect_err("exclusive");
    assert_eq!(error.message, "--project and --nostdb-version are mutually exclusive");
    let project = parse_project(args(&["-p", "proj", "--format", "json"])).expect("project");
    assert_eq!(project.project, "proj");
    assert_eq!(project.format, OutputFormat::Json);
    let server = parse_server(args(&["ping", "--server", "nostdb://h:1"])).expect("ping");
    assert_eq!(server.server, "nostdb://h:1");
    let error = parse_server(args(&["pong"])).expect_err("not ping");
    assert_eq!(error.message, "server command must be `nostdb server ping`");
}

#[test]
fn database_operations_check_their_operands_and_options() {
    let error = parse_database(args(&["rename", "a", "--server", "s"])).expect_err("operands");
    assert_eq!(error.message, "database rename expects 2 name argument(s)");
    let error = parse_database(args(&["list", "--output", "o", "--server", "s"])).expect_err("output");
    assert_eq!(error.message, "--output is valid only for snapshot or export-logical");
    let error = parse_database(args(&["list"])).expect_err("server");
    assert_eq!(error.message, "--server is required");
    let error = parse_database(args(&["explode", "--server", "s"])).expect_err("operation");
    assert_eq!(error.message, "unknown database operation `explode`");
    let snapshot = parse_database(args(&["snapshot", "db", "--output", "out", "--server", "s"]))
        .expect("snapshot");
    assert!(matches!(
        snapshot.command,
        DatabaseCommand::Snapshot { ref name, ref output } if name == "db" && output == "out"
    ));
    for refused in [
        &[][..],
        &["list", "a", "--server", "s"][..],
        &["drop", "a", "--server", "s"][..],
        &["restore", "a", "--server", "s"][..],
        &["create", "a", "--file", "f", "--server", "s"][..],
        &["inspect", "a", "--confirm", "a", "--server", "s"][..],
        &["create", "a", "--bogus", "x", "--server", "s"][..],
    ] {
        assert_eq!(parse_database(args(refused)).expect_err("refused").code, EXIT_USAGE);
    }
    let list = parse_database(args(&["list", "--server", "s"])).expect("list");
    assert!(matches!(list.command, DatabaseCommand::List));
}

#[test]
fn the_command_line_selects_help_version_or_a_command() {
    assert!(matches!(invocation(args(&[])), Ok(Invocation::Help)));
    assert!(matches!(invocation(args(&["-V"])), Ok(Invocation::Version)));
    let error = invocation(args(&["--version", "x"])).expect_err("extra");
    assert_eq!(error.message, "--version does not accept arguments");
    match invocation(args(&["stats", "-d", "db"])).expect("runs") {
        Invocation::Run(command, rest) => {
            assert_eq!(command, Command::Stats);
            assert_eq!(rest, args(&["-d", "db"]));
        }
        _ => panic!("expected a command"),
    }
    match invocation(args(&["sync", "--help"])).expect("help") {
        Invocation::CommandHelp(text) => assert_eq!(
            text,
            "Usage: nostdb sync --project PATH [--database PATH] [--format table|json|jsonl|csv]"
        ),
        _ => panic!("expected command help"),
    }
    let error = invocation(args(&["bogus"])).expect_err("unknown");
    assert!(error.message.starts_with("unknown command `bogus`\n\nNostDB command-line client"));
}

#[test]
fn every_command_has_usage_text() {
    for command in [
        "init", "update", "query", "server", "database", "sync", "format", "check", "doctor", "inspect", "stats",
        "schema", "unresolved", "imports", "warnings",
    ] {
        let text = command_help(command).expect("help");
        assert!(text.starts_with(&format!("Usage: nostdb {command}")), "{command}");
    }
    assert_eq!(
        command_help("stats").expect("help"),
        "Usage: nostdb stats --database PATH|--project PATH [--format table|json|jsonl|csv]"
    );
    assert!(command_help("nope").is_err());
    assert!(command_help("init").expect("init help").contains("--allow-nonempty"));
    assert!(command_help("update").expect("update help").starts_with("Usage: nostdb update"));
    for command in [
        "init", "update", "query", "database", "sync", "check", "doctor", "inspect", "stats", "schema",
        "unresolved", "imports", "warnings",
    ] {
        assert!(command_help(command).expect("help").contains("table|json|jsonl|csv"), "{command}");
    }
    assert_eq!(
        command_help("format").expect("format help"),
        "Usage: nostdb format --file PATH [--project PATH | --nostdb-version VERSION] [--check]"
    );
}
