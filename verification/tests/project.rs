use nostos_cli::diagnostics::{
    compile_error_message, diagnostic_rows, format_project_diagnostics,
    sync_failure, CompileFailure, Diagnostic, SyncFailure,
};
use nostos_cli::doctor::{
    configured_database, current_modules, doctor_row, doctor_status, doctor_verdict,
    SyncManifest, SyncStatus,
};
use nostos_cli::error::EXIT_USAGE;
use nostos_cli::settings::{
    init_guard, init_root, init_row, is_broad_root, settings_from_json, settings_text,
    update_plan, update_rows, InitFacts, Link, ProjectSettings,
};
use nostos_cli::wire::{JsonNumber, JsonValue};
use nostos_cli::error::{EXIT_DATABASE, EXIT_PROJECT};
use nostos_cli::source_format::{diagnostics_config, format_check, format_failure, language_version};
use nostos_cli::tables::{
    check_outcome, hex16, inspect_row, ndb_only_sync_row, schema_rows, stats_row, unresolved_rows, Counts,
    DatabaseInfo, SchemaInfo, SchemaProperty, UnresolvedInfo,
};
use nostos_cli::value::QueryValue;

fn diagnostic(module: Option<&str>, range: Option<(u64, u64)>) -> Diagnostic {
    Diagnostic {
        module: module.map(str::to_owned),
        range,
        code: "NOSTOS-L004".to_owned(),
        severity: "error".to_owned(),
        message: "closing delimiter".to_owned(),
    }
}

fn text(value: &str) -> QueryValue {
    QueryValue::String(value.to_owned())
}

#[test]
fn diagnostics_name_file_range_code_severity_and_message() {
    let diagnostics = vec![diagnostic(Some("main.nostos"), Some((3, 9))), diagnostic(None, None)];
    assert_eq!(
        format_project_diagnostics(&diagnostics, None),
        "main.nostos:bytes 3..9: NOSTOS-L004 error: closing delimiter\n<project>:bytes -: NOSTOS-L004 error: closing delimiter"
    );
    assert_eq!(
        format_project_diagnostics(&diagnostics[..1].iter().map(|d| diagnostic(d.module.as_deref(), d.range)).collect(), Some("x.nostos")),
        "x.nostos:bytes 3..9: NOSTOS-L004 error: closing delimiter"
    );
    let rows = diagnostic_rows(diagnostics);
    assert_eq!(rows[0], vec![text("main.nostos"), text("3..9"), text("NOSTOS-L004"), text("error"), text("closing delimiter")]);
    assert_eq!(rows[1][1], text("-"));
}

#[test]
fn failure_messages_count_error_diagnostics() {
    let failure = CompileFailure::Diagnostics(vec![diagnostic(Some("m"), Some((0, 1)))]);
    assert_eq!(
        compile_error_message(&failure),
        "project compilation failed with 1 error diagnostic(s):\nm:bytes 0..1: NOSTOS-L004 error: closing delimiter"
    );
    let error = sync_failure(&SyncFailure::Other("locked".to_owned()));
    assert_eq!((error.code, error.message.as_str()), (EXIT_PROJECT, "locked"));
}

#[test]
fn schemas_give_one_row_per_property() {
    let rows = schema_rows(vec![
        SchemaInfo {
            identity: "Person".to_owned(),
            state: "active".to_owned(),
            properties: vec![
                SchemaProperty { name: "name".to_owned(), property_type: "String".to_owned() },
                SchemaProperty { name: "age".to_owned(), property_type: "Integer".to_owned() },
            ],
            constraints: 2,
        },
        SchemaInfo { identity: "Empty".to_owned(), state: "s".to_owned(), properties: vec![], constraints: 0 },
    ]);
    assert_eq!(rows.len(), 3);
    assert_eq!(rows[1], vec![text("Person"), text("active"), text("age"), text("Integer"), QueryValue::Integer(2)]);
    assert_eq!(rows[2], vec![text("Empty"), text("s"), QueryValue::Null, QueryValue::Null, QueryValue::Integer(0)]);
}

#[test]
fn unresolved_identifiers_must_fit_the_integer_range() {
    let info = |id| UnresolvedInfo {
        kind: "edge".to_owned(),
        internal_id: id,
        identity: "x".to_owned(),
        state: "pending".to_owned(),
    };
    let rows = unresolved_rows(vec![info(Some(5)), info(None)]).expect("rows");
    assert_eq!(rows[0][1], QueryValue::Integer(5));
    assert_eq!(rows[1][1], QueryValue::Null);
    let error = unresolved_rows(vec![info(None), info(Some(u64::MAX))]).expect_err("too large");
    assert_eq!(error.message, "internal Node ID exceeds the query Integer range");
}

#[test]
fn database_tables_show_counts_and_checksums() {
    assert_eq!(hex16(0xab), "00000000000000ab");
    let row = inspect_row(&DatabaseInfo {
        ndb_format_version: 1,
        schema_revision: 2,
        generation: u64::MAX,
        logical_checksum: u64::MAX,
        source_managed: true,
    });
    assert_eq!(row[2], QueryValue::Integer(-1));
    assert_eq!(row[3], text("ffffffffffffffff"));
    let row = stats_row(&Counts { schemas: 1, nodes: 2, edges: 3, adjacency: 4, properties: 5 });
    assert_eq!(row[4], QueryValue::Integer(5));
    assert_eq!(check_outcome(true, 0).expect("valid"), vec![QueryValue::Boolean(true), QueryValue::Integer(0)]);
    let error = check_outcome(false, 2).expect_err("invalid");
    assert_eq!((error.code, error.message.as_str()), (EXIT_DATABASE, "integrity check found 2 problem(s)"));
}

#[test]
fn doctor_compares_the_manifest_with_the_sources() {
    let hashes = vec![("b.nostos".to_owned(), vec![2u8]), ("a.nostos".to_owned(), vec![1u8])];
    let mapping = vec![("a.nostos".to_owned(), "m1".to_owned()), ("b.nostos".to_owned(), "m2".to_owned())];
    let current = current_modules(&hashes, &mapping).expect("mapped");
    assert_eq!(current, vec![("m2".to_owned(), vec![2u8]), ("m1".to_owned(), vec![1u8])]);
    let error = current_modules(&hashes, &mapping[..1].to_vec()).expect_err("unmapped");
    assert_eq!(error.message, "compiled module b.nostos has no Stable Module ID mapping");
    let sorted = vec![("m1".to_owned(), vec![1u8]), ("m2".to_owned(), vec![2u8])];
    let manifest = SyncManifest { semantic_hash: vec![9], modules: sorted.clone() };
    assert_eq!(doctor_status(&Some(manifest), &vec![9], &sorted), SyncStatus::Synchronized);
    let manifest = SyncManifest { semantic_hash: vec![9], modules: sorted.clone() };
    assert_eq!(doctor_status(&Some(manifest), &vec![8], &sorted), SyncStatus::SourceDrift);
    assert_eq!(doctor_status(&None, &vec![9], &sorted), SyncStatus::NotSourceManaged);
    assert_eq!(doctor_row(SyncStatus::SourceDrift, 1)[3], text("source_drift"));
    assert!(doctor_verdict(SyncStatus::Synchronized).is_ok());
    assert_eq!(doctor_verdict(SyncStatus::SourceDrift).expect_err("drift").code, EXIT_PROJECT);
    assert_eq!(doctor_verdict(SyncStatus::NotSourceManaged).expect_err("unmanaged").code, EXIT_DATABASE);
    let drift = doctor_verdict(SyncStatus::SourceDrift).expect_err("drift");
    assert!(drift.message.contains("run `nostdb sync`"));
}

#[test]
fn ndb_only_projects_are_healthy() {
    let row = doctor_row(SyncStatus::NdbOnly, 0);
    assert_eq!(row[2], QueryValue::Boolean(true));
    assert_eq!(row[3], text("ndb_only"));
    assert!(doctor_verdict(SyncStatus::NdbOnly).is_ok());
    assert_eq!(ndb_only_sync_row(), vec![text("ndb_only"), QueryValue::Integer(0), QueryValue::Integer(0)]);
}

#[test]
fn doctor_examines_only_the_configured_database() {
    assert!(configured_database("p", "p/.nostdb/root.nostdb", "root.nostdb").is_ok());
    let error = configured_database("p", "other.nostdb", "root.nostdb").expect_err("mismatch");
    assert_eq!(error.code, EXIT_PROJECT);
    assert_eq!(
        error.message,
        "database other.nostdb does not match .nostdb/settings.json (configured: p/.nostdb/root.nostdb)"
    );
}

fn string(value: &str) -> JsonValue {
    JsonValue::String(value.to_owned())
}

fn integer(value: i64) -> JsonValue {
    JsonValue::Number(JsonNumber { integer: Some(value), float: None, text: value.to_string() })
}

fn object(members: Vec<(&str, JsonValue)>) -> JsonValue {
    JsonValue::Object(members.into_iter().map(|(k, v)| (k.to_owned(), v)).collect())
}

fn settings_json(version: i64, links: JsonValue, source: Option<JsonValue>) -> JsonValue {
    let mut members = vec![
        ("version", integer(version)),
        ("database", object(vec![("root", string("root.nostdb")), ("links", links)])),
    ];
    if let Some(source) = source {
        members.push(("source", source));
    }
    object(members)
}

#[test]
fn settings_name_the_root_links_and_source() {
    let link = object(vec![("project", string("module-a")), ("root", string("module.nostdb"))]);
    let json = settings_json(
        1,
        JsonValue::Array(vec![link]),
        Some(object(vec![("version", integer(2)), ("enabled", JsonValue::Bool(true))])),
    );
    let settings = settings_from_json(&json).expect("valid settings");
    assert_eq!(settings.root, "root.nostdb");
    assert_eq!(settings.links.len(), 1);
    assert_eq!((settings.links[0].project.as_str(), settings.links[0].root.as_str()), ("module-a", "module.nostdb"));
    assert!(settings.source_enabled);
    assert_eq!(settings.source_version, 2);
    let plain = settings_from_json(&settings_json(1, JsonValue::Array(vec![]), None)).expect("no source");
    assert!(!plain.source_enabled);
    assert_eq!(plain.source_version, 1);
    let error = settings_from_json(&settings_json(2, JsonValue::Array(vec![]), None)).expect_err("version");
    assert_eq!((error.code, error.message.as_str()), (EXIT_PROJECT, "invalid .nostdb/settings.json: version must be 1"));
    let error = settings_from_json(&settings_json(1, string("x"), None)).expect_err("links");
    assert_eq!(error.message, "invalid .nostdb/settings.json: database.links must be an array of {project, root} objects");
    let error = settings_from_json(&settings_json(
        1,
        JsonValue::Array(vec![]),
        Some(object(vec![("enabled", string("yes"))])),
    ))
    .expect_err("enabled");
    assert_eq!(error.message, "invalid .nostdb/settings.json: source.enabled must be a boolean");
}

#[test]
fn init_writes_ndb_only_settings() {
    let text = String::from_utf8(settings_text("root.nostdb")).expect("UTF-8");
    assert_eq!(
        text,
        "{\n  \"version\": 1,\n  \"database\": {\n    \"root\": \"root.nostdb\",\n    \"links\": []\n  },\n  \"source\": {\n    \"version\": 1,\n    \"enabled\": false\n  }\n}\n"
    );
    assert_eq!(
        init_row("d", "root.nostdb"),
        vec![text_of("d/.nostdb/settings.json"), text_of("d/.nostdb/root.nostdb"), QueryValue::Integer(1), QueryValue::Boolean(false)]
    );
    assert_eq!(init_root(None).expect("default"), "root.nostdb");
    assert_eq!(init_root(Some("module.nostdb".to_owned())).expect("named"), "module.nostdb");
    let error = init_root(Some("a/b.nostdb".to_owned())).expect_err("path");
    assert_eq!((error.code, error.message.as_str()), (EXIT_USAGE, "init --database expects a file name inside .nostdb"));
}

fn text_of(value: &str) -> QueryValue {
    text(value)
}

fn facts() -> InitFacts {
    InitFacts {
        is_symlink: false,
        is_broad: false,
        exists: true,
        is_directory: true,
        has_entries: false,
        initialized: false,
    }
}

#[test]
fn init_guards_the_project_root() {
    assert!(init_guard(&facts(), false).is_ok());
    let message = |f: InitFacts, allow: bool| init_guard(&f, allow).expect_err("refused").message;
    assert!(message(InitFacts { is_symlink: true, ..facts() }, false).contains("must not be a symlink"));
    assert!(message(InitFacts { is_broad: true, ..facts() }, false).contains("broad project root"));
    assert!(message(InitFacts { is_directory: false, ..facts() }, false).contains("not a directory"));
    assert!(message(InitFacts { initialized: true, ..facts() }, true).contains("nonempty directory"));
    assert!(message(InitFacts { has_entries: true, ..facts() }, false).contains("nonempty directory"));
    assert!(init_guard(&InitFacts { has_entries: true, ..facts() }, true).is_ok());
    assert!(init_guard(&InitFacts { exists: false, is_directory: false, ..facts() }, false).is_ok());
    assert_eq!(init_guard(&InitFacts { is_broad: true, ..facts() }, false).expect_err("broad").code, EXIT_PROJECT);
    assert!(is_broad_root("/", None));
    assert!(is_broad_root("/home/u/", Some("/home/u")));
    assert!(!is_broad_root("/home/u/p", Some("/home/u")));
    assert!(!is_broad_root("p", None));
}

#[test]
fn update_orders_linked_children_first() {
    let settings = ProjectSettings {
        root: "root.nostdb".to_owned(),
        links: vec![Link { project: "module-a".to_owned(), root: "module.nostdb".to_owned() }],
        source_enabled: false,
        source_version: 1,
    };
    let plan = update_plan("p", &settings);
    assert_eq!(
        plan,
        vec![
            ("p/module-a".to_owned(), "p/module-a/.nostdb/module.nostdb".to_owned()),
            ("p".to_owned(), "p/.nostdb/root.nostdb".to_owned()),
        ]
    );
    let rows = update_rows(&plan);
    assert_eq!(rows.len(), 2);
    assert_eq!(rows[0], vec![text("p/module-a"), text("p/module-a/.nostdb/module.nostdb"), text("updated")]);
    assert_eq!(rows[1][0], text("p"));
}

#[test]
fn formatting_reports_version_failures_and_checks() {
    assert_eq!(language_version(Some(3), Some(2)), 3);
    assert_eq!(language_version(None, Some(2)), 2);
    assert_eq!(language_version(None, None), 1);
    assert_eq!(
        diagnostics_config(7),
        "{\"version\":1,\"database\":{\"root\":\"root.nostdb\",\"links\":[]},\"source\":{\"version\":7,\"enabled\":true,\"modules\":{\"main.nost\":\"00000000-0000-0000-0000-000000000001\"}}}\n"
    );
    let error = format_failure("parse failed", &Some(vec![diagnostic(None, Some((1, 2)))]), "f.nostos");
    assert_eq!(
        error.message,
        "parse failed\nf.nostos:bytes 1..2: NOSTOS-L004 error: closing delimiter"
    );
    assert_eq!(format_failure("parse failed", &Some(vec![]), "f").message, "parse failed");
    assert!(format_check(&b"node a {}\n".to_vec(), "node a {}\n", "f").is_ok());
    let error = format_check(&b"node a{}".to_vec(), "node a {}\n", "f.nostos").expect_err("differs");
    assert_eq!((error.code, error.message.as_str()), (EXIT_PROJECT, "f.nostos is not canonically formatted"));
}
