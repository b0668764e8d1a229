use nostos_cli::admin::{
    chunk_accepted, database_outcome, details_row, imported_row, integer, next_restore_chunk,
    restore_committed, restore_ready, summary_rows, DatabaseDetails, DatabaseReply,
    DatabaseSummary,
};
use nostos_cli::args::DatabaseCommand;
use nostos_cli::error::{EXIT_DATABASE, EXIT_IO, EXIT_QUERY, EXIT_USAGE};
use nostos_cli::remote::{
    check_credential, expect_selected, frame_response, map_remote_error, output_error,
    snapshot_start, snapshot_step, ExportAction, Frame, RemoteCode, RemoteFailure,
    RemoteFailureKind, StreamReply,
};
use nostos_cli::value::QueryValue;

fn frame(request_id: u64, reply: StreamReply) -> Frame {
    Frame { request_id, reply }
}

#[test]
fn credentials_are_one_long_token() {
    let token = "a".repeat(32);
    assert_eq!(check_credential(&format!("{token}\r\n")).expect("valid"), token);
    let short = check_credential("abc\n").expect_err("short");
    assert_eq!(short.code, EXIT_USAGE);
    assert_eq!(
        short.message,
        "credential must be one non-whitespace token of at least 32 characters"
    );
    assert!(check_credential(&format!("{token} x")).is_err());
}

#[test]
fn remote_failures_map_to_exit_codes() {
    let failure = |kind| RemoteFailure { kind, text: "boom".to_owned() };
    let error = map_remote_error(failure(RemoteFailureKind::Server(RemoteCode::Cancelled)));
    assert_eq!((error.code, error.message.as_str()), (EXIT_QUERY, "boom"));
    assert_eq!(map_remote_error(failure(RemoteFailureKind::Protocol)).code, EXIT_USAGE);
    assert_eq!(map_remote_error(failure(RemoteFailureKind::Io)).code, EXIT_DATABASE);
    assert_eq!(
        map_remote_error(failure(RemoteFailureKind::Server(RemoteCode::Other))).code,
        EXIT_DATABASE
    );
    assert!(expect_selected(Ok(true)).is_ok());
    assert_eq!(
        expect_selected(Ok(false)).expect_err("unexpected").message,
        "server returned an unexpected Database-selection response"
    );
    let error = output_error("broken pipe");
    assert_eq!((error.code, error.message.as_str()), (EXIT_IO, "cannot write output: broken pipe"));
}

#[test]
fn frames_must_answer_the_request() {
    let error = frame_response(frame(4, StreamReply::Other), 3).expect_err("mismatch");
    assert_eq!(error.message, "database protocol returned response 4 while waiting for 3");
    let error = frame_response(
        frame(3, StreamReply::Error(RemoteCode::QueryError, "bad".to_owned())),
        3,
    )
    .expect_err("server error");
    assert_eq!((error.code, error.message.as_str()), (EXIT_QUERY, "bad"));
}

#[test]
fn a_snapshot_stream_writes_its_decoded_chunks() {
    let mut state = snapshot_start(frame(9, StreamReply::SnapshotStart { total_bytes: 8 }), 9)
        .expect("starts");
    let mut written = Vec::new();
    for (sequence, data) in [(0, "aGVsbG8="), (1, "IHlv")] {
        let chunk = StreamReply::SnapshotChunk { sequence, data: data.to_owned() };
        match snapshot_step(&mut state, frame(9, chunk)).expect("chunk") {
            ExportAction::Write(bytes) => written.extend(bytes),
            ExportAction::Finish => panic!("finished early"),
        }
    }
    assert!(matches!(
        snapshot_step(&mut state, frame(9, StreamReply::SnapshotEnd { chunks: 2 })),
        Ok(ExportAction::Finish)
    ));
    assert_eq!(written, b"hello yo");
}

#[test]
fn a_broken_snapshot_stream_is_rejected() {
    let start = || snapshot_start(frame(1, StreamReply::SnapshotStart { total_bytes: 3 }), 1).expect("starts");
    let error = snapshot_start(frame(1, StreamReply::Other), 1).expect_err("no start");
    assert_eq!(error.message, "snapshot stream did not start correctly");
    let mut state = start();
    let gap = StreamReply::SnapshotChunk { sequence: 1, data: "YWJj".to_owned() };
    let error = snapshot_step(&mut state, frame(1, gap)).expect_err("gap");
    assert_eq!(error.message, "snapshot chunk sequence is not contiguous");
    let mut state = start();
    let bad = StreamReply::SnapshotChunk { sequence: 0, data: "!!".to_owned() };
    let error = snapshot_step(&mut state, frame(1, bad)).expect_err("bad base64");
    assert!(error.message.starts_with("invalid snapshot chunk: "));
    let mut state = start();
    let error = snapshot_step(&mut state, frame(1, StreamReply::SnapshotEnd { chunks: 0 }))
        .expect_err("short");
    assert_eq!(error.message, "snapshot byte or chunk count does not match its declaration");
}

#[test]
fn restore_chunks_are_numbered_and_encoded() {
    let mut sequence = 0;
    let first = next_restore_chunk(&mut sequence, b"hello");
    let second = next_restore_chunk(&mut sequence, b"");
    assert_eq!((first.sequence, first.data.as_str()), (0, "aGVsbG8="));
    assert_eq!((second.sequence, second.data.as_str()), (1, ""));
    assert_eq!(sequence, 2);
    assert!(restore_ready(&Some(("ready".to_owned(), 0))).is_ok());
    assert!(restore_ready(&Some(("ready".to_owned(), 1))).is_err());
    assert!(chunk_accepted(&Some(("chunk_accepted".to_owned(), 9))).is_ok());
    assert!(chunk_accepted(&None).is_err());
    assert!(restore_committed(&Some(("restored".to_owned(), 5)), 5).is_ok());
    let error = restore_committed(&Some(("restored".to_owned(), 4)), 5).expect_err("size");
    assert_eq!(error.message, "server returned an unexpected Database administration response");
}

#[test]
fn administration_rows_report_server_values() {
    assert_eq!(integer(7).expect("fits"), QueryValue::Integer(7));
    let error = integer(u64::MAX).expect_err("too large");
    assert_eq!((error.code, error.message.as_str()), (EXIT_DATABASE, "server integer exceeds CLI range"));
    let rows = summary_rows(&vec![DatabaseSummary {
        id: "1".to_owned(),
        name: "n".to_owned(),
        state: "online".to_owned(),
    }]);
    assert_eq!(
        rows,
        vec![vec![
            QueryValue::String("1".to_owned()),
            QueryValue::String("n".to_owned()),
            QueryValue::String("online".to_owned()),
        ]]
    );
    let details = DatabaseDetails {
        summary: DatabaseSummary { id: "1".to_owned(), name: "n".to_owned(), state: "s".to_owned() },
        ndb_format_version: 3,
        generation: 4,
        logical_checksum: "c".to_owned(),
        healthy: true,
        schemas: 1,
        nodes: 2,
        edges: u64::MAX,
    };
    assert!(details_row(&details).is_err());
    assert_eq!(
        imported_row("db", 3).expect("row")[1],
        QueryValue::Integer(3)
    );
}

fn summary(name: &str) -> DatabaseSummary {
    DatabaseSummary { id: format!("id-{name}"), name: name.to_owned(), state: "online".to_owned() }
}

fn text(value: &str) -> QueryValue {
    QueryValue::String(value.to_owned())
}

#[test]
fn database_replies_are_checked_and_reported() {
    let (columns, rows) =
        database_outcome(&DatabaseCommand::List, DatabaseReply::Listed(vec![summary("a"), summary("b")]))
            .expect("listed");
    assert_eq!(columns, ["id", "name", "state"]);
    assert_eq!(rows, vec![vec![text("id-a"), text("a"), text("online")], vec![text("id-b"), text("b"), text("online")]]);
    let drop = DatabaseCommand::Drop { name: "a".to_owned(), confirm_name: "a".to_owned() };
    let (_, rows) = database_outcome(&drop, DatabaseReply::Dropped { id: "i".to_owned(), name: "a".to_owned() })
        .expect("dropped");
    assert_eq!(rows, vec![vec![text("i"), text("a"), text("dropped")]]);
    let error = database_outcome(&drop, DatabaseReply::Renamed(summary("a"))).expect_err("mismatch");
    assert_eq!(
        (error.code, error.message.as_str()),
        (EXIT_DATABASE, "server returned an unexpected Database administration response")
    );
    let snapshot = DatabaseCommand::Snapshot { name: "a".to_owned(), output: "a.snap".to_owned() };
    let (columns, rows) = database_outcome(&snapshot, DatabaseReply::Completed).expect("written");
    assert_eq!(columns, ["database", "output", "state"]);
    assert_eq!(rows, vec![vec![text("a"), text("a.snap"), text("snapshot_written")]]);
    let import = DatabaseCommand::ImportLogical { name: "a".to_owned(), file: "p.json".to_owned() };
    let (columns, rows) = database_outcome(&import, DatabaseReply::LogicalImported(3)).expect("imported");
    assert_eq!(columns, ["database", "modules", "state"]);
    assert_eq!(rows, vec![vec![text("a"), QueryValue::Integer(3), text("imported")]]);
    let error = database_outcome(&import, DatabaseReply::LogicalImported(u64::MAX)).expect_err("range");
    assert_eq!(error.message, "server integer exceeds CLI range");
    let inspect = DatabaseCommand::Inspect("a".to_owned());
    let details = DatabaseDetails {
        summary: summary("a"),
        ndb_format_version: 1,
        generation: 2,
        logical_checksum: "c".to_owned(),
        healthy: true,
        schemas: 3,
        nodes: 4,
        edges: 5,
    };
    let (columns, rows) = database_outcome(&inspect, DatabaseReply::Inspected(details)).expect("inspected");
    assert_eq!(columns.len(), 10);
    assert_eq!(columns[3], "ndb_format");
    assert_eq!(rows[0][9], QueryValue::Integer(5));
    assert!(database_outcome(&inspect, DatabaseReply::Other).is_err());
}
