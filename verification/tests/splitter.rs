use nostos_cli::error::EXIT_USAGE;
use nostos_cli::query::prepare_input;
use nostos_cli::split::{split_complete, split_with_remainder};

#[test]
fn statement_splitter_ignores_semicolons_in_literals_and_comments() {
    let source = "RETURN 'a;b'; // ;\nRETURN `x;y`; /* ; */ RETURN 3";
    assert_eq!(
        split_complete(source, true).expect("splits"),
        ["RETURN 'a;b'", "// ;\nRETURN `x;y`", "/* ; */ RETURN 3"]
    );
}

#[test]
fn splitter_keeps_the_unterminated_remainder() {
    let (statements, remainder) = split_with_remainder("RETURN 1;  RETURN 2").expect("splits");
    assert_eq!(statements, ["RETURN 1"]);
    assert_eq!(remainder, "  RETURN 2");
}

#[test]
fn splitter_rejects_an_unterminated_statement_when_asked() {
    let error = split_complete("RETURN 1; RETURN 2", false).expect_err("unterminated");
    assert_eq!(error.code, EXIT_USAGE);
    assert_eq!(error.message, "unterminated query");
    assert_eq!(split_complete("RETURN 1;  \n", false).expect("blank rest"), ["RETURN 1"]);
}

#[test]
fn splitter_tracks_nested_comments_escapes_and_doubled_backticks() {
    let source = "/* a /* b; */ c; */ RETURN 1; RETURN 'it\\'s;'; RETURN `a``;b`; ";
    let (statements, remainder) = split_with_remainder(source).expect("splits");
    assert_eq!(
        statements,
        ["/* a /* b; */ c; */ RETURN 1", "RETURN 'it\\'s;'", "RETURN `a``;b`"]
    );
    assert_eq!(remainder, " ");
}

#[test]
fn splitter_drops_empty_statements() {
    let (statements, remainder) = split_with_remainder(";;  ; RETURN 1;;").expect("splits");
    assert_eq!(statements, ["RETURN 1"]);
    assert_eq!(remainder, "");
}

#[test]
fn splitting_in_two_parts_gives_the_same_statements() {
    let whole = "RETURN 'x;y'; RETURN 2; RETURN 3";
    let (all, rest) = split_with_remainder(whole).expect("splits");
    let (first, first_rest) = split_with_remainder("RETURN 'x;").expect("splits");
    let joined = format!("{first_rest}y'; RETURN 2; RETURN 3");
    let (second, second_rest) = split_with_remainder(&joined).expect("splits");
    let mut combined = first.clone();
    combined.extend(second);
    assert_eq!(combined, all);
    assert_eq!(second_rest, rest);
}

#[test]
fn query_input_without_statements_is_a_usage_error() {
    let error = prepare_input("  ;  ; ").expect_err("empty input");
    assert_eq!(error.code, EXIT_USAGE);
    assert_eq!(error.message, "query input is empty");
    assert_eq!(prepare_input("RETURN 1; RETURN 2").expect("input"), ["RETURN 1", "RETURN 2"]);
}

#[test]
fn trimming_twice_changes_nothing() {
    let once = nostos_cli::text::trimmed("\u{a0} a b \t\n");
    assert_eq!(once, "a b");
    assert_eq!(nostos_cli::text::trimmed(&once), once);
}

#[test]
fn the_remainder_is_the_unterminated_end_of_the_text() {
    let source = "RETURN 1;  RETURN 2 ;\n MATCH (n) // ;";
    let (statements, remainder) = split_with_remainder(source).expect("never fails");
    assert_eq!(statements, ["RETURN 1", "RETURN 2"]);
    assert_eq!(remainder, "\n MATCH (n) // ;");
    assert!(source.ends_with(remainder.as_str()));
    let (again, rest) = split_with_remainder(&remainder).expect("never fails");
    assert!(again.is_empty());
    assert_eq!(rest, remainder);
    let (none, whole) = split_with_remainder("MATCH (n) RETURN n").expect("never fails");
    assert!(none.is_empty());
    assert_eq!(whole, "MATCH (n) RETURN n");
}
