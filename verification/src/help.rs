//! Usage texts.
use vstd::prelude::*;

use crate::args::{fails_with, usage, ErrorView};
use crate::error::{CliError, EXIT_USAGE};
use crate::text::{append, join3, owned, text_eq};

verus! {

/// The general usage text.
pub const HELP: &'static str = "NostDB command-line client

Usage:
    nostdb init --project PATH [--database NAME] [--allow-nonempty]
                [--format table|json|jsonl|csv]
    nostdb update --project PATH [--format table|json|jsonl|csv]
    nostdb query [QUERY] [--file PATH] [--database PATH|NAME] [--project PATH]
                 [--server nostdb://HOST:PORT] [--credential-file PATH]
                 [--format table|json|jsonl|csv] [--read-only] [--interactive]
    nostdb server ping --server nostdb://HOST:PORT [--credential-file PATH]
    nostdb database create NAME|list|inspect NAME|rename NAME NEW_NAME
                    |drop NAME --confirm NAME|snapshot NAME --output PATH
                    |restore NAME --file PATH|export-logical NAME --output PATH
                    |import-logical NAME --file PATH
                    --server nostdb://HOST:PORT [--credential-file PATH]
                    [--format table|json|jsonl|csv]
    nostdb sync --project PATH [--database PATH] [--format table|json|jsonl|csv]
    nostdb format --file PATH [--project PATH | --nostdb-version VERSION] [--check]
    nostdb check|inspect|stats|schema|unresolved --database PATH|--project PATH
                 [--format table|json|jsonl|csv]
    nostdb imports|warnings --project PATH [--format table|json|jsonl|csv]
    nostdb doctor --project PATH [--database PATH] [--format table|json|jsonl|csv]
    nostdb --help
    nostdb --version

Exit codes: 0 success, 2 usage, 3 project/configuration, 4 query,
            5 database/integrity, 6 source conflict, 7 I/O.";

/// The output formats, as usage texts name them.
pub const FORMATS: &'static str = "table|json|jsonl|csv";

/// What each usage text says after `Usage: nostdb COMMAND`; the texts of
/// commands with a `--format` option are split around the list of formats.
pub const INIT_OPTIONS: &'static str = " --project PATH [--database NAME] [--allow-nonempty] [--format ";

pub const INIT_NOTES: &'static str = "]

Creates PATH/.nostdb with settings.json and an empty root database (root.nostdb unless --database names it). A nonempty directory is refused unless --allow-nonempty is given; existing files are kept.";

pub const UPDATE_OPTIONS: &'static str = " --project PATH [--format ";

pub const UPDATE_NOTES: &'static str = "]

Updates the projects linked from PATH/.nostdb/settings.json, then PATH itself.";

pub const QUERY_OPTIONS: &'static str = " [QUERY] [--file PATH] [--database PATH|NAME] [--project PATH]
       [--server nostdb://HOST:PORT] [--credential-file PATH]
       [--format ";

pub const QUERY_NOTES: &'static str = "] [--read-only] [--interactive]

--project queries the project's configured .nostdb root database. --read-only rejects every mutating statement before execution. Use jsonl for streaming output; multi-statement json is one array and multi-statement csv is rejected.";

pub const SERVER_OPTIONS: &'static str = " ping --server nostdb://HOST:PORT [--credential-file PATH]";

pub const DATABASE_OPTIONS: &'static str = " create NAME|list|inspect NAME|rename NAME NEW_NAME
       |drop NAME --confirm NAME|snapshot NAME --output PATH
       |restore NAME --file PATH|export-logical NAME --output PATH
       |import-logical NAME --file PATH
       --server nostdb://HOST:PORT [--credential-file PATH] [--format ";

pub const SYNC_OPTIONS: &'static str = " --project PATH [--database PATH] [--format ";

pub const FORMAT_OPTIONS: &'static str = " --file PATH [--project PATH | --nostdb-version VERSION] [--check]";

pub const READER_OPTIONS: &'static str = " --database PATH|--project PATH [--format ";

pub const PROJECT_READER_OPTIONS: &'static str = " --project PATH [--format ";

pub const DOCTOR_OPTIONS: &'static str = " --project PATH [--database PATH] [--format ";

/// The end of a usage text that closes the `--format` option.
pub const CLOSE: &'static str = "]";

/// The commands that read a database.
pub open spec fn is_database_reader(command: Seq<char>) -> bool {
    command == "check"@ || command == "inspect"@ || command == "stats"@ || command == "schema"@
        || command == "unresolved"@
}

/// The commands that read a project.
pub open spec fn is_project_reader(command: Seq<char>) -> bool {
    command == "imports"@ || command == "warnings"@
}

/// Whether a command has a `--format` option.
pub open spec fn takes_format(command: Seq<char>) -> bool {
    command == "init"@ || command == "update"@ || command == "query"@ || command == "database"@
        || command == "sync"@ || is_database_reader(command) || is_project_reader(command)
        || command == "doctor"@
}

/// The options of a command with a `--format` option: what precedes the
/// list of formats, and what follows it.
pub open spec fn format_options(command: Seq<char>) -> (Seq<char>, Seq<char>) {
    if command == "init"@ {
        (INIT_OPTIONS@, INIT_NOTES@)
    } else if command == "update"@ {
        (UPDATE_OPTIONS@, UPDATE_NOTES@)
    } else if command == "query"@ {
        (QUERY_OPTIONS@, QUERY_NOTES@)
    } else if command == "database"@ {
        (DATABASE_OPTIONS@, CLOSE@)
    } else if command == "sync"@ {
        (SYNC_OPTIONS@, CLOSE@)
    } else if is_database_reader(command) {
        (READER_OPTIONS@, CLOSE@)
    } else if is_project_reader(command) {
        (PROJECT_READER_OPTIONS@, CLOSE@)
    } else {
        (DOCTOR_OPTIONS@, CLOSE@)
    }
}

/// What the usage text of a command says after `Usage: nostdb COMMAND`,
/// if it is a command.
pub open spec fn usage_tail(command: Seq<char>) -> Option<Seq<char>> {
    if takes_format(command) {
        let (before, after) = format_options(command);
        Some(before + FORMATS@ + after)
    } else if command == "server"@ {
        Some(SERVER_OPTIONS@)
    } else if command == "format"@ {
        Some(FORMAT_OPTIONS@)
    } else {
        None
    }
}

/// The usage text of a command, if it is one.
pub open spec fn help_text(command: Seq<char>) -> Option<Seq<char>> {
    match usage_tail(command) {
        Some(tail) => Some("Usage: nostdb "@ + command + tail),
        None => None,
    }
}

/// Every command's usage text names the command first, and the usage of
/// each command with a `--format` option lists every output format.
pub proof fn lemma_usage_names_command(command: Seq<char>)
    requires
        help_text(command) is Some,
    ensures
        help_text(command)->0.take(14 + command.len() as int) == "Usage: nostdb "@ + command,
        takes_format(command) ==> exists|i: int|
            0 <= i && i + FORMATS@.len() <= help_text(command)->0.len() && (
            #[trigger] help_text(command)->0.subrange(i, i + FORMATS@.len())) == FORMATS@,
{
    reveal_strlit("Usage: nostdb ");
    let text = help_text(command)->0;
    let head = "Usage: nostdb "@ + command;
    assert(text.take(14 + command.len() as int) =~= head);
    if takes_format(command) {
        let (before, after) = format_options(command);
        let i: int = (head.len() + before.len()) as int;
        assert(text == head + before + FORMATS@ + after);
        assert(text.subrange(i, i + FORMATS@.len()) =~= FORMATS@);
    }
}

/// The error for an unknown command: its name and the general usage.
pub open spec fn unknown_command(command: Seq<char>) -> ErrorView {
    usage("unknown command `"@ + command + "`\n\n"@ + HELP@)
}

pub fn unknown_command_error(command: &str) -> (error: CliError)
    ensures
        error.code == EXIT_USAGE,
        error.message@ == unknown_command(command@).1,
{
    let mut message = join3("unknown command `", command, "`\n\n");
    append(&mut message, HELP);
    CliError::usage(message)
}

fn usage_with_formats(command: &str, before: &str, after: &str) -> (text: String)
    ensures
        text@ == "Usage: nostdb "@ + command@ + (before@ + FORMATS@ + after@),
{
    let mut text = join3("Usage: nostdb ", command, before);
    append(&mut text, FORMATS);
    append(&mut text, after);
    assert(text@ =~= "Usage: nostdb "@ + command@ + (before@ + FORMATS@ + after@));
    text
}

/// The usage text of a command; an unknown command is a usage error.
pub fn command_help(command: &str) -> (result: Result<String, CliError>)
    ensures
        match help_text(command@) {
            Some(text) => result matches Ok(t) && t@ == text,
            None => fails_with(result, unknown_command(command@)),
        },
{
    if text_eq(command, "init") {
        Ok(usage_with_formats(command, INIT_OPTIONS, INIT_NOTES))
    } else if text_eq(command, "update") {
        Ok(usage_with_formats(command, UPDATE_OPTIONS, UPDATE_NOTES))
    } else if text_eq(command, "query") {
        Ok(usage_with_formats(command, QUERY_OPTIONS, QUERY_NOTES))
    } else if text_eq(command, "database") {
        Ok(usage_with_formats(command, DATABASE_OPTIONS, CLOSE))
    } else if text_eq(command, "sync") {
        Ok(usage_with_formats(command, SYNC_OPTIONS, CLOSE))
    } else if text_eq(command, "check") || text_eq(command, "inspect") || text_eq(command, "stats")
        || text_eq(command, "schema") || text_eq(command, "unresolved") {
        Ok(usage_with_formats(command, READER_OPTIONS, CLOSE))
    } else if text_eq(command, "imports") || text_eq(command, "warnings") {
        Ok(usage_with_formats(command, PROJECT_READER_OPTIONS, CLOSE))
    } else if text_eq(command, "doctor") {
        Ok(usage_with_formats(command, DOCTOR_OPTIONS, CLOSE))
    } else if text_eq(command, "server") {
        Ok(join3("Usage: nostdb ", command, SERVER_OPTIONS))
    } else if text_eq(command, "format") {
        Ok(join3("Usage: nostdb ", command, FORMAT_OPTIONS))
    } else {
        Err(unknown_command_error(command))
    }
}

} // verus!
