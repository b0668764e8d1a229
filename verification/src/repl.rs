//! The interactive session: how each input line is read, the session
//! commands, and explicit transactions.
use vstd::prelude::*;

use crate::args::{fails_with, usage, ErrorView};
use crate::error::{CliError, EXIT_USAGE};
use crate::split::{lemma_split_append, lemma_split_space_prefix, split_spec, split_with_remainder, views};
use crate::text::{all_space, append, blank, is_blank, lemma_blank_is_space, join3, owned, starts_with_char, text_eq, trim, trimmed};

verus! {

/// The prompt: a fresh statement, or the continuation of one.
pub open spec fn prompt_text(buffer_empty: bool) -> Seq<char> {
    if buffer_empty {
        "nostdb> "@
    } else {
        "...> "@
    }
}

pub fn prompt(buffer: &str) -> (text: &'static str)
    ensures
        text@ == prompt_text(buffer@.len() == 0),
{
    if buffer.unicode_len() == 0 {
        "nostdb> "
    } else {
        "...> "
    }
}

/// The error for input that ends inside a statement.
pub open spec fn unterminated_at_end() -> ErrorView {
    usage("unterminated query at end of input"@)
}

/// At the end of the input, a statement still being typed is an error.
pub fn end_of_input(buffer: &str) -> (result: Result<(), CliError>)
    ensures
        is_blank(buffer@) ==> result is Ok,
        !is_blank(buffer@) ==> fails_with(result, unterminated_at_end()),
{
    if blank(buffer) {
        Ok(())
    } else {
        Err(CliError::usage(owned("unterminated query at end of input")))
    }
}

/// What an input line is.
#[derive(Debug)]
pub enum Line {
    /// A session command (the line, trimmed).
    Command(String),
    /// Text of statements: those it completes.
    Statements(Vec<String>),
}

/// A line typed at a fresh prompt whose trimmed text starts with `:` is a
/// session command; any other line is added to the statement being typed.
pub open spec fn is_command_line(buffer: Seq<char>, line: Seq<char>) -> bool {
    buffer.len() == 0 && trim(line).len() > 0 && trim(line)[0] == ':'
}

/// The statement text kept after a line: the unterminated rest, dropped
/// when it is blank.
pub open spec fn kept_text(rest: Seq<char>) -> Seq<char> {
    if is_blank(rest) {
        Seq::empty()
    } else {
        rest
    }
}

/// Reads one input line against the statement being typed.
pub fn take_line(buffer: &mut String, line: &str) -> (result: Line)
    ensures
        is_command_line(old(buffer)@, line@) ==> (result matches Line::Command(c) && c@ == trim(
            line@,
        ) && final(buffer)@ == old(buffer)@),
        !is_command_line(old(buffer)@, line@) ==> (result matches Line::Statements(s) && views(s@)
            == split_spec(old(buffer)@ + line@).0 && final(buffer)@ == kept_text(
            split_spec(old(buffer)@ + line@).1,
        )),
{
    let text = trimmed(line);
    if buffer.unicode_len() == 0 && starts_with_char(text.as_str(), ':') {
        return Line::Command(text);
    }
    append(buffer, line);
    let (statements, rest) = match split_with_remainder(buffer.as_str()) {
        Ok(parts) => parts,
        Err(_) => (Vec::new(), String::new()),
    };
    if blank(rest.as_str()) {
        *buffer = String::new();
    } else {
        *buffer = rest;
    }
    Line::Statements(statements)
}

/// The commands of a local session.
#[derive(Clone, Copy, Debug, PartialEq, Eq, Structural)]
pub enum SessionCommand {
    Quit,
    Help,
    Status,
    Sync,
    Schema,
    Unresolved,
    Warnings,
    Imports,
    Begin,
    Commit,
    Rollback,
}

/// The command named by a trimmed line, if any.
pub open spec fn session_command(text: Seq<char>) -> Option<SessionCommand> {
    if text == ":quit"@ || text == ":q"@ {
        Some(SessionCommand::Quit)
    } else if text == ":help"@ {
        Some(SessionCommand::Help)
    } else if text == ":status"@ {
        Some(SessionCommand::Status)
    } else if text == ":sync"@ {
        Some(SessionCommand::Sync)
    } else if text == ":schema"@ {
        Some(SessionCommand::Schema)
    } else if text == ":unresolved"@ {
        Some(SessionCommand::Unresolved)
    } else if text == ":warnings"@ {
        Some(SessionCommand::Warnings)
    } else if text == ":imports"@ {
        Some(SessionCommand::Imports)
    } else if text == ":begin"@ {
        Some(SessionCommand::Begin)
    } else if text == ":commit"@ {
        Some(SessionCommand::Commit)
    } else if text == ":rollback"@ {
        Some(SessionCommand::Rollback)
    } else {
        None
    }
}

/// The session command names are distinct texts.
proof fn lemma_session_names_distinct()
    ensures
        ":q"@ != ":quit"@,
        ":help"@ != ":quit"@,
        ":help"@ != ":q"@,
        ":status"@ != ":quit"@,
        ":status"@ != ":q"@,
        ":status"@ != ":help"@,
        ":sync"@ != ":quit"@,
        ":sync"@ != ":q"@,
        ":sync"@ != ":help"@,
        ":sync"@ != ":status"@,
        ":schema"@ != ":quit"@,
        ":schema"@ != ":q"@,
        ":schema"@ != ":help"@,
        ":schema"@ != ":status"@,
        ":schema"@ != ":sync"@,
        ":unresolved"@ != ":quit"@,
        ":unresolved"@ != ":q"@,
        ":unresolved"@ != ":help"@,
        ":unresolved"@ != ":status"@,
        ":unresolved"@ != ":sync"@,
        ":unresolved"@ != ":schema"@,
        ":warnings"@ != ":quit"@,
        ":warnings"@ != ":q"@,
        ":warnings"@ != ":help"@,
        ":warnings"@ != ":status"@,
        ":warnings"@ != ":sync"@,
        ":warnings"@ != ":schema"@,
        ":warnings"@ != ":unresolved"@,
        ":imports"@ != ":quit"@,
        ":imports"@ != ":q"@,
        ":imports"@ != ":help"@,
        ":imports"@ != ":status"@,
        ":imports"@ != ":sync"@,
        ":imports"@ != ":schema"@,
        ":imports"@ != ":unresolved"@,
        ":imports"@ != ":warnings"@,
        ":begin"@ != ":quit"@,
        ":begin"@ != ":q"@,
        ":begin"@ != ":help"@,
        ":begin"@ != ":status"@,
        ":begin"@ != ":sync"@,
        ":begin"@ != ":schema"@,
        ":begin"@ != ":unresolved"@,
        ":begin"@ != ":warnings"@,
        ":begin"@ != ":imports"@,
        ":commit"@ != ":quit"@,
        ":commit"@ != ":q"@,
        ":commit"@ != ":help"@,
        ":commit"@ != ":status"@,
        ":commit"@ != ":sync"@,
        ":commit"@ != ":schema"@,
        ":commit"@ != ":unresolved"@,
        ":commit"@ != ":warnings"@,
        ":commit"@ != ":imports"@,
        ":commit"@ != ":begin"@,
        ":rollback"@ != ":quit"@,
        ":rollback"@ != ":q"@,
        ":rollback"@ != ":help"@,
        ":rollback"@ != ":status"@,
        ":rollback"@ != ":sync"@,
        ":rollback"@ != ":schema"@,
        ":rollback"@ != ":unresolved"@,
        ":rollback"@ != ":warnings"@,
        ":rollback"@ != ":imports"@,
        ":rollback"@ != ":begin"@,
        ":rollback"@ != ":commit"@,
{
    reveal_strlit(":quit");
    reveal_strlit(":q");
    reveal_strlit(":help");
    reveal_strlit(":status");
    reveal_strlit(":sync");
    reveal_strlit(":schema");
    reveal_strlit(":unresolved");
    reveal_strlit(":warnings");
    reveal_strlit(":imports");
    reveal_strlit(":begin");
    reveal_strlit(":commit");
    reveal_strlit(":rollback");
    assert(":q"@ != ":quit"@) by { assert(":q"@.len() != ":quit"@.len()); }
    assert(":help"@ != ":quit"@) by { assert(":help"@[1] != ":quit"@[1]); }
    assert(":help"@ != ":q"@) by { assert(":help"@.len() != ":q"@.len()); }
    assert(":status"@ != ":quit"@) by { assert(":status"@.len() != ":quit"@.len()); }
    assert(":status"@ != ":q"@) by { assert(":status"@.len() != ":q"@.len()); }
    assert(":status"@ != ":help"@) by { assert(":status"@.len() != ":help"@.len()); }
    assert(":sync"@ != ":quit"@) by { assert(":sync"@[1] != ":quit"@[1]); }
    assert(":sync"@ != ":q"@) by { assert(":sync"@.len() != ":q"@.len()); }
    assert(":sync"@ != ":help"@) by { assert(":sync"@[1] != ":help"@[1]); }
    assert(":sync"@ != ":status"@) by { assert(":sync"@.len() != ":status"@.len()); }
    assert(":schema"@ != ":quit"@) by { assert(":schema"@.len() != ":quit"@.len()); }
    assert(":schema"@ != ":q"@) by { assert(":schema"@.len() != ":q"@.len()); }
    assert(":schema"@ != ":help"@) by { assert(":schema"@.len() != ":help"@.len()); }
    assert(":schema"@ != ":status"@) by { assert(":schema"@[2] != ":status"@[2]); }
    assert(":schema"@ != ":sync"@) by { assert(":schema"@.len() != ":sync"@.len()); }
    assert(":unresolved"@ != ":quit"@) by { assert(":unresolved"@.len() != ":quit"@.len()); }
    assert(":unresolved"@ != ":q"@) by { assert(":unresolved"@.len() != ":q"@.len()); }
    assert(":unresolved"@ != ":help"@) by { assert(":unresolved"@.len() != ":help"@.len()); }
    assert(":unresolved"@ != ":status"@) by { assert(":unresolved"@.len() != ":status"@.len()); }
    assert(":unresolved"@ != ":sync"@) by { assert(":unresolved"@.len() != ":sync"@.len()); }
    assert(":unresolved"@ != ":schema"@) by { assert(":unresolved"@.len() != ":schema"@.len()); }
    assert(":warnings"@ != ":quit"@) by { assert(":warnings"@.len() != ":quit"@.len()); }
    assert(":warnings"@ != ":q"@) by { assert(":warnings"@.len() != ":q"@.len()); }
    assert(":warnings"@ != ":help"@) by { assert(":warnings"@.len() != ":help"@.len()); }
    assert(":warnings"@ != ":status"@) by { assert(":warnings"@.len() != ":status"@.len()); }
    assert(":warnings"@ != ":sync"@) by { assert(":warnings"@.len() != ":sync"@.len()); }
    assert(":warnings"@ != ":schema"@) by { assert(":warnings"@.len() != ":schema"@.len()); }
    assert(":warnings"@ != ":unresolved"@) by { assert(":warnings"@.len() != ":unresolved"@.len()); }
    assert(":imports"@ != ":quit"@) by { assert(":imports"@.len() != ":quit"@.len()); }
    assert(":imports"@ != ":q"@) by { assert(":imports"@.len() != ":q"@.len()); }
    assert(":imports"@ != ":help"@) by { assert(":imports"@.len() != ":help"@.len()); }
    assert(":imports"@ != ":status"@) by { assert(":imports"@.len() != ":status"@.len()); }
    assert(":imports"@ != ":sync"@) by { assert(":imports"@.len() != ":sync"@.len()); }
    assert(":imports"@ != ":schema"@) by { assert(":imports"@.len() != ":schema"@.len()); }
    assert(":imports"@ != ":unresolved"@) by { assert(":imports"@.len() != ":unresolved"@.len()); }
    assert(":imports"@ != ":warnings"@) by { assert(":imports"@.len() != ":warnings"@.len()); }
    assert(":begin"@ != ":quit"@) by { assert(":begin"@.len() != ":quit"@.len()); }
    assert(":begin"@ != ":q"@) by { assert(":begin"@.len() != ":q"@.len()); }
    assert(":begin"@ != ":help"@) by { assert(":begin"@.len() != ":help"@.len()); }
    assert(":begin"@ != ":status"@) by { assert(":begin"@.len() != ":status"@.len()); }
    assert(":begin"@ != ":sync"@) by { assert(":begin"@.len() != ":sync"@.len()); }
    assert(":begin"@ != ":schema"@) by { assert(":begin"@.len() != ":schema"@.len()); }
    assert(":begin"@ != ":unresolved"@) by { assert(":begin"@.len() != ":unresolved"@.len()); }
    assert(":begin"@ != ":warnings"@) by { assert(":begin"@.len() != ":warnings"@.len()); }
    assert(":begin"@ != ":imports"@) by { assert(":begin"@.len() != ":imports"@.len()); }
    assert(":commit"@ != ":quit"@) by { assert(":commit"@.len() != ":quit"@.len()); }
    assert(":commit"@ != ":q"@) by { assert(":commit"@.len() != ":q"@.len()); }
    assert(":commit"@ != ":help"@) by { assert(":commit"@.len() != ":help"@.len()); }
    assert(":commit"@ != ":status"@) by { assert(":commit"@[1] != ":status"@[1]); }
    assert(":commit"@ != ":sync"@) by { assert(":commit"@.len() != ":sync"@.len()); }
    assert(":commit"@ != ":schema"@) by { assert(":commit"@[1] != ":schema"@[1]); }
    assert(":commit"@ != ":unresolved"@) by { assert(":commit"@.len() != ":unresolved"@.len()); }
    assert(":commit"@ != ":warnings"@) by { assert(":commit"@.len() != ":warnings"@.len()); }
    assert(":commit"@ != ":imports"@) by { assert(":commit"@.len() != ":imports"@.len()); }
    assert(":commit"@ != ":begin"@) by { assert(":commit"@.len() != ":begin"@.len()); }
    assert(":rollback"@ != ":quit"@) by { assert(":rollback"@.len() != ":quit"@.len()); }
    assert(":rollback"@ != ":q"@) by { assert(":rollback"@.len() != ":q"@.len()); }
    assert(":rollback"@ != ":help"@) by { assert(":rollback"@.len() != ":help"@.len()); }
    assert(":rollback"@ != ":status"@) by { assert(":rollback"@.len() != ":status"@.len()); }
    assert(":rollback"@ != ":sync"@) by { assert(":rollback"@.len() != ":sync"@.len()); }
    assert(":rollback"@ != ":schema"@) by { assert(":rollback"@.len() != ":schema"@.len()); }
    assert(":rollback"@ != ":unresolved"@) by { assert(":rollback"@.len() != ":unresolved"@.len()); }
    assert(":rollback"@ != ":warnings"@) by { assert(":rollback"@[1] != ":warnings"@[1]); }
    assert(":rollback"@ != ":imports"@) by { assert(":rollback"@.len() != ":imports"@.len()); }
    assert(":rollback"@ != ":begin"@) by { assert(":rollback"@.len() != ":begin"@.len()); }
    assert(":rollback"@ != ":commit"@) by { assert(":rollback"@.len() != ":commit"@.len()); }
}

/// Each session command has a name of its own: two lines that name the
/// same command are the same line (but for `:q`, the short form of
/// `:quit`), and every command has a name. The line `:commit` hands over,
/// to run as one transaction, exactly the statements queued in the open
/// transaction and closes it; `:rollback` discards them and closes it; and
/// `:begin` opens an empty transaction.
pub proof fn lemma_session_command_names(
    a: Seq<char>,
    b: Seq<char>,
    queued: Seq<Seq<char>>,
    project_given: bool,
    command: SessionCommand,
)
    ensures
        session_command(a) is Some && session_command(a) == session_command(b) ==> a == b
            || session_command(a) == Some(SessionCommand::Quit),
        exists|name: Seq<char>| session_command(name) == Some(command),
        session_command(":commit"@) matches Some(c) && transaction_command(
            c,
            Some(queued),
            project_given,
        ) == (Ok::<Seq<Seq<char>>, ErrorView>(queued), None::<Seq<Seq<char>>>),
        session_command(":rollback"@) matches Some(c) && transaction_command(
            c,
            Some(queued),
            project_given,
        ) == (Ok::<Seq<Seq<char>>, ErrorView>(Seq::empty()), None::<Seq<Seq<char>>>),
        session_command(":begin"@) matches Some(c) && transaction_command(c, None, false) == (
            Ok::<Seq<Seq<char>>, ErrorView>(Seq::empty()),
            Some(Seq::<Seq<char>>::empty()),
        ),
{
    lemma_session_names_distinct();
    match command {
        SessionCommand::Quit => assert(session_command(":quit"@) == Some(command)),
        SessionCommand::Help => assert(session_command(":help"@) == Some(command)),
        SessionCommand::Status => assert(session_command(":status"@) == Some(command)),
        SessionCommand::Sync => assert(session_command(":sync"@) == Some(command)),
        SessionCommand::Schema => assert(session_command(":schema"@) == Some(command)),
        SessionCommand::Unresolved => assert(session_command(":unresolved"@) == Some(command)),
        SessionCommand::Warnings => assert(session_command(":warnings"@) == Some(command)),
        SessionCommand::Imports => assert(session_command(":imports"@) == Some(command)),
        SessionCommand::Begin => assert(session_command(":begin"@) == Some(command)),
        SessionCommand::Commit => assert(session_command(":commit"@) == Some(command)),
        SessionCommand::Rollback => assert(session_command(":rollback"@) == Some(command)),
    }
}

/// The error for an unknown session command.
pub open spec fn unknown_session_command(text: Seq<char>) -> ErrorView {
    usage("unknown REPL command `"@ + text + "`"@)
}

/// Reads a session command.
pub fn parse_session_command(text: &str) -> (result: Result<SessionCommand, CliError>)
    ensures
        match session_command(text@) {
            Some(c) => result == Ok::<SessionCommand, CliError>(c),
            None => fails_with(result, unknown_session_command(text@)),
        },
{
    if text_eq(text, ":quit") || text_eq(text, ":q") {
        Ok(SessionCommand::Quit)
    } else if text_eq(text, ":help") {
        Ok(SessionCommand::Help)
    } else if text_eq(text, ":status") {
        Ok(SessionCommand::Status)
    } else if text_eq(text, ":sync") {
        Ok(SessionCommand::Sync)
    } else if text_eq(text, ":schema") {
        Ok(SessionCommand::Schema)
    } else if text_eq(text, ":unresolved") {
        Ok(SessionCommand::Unresolved)
    } else if text_eq(text, ":warnings") {
        Ok(SessionCommand::Warnings)
    } else if text_eq(text, ":imports") {
        Ok(SessionCommand::Imports)
    } else if text_eq(text, ":begin") {
        Ok(SessionCommand::Begin)
    } else if text_eq(text, ":commit") {
        Ok(SessionCommand::Commit)
    } else if text_eq(text, ":rollback") {
        Ok(SessionCommand::Rollback)
    } else {
        Err(CliError::usage(join3("unknown REPL command `", text, "`")))
    }
}

/// The list of session commands that `:help` prints.
pub const SESSION_HELP: &'static str = ":help :status :sync :schema :warnings :imports :unresolved
:begin :commit :rollback :quit";

/// `:sync`, `:warnings` and `:imports` need a project.
pub fn require_project(command: &str, project_given: bool) -> (result: Result<(), CliError>)
    ensures
        project_given ==> result is Ok,
        !project_given ==> fails_with(result, usage(command@ + " requires --project"@)),
{
    if project_given {
        Ok(())
    } else {
        let mut message = owned(command);
        append(&mut message, " requires --project");
        Err(CliError::usage(message))
    }
}

/// A failed session command ends the session unless it is a usage error,
/// which is reported and the session goes on.
pub open spec fn continues_after(error: CliError) -> bool {
    error.code == EXIT_USAGE
}

pub fn session_continues(error: &CliError) -> (result: bool)
    ensures
        result == continues_after(*error),
{
    error.code == EXIT_USAGE
}

/// The statements of an open transaction, or `None` when none is open.
pub type Transaction = Option<Vec<String>>;

/// The view of a transaction.
pub open spec fn transaction_view(t: Transaction) -> Option<Seq<Seq<char>>> {
    match t {
        Some(statements) => Some(views(statements@)),
        None => None,
    }
}

/// `:begin` opens an empty transaction: not in a session with a project,
/// and not while one is open.
pub open spec fn begin_spec(t: Option<Seq<Seq<char>>>, project_given: bool) -> Result<
    Option<Seq<Seq<char>>>,
    ErrorView,
> {
    if project_given {
        Err(usage("explicit transactions are available only in NDB-only mode"@))
    } else if t is Some {
        Err(usage("a transaction is already active"@))
    } else {
        Ok(Some(Seq::empty()))
    }
}

/// A statement typed in an open transaction is queued at its end.
pub open spec fn queue_spec(t: Option<Seq<Seq<char>>>, statement: Seq<char>) -> Option<
    Seq<Seq<char>>,
> {
    match t {
        Some(statements) => Some(statements.push(statement)),
        None => None,
    }
}

/// The error for `:commit` or `:rollback` without a transaction.
pub open spec fn no_transaction() -> ErrorView {
    usage("no transaction is active"@)
}

/// What a transaction command does to the session's transaction: its
/// outcome (the statements that `:commit` hands over to run as one
/// transaction, none for the others) and the transaction afterwards. A
/// refused `:begin` leaves the transaction as it was; `:commit` and
/// `:rollback` leave none open.
pub open spec fn transaction_command(
    command: SessionCommand,
    t: Option<Seq<Seq<char>>>,
    project_given: bool,
) -> (Result<Seq<Seq<char>>, ErrorView>, Option<Seq<Seq<char>>>) {
    match command {
        SessionCommand::Begin => match begin_spec(t, project_given) {
            Ok(opened) => (Ok(Seq::empty()), opened),
            Err(e) => (Err(e), t),
        },
        SessionCommand::Commit => (
            match t {
                Some(queued) => Ok(queued),
                None => Err(no_transaction()),
            },
            None,
        ),
        SessionCommand::Rollback => (
            match t {
                Some(_) => Ok(Seq::empty()),
                None => Err(no_transaction()),
            },
            None,
        ),
        _ => (Ok(Seq::empty()), t),
    }
}

pub fn begin_transaction(transaction: &mut Transaction, project_given: bool) -> (result: Result<
    (),
    CliError,
>)
    ensures
        match begin_spec(transaction_view(*old(transaction)), project_given) {
            Ok(t) => result is Ok && transaction_view(*final(transaction)) == t,
            Err(e) => fails_with(result, e) && transaction_view(*final(transaction))
                == transaction_view(*old(transaction)),
        },
        transaction_view(*final(transaction)) == transaction_command(
            SessionCommand::Begin,
            transaction_view(*old(transaction)),
            project_given,
        ).1,
{
    if project_given {
        return Err(
            CliError::usage(owned("explicit transactions are available only in NDB-only mode")),
        );
    }
    if transaction.is_some() {
        return Err(CliError::usage(owned("a transaction is already active")));
    }
    let statements: Vec<String> = Vec::new();
    assert(views(statements@) =~= Seq::<Seq<char>>::empty());
    *transaction = Some(statements);
    Ok(())
}

/// Queues a statement in the open transaction.
pub fn queue_statement(transaction: &mut Transaction, statement: String)
    ensures
        transaction_view(*final(transaction)) == queue_spec(
            transaction_view(*old(transaction)),
            statement@,
        ),
{
    match transaction {
        Some(statements) => {
            let ghost before = statements@;
            statements.push(statement);
            assert(views(statements@) =~= views(before).push(statement@));
        },
        None => {},
    }
}

/// `:commit` closes the transaction and hands over its statements, in the
/// order they were queued.
pub fn commit_transaction(transaction: &mut Transaction) -> (result: Result<Vec<String>, CliError>)
    ensures
        transaction_view(*final(transaction)) == None::<Seq<Seq<char>>>,
        match transaction_view(*old(transaction)) {
            Some(statements) => result matches Ok(s) && views(s@) == statements,
            None => fails_with(result, no_transaction()),
        },
        transaction_view(*final(transaction)) == transaction_command(
            SessionCommand::Commit,
            transaction_view(*old(transaction)),
            false,
        ).1,
        match transaction_command(SessionCommand::Commit, transaction_view(*old(transaction)), false).0 {
            Ok(q) => result matches Ok(s) && views(s@) == q,
            Err(e) => fails_with(result, e),
        },
{
    match transaction.take() {
        Some(statements) => Ok(statements),
        None => Err(CliError::usage(owned("no transaction is active"))),
    }
}

/// `:rollback` discards the transaction.
pub fn rollback_transaction(transaction: &mut Transaction) -> (result: Result<(), CliError>)
    ensures
        transaction_view(*final(transaction)) == None::<Seq<Seq<char>>>,
        transaction_view(*old(transaction)) is Some ==> result is Ok,
        transaction_view(*old(transaction)) is None ==> fails_with(result, no_transaction()),
        transaction_view(*final(transaction)) == transaction_command(
            SessionCommand::Rollback,
            transaction_view(*old(transaction)),
            false,
        ).1,
{
    match transaction.take() {
        Some(_) => Ok(()),
        None => Err(CliError::usage(owned("no transaction is active"))),
    }
}

/// The explicit transaction commands as one law: `:begin` is refused,
/// with a usage error and the transaction unchanged, in a project session
/// or while a transaction is open, and otherwise opens an empty one;
/// `:commit` and `:rollback` leave no transaction open and are usage
/// errors when none was open; `:commit` hands over exactly the statements
/// queued since `:begin`, in order, to run as one transaction. Neither
/// outcome depends on the project for `:commit` and `:rollback`.
pub proof fn lemma_transaction_commands(
    t: Option<Seq<Seq<char>>>,
    project_given: bool,
    statements: Seq<Seq<char>>,
)
    ensures
        transaction_command(SessionCommand::Begin, t, project_given).0 is Err <==> (project_given
            || t is Some),
        transaction_command(SessionCommand::Begin, t, project_given).0 is Err
            ==> transaction_command(SessionCommand::Begin, t, project_given).1 == t,
        transaction_command(SessionCommand::Begin, t, project_given).0 is Ok
            ==> transaction_command(SessionCommand::Begin, t, project_given).1 == Some(
            Seq::<Seq<char>>::empty(),
        ),
        transaction_command(SessionCommand::Commit, t, project_given).1 is None,
        transaction_command(SessionCommand::Rollback, t, project_given).1 is None,
        t is None ==> transaction_command(SessionCommand::Commit, t, project_given).0 is Err
            && transaction_command(SessionCommand::Rollback, t, project_given).0 is Err,
        t is Some ==> transaction_command(SessionCommand::Commit, t, project_given).0 == Ok::<
            Seq<Seq<char>>,
            ErrorView,
        >(t->0) && transaction_command(SessionCommand::Rollback, t, project_given).0 is Ok,
        forall|c: SessionCommand|
            (c == SessionCommand::Begin || c == SessionCommand::Commit || c
                == SessionCommand::Rollback) && #[trigger] transaction_command(c, t, project_given).0 is Err
                ==> transaction_command(c, t, project_given).0->Err_0.0 == EXIT_USAGE,
        transaction_command(
            SessionCommand::Commit,
            queue_all(transaction_command(SessionCommand::Begin, None, false).1, statements),
            project_given,
        ).0 == Ok::<Seq<Seq<char>>, ErrorView>(statements),
{
    lemma_commit_returns_queued(statements);
}

/// The statements queued after `:begin` are exactly those that `:commit`
/// hands over, in order, and no transaction is open afterwards.
pub proof fn lemma_commit_returns_queued(statements: Seq<Seq<char>>)
    ensures
        begin_spec(None, false) == Ok::<Option<Seq<Seq<char>>>, ErrorView>(Some(Seq::empty())),
        queue_all(Some(Seq::empty()), statements) == Some(statements),
    decreases statements.len(),
{
    if statements.len() > 0 {
        lemma_commit_returns_queued(statements.drop_last());
        assert(statements.drop_last().push(statements.last()) =~= statements);
    }
}

/// Queues the statements one after another.
pub open spec fn queue_all(t: Option<Seq<Seq<char>>>, statements: Seq<Seq<char>>) -> Option<
    Seq<Seq<char>>,
>
    decreases statements.len(),
{
    if statements.len() == 0 {
        t
    } else {
        queue_spec(queue_all(t, statements.drop_last()), statements.last())
    }
}

/// The commands of a session with a server.
#[derive(Clone, Copy, Debug, PartialEq, Eq, Structural)]
pub enum RemoteCommand {
    Quit,
    Help,
    Ping,
    Begin,
    Commit,
    Rollback,
}

pub open spec fn remote_command(text: Seq<char>) -> Option<RemoteCommand> {
    if text == ":quit"@ || text == ":q"@ {
        Some(RemoteCommand::Quit)
    } else if text == ":help"@ {
        Some(RemoteCommand::Help)
    } else if text == ":ping"@ {
        Some(RemoteCommand::Ping)
    } else if text == ":begin"@ {
        Some(RemoteCommand::Begin)
    } else if text == ":commit"@ {
        Some(RemoteCommand::Commit)
    } else if text == ":rollback"@ {
        Some(RemoteCommand::Rollback)
    } else {
        None
    }
}

/// Reads a command of a session with a server; an unknown one gives the
/// message that is reported before the session goes on.
pub fn parse_remote_command(text: &str) -> (result: Result<RemoteCommand, String>)
    ensures
        match remote_command(text@) {
            Some(c) => result == Ok::<RemoteCommand, String>(c),
            None => result matches Err(m) && m@ == "error: unknown remote REPL command `"@ + text@
                + "`"@,
        },
{
    if text_eq(text, ":quit") || text_eq(text, ":q") {
        Ok(RemoteCommand::Quit)
    } else if text_eq(text, ":help") {
        Ok(RemoteCommand::Help)
    } else if text_eq(text, ":ping") {
        Ok(RemoteCommand::Ping)
    } else if text_eq(text, ":begin") {
        Ok(RemoteCommand::Begin)
    } else if text_eq(text, ":commit") {
        Ok(RemoteCommand::Commit)
    } else if text_eq(text, ":rollback") {
        Ok(RemoteCommand::Rollback)
    } else {
        Err(join3("error: unknown remote REPL command `", text, "`"))
    }
}

/// The list of commands that `:help` prints in a session with a server.
pub const REMOTE_HELP: &'static str = ":help :ping :begin :commit :rollback :quit";

/// The message printed for a failure that does not end the session.
pub fn error_line(error: &CliError) -> (line: String)
    ensures
        line@ == "error: "@ + error.message@,
{
    crate::text::join2("error: ", error.message.as_str())
}

/// What a server answers to a command or a statement in a session.
#[derive(Clone, Copy, Debug, PartialEq, Eq, Structural)]
pub enum ReplyKind {
    Pong,
    /// A transaction report (its results are written, then its state).
    Transaction,
    /// A statement result, which is written.
    Result,
    /// The statement was queued in the server's transaction.
    Queued,
    Other,
}

/// The line reported after a session command's reply, when it is a fixed
/// one.
pub open spec fn command_reply_line(kind: ReplyKind) -> Option<Seq<char>> {
    match kind {
        ReplyKind::Pong => Some("server is ready"@),
        ReplyKind::Transaction => None,
        _ => Some("server acknowledged request"@),
    }
}

pub fn command_reply(kind: ReplyKind) -> (line: Option<&'static str>)
    ensures
        match command_reply_line(kind) {
            Some(t) => line matches Some(l) && l@ == t,
            None => line is None,
        },
{
    match kind {
        ReplyKind::Pong => Some("server is ready"),
        ReplyKind::Transaction => None,
        _ => Some("server acknowledged request"),
    }
}

/// The line reported after a statement's reply, when it is not a result.
pub open spec fn statement_reply_line(kind: ReplyKind) -> Option<Seq<char>> {
    match kind {
        ReplyKind::Result => None,
        ReplyKind::Queued => Some("queued"@),
        _ => Some("unexpected server response"@),
    }
}

pub fn statement_reply(kind: ReplyKind) -> (line: Option<&'static str>)
    ensures
        match statement_reply_line(kind) {
            Some(t) => line matches Some(l) && l@ == t,
            None => line is None,
        },
{
    match kind {
        ReplyKind::Result => None,
        ReplyKind::Queued => Some("queued"),
        _ => Some("unexpected server response"),
    }
}

/// Whether `buffer` is what a session keeps after reading the statement
/// text `text`: the remainder after the last terminator, but for leading
/// whitespace (a remainder of whitespace only is not kept at all).
pub open spec fn keeps(text: Seq<char>, buffer: Seq<char>) -> bool {
    exists|ws: Seq<char>| #[trigger] is_blank(ws) && split_spec(text).1 == ws + buffer
}

/// A session reads statements that span lines as if it read its input
/// whole: joining a line to what it keeps yields exactly the statements
/// that the line adds to the whole text, and what it keeps next is again
/// the remainder of the whole text. Nothing is kept before the first line.
pub proof fn lemma_lines_read_as_whole(text: Seq<char>, buffer: Seq<char>, line: Seq<char>)
    requires
        keeps(text, buffer),
    ensures
        keeps(Seq::empty(), Seq::empty()),
        split_spec(text).0 + split_spec(buffer + line).0 == split_spec(text + line).0,
        keeps(text + line, kept_text(split_spec(buffer + line).1)),
{
    let empty = Seq::<char>::empty();
    assert(is_blank(empty)) by {
        lemma_blank_is_space(empty);
    }
    assert(split_spec(empty).1 =~= empty + empty);
    let ws = choose|ws: Seq<char>| #[trigger] is_blank(ws) && split_spec(text).1 == ws + buffer;
    lemma_blank_is_space(ws);
    lemma_split_append(text, line);
    assert(split_spec(text).1 + line =~= ws + (buffer + line));
    lemma_split_space_prefix(ws, buffer + line);
    let rest = split_spec(buffer + line).1;
    let whole_rest = split_spec(text + line).1;
    if is_blank(rest) {
        lemma_blank_is_space(rest);
        let all = if whole_rest == rest {
            rest
        } else {
            ws + rest
        };
        assert(all_space(all));
        lemma_blank_is_space(all);
        assert(whole_rest =~= all + kept_text(rest));
    } else {
        if whole_rest == rest {
            assert(is_blank(empty));
            assert(whole_rest =~= empty + kept_text(rest));
        } else {
            assert(whole_rest =~= ws + kept_text(rest));
        }
    }
}

} // verus!
