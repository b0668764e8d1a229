//! Command-line argument parsing for each command.
//!
//! Each parser walks the arguments left to right; an option that takes a
//! value consumes the next argument. The specifications below follow the
//! same walk: a `*_scan` function gives the state after the remaining
//! arguments, or the first error, and a `*_spec` function the final result.
use vstd::prelude::*;

use crate::error::{CliError, EXIT_USAGE};
use crate::format::{format_named, OutputFormat};
use crate::split::views;
use crate::text::{join3, owned, parse_u32, parse_u32_spec, starts_with_char, text_eq};

verus! {

/// An error as its exit code and message.
pub type ErrorView = (u8, Seq<char>);

/// Whether `result` is the error `error`.
pub open spec fn fails_with<T>(result: Result<T, CliError>, error: ErrorView) -> bool {
    result matches Err(e) && e.code == error.0 && e.message@ == error.1
}

pub open spec fn usage(message: Seq<char>) -> ErrorView {
    (EXIT_USAGE, message)
}

/// The error for an option given as the last argument without its value.
pub open spec fn missing_value() -> ErrorView {
    usage("option requires a value"@)
}

pub open spec fn unknown_option(option: Seq<char>) -> ErrorView {
    usage("unknown option `"@ + option + "`"@)
}

pub open spec fn unknown_format(name: Seq<char>) -> ErrorView {
    usage("unknown output format `"@ + name + "`"@)
}

/// The view of an optional text.
pub open spec fn opt(value: Option<String>) -> Option<Seq<char>> {
    match value {
        Some(text) => Some(text@),
        None => None,
    }
}

/// Advances `index` to the value of the option at `index`.
pub fn value<'a>(arguments: &'a [String], index: &mut usize) -> (result: Result<&'a str, CliError>)
    requires
        *old(index) < usize::MAX,
    ensures
        *final(index) == *old(index) + 1,
        *final(index) < arguments@.len() ==> (result matches Ok(v) && v@ == arguments@[*final(index) as int]@),
        *final(index) >= arguments@.len() ==> fails_with(result, missing_value()),
{
    *index = *index + 1;
    if *index < arguments.len() {
        Ok(arguments[*index].as_str())
    } else {
        Err(CliError::usage(owned("option requires a value")))
    }
}

/// Options of the commands that read a database and optionally a project.
#[derive(Debug)]
pub struct CommonOptions {
    pub database: String,
    pub project: Option<String>,
    pub format: OutputFormat,
}

pub open spec fn common_view(options: CommonOptions) -> (Seq<char>, Option<Seq<char>>, OutputFormat) {
    (options.database@, opt(options.project), options.format)
}

/// The options of those commands as written on the command line.
#[derive(Debug)]
pub struct CommonArguments {
    pub database: Option<String>,
    pub project: Option<String>,
    pub format: OutputFormat,
}

pub open spec fn common_arguments_view(arguments: CommonArguments) -> (
    Option<Seq<char>>,
    Option<Seq<char>>,
    OutputFormat,
) {
    (opt(arguments.database), opt(arguments.project), arguments.format)
}

/// The walk of `parse_common` from argument `i`.
pub open spec fn common_scan(
    args: Seq<Seq<char>>,
    i: int,
    database: Option<Seq<char>>,
    project: Option<Seq<char>>,
    format: OutputFormat,
) -> Result<(Option<Seq<char>>, Option<Seq<char>>, OutputFormat), ErrorView>
    decreases args.len() - i,
{
    if i < 0 || i >= args.len() {
        Ok((database, project, format))
    } else {
        let a = args[i];
        if a == "-d"@ || a == "--database"@ || a == "-p"@ || a == "--project"@ || a
            == "--format"@ {
            if i + 1 >= args.len() {
                Err(missing_value())
            } else {
                let v = args[i + 1];
                if a == "-d"@ || a == "--database"@ {
                    common_scan(args, i + 2, Some(v), project, format)
                } else if a == "-p"@ || a == "--project"@ {
                    common_scan(args, i + 2, database, Some(v), format)
                } else {
                    match format_named(v) {
                        Some(f) => common_scan(args, i + 2, database, project, f),
                        None => Err(unknown_format(v)),
                    }
                }
            }
        } else {
            Err(unknown_option(a))
        }
    }
}

/// What `parse_common` returns: `--project` is required when
/// `project_required`, and without a project `--database` is; the format
/// defaults to a table. With a project and no `--database`, `finish_common`
/// completes the database from the project's settings.
pub open spec fn common_spec(args: Seq<Seq<char>>, project_required: bool) -> Result<
    (Option<Seq<char>>, Option<Seq<char>>, OutputFormat),
    ErrorView,
> {
    match common_scan(args, 0, None, None, OutputFormat::Table) {
        Err(e) => Err(e),
        Ok((database, project, format)) => if project_required && project is None {
            Err(usage("--project is required"@))
        } else if database is None && project is None {
            Err(database_required())
        } else {
            Ok((database, project, format))
        },
    }
}

pub fn parse_common(arguments: Vec<String>, project_required: bool) -> (result: Result<
    CommonArguments,
    CliError,
>)
    ensures
        match common_spec(views(arguments@), project_required) {
            Ok(v) => result matches Ok(o) && common_arguments_view(o) == v,
            Err(e) => fails_with(result, e),
        },
{
    let ghost args = views(arguments@);
    let mut database: Option<String> = None;
    let mut project: Option<String> = None;
    let mut format = OutputFormat::Table;
    let mut index: usize = 0;
    while index < arguments.len()
        invariant
            args == views(arguments@),
            index <= arguments@.len(),
            common_scan(args, index as int, opt(database), opt(project), format) == common_scan(
                args,
                0,
                None,
                None,
                OutputFormat::Table,
            ),
        decreases arguments@.len() - index,
    {
        let a = arguments[index].as_str();
        assert(args[index as int] == a@);
        if text_eq(a, "-d") || text_eq(a, "--database") {
            match value(arguments.as_slice(), &mut index) {
                Ok(v) => database = Some(owned(v)),
                Err(e) => return Err(e),
            }
        } else if text_eq(a, "-p") || text_eq(a, "--project") {
            match value(arguments.as_slice(), &mut index) {
                Ok(v) => project = Some(owned(v)),
                Err(e) => return Err(e),
            }
        } else if text_eq(a, "--format") {
            match value(arguments.as_slice(), &mut index) {
                Ok(v) => match OutputFormat::parse(v) {
                    Ok(f) => format = f,
                    Err(e) => return Err(e),
                },
                Err(e) => return Err(e),
            }
        } else {
            return Err(CliError::usage(join3("unknown option `", a, "`")));
        }
        index += 1;
    }
    if project_required && project.is_none() {
        return Err(CliError::usage(owned("--project is required")));
    }
    if database.is_none() && project.is_none() {
        return Err(CliError::usage(owned("--database or --project is required")));
    }
    Ok(CommonArguments { database, project, format })
}

/// Completes the options: the named database, else the root database that
/// the project's settings configure (`configured_root`, read from them
/// when a project is given).
pub fn finish_common(arguments: CommonArguments, configured_root: Option<String>) -> (result:
    Result<CommonOptions, CliError>)
    ensures
        match chosen_database(opt(arguments.database), opt(arguments.project), opt(configured_root)) {
            Some(d) => result matches Ok(o) && common_view(o) == (d, opt(arguments.project), arguments.format),
            None => fails_with(result, database_required()),
        },
{
    let CommonArguments { database, project, format } = arguments;
    match choose_database(database, &project, configured_root) {
        Some(database) => Ok(CommonOptions { database, project, format }),
        None => Err(CliError::usage(owned("--database or --project is required"))),
    }
}

/// Options of the commands that read a project.
#[derive(Debug)]
pub struct ProjectOptions {
    pub project: String,
    pub format: OutputFormat,
}

/// The walk of `parse_project` from argument `i`.
pub open spec fn project_scan(
    args: Seq<Seq<char>>,
    i: int,
    project: Option<Seq<char>>,
    format: OutputFormat,
) -> Result<(Option<Seq<char>>, OutputFormat), ErrorView>
    decreases args.len() - i,
{
    if i < 0 || i >= args.len() {
        Ok((project, format))
    } else {
        let a = args[i];
        if a == "-p"@ || a == "--project"@ || a == "--format"@ {
            if i + 1 >= args.len() {
                Err(missing_value())
            } else {
                let v = args[i + 1];
                if a == "-p"@ || a == "--project"@ {
                    project_scan(args, i + 2, Some(v), format)
                } else {
                    match format_named(v) {
                        Some(f) => project_scan(args, i + 2, project, f),
                        None => Err(unknown_format(v)),
                    }
                }
            }
        } else {
            Err(unknown_option(a))
        }
    }
}

/// What `parse_project` returns: `--project` is required; the format
/// defaults to a table.
pub open spec fn project_spec(args: Seq<Seq<char>>) -> Result<(Seq<char>, OutputFormat), ErrorView> {
    match project_scan(args, 0, None, OutputFormat::Table) {
        Err(e) => Err(e),
        Ok((project, format)) => match project {
            Some(p) => Ok((p, format)),
            None => Err(usage("--project is required"@)),
        },
    }
}

pub fn parse_project(arguments: Vec<String>) -> (result: Result<ProjectOptions, CliError>)
    ensures
        match project_spec(views(arguments@)) {
            Ok(v) => result matches Ok(o) && (o.project@, o.format) == v,
            Err(e) => fails_with(result, e),
        },
{
    let ghost args = views(arguments@);
    let mut project: Option<String> = None;
    let mut format = OutputFormat::Table;
    let mut index: usize = 0;
    while index < arguments.len()
        invariant
            args == views(arguments@),
            index <= arguments@.len(),
            project_scan(args, index as int, opt(project), format) == project_scan(
                args,
                0,
                None,
                OutputFormat::Table,
            ),
        decreases arguments@.len() - index,
    {
        let a = arguments[index].as_str();
        assert(args[index as int] == a@);
        if text_eq(a, "-p") || text_eq(a, "--project") {
            match value(arguments.as_slice(), &mut index) {
                Ok(v) => project = Some(owned(v)),
                Err(e) => return Err(e),
            }
        } else if text_eq(a, "--format") {
            match value(arguments.as_slice(), &mut index) {
                Ok(v) => match OutputFormat::parse(v) {
                    Ok(f) => format = f,
                    Err(e) => return Err(e),
                },
                Err(e) => return Err(e),
            }
        } else {
            return Err(CliError::usage(join3("unknown option `", a, "`")));
        }
        index += 1;
    }
    match project {
        Some(project) => Ok(ProjectOptions { project, format }),
        None => Err(CliError::usage(owned("--project is required"))),
    }
}

/// How to reach a database server.
#[derive(Debug)]
pub struct RemoteOptions {
    pub server: String,
    pub credential_file: Option<String>,
}

/// The walk of `parse_remote_options` from argument `i`.
pub open spec fn remote_scan(
    args: Seq<Seq<char>>,
    i: int,
    server: Option<Seq<char>>,
    credential_file: Option<Seq<char>>,
) -> Result<(Option<Seq<char>>, Option<Seq<char>>), ErrorView>
    decreases args.len() - i,
{
    if i < 0 || i >= args.len() {
        Ok((server, credential_file))
    } else {
        let a = args[i];
        if a == "--server"@ || a == "--credential-file"@ {
            if i + 1 >= args.len() {
                Err(missing_value())
            } else if a == "--server"@ {
                remote_scan(args, i + 2, Some(args[i + 1]), credential_file)
            } else {
                remote_scan(args, i + 2, server, Some(args[i + 1]))
            }
        } else {
            Err(usage("unknown remote option `"@ + a + "`"@))
        }
    }
}

/// What `parse_remote_options` returns: `--server` is required.
pub open spec fn remote_spec(args: Seq<Seq<char>>) -> Result<(Seq<char>, Option<Seq<char>>), ErrorView> {
    match remote_scan(args, 0, None, None) {
        Err(e) => Err(e),
        Ok((server, credential_file)) => match server {
            Some(s) => Ok((s, credential_file)),
            None => Err(usage("--server is required"@)),
        },
    }
}

pub fn parse_remote_options(arguments: Vec<String>) -> (result: Result<RemoteOptions, CliError>)
    ensures
        match remote_spec(views(arguments@)) {
            Ok(v) => result matches Ok(o) && (o.server@, opt(o.credential_file)) == v,
            Err(e) => fails_with(result, e),
        },
{
    let ghost args = views(arguments@);
    let mut server: Option<String> = None;
    let mut credential_file: Option<String> = None;
    let mut index: usize = 0;
    while index < arguments.len()
        invariant
            args == views(arguments@),
            index <= arguments@.len(),
            remote_scan(args, index as int, opt(server), opt(credential_file)) == remote_scan(
                args,
                0,
                None,
                None,
            ),
        decreases arguments@.len() - index,
    {
        let a = arguments[index].as_str();
        assert(args[index as int] == a@);
        if text_eq(a, "--server") {
            match value(arguments.as_slice(), &mut index) {
                Ok(v) => server = Some(owned(v)),
                Err(e) => return Err(e),
            }
        } else if text_eq(a, "--credential-file") {
            match value(arguments.as_slice(), &mut index) {
                Ok(v) => credential_file = Some(owned(v)),
                Err(e) => return Err(e),
            }
        } else {
            return Err(CliError::usage(join3("unknown remote option `", a, "`")));
        }
        index += 1;
    }
    match server {
        Some(server) => Ok(RemoteOptions { server, credential_file }),
        None => Err(CliError::usage(owned("--server is required"))),
    }
}

/// What `parse_server` returns: the arguments must start with `ping`; the
/// rest are remote options.
pub open spec fn server_spec(args: Seq<Seq<char>>) -> Result<(Seq<char>, Option<Seq<char>>), ErrorView> {
    if args.len() > 0 && args[0] == "ping"@ {
        remote_spec(args.drop_first())
    } else {
        Err(usage("server command must be `nostdb server ping`"@))
    }
}

pub fn parse_server(arguments: Vec<String>) -> (result: Result<RemoteOptions, CliError>)
    ensures
        match server_spec(views(arguments@)) {
            Ok(v) => result matches Ok(o) && (o.server@, opt(o.credential_file)) == v,
            Err(e) => fails_with(result, e),
        },
{
    let mut arguments = arguments;
    if arguments.len() == 0 || !text_eq(arguments[0].as_str(), "ping") {
        return Err(CliError::usage(owned("server command must be `nostdb server ping`")));
    }
    let ghost before = arguments@;
    arguments.remove(0);
    assert(views(arguments@) == views(before).drop_first());
    parse_remote_options(arguments)
}

/// Options of the `format` command.
#[derive(Debug)]
pub struct FormatOptions {
    pub file: String,
    pub project: Option<String>,
    pub language_version: Option<u32>,
    pub check: bool,
}

/// The walk of `parse_format` from argument `i`.
pub open spec fn format_scan(
    args: Seq<Seq<char>>,
    i: int,
    file: Option<Seq<char>>,
    project: Option<Seq<char>>,
    language_version: Option<u32>,
    check: bool,
) -> Result<(Option<Seq<char>>, Option<Seq<char>>, Option<u32>, bool), ErrorView>
    decreases args.len() - i,
{
    if i < 0 || i >= args.len() {
        Ok((file, project, language_version, check))
    } else {
        let a = args[i];
        if a == "-f"@ || a == "--file"@ || a == "-p"@ || a == "--project"@ || a
            == "--nostdb-version"@ {
            if i + 1 >= args.len() {
                Err(missing_value())
            } else {
                let v = args[i + 1];
                if a == "-f"@ || a == "--file"@ {
                    format_scan(args, i + 2, Some(v), project, language_version, check)
                } else if a == "-p"@ || a == "--project"@ {
                    format_scan(args, i + 2, file, Some(v), language_version, check)
                } else {
                    match parse_u32_spec(v) {
                        Some(n) => format_scan(args, i + 2, file, project, Some(n), check),
                        None => Err(usage("--nostdb-version must be an unsigned integer"@)),
                    }
                }
            }
        } else if a == "--check"@ {
            format_scan(args, i + 1, file, project, language_version, true)
        } else {
            Err(unknown_option(a))
        }
    }
}

/// What `parse_format` returns: `--project` and `--nostdb-version` are
/// mutually exclusive, and `--file` is required.
pub open spec fn format_spec(args: Seq<Seq<char>>) -> Result<
    (Seq<char>, Option<Seq<char>>, Option<u32>, bool),
    ErrorView,
> {
    match format_scan(args, 0, None, None, None, false) {
        Err(e) => Err(e),
        Ok((file, project, language_version, check)) => if project is Some
            && language_version is Some {
            Err(usage("--project and --nostdb-version are mutually exclusive"@))
        } else {
            match file {
                Some(f) => Ok((f, project, language_version, check)),
                None => Err(usage("--file is required"@)),
            }
        },
    }
}

/// `format` reads the language version from the project or from
/// `--nostdb-version`, never from both.
pub proof fn lemma_format_version_source(args: Seq<Seq<char>>)
    ensures
        format_spec(args) matches Ok(v) ==> !(v.1 is Some && v.2 is Some),
{
}

pub fn parse_format(arguments: Vec<String>) -> (result: Result<FormatOptions, CliError>)
    ensures
        match format_spec(views(arguments@)) {
            Ok(v) => result matches Ok(o) && (o.file@, opt(o.project), o.language_version, o.check)
                == v,
            Err(e) => fails_with(result, e),
        },
{
    let ghost args = views(arguments@);
    let mut file: Option<String> = None;
    let mut project: Option<String> = None;
    let mut language_version: Option<u32> = None;
    let mut check = false;
    let mut index: usize = 0;
    while index < arguments.len()
        invariant
            args == views(arguments@),
            index <= arguments@.len(),
            format_scan(args, index as int, opt(file), opt(project), language_version, check)
                == format_scan(args, 0, None, None, None, false),
        decreases arguments@.len() - index,
    {
        let a = arguments[index].as_str();
        assert(args[index as int] == a@);
        if text_eq(a, "-f") || text_eq(a, "--file") {
            match value(arguments.as_slice(), &mut index) {
                Ok(v) => file = Some(owned(v)),
                Err(e) => return Err(e),
            }
        } else if text_eq(a, "-p") || text_eq(a, "--project") {
            match value(arguments.as_slice(), &mut index) {
                Ok(v) => project = Some(owned(v)),
                Err(e) => return Err(e),
            }
        } else if text_eq(a, "--nostdb-version") {
            match value(arguments.as_slice(), &mut index) {
                Ok(v) => match parse_u32(v) {
                    Some(n) => language_version = Some(n),
                    None => {
                        return Err(
                            CliError::usage(owned("--nostdb-version must be an unsigned integer")),
                        );
                    },
                },
                Err(e) => return Err(e),
            }
        } else if text_eq(a, "--check") {
            check = true;
        } else {
            return Err(CliError::usage(join3("unknown option `", a, "`")));
        }
        index += 1;
    }
    if project.is_some() && language_version.is_some() {
        return Err(
            CliError::usage(owned("--project and --nostdb-version are mutually exclusive")),
        );
    }
    match file {
        Some(file) => Ok(FormatOptions { file, project, language_version, check }),
        None => Err(CliError::usage(owned("--file is required"))),
    }
}

/// A named-database administration operation.
#[derive(Debug)]
pub enum DatabaseCommand {
    Create(String),
    List,
    Inspect(String),
    Rename { name: String, new_name: String },
    Drop { name: String, confirm_name: String },
    Snapshot { name: String, output: String },
    Restore { name: String, file: String },
    ExportLogical { name: String, output: String },
    ImportLogical { name: String, file: String },
}

/// The view of a database operation: its texts.
pub enum CommandView {
    Create(Seq<char>),
    List,
    Inspect(Seq<char>),
    Rename(Seq<char>, Seq<char>),
    Drop(Seq<char>, Seq<char>),
    Snapshot(Seq<char>, Seq<char>),
    Restore(Seq<char>, Seq<char>),
    ExportLogical(Seq<char>, Seq<char>),
    ImportLogical(Seq<char>, Seq<char>),
}

impl View for DatabaseCommand {
    type V = CommandView;

    open spec fn view(&self) -> CommandView {
        match self {
            DatabaseCommand::Create(name) => CommandView::Create(name@),
            DatabaseCommand::List => CommandView::List,
            DatabaseCommand::Inspect(name) => CommandView::Inspect(name@),
            DatabaseCommand::Rename { name, new_name } => CommandView::Rename(name@, new_name@),
            DatabaseCommand::Drop { name, confirm_name } => CommandView::Drop(name@, confirm_name@),
            DatabaseCommand::Snapshot { name, output } => CommandView::Snapshot(name@, output@),
            DatabaseCommand::Restore { name, file } => CommandView::Restore(name@, file@),
            DatabaseCommand::ExportLogical { name, output } => CommandView::ExportLogical(
                name@,
                output@,
            ),
            DatabaseCommand::ImportLogical { name, file } => CommandView::ImportLogical(
                name@,
                file@,
            ),
        }
    }
}

/// Options of the `database` command.
#[derive(Debug)]
pub struct DatabaseOptions {
    pub command: DatabaseCommand,
    pub remote: RemoteOptions,
    pub format: OutputFormat,
}

/// The options and operands gathered by `parse_database`.
pub struct DatabaseScan {
    pub server: Option<Seq<char>>,
    pub credential_file: Option<Seq<char>>,
    pub confirm: Option<Seq<char>>,
    pub output: Option<Seq<char>>,
    pub file: Option<Seq<char>>,
    pub format: OutputFormat,
    pub operands: Seq<Seq<char>>,
}

pub open spec fn empty_database_scan() -> DatabaseScan {
    DatabaseScan {
        server: None,
        credential_file: None,
        confirm: None,
        output: None,
        file: None,
        format: OutputFormat::Table,
        operands: seq![],
    }
}

/// The walk of `parse_database` over the arguments after the operation,
/// which comes first.
pub open spec fn database_scan(args: Seq<Seq<char>>, i: int, st: DatabaseScan) -> Result<
    DatabaseScan,
    ErrorView,
>
    decreases args.len() - i,
{
    if i < 0 || i >= args.len() {
        Ok(st)
    } else {
        let a = args[i];
        if a == "--server"@ || a == "--credential-file"@ || a == "--confirm"@ || a == "--output"@
            || a == "--file"@ || a == "--format"@ {
            if i + 1 >= args.len() {
                Err(missing_value())
            } else {
                let v = args[i + 1];
                if a == "--server"@ {
                    database_scan(args, i + 2, DatabaseScan { server: Some(v), ..st })
                } else if a == "--credential-file"@ {
                    database_scan(args, i + 2, DatabaseScan { credential_file: Some(v), ..st })
                } else if a == "--confirm"@ {
                    database_scan(args, i + 2, DatabaseScan { confirm: Some(v), ..st })
                } else if a == "--output"@ {
                    database_scan(args, i + 2, DatabaseScan { output: Some(v), ..st })
                } else if a == "--file"@ {
                    database_scan(args, i + 2, DatabaseScan { file: Some(v), ..st })
                } else {
                    match format_named(v) {
                        Some(f) => database_scan(args, i + 2, DatabaseScan { format: f, ..st }),
                        None => Err(unknown_format(v)),
                    }
                }
            }
        } else if a.len() > 0 && a[0] == '-' {
            Err(usage("unknown database option `"@ + a + "`"@))
        } else {
            database_scan(args, i + 1, DatabaseScan { operands: st.operands.push(a), ..st })
        }
    }
}

/// The error for a wrong number of operands.
pub open spec fn expects(operation: Seq<char>, count: Seq<char>) -> ErrorView {
    usage("database "@ + operation + " expects "@ + count + " name argument(s)"@)
}

/// The operation named `operation` with the gathered operands and options.
pub open spec fn database_command(operation: Seq<char>, st: DatabaseScan) -> Result<
    CommandView,
    ErrorView,
> {
    let n = st.operands.len();
    let ops = st.operands;
    if operation == "create"@ {
        if n != 1 { Err(expects(operation, "1"@)) } else { Ok(CommandView::Create(ops[0])) }
    } else if operation == "list"@ {
        if n != 0 { Err(expects(operation, "0"@)) } else { Ok(CommandView::List) }
    } else if operation == "inspect"@ {
        if n != 1 { Err(expects(operation, "1"@)) } else { Ok(CommandView::Inspect(ops[0])) }
    } else if operation == "rename"@ {
        if n != 2 { Err(expects(operation, "2"@)) } else { Ok(CommandView::Rename(ops[0], ops[1])) }
    } else if operation == "drop"@ {
        if n != 1 {
            Err(expects(operation, "1"@))
        } else {
            match st.confirm {
                Some(c) => Ok(CommandView::Drop(ops[0], c)),
                None => Err(usage("database drop requires --confirm NAME"@)),
            }
        }
    } else if operation == "snapshot"@ {
        if n != 1 {
            Err(expects(operation, "1"@))
        } else {
            match st.output {
                Some(o) => Ok(CommandView::Snapshot(ops[0], o)),
                None => Err(usage("database snapshot requires --output PATH"@)),
            }
        }
    } else if operation == "restore"@ {
        if n != 1 {
            Err(expects(operation, "1"@))
        } else {
            match st.file {
                Some(f) => Ok(CommandView::Restore(ops[0], f)),
                None => Err(usage("database restore requires --file PATH"@)),
            }
        }
    } else if operation == "export-logical"@ {
        if n != 1 {
            Err(expects(operation, "1"@))
        } else {
            match st.output {
                Some(o) => Ok(CommandView::ExportLogical(ops[0], o)),
                None => Err(usage("database export-logical requires --output PATH"@)),
            }
        }
    } else if operation == "import-logical"@ {
        if n != 1 {
            Err(expects(operation, "1"@))
        } else {
            match st.file {
                Some(f) => Ok(CommandView::ImportLogical(ops[0], f)),
                None => Err(usage("database import-logical requires --file PATH"@)),
            }
        }
    } else {
        Err(usage("unknown database operation `"@ + operation + "`"@))
    }
}

/// What `parse_database` returns: the operation comes first; `--confirm`
/// belongs to `drop` only, `--output` to `snapshot` and `export-logical`,
/// `--file` to `restore` and `import-logical`; `--server` is required.
pub open spec fn database_spec(args: Seq<Seq<char>>) -> Result<
    (CommandView, Seq<char>, Option<Seq<char>>, OutputFormat),
    ErrorView,
> {
    if args.len() == 0 {
        Err(usage("database operation is required"@))
    } else {
        match database_scan(args, 1, empty_database_scan()) {
            Err(e) => Err(e),
            Ok(st) => match database_command(args[0], st) {
                Err(e) => Err(e),
                Ok(command) => if !(command is Drop) && st.confirm is Some {
                    Err(usage("--confirm is valid only for database drop"@))
                } else if !(command is Snapshot || command is ExportLogical) && st.output is Some {
                    Err(usage("--output is valid only for snapshot or export-logical"@))
                } else if !(command is Restore || command is ImportLogical) && st.file is Some {
                    Err(usage("--file is valid only for restore or import-logical"@))
                } else {
                    match st.server {
                        Some(server) => Ok((command, server, st.credential_file, st.format)),
                        None => Err(usage("--server is required"@)),
                    }
                },
            },
        }
    }
}

/// The name by which a database operation is invoked.
pub open spec fn operation_name(command: CommandView) -> Seq<char> {
    match command {
        CommandView::Create(_) => "create"@,
        CommandView::List => "list"@,
        CommandView::Inspect(_) => "inspect"@,
        CommandView::Rename(_, _) => "rename"@,
        CommandView::Drop(_, _) => "drop"@,
        CommandView::Snapshot(_, _) => "snapshot"@,
        CommandView::Restore(_, _) => "restore"@,
        CommandView::ExportLogical(_, _) => "export-logical"@,
        CommandView::ImportLogical(_, _) => "import-logical"@,
    }
}

/// The number of names a database operation takes.
pub open spec fn operand_count(command: CommandView) -> nat {
    match command {
        CommandView::List => 0,
        CommandView::Rename(_, _) => 2,
        _ => 1,
    }
}

proof fn lemma_database_scan_usage(args: Seq<Seq<char>>, i: int, st: DatabaseScan)
    ensures
        database_scan(args, i, st) matches Err(e) ==> e.0 == EXIT_USAGE,
    decreases args.len() - i,
{
    if 0 <= i < args.len() {
        let a = args[i];
        if a == "--server"@ || a == "--credential-file"@ || a == "--confirm"@ || a == "--output"@
            || a == "--file"@ || a == "--format"@ {
            if i + 1 < args.len() {
                let v = args[i + 1];
                lemma_database_scan_usage(args, i + 2, DatabaseScan { server: Some(v), ..st });
                lemma_database_scan_usage(
                    args,
                    i + 2,
                    DatabaseScan { credential_file: Some(v), ..st },
                );
                lemma_database_scan_usage(args, i + 2, DatabaseScan { confirm: Some(v), ..st });
                lemma_database_scan_usage(args, i + 2, DatabaseScan { output: Some(v), ..st });
                lemma_database_scan_usage(args, i + 2, DatabaseScan { file: Some(v), ..st });
                if let Some(f) = format_named(v) {
                    lemma_database_scan_usage(args, i + 2, DatabaseScan { format: f, ..st });
                }
            }
        } else if !(a.len() > 0 && a[0] == '-') {
            lemma_database_scan_usage(
                args,
                i + 1,
                DatabaseScan { operands: st.operands.push(a), ..st },
            );
        }
    }
}

/// What `parse_database` guarantees of every argument list: a refusal is
/// a usage error (code 2), and no arguments are refused; an accepted
/// command is the operation named first, with no name for `list`, two for
/// `rename` and one otherwise; `--server` was given; and `--confirm`,
/// `--output` and `--file` were given exactly for the operations that take
/// them (`drop`; `snapshot` and `export-logical`; `restore` and
/// `import-logical`).
pub proof fn lemma_database_arguments(args: Seq<Seq<char>>)
    ensures
        database_spec(args) matches Err(e) ==> e.0 == EXIT_USAGE,
        args.len() == 0 ==> database_spec(args) is Err,
        database_spec(args) matches Ok(v) ==> (database_scan(args, 1, empty_database_scan()) matches Ok(
            st,
        ) && args[0] == operation_name(v.0) && st.operands.len() == operand_count(v.0)
            && st.server == Some(v.1) && (st.confirm is Some <==> v.0 is Drop) && (st.output is Some
            <==> (v.0 is Snapshot || v.0 is ExportLogical)) && (st.file is Some <==> (v.0 is Restore
            || v.0 is ImportLogical))),
{
    lemma_database_scan_usage(args, 1, empty_database_scan());
}

fn expects_error(operation: &str, count: &str) -> (error: CliError)
    ensures
        error.code == EXIT_USAGE,
        error.message@ == "database "@ + operation@ + " expects "@ + count@ + " name argument(s)"@,
{
    let mut message = owned("database ");
    crate::text::append(&mut message, operation);
    crate::text::append(&mut message, " expects ");
    crate::text::append(&mut message, count);
    crate::text::append(&mut message, " name argument(s)");
    CliError::usage(message)
}

fn copy(text: &String) -> (result: String)
    ensures
        result@ == text@,
{
    owned(text.as_str())
}

pub fn parse_database(arguments: Vec<String>) -> (result: Result<DatabaseOptions, CliError>)
    ensures
        match database_spec(views(arguments@)) {
            Ok(v) => result matches Ok(o) && (o.command@, o.remote.server@, opt(
                o.remote.credential_file,
            ), o.format) == v,
            Err(e) => fails_with(result, e),
        },
{
    if arguments.len() == 0 {
        return Err(CliError::usage(owned("database operation is required")));
    }
    let ghost args = views(arguments@);
    let mut server: Option<String> = None;
    let mut credential_file: Option<String> = None;
    let mut confirm: Option<String> = None;
    let mut output: Option<String> = None;
    let mut file: Option<String> = None;
    let mut format = OutputFormat::Table;
    let mut operands: Vec<String> = Vec::new();
    let mut index: usize = 1;
    assert(views(operands@) =~= Seq::<Seq<char>>::empty());
    while index < arguments.len()
        invariant
            args == views(arguments@),
            1 <= index <= arguments@.len(),
            database_scan(
                args,
                index as int,
                DatabaseScan {
                    server: opt(server),
                    credential_file: opt(credential_file),
                    confirm: opt(confirm),
                    output: opt(output),
                    file: opt(file),
                    format,
                    operands: views(operands@),
                },
            ) == database_scan(args, 1, empty_database_scan()),
        decreases arguments@.len() - index,
    {
        let a = arguments[index].as_str();
        assert(args[index as int] == a@);
        if text_eq(a, "--server") {
            match value(arguments.as_slice(), &mut index) {
                Ok(v) => server = Some(owned(v)),
                Err(e) => return Err(e),
            }
        } else if text_eq(a, "--credential-file") {
            match value(arguments.as_slice(), &mut index) {
                Ok(v) => credential_file = Some(owned(v)),
                Err(e) => return Err(e),
            }
        } else if text_eq(a, "--confirm") {
            match value(arguments.as_slice(), &mut index) {
                Ok(v) => confirm = Some(owned(v)),
                Err(e) => return Err(e),
            }
        } else if text_eq(a, "--output") {
            match value(arguments.as_slice(), &mut index) {
                Ok(v) => output = Some(owned(v)),
                Err(e) => return Err(e),
            }
        } else if text_eq(a, "--file") {
            match value(arguments.as_slice(), &mut index) {
                Ok(v) => file = Some(owned(v)),
                Err(e) => return Err(e),
            }
        } else if text_eq(a, "--format") {
            match value(arguments.as_slice(), &mut index) {
                Ok(v) => match OutputFormat::parse(v) {
                    Ok(f) => format = f,
                    Err(e) => return Err(e),
                },
                Err(e) => return Err(e),
            }
        } else if starts_with_char(a, '-') {
            return Err(CliError::usage(join3("unknown database option `", a, "`")));
        } else {
            let ghost before = views(operands@);
            operands.push(owned(a));
            assert(views(operands@) == before.push(a@));
        }
        index += 1;
    }
    let ghost st = DatabaseScan {
        server: opt(server),
        credential_file: opt(credential_file),
        confirm: opt(confirm),
        output: opt(output),
        file: opt(file),
        format,
        operands: views(operands@),
    };
    assert(database_scan(args, 1, empty_database_scan()) == Ok::<DatabaseScan, ErrorView>(st));
    let n = operands.len();
    let op = arguments[0].as_str();
    assert(args[0] == op@);
    if n > 0 {
        assert(views(operands@)[0] == operands@[0]@);
    }
    if n > 1 {
        assert(views(operands@)[1] == operands@[1]@);
    }
    let command = if text_eq(op, "create") {
        if n != 1 {
            return Err(expects_error(op, "1"));
        }
        DatabaseCommand::Create(copy(&operands[0]))
    } else if text_eq(op, "list") {
        if n != 0 {
            return Err(expects_error(op, "0"));
        }
        DatabaseCommand::List
    } else if text_eq(op, "inspect") {
        if n != 1 {
            return Err(expects_error(op, "1"));
        }
        DatabaseCommand::Inspect(copy(&operands[0]))
    } else if text_eq(op, "rename") {
        if n != 2 {
            return Err(expects_error(op, "2"));
        }
        DatabaseCommand::Rename { name: copy(&operands[0]), new_name: copy(&operands[1]) }
    } else if text_eq(op, "drop") {
        if n != 1 {
            return Err(expects_error(op, "1"));
        }
        match &confirm {
            Some(c) => DatabaseCommand::Drop { name: copy(&operands[0]), confirm_name: copy(c) },
            None => return Err(CliError::usage(owned("database drop requires --confirm NAME"))),
        }
    } else if text_eq(op, "snapshot") {
        if n != 1 {
            return Err(expects_error(op, "1"));
        }
        match &output {
            Some(o) => DatabaseCommand::Snapshot { name: copy(&operands[0]), output: copy(o) },
            None => return Err(CliError::usage(owned("database snapshot requires --output PATH"))),
        }
    } else if text_eq(op, "restore") {
        if n != 1 {
            return Err(expects_error(op, "1"));
        }
        match &file {
            Some(f) => DatabaseCommand::Restore { name: copy(&operands[0]), file: copy(f) },
            None => return Err(CliError::usage(owned("database restore requires --file PATH"))),
        }
    } else if text_eq(op, "export-logical") {
        if n != 1 {
            return Err(expects_error(op, "1"));
        }
        match &output {
            Some(o) => DatabaseCommand::ExportLogical { name: copy(&operands[0]), output: copy(o) },
            None => {
                return Err(
                    CliError::usage(owned("database export-logical requires --output PATH")),
                )
            },
        }
    } else if text_eq(op, "import-logical") {
        if n != 1 {
            return Err(expects_error(op, "1"));
        }
        match &file {
            Some(f) => DatabaseCommand::ImportLogical { name: copy(&operands[0]), file: copy(f) },
            None => {
                return Err(CliError::usage(owned("database import-logical requires --file PATH")))
            },
        }
    } else {
        return Err(CliError::usage(join3("unknown database operation `", op, "`")));
    };
    assert(database_command(args[0], st) == Ok::<CommandView, ErrorView>(command@));
    let is_drop = match &command {
        DatabaseCommand::Drop { .. } => true,
        _ => false,
    };
    let writes_output = match &command {
        DatabaseCommand::Snapshot { .. } | DatabaseCommand::ExportLogical { .. } => true,
        _ => false,
    };
    let reads_file = match &command {
        DatabaseCommand::Restore { .. } | DatabaseCommand::ImportLogical { .. } => true,
        _ => false,
    };
    if !is_drop && confirm.is_some() {
        return Err(CliError::usage(owned("--confirm is valid only for database drop")));
    }
    if !writes_output && output.is_some() {
        return Err(CliError::usage(owned("--output is valid only for snapshot or export-logical")));
    }
    if !reads_file && file.is_some() {
        return Err(CliError::usage(owned("--file is valid only for restore or import-logical")));
    }
    match server {
        Some(server) => Ok(
            DatabaseOptions { command, remote: RemoteOptions { server, credential_file }, format },
        ),
        None => Err(CliError::usage(owned("--server is required"))),
    }
}

/// The options of the `query` command as written on the command line.
#[derive(Debug)]
pub struct QueryArguments {
    pub database: Option<String>,
    pub project: Option<String>,
    pub format: OutputFormat,
    pub query: Option<String>,
    pub file: Option<String>,
    pub read_only: bool,
    pub interactive: bool,
    pub server: Option<String>,
    pub credential_file: Option<String>,
}

/// The view of the `query` options gathered so far.
pub struct QueryScan {
    pub database: Option<Seq<char>>,
    pub project: Option<Seq<char>>,
    pub format: OutputFormat,
    pub query: Option<Seq<char>>,
    pub file: Option<Seq<char>>,
    pub read_only: bool,
    pub interactive: bool,
    pub server: Option<Seq<char>>,
    pub credential_file: Option<Seq<char>>,
}

impl View for QueryArguments {
    type V = QueryScan;

    open spec fn view(&self) -> QueryScan {
        QueryScan {
            database: opt(self.database),
            project: opt(self.project),
            format: self.format,
            query: opt(self.query),
            file: opt(self.file),
            read_only: self.read_only,
            interactive: self.interactive,
            server: opt(self.server),
            credential_file: opt(self.credential_file),
        }
    }
}

pub open spec fn empty_query_scan() -> QueryScan {
    QueryScan {
        database: None,
        project: None,
        format: OutputFormat::Table,
        query: None,
        file: None,
        read_only: false,
        interactive: false,
        server: None,
        credential_file: None,
    }
}

/// The walk of `parse_query` from argument `i`: the gathered options, or
/// `None` when help was asked for, or the first error.
pub open spec fn query_scan(args: Seq<Seq<char>>, i: int, st: QueryScan) -> Result<
    Option<QueryScan>,
    ErrorView,
>
    decreases args.len() - i,
{
    if i < 0 || i >= args.len() {
        Ok(Some(st))
    } else {
        let a = args[i];
        if a == "-d"@ || a == "--database"@ || a == "-p"@ || a == "--project"@ || a
            == "--server"@ || a == "--credential-file"@ || a == "-f"@ || a == "--file"@ || a
            == "--format"@ {
            if i + 1 >= args.len() {
                Err(missing_value())
            } else {
                let v = args[i + 1];
                if a == "-d"@ || a == "--database"@ {
                    query_scan(args, i + 2, QueryScan { database: Some(v), ..st })
                } else if a == "-p"@ || a == "--project"@ {
                    query_scan(args, i + 2, QueryScan { project: Some(v), ..st })
                } else if a == "--server"@ {
                    query_scan(args, i + 2, QueryScan { server: Some(v), ..st })
                } else if a == "--credential-file"@ {
                    query_scan(args, i + 2, QueryScan { credential_file: Some(v), ..st })
                } else if a == "-f"@ || a == "--file"@ {
                    query_scan(args, i + 2, QueryScan { file: Some(v), ..st })
                } else {
                    match format_named(v) {
                        Some(f) => query_scan(args, i + 2, QueryScan { format: f, ..st }),
                        None => Err(unknown_format(v)),
                    }
                }
            }
        } else if a == "--read-only"@ {
            query_scan(args, i + 1, QueryScan { read_only: true, ..st })
        } else if a == "--interactive"@ {
            query_scan(args, i + 1, QueryScan { interactive: true, ..st })
        } else if a == "-h"@ || a == "--help"@ {
            Ok(None)
        } else if a.len() > 0 && a[0] == '-' {
            Err(unknown_option(a))
        } else if st.query is Some {
            Err(usage("only one inline query is allowed"@))
        } else {
            query_scan(args, i + 1, QueryScan { query: Some(a), ..st })
        }
    }
}

/// What `parse_query` returns: `None` for help, else the options once the
/// inline query, `--file` and `--interactive` are checked to exclude each
/// other.
pub open spec fn query_spec(args: Seq<Seq<char>>) -> Result<Option<QueryScan>, ErrorView> {
    match query_scan(args, 0, empty_query_scan()) {
        Err(e) => Err(e),
        Ok(None) => Ok(None),
        Ok(Some(st)) => if st.query is Some && st.file is Some {
            Err(usage("QUERY and --file are mutually exclusive"@))
        } else if st.interactive && (st.query is Some || st.file is Some) {
            Err(usage("--interactive cannot be combined with QUERY or --file"@))
        } else {
            Ok(Some(st))
        },
    }
}

proof fn lemma_query_scan_usage(args: Seq<Seq<char>>, i: int, st: QueryScan)
    ensures
        query_scan(args, i, st) matches Err(e) ==> e.0 == EXIT_USAGE,
    decreases args.len() - i,
{
    if 0 <= i < args.len() {
        let a = args[i];
        if i + 1 < args.len() {
            let v = args[i + 1];
            lemma_query_scan_usage(args, i + 2, QueryScan { database: Some(v), ..st });
            lemma_query_scan_usage(args, i + 2, QueryScan { project: Some(v), ..st });
            lemma_query_scan_usage(args, i + 2, QueryScan { server: Some(v), ..st });
            lemma_query_scan_usage(args, i + 2, QueryScan { credential_file: Some(v), ..st });
            lemma_query_scan_usage(args, i + 2, QueryScan { file: Some(v), ..st });
            if let Some(f) = format_named(v) {
                lemma_query_scan_usage(args, i + 2, QueryScan { format: f, ..st });
            }
        }
        lemma_query_scan_usage(args, i + 1, QueryScan { read_only: true, ..st });
        lemma_query_scan_usage(args, i + 1, QueryScan { interactive: true, ..st });
        lemma_query_scan_usage(args, i + 1, QueryScan { query: Some(a), ..st });
    }
}

/// What a `query` command line gives: every refusal, in reading the
/// arguments or in completing them, is a usage error (code 2). Accepted
/// options never hold both an inline query and a file, nor an interactive
/// session together with either; a remote query names its database and no
/// project, and a credential file comes only with a server. Two inline
/// queries are refused.
pub proof fn lemma_query_arguments(
    args: Seq<Seq<char>>,
    configured_root: Option<Seq<char>>,
    first: Seq<char>,
    second: Seq<char>,
)
    ensures
        query_spec(args) matches Err(e) ==> e.0 == EXIT_USAGE,
        query_spec(args) matches Ok(Some(st)) ==> (!(st.query is Some && st.file is Some) && !(
        st.interactive && (st.query is Some || st.file is Some)) && (finish_spec(
            st,
            configured_root,
        ) matches Err(e) ==> e.0 == EXIT_USAGE) && (finish_spec(st, configured_root) matches Ok(
            v,
        ) ==> (v.server is Some ==> st.database is Some && v.project is None) && (v.server is None
            ==> v.credential_file is None))),
        !(first.len() > 0 && first[0] == '-') && !(second.len() > 0 && second[0] == '-')
            ==> query_spec(seq![first, second]) is Err,
{
    lemma_query_scan_usage(args, 0, empty_query_scan());
    if !(first.len() > 0 && first[0] == '-') && !(second.len() > 0 && second[0] == '-') {
        reveal_strlit("-d");
        reveal_strlit("--database");
        reveal_strlit("-p");
        reveal_strlit("--project");
        reveal_strlit("--server");
        reveal_strlit("--credential-file");
        reveal_strlit("-f");
        reveal_strlit("--file");
        reveal_strlit("--format");
        reveal_strlit("--read-only");
        reveal_strlit("--interactive");
        reveal_strlit("-h");
        reveal_strlit("--help");
        let args2 = seq![first, second];
        let st1 = QueryScan { query: Some(first), ..empty_query_scan() };
        assert(args2[0] == first && args2[1] == second);
        assert(query_scan(args2, 0, empty_query_scan()) == query_scan(args2, 1, st1));
        assert(query_scan(args2, 1, st1) is Err);
    }
}

/// The outcome of reading the `query` command line.
#[derive(Debug)]
pub enum QueryParse {
    /// Help was asked for.
    Help,
    Arguments(QueryArguments),
}

/// Reads the `query` command line; `finish_query` completes the options.
pub fn parse_query(arguments: Vec<String>) -> (result: Result<QueryParse, CliError>)
    ensures
        match query_spec(views(arguments@)) {
            Ok(None) => result matches Ok(QueryParse::Help),
            Ok(Some(v)) => result matches Ok(QueryParse::Arguments(a)) && a@ == v,
            Err(e) => fails_with(result, e),
        },
{
    let ghost args = views(arguments@);
    let mut st = QueryArguments {
        database: None,
        project: None,
        format: OutputFormat::Table,
        query: None,
        file: None,
        read_only: false,
        interactive: false,
        server: None,
        credential_file: None,
    };
    let mut index: usize = 0;
    while index < arguments.len()
        invariant
            args == views(arguments@),
            index <= arguments@.len(),
            query_scan(args, index as int, st@) == query_scan(args, 0, empty_query_scan()),
        decreases arguments@.len() - index,
    {
        let a = arguments[index].as_str();
        assert(args[index as int] == a@);
        if text_eq(a, "-d") || text_eq(a, "--database") {
            match value(arguments.as_slice(), &mut index) {
                Ok(v) => st.database = Some(owned(v)),
                Err(e) => return Err(e),
            }
        } else if text_eq(a, "-p") || text_eq(a, "--project") {
            match value(arguments.as_slice(), &mut index) {
                Ok(v) => st.project = Some(owned(v)),
                Err(e) => return Err(e),
            }
        } else if text_eq(a, "--server") {
            match value(arguments.as_slice(), &mut index) {
                Ok(v) => st.server = Some(owned(v)),
                Err(e) => return Err(e),
            }
        } else if text_eq(a, "--credential-file") {
            match value(arguments.as_slice(), &mut index) {
                Ok(v) => st.credential_file = Some(owned(v)),
                Err(e) => return Err(e),
            }
        } else if text_eq(a, "-f") || text_eq(a, "--file") {
            match value(arguments.as_slice(), &mut index) {
                Ok(v) => st.file = Some(owned(v)),
                Err(e) => return Err(e),
            }
        } else if text_eq(a, "--format") {
            match value(arguments.as_slice(), &mut index) {
                Ok(v) => match OutputFormat::parse(v) {
                    Ok(f) => st.format = f,
                    Err(e) => return Err(e),
                },
                Err(e) => return Err(e),
            }
        } else if text_eq(a, "--read-only") {
            st.read_only = true;
        } else if text_eq(a, "--interactive") {
            st.interactive = true;
        } else if text_eq(a, "-h") || text_eq(a, "--help") {
            return Ok(QueryParse::Help);
        } else if starts_with_char(a, '-') {
            return Err(CliError::usage(join3("unknown option `", a, "`")));
        } else if st.query.is_some() {
            return Err(CliError::usage(owned("only one inline query is allowed")));
        } else {
            st.query = Some(owned(a));
        }
        index += 1;
    }
    if st.query.is_some() && st.file.is_some() {
        return Err(CliError::usage(owned("QUERY and --file are mutually exclusive")));
    }
    if st.interactive && (st.query.is_some() || st.file.is_some()) {
        return Err(CliError::usage(owned("--interactive cannot be combined with QUERY or --file")));
    }
    Ok(QueryParse::Arguments(st))
}

/// The options of the `query` command.
#[derive(Debug)]
pub struct QueryOptions {
    pub common: CommonOptions,
    pub query: Option<String>,
    pub file: Option<String>,
    pub read_only: bool,
    pub interactive: bool,
    pub remote: Option<RemoteOptions>,
}

impl View for QueryOptions {
    type V = QueryScan;

    open spec fn view(&self) -> QueryScan {
        QueryScan {
            database: Some(self.common.database@),
            project: opt(self.common.project),
            format: self.common.format,
            query: opt(self.query),
            file: opt(self.file),
            read_only: self.read_only,
            interactive: self.interactive,
            server: match self.remote {
                Some(r) => Some(r.server@),
                None => None,
            },
            credential_file: match self.remote {
                Some(r) => opt(r.credential_file),
                None => None,
            },
        }
    }
}

/// What `Path::join` gives on Unix for a relative name: the name alone
/// after an empty path, else both with one `/` between them.
pub open spec fn join_path(root: Seq<char>, name: Seq<char>) -> Seq<char> {
    if root.len() == 0 {
        name
    } else if root.last() == '/' {
        root + name
    } else {
        root + "/"@ + name
    }
}

/// The database that a project configures: its root database file,
/// inside the project's `.nostdb` directory.
pub open spec fn project_database(project: Seq<char>, root: Seq<char>) -> Seq<char> {
    join_path(join_path(project, ".nostdb"@), root)
}

fn join_path_exec(root: &str, name: &str) -> (path: String)
    ensures
        path@ == join_path(root@, name@),
{
    let chars = crate::text::chars_of(root);
    if chars.len() == 0 {
        owned(name)
    } else if chars[chars.len() - 1] == '/' {
        crate::text::join2(root, name)
    } else {
        join3(root, "/", name)
    }
}

/// The path of the database that a project configures.
pub fn project_database_path(project: &str, root: &str) -> (path: String)
    ensures
        path@ == project_database(project@, root@),
{
    let directory = join_path_exec(project, ".nostdb");
    join_path_exec(directory.as_str(), root)
}

/// The database a command opens: the one named by `--database`, else the
/// root database that the project's settings configure (`configured_root`,
/// read from them when a project is given).
pub open spec fn chosen_database(
    database: Option<Seq<char>>,
    project: Option<Seq<char>>,
    configured_root: Option<Seq<char>>,
) -> Option<Seq<char>> {
    match database {
        Some(d) => Some(d),
        None => match (project, configured_root) {
            (Some(p), Some(r)) => Some(project_database(p, r)),
            _ => None,
        },
    }
}

fn choose_database(
    database: Option<String>,
    project: &Option<String>,
    configured_root: Option<String>,
) -> (result: Option<String>)
    ensures
        opt(result) == chosen_database(opt(database), opt(*project), opt(configured_root)),
{
    match database {
        Some(d) => Some(d),
        None => match (project, configured_root) {
            (Some(p), Some(r)) => Some(project_database_path(p.as_str(), r.as_str())),
            _ => None,
        },
    }
}

/// The error for a command that has neither `--database` nor a project
/// whose settings name a database.
pub open spec fn database_required() -> ErrorView {
    usage("--database or --project is required"@)
}

/// What `finish_query` returns: a remote query needs `--database` and takes
/// no `--project`; a credential file needs a server; a local query opens
/// the named database, else the project's configured root database.
pub open spec fn finish_spec(st: QueryScan, configured_root: Option<Seq<char>>) -> Result<
    QueryScan,
    ErrorView,
> {
    if st.server is Some && st.database is None {
        Err(usage("remote query requires --database NAME"@))
    } else if st.server is Some && st.project is Some {
        Err(usage("remote query cannot use --project; import through the server lifecycle"@))
    } else if st.server is None && st.credential_file is Some {
        Err(usage("--credential-file requires --server"@))
    } else {
        match chosen_database(st.database, st.project, configured_root) {
            Some(d) => Ok(QueryScan { database: Some(d), ..st }),
            None => Err(database_required()),
        }
    }
}

/// Where a completed query runs: a remote query names no project and a
/// credential file comes only with a server; a local project query without
/// `--database` opens the root database that the project's settings
/// configure, and one with `--database` opens that database.
pub proof fn lemma_query_targets(st: QueryScan, configured_root: Option<Seq<char>>)
    ensures
        finish_spec(st, configured_root) matches Ok(v) ==> (v.server is Some ==> v.project is None)
            && (v.credential_file is Some ==> v.server is Some) && v.database is Some,
        (st.server is None && st.credential_file is None && st.project is Some
            && configured_root is Some && st.database is None) ==> finish_spec(st, configured_root)
            == Ok::<QueryScan, ErrorView>(
            QueryScan {
                database: Some(project_database(st.project->0, configured_root->0)),
                ..st
            },
        ),
        (st.server is None && st.credential_file is None && st.database is Some) ==> finish_spec(
            st,
            configured_root,
        ) == Ok::<QueryScan, ErrorView>(st),
{
}

/// Completes the options of the `query` command; `configured_root` is the
/// root database named by the project's settings, when a project is given.
pub fn finish_query(arguments: QueryArguments, configured_root: Option<String>) -> (result: Result<
    QueryOptions,
    CliError,
>)
    ensures
        match finish_spec(arguments@, opt(configured_root)) {
            Ok(v) => result matches Ok(o) && o@ == v,
            Err(e) => fails_with(result, e),
        },
{
    if arguments.server.is_some() && arguments.database.is_none() {
        return Err(CliError::usage(owned("remote query requires --database NAME")));
    }
    if arguments.server.is_some() && arguments.project.is_some() {
        return Err(
            CliError::usage(
                owned("remote query cannot use --project; import through the server lifecycle"),
            ),
        );
    }
    if arguments.server.is_none() && arguments.credential_file.is_some() {
        return Err(CliError::usage(owned("--credential-file requires --server")));
    }
    let QueryArguments {
        database,
        project,
        format,
        query,
        file,
        read_only,
        interactive,
        server,
        credential_file,
    } = arguments;
    let database = match choose_database(database, &project, configured_root) {
        Some(d) => d,
        None => return Err(CliError::usage(owned("--database or --project is required"))),
    };
    let remote = match server {
        Some(server) => Some(RemoteOptions { server, credential_file }),
        None => None,
    };
    Ok(
        QueryOptions {
            common: CommonOptions { database, project, format },
            query,
            file,
            read_only,
            interactive,
            remote,
        },
    )
}

/// Options of the `init` command.
#[derive(Debug)]
pub struct InitOptions {
    pub project: String,
    pub database: Option<String>,
    pub allow_nonempty: bool,
    pub format: OutputFormat,
}

/// The walk of `parse_init` from argument `i`: project, database, whether
/// nonempty directories are allowed, and the format.
pub open spec fn init_scan(
    args: Seq<Seq<char>>,
    i: int,
    project: Option<Seq<char>>,
    database: Option<Seq<char>>,
    allow: bool,
    format: OutputFormat,
) -> Result<(Option<Seq<char>>, Option<Seq<char>>, bool, OutputFormat), ErrorView>
    decreases args.len() - i,
{
    if i < 0 || i >= args.len() {
        Ok((project, database, allow, format))
    } else {
        let a = args[i];
        if a == "-p"@ || a == "--project"@ || a == "-d"@ || a == "--database"@ || a
            == "--format"@ {
            if i + 1 >= args.len() {
                Err(missing_value())
            } else {
                let v = args[i + 1];
                if a == "-p"@ || a == "--project"@ {
                    init_scan(args, i + 2, Some(v), database, allow, format)
                } else if a == "-d"@ || a == "--database"@ {
                    init_scan(args, i + 2, project, Some(v), allow, format)
                } else {
                    match format_named(v) {
                        Some(f) => init_scan(args, i + 2, project, database, allow, f),
                        None => Err(unknown_format(v)),
                    }
                }
            }
        } else if a == "--allow-nonempty"@ {
            init_scan(args, i + 1, project, database, true, format)
        } else {
            Err(unknown_option(a))
        }
    }
}

/// What `parse_init` returns: `--project` is required.
pub open spec fn init_spec(args: Seq<Seq<char>>) -> Result<
    (Seq<char>, Option<Seq<char>>, bool, OutputFormat),
    ErrorView,
> {
    match init_scan(args, 0, None, None, false, OutputFormat::Table) {
        Err(e) => Err(e),
        Ok((project, database, allow, format)) => match project {
            Some(p) => Ok((p, database, allow, format)),
            None => Err(usage("--project is required"@)),
        },
    }
}

pub fn parse_init(arguments: Vec<String>) -> (result: Result<InitOptions, CliError>)
    ensures
        match init_spec(views(arguments@)) {
            Ok(v) => result matches Ok(o) && (o.project@, opt(o.database), o.allow_nonempty, o.format)
                == v,
            Err(e) => fails_with(result, e),
        },
{
    let ghost args = views(arguments@);
    let mut project: Option<String> = None;
    let mut database: Option<String> = None;
    let mut allow = false;
    let mut format = OutputFormat::Table;
    let mut index: usize = 0;
    while index < arguments.len()
        invariant
            args == views(arguments@),
            index <= arguments@.len(),
            init_scan(args, index as int, opt(project), opt(database), allow, format) == init_scan(
                args,
                0,
                None,
                None,
                false,
                OutputFormat::Table,
            ),
        decreases arguments@.len() - index,
    {
        let a = arguments[index].as_str();
        assert(args[index as int] == a@);
        if text_eq(a, "-p") || text_eq(a, "--project") {
            match value(arguments.as_slice(), &mut index) {
                Ok(v) => project = Some(owned(v)),
                Err(e) => return Err(e),
            }
        } else if text_eq(a, "-d") || text_eq(a, "--database") {
            match value(arguments.as_slice(), &mut index) {
                Ok(v) => database = Some(owned(v)),
                Err(e) => return Err(e),
            }
        } else if text_eq(a, "--format") {
            match value(arguments.as_slice(), &mut index) {
                Ok(v) => match OutputFormat::parse(v) {
                    Ok(f) => format = f,
                    Err(e) => return Err(e),
                },
                Err(e) => return Err(e),
            }
        } else if text_eq(a, "--allow-nonempty") {
            allow = true;
        } else {
            return Err(CliError::usage(join3("unknown option `", a, "`")));
        }
        index += 1;
    }
    match project {
        Some(project) => Ok(InitOptions { project, database, allow_nonempty: allow, format }),
        None => Err(CliError::usage(owned("--project is required"))),
    }
}

} // verus!
