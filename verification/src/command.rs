//! The first reading of the command line: help, version, or a command with
//! its own arguments.
use vstd::prelude::*;

use crate::args::{fails_with, usage, ErrorView};
use crate::error::CliError;
use crate::help::{command_help, help_text, unknown_command, unknown_command_error};
use crate::split::views;
use crate::text::{owned, text_eq};

verus! {

/// The commands of the client.
#[derive(Clone, Copy, Debug, PartialEq, Eq, Structural)]
pub enum Command {
    Init,
    Update,
    Query,
    Server,
    Database,
    Sync,
    Format,
    Check,
    Doctor,
    Inspect,
    Stats,
    Schema,
    Unresolved,
    Imports,
    Warnings,
}

/// The command of the given name, if there is one.
pub open spec fn command_named(name: Seq<char>) -> Option<Command> {
    if name == "init"@ {
        Some(Command::Init)
    } else if name == "update"@ {
        Some(Command::Update)
    } else if name == "query"@ {
        Some(Command::Query)
    } else if name == "server"@ {
        Some(Command::Server)
    } else if name == "database"@ {
        Some(Command::Database)
    } else if name == "sync"@ {
        Some(Command::Sync)
    } else if name == "format"@ {
        Some(Command::Format)
    } else if name == "check"@ {
        Some(Command::Check)
    } else if name == "doctor"@ {
        Some(Command::Doctor)
    } else if name == "inspect"@ {
        Some(Command::Inspect)
    } else if name == "stats"@ {
        Some(Command::Stats)
    } else if name == "schema"@ {
        Some(Command::Schema)
    } else if name == "unresolved"@ {
        Some(Command::Unresolved)
    } else if name == "imports"@ {
        Some(Command::Imports)
    } else if name == "warnings"@ {
        Some(Command::Warnings)
    } else {
        None
    }
}

/// Whether an argument asks for help.
pub open spec fn is_help_flag(a: Seq<char>) -> bool {
    a == "-h"@ || a == "--help"@
}

/// Whether an argument asks for the version.
pub open spec fn is_version_flag(a: Seq<char>) -> bool {
    a == "-V"@ || a == "--version"@
}

/// What the command line asks for.
#[derive(Debug)]
pub enum Invocation {
    /// Print the general usage.
    Help,
    /// Print the version.
    Version,
    /// Print this usage text of one command.
    CommandHelp(String),
    /// Run a command with the arguments that follow its name.
    Run(Command, Vec<String>),
}

/// The view of an invocation.
pub enum InvocationView {
    Help,
    Version,
    CommandHelp(Seq<char>),
    Run(Command, Seq<Seq<char>>),
}

impl View for Invocation {
    type V = InvocationView;

    open spec fn view(&self) -> InvocationView {
        match self {
            Invocation::Help => InvocationView::Help,
            Invocation::Version => InvocationView::Version,
            Invocation::CommandHelp(text) => InvocationView::CommandHelp(text@),
            Invocation::Run(command, rest) => InvocationView::Run(*command, views(rest@)),
        }
    }
}

/// What the arguments after the program name ask for: no argument or a
/// leading help flag is help; a leading version flag is the version, and
/// must stand alone; a command followed by one help flag is its usage;
/// otherwise the first argument names the command to run.
pub open spec fn invocation_spec(args: Seq<Seq<char>>) -> Result<InvocationView, ErrorView> {
    if args.len() == 0 || is_help_flag(args[0]) {
        Ok(InvocationView::Help)
    } else if is_version_flag(args[0]) {
        if args.len() != 1 {
            Err(usage("--version does not accept arguments"@))
        } else {
            Ok(InvocationView::Version)
        }
    } else if args.len() == 2 && is_help_flag(args[1]) {
        match help_text(args[0]) {
            Some(text) => Ok(InvocationView::CommandHelp(text)),
            None => Err(unknown_command(args[0])),
        }
    } else {
        match command_named(args[0]) {
            Some(command) => Ok(InvocationView::Run(command, args.drop_first())),
            None => Err(unknown_command(args[0])),
        }
    }
}

fn is_help(a: &str) -> (r: bool)
    ensures
        r == is_help_flag(a@),
{
    text_eq(a, "-h") || text_eq(a, "--help")
}

fn command_of(name: &str) -> (result: Option<Command>)
    ensures
        result == command_named(name@),
{
    if text_eq(name, "init") {
        Some(Command::Init)
    } else if text_eq(name, "update") {
        Some(Command::Update)
    } else if text_eq(name, "query") {
        Some(Command::Query)
    } else if text_eq(name, "server") {
        Some(Command::Server)
    } else if text_eq(name, "database") {
        Some(Command::Database)
    } else if text_eq(name, "sync") {
        Some(Command::Sync)
    } else if text_eq(name, "format") {
        Some(Command::Format)
    } else if text_eq(name, "check") {
        Some(Command::Check)
    } else if text_eq(name, "doctor") {
        Some(Command::Doctor)
    } else if text_eq(name, "inspect") {
        Some(Command::Inspect)
    } else if text_eq(name, "stats") {
        Some(Command::Stats)
    } else if text_eq(name, "schema") {
        Some(Command::Schema)
    } else if text_eq(name, "unresolved") {
        Some(Command::Unresolved)
    } else if text_eq(name, "imports") {
        Some(Command::Imports)
    } else if text_eq(name, "warnings") {
        Some(Command::Warnings)
    } else {
        None
    }
}

/// Reads the arguments that follow the program name.
pub fn invocation(arguments: Vec<String>) -> (result: Result<Invocation, CliError>)
    ensures
        match invocation_spec(views(arguments@)) {
            Ok(v) => result matches Ok(i) && i@ == v,
            Err(e) => fails_with(result, e),
        },
{
    let ghost args = views(arguments@);
    if arguments.len() == 0 || is_help(arguments[0].as_str()) {
        return Ok(Invocation::Help);
    }
    if text_eq(arguments[0].as_str(), "-V") || text_eq(arguments[0].as_str(), "--version") {
        if arguments.len() != 1 {
            return Err(CliError::usage(owned("--version does not accept arguments")));
        }
        return Ok(Invocation::Version);
    }
    let mut rest = arguments;
    let name = rest.remove(0);
    assert(views(rest@) == args.drop_first());
    if rest.len() == 1 && is_help(rest[0].as_str()) {
        return match command_help(name.as_str()) {
            Ok(text) => Ok(Invocation::CommandHelp(text)),
            Err(e) => Err(e),
        };
    }
    match command_of(name.as_str()) {
        Some(command) => Ok(Invocation::Run(command, rest)),
        None => Err(unknown_command_error(name.as_str())),
    }
}

} // verus!
