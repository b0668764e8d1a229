//! Verified core of the NostDB command-line client.
use vstd::prelude::*;

pub mod error;
pub mod text;
pub mod split;
pub mod value;
pub mod format;
pub mod render;
pub mod unescape;
pub mod result;
pub mod args;
pub mod help;
pub mod command;
pub mod query;
pub mod diagnostics;
pub mod tables;
pub mod doctor;
pub mod remote;
pub mod admin;
pub mod wire;
pub mod repl;
pub mod source_format;
pub mod settings;

verus! {

} // verus!
