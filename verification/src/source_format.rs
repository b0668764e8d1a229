//! `nostdb format`: the language version, the failure message, and the
//! canonical-form check.
use vstd::prelude::*;

use crate::args::fails_with;
use crate::diagnostics::{diagnostics_text, format_project_diagnostics, Diagnostic};
use crate::error::{CliError, EXIT_PROJECT};
use crate::render::utf8;
use crate::text::{append, decimal, join2, owned, push_decimal};

verus! {

/// The language version to format with: the project's when a project is
/// given, else the one requested, else version 1.
pub open spec fn version_spec(configured: Option<u32>, requested: Option<u32>) -> u32 {
    match configured {
        Some(v) => v,
        None => match requested {
            Some(v) => v,
            None => 1,
        },
    }
}

pub fn language_version(configured: Option<u32>, requested: Option<u32>) -> (version: u32)
    ensures
        version == version_spec(configured, requested),
{
    match configured {
        Some(v) => v,
        None => match requested {
            Some(v) => v,
            None => 1,
        },
    }
}

/// The `.nostdb/settings.json` of the single-module project (its module
/// `main.nost`) in which a source that fails to format is compiled for its
/// diagnostics.
pub open spec fn diagnostics_config_text(language_version: u32) -> Seq<char> {
    "{\"version\":1,\"database\":{\"root\":\"root.nostdb\",\"links\":[]},\"source\":{\"version\":"@
        + decimal(language_version as nat)
        + ",\"enabled\":true,\"modules\":{\"main.nost\":\"00000000-0000-0000-0000-000000000001\"}}}\n"@
}

pub fn diagnostics_config(language_version: u32) -> (text: String)
    ensures
        text@ == diagnostics_config_text(language_version),
{
    let mut text = owned(
        "{\"version\":1,\"database\":{\"root\":\"root.nostdb\",\"links\":[]},\"source\":{\"version\":",
    );
    push_decimal(&mut text, language_version as u64);
    append(
        &mut text,
        ",\"enabled\":true,\"modules\":{\"main.nost\":\"00000000-0000-0000-0000-000000000001\"}}}\n",
    );
    text
}

/// The message of a failed format: the formatter's error, followed on the
/// next lines by the diagnostics of the source (each shown against the
/// formatted file) when there are any.
pub open spec fn format_failure_message(
    error: Seq<char>,
    diagnostics: Option<Seq<Diagnostic>>,
    file: Seq<char>,
) -> Seq<char> {
    match diagnostics {
        Some(ds) => if ds.len() > 0 {
            error + "\n"@ + diagnostics_text(ds, Some(file))
        } else {
            error
        },
        None => error,
    }
}

pub fn format_failure(error: &str, diagnostics: &Option<Vec<Diagnostic>>, file: &str) -> (result:
    CliError)
    ensures
        result.code == EXIT_PROJECT,
        result.message@ == format_failure_message(
            error@,
            match diagnostics {
                Some(ds) => Some(ds@),
                None => None,
            },
            file@,
        ),
{
    match diagnostics {
        Some(ds) => if ds.len() > 0 {
            let mut message = join2(error, "\n");
            let detail = format_project_diagnostics(ds, Some(file));
            append(&mut message, detail.as_str());
            CliError::project(message)
        } else {
            CliError::project(owned(error))
        },
        None => CliError::project(owned(error)),
    }
}

/// `--check` passes when the file is already in canonical form, byte for
/// byte.
pub fn format_check(source: &Vec<u8>, formatted: &str, file: &str) -> (result: Result<(), CliError>)
    ensures
        source@ == utf8(formatted@) ==> result is Ok,
        source@ != utf8(formatted@) ==> fails_with(
            result,
            (EXIT_PROJECT, file@ + " is not canonically formatted"@),
        ),
{
    let bytes = formatted.as_bytes();
    let mut same = source.len() == bytes.len();
    if same {
        let mut i: usize = 0;
        while i < bytes.len()
            invariant
                source@.len() == bytes@.len(),
                i <= bytes@.len(),
                same == forall|j: int| 0 <= j < i ==> source@[j] == bytes@[j],
            decreases bytes@.len() - i,
        {
            if source[i] != bytes[i] {
                same = false;
            }
            i += 1;
        }
        if same {
            assert(source@ =~= bytes@);
        }
    }
    if same {
        Ok(())
    } else {
        Err(CliError::project(join2(file, " is not canonically formatted")))
    }
}

} // verus!
