//! `nostdb doctor`: whether a database is synchronized with its project.
use vstd::prelude::*;

use crate::args::{fails_with, ErrorView};
use crate::error::{CliError, EXIT_DATABASE, EXIT_PROJECT};
use crate::tables::{row_matches, Cell};
use crate::args::{project_database, project_database_path};
use crate::text::{join3, owned, text_eq};
use crate::value::QueryValue;

verus! {

/// What a database recorded at its last synchronization: the project's
/// semantic hash and each module identifier with its content hash.
#[derive(Debug)]
pub struct SyncManifest {
    pub semantic_hash: Vec<u8>,
    pub modules: Vec<(String, Vec<u8>)>,
}

/// How a database stands to the project.
#[derive(Clone, Copy, Debug, PartialEq, Eq, Structural)]
pub enum SyncStatus {
    /// The project keeps no human-readable source: the database alone is
    /// the project.
    NdbOnly,
    NotSourceManaged,
    Synchronized,
    SourceDrift,
}

/// The identifier that a mapping of module paths gives to `path`: that of
/// its first entry for the path.
pub open spec fn mapped_id(mapping: Seq<(String, String)>, path: Seq<char>, i: int) -> Option<
    Seq<char>,
>
    decreases mapping.len() - i,
{
    if i < 0 || i >= mapping.len() {
        None
    } else if mapping[i].0@ == path {
        Some(mapping[i].1@)
    } else {
        mapped_id(mapping, path, i + 1)
    }
}

/// The first compiled module, from `i` on, that the mapping leaves without
/// an identifier.
pub open spec fn first_unmapped(
    hashes: Seq<(String, Vec<u8>)>,
    mapping: Seq<(String, String)>,
    i: int,
) -> Option<Seq<char>>
    decreases hashes.len() - i,
{
    if i < 0 || i >= hashes.len() {
        None
    } else if mapped_id(mapping, hashes[i].0@, 0) is None {
        Some(hashes[i].0@)
    } else {
        first_unmapped(hashes, mapping, i + 1)
    }
}

/// The error for a compiled module without an identifier.
pub open spec fn unmapped_error(path: Seq<char>) -> ErrorView {
    (EXIT_PROJECT, "compiled module "@ + path + " has no Stable Module ID mapping"@)
}

fn lookup(mapping: &Vec<(String, String)>, path: &str) -> (result: Option<String>)
    ensures
        match mapped_id(mapping@, path@, 0) {
            Some(id) => result matches Some(r) && r@ == id,
            None => result is None,
        },
{
    let mut i: usize = 0;
    while i < mapping.len()
        invariant
            i <= mapping@.len(),
            mapped_id(mapping@, path@, i as int) == mapped_id(mapping@, path@, 0),
        decreases mapping@.len() - i,
    {
        if text_eq(mapping[i].0.as_str(), path) {
            return Some(owned(mapping[i].1.as_str()));
        }
        i += 1;
    }
    None
}

fn copy_bytes(bytes: &Vec<u8>) -> (result: Vec<u8>)
    ensures
        result@ == bytes@,
{
    let mut result: Vec<u8> = Vec::new();
    let mut i: usize = 0;
    while i < bytes.len()
        invariant
            i <= bytes@.len(),
            result@ == bytes@.take(i as int),
        decreases bytes@.len() - i,
    {
        result.push(bytes[i]);
        i += 1;
    }
    assert(bytes@.take(bytes@.len() as int) == bytes@);
    result
}

/// Gives each compiled module (path and content hash, in compilation
/// order) the identifier that the project's mapping assigns to its path.
pub fn current_modules(
    source_hashes: &Vec<(String, Vec<u8>)>,
    mapping: &Vec<(String, String)>,
) -> (result: Result<Vec<(String, Vec<u8>)>, CliError>)
    ensures
        match first_unmapped(source_hashes@, mapping@, 0) {
            Some(path) => fails_with(result, unmapped_error(path)),
            None => result matches Ok(modules) && modules@.len() == source_hashes@.len() && (
            forall|i: int|
                0 <= i < modules@.len() ==> Some((#[trigger] modules@[i]).0@) == mapped_id(
                    mapping@,
                    source_hashes@[i].0@,
                    0,
                ) && modules@[i].1@ == source_hashes@[i].1@),
        },
{
    let mut modules: Vec<(String, Vec<u8>)> = Vec::new();
    let mut i: usize = 0;
    while i < source_hashes.len()
        invariant
            i <= source_hashes@.len(),
            first_unmapped(source_hashes@, mapping@, i as int) == first_unmapped(
                source_hashes@,
                mapping@,
                0,
            ),
            modules@.len() == i,
            forall|j: int|
                0 <= j < i ==> Some((#[trigger] modules@[j]).0@) == mapped_id(
                    mapping@,
                    source_hashes@[j].0@,
                    0,
                ) && modules@[j].1@ == source_hashes@[j].1@,
        decreases source_hashes@.len() - i,
    {
        let (path, hash) = (&source_hashes[i].0, &source_hashes[i].1);
        match lookup(mapping, path.as_str()) {
            Some(id) => {
                modules.push((id, copy_bytes(hash)));
            },
            None => {
                return Err(
                    CliError::project(
                        join3("compiled module ", path.as_str(), " has no Stable Module ID mapping"),
                    ),
                );
            },
        }
        i += 1;
    }
    Ok(modules)
}

/// Whether two module lists hold the same identifiers and hashes in the
/// same order.
pub open spec fn same_modules(a: Seq<(String, Vec<u8>)>, b: Seq<(String, Vec<u8>)>) -> bool {
    &&& a.len() == b.len()
    &&& forall|i: int| 0 <= i < a.len() ==> (#[trigger] a[i]).0@ == b[i].0@ && a[i].1@ == b[i].1@
}

/// A database without a manifest is not managed by a project; one whose
/// manifest records the project's semantic hash and exactly its modules
/// (sorted by identifier) is synchronized; any other has drifted.
pub open spec fn status_spec(
    manifest: Option<SyncManifest>,
    semantic_hash: Seq<u8>,
    current: Seq<(String, Vec<u8>)>,
) -> SyncStatus {
    match manifest {
        None => SyncStatus::NotSourceManaged,
        Some(m) => if m.semantic_hash@ == semantic_hash && same_modules(m.modules@, current) {
            SyncStatus::Synchronized
        } else {
            SyncStatus::SourceDrift
        },
    }
}

fn same_bytes(a: &Vec<u8>, b: &Vec<u8>) -> (equal: bool)
    ensures
        equal == (a@ == b@),
{
    if a.len() != b.len() {
        return false;
    }
    let mut i: usize = 0;
    while i < a.len()
        invariant
            a@.len() == b@.len(),
            i <= a@.len(),
            forall|j: int| 0 <= j < i ==> a@[j] == b@[j],
        decreases a@.len() - i,
    {
        if a[i] != b[i] {
            return false;
        }
        i += 1;
    }
    assert(a@ =~= b@);
    true
}

/// Compares the manifest with the current modules, which must be sorted by
/// identifier as the manifest is.
pub fn doctor_status(
    manifest: &Option<SyncManifest>,
    semantic_hash: &Vec<u8>,
    current: &Vec<(String, Vec<u8>)>,
) -> (status: SyncStatus)
    ensures
        status == status_spec(*manifest, semantic_hash@, current@),
{
    match manifest {
        None => SyncStatus::NotSourceManaged,
        Some(m) => {
            if !same_bytes(&m.semantic_hash, semantic_hash) || m.modules.len() != current.len() {
                return SyncStatus::SourceDrift;
            }
            let mut i: usize = 0;
            while i < current.len()
                invariant
                    i <= current@.len(),
                    *manifest == Some(*m),
                    m.semantic_hash@ == semantic_hash@,
                    m.modules@.len() == current@.len(),
                    forall|j: int|
                        0 <= j < i ==> (#[trigger] m.modules@[j]).0@ == current@[j].0@
                            && m.modules@[j].1@ == current@[j].1@,
                decreases current@.len() - i,
            {
                if !text_eq(m.modules[i].0.as_str(), current[i].0.as_str()) || !same_bytes(
                    &m.modules[i].1,
                    &current[i].1,
                ) {
                    return SyncStatus::SourceDrift;
                }
                i += 1;
            }
            SyncStatus::Synchronized
        },
    }
}

/// The name of a status, as the doctor table shows it.
pub open spec fn status_name(status: SyncStatus) -> Seq<char> {
    match status {
        SyncStatus::NdbOnly => "ndb_only"@,
        SyncStatus::NotSourceManaged => "not_source_managed"@,
        SyncStatus::Synchronized => "synchronized"@,
        SyncStatus::SourceDrift => "source_drift"@,
    }
}

/// The row of `nostdb doctor`: project and database are `ok`, then
/// whether they are synchronized (an NDB-only project always is: its
/// database is all there is), the status and the number of warnings.
pub open spec fn doctor_cells(status: SyncStatus, warnings: usize) -> Seq<Cell> {
    seq![
        Cell::Text("ok"@),
        Cell::Text("ok"@),
        Cell::Bool(status == SyncStatus::Synchronized || status == SyncStatus::NdbOnly),
        Cell::Text(status_name(status)),
        Cell::Int((warnings as i64) as int),
    ]
}

pub fn doctor_row(status: SyncStatus, warnings: usize) -> (row: Vec<QueryValue>)
    ensures
        row_matches(row@, doctor_cells(status, warnings)),
{
    let name = match status {
        SyncStatus::NdbOnly => owned("ndb_only"),
        SyncStatus::NotSourceManaged => owned("not_source_managed"),
        SyncStatus::Synchronized => owned("synchronized"),
        SyncStatus::SourceDrift => owned("source_drift"),
    };
    let mut row: Vec<QueryValue> = Vec::new();
    row.push(QueryValue::String(owned("ok")));
    row.push(QueryValue::String(owned("ok")));
    row.push(
        QueryValue::Boolean(status == SyncStatus::Synchronized || status == SyncStatus::NdbOnly),
    );
    row.push(QueryValue::String(name));
    row.push(QueryValue::Integer(warnings as i64));
    row
}

/// The row that `doctor` writes says `synchronized` exactly when the
/// database's manifest records the project's semantic hash and exactly its
/// modules, or the project is NDB-only (its database is all there is); the
/// column agrees with the status named beside it.
pub proof fn lemma_doctor_row_reports_sync(
    manifest: Option<SyncManifest>,
    semantic_hash: Seq<u8>,
    current: Seq<(String, Vec<u8>)>,
    status: SyncStatus,
    warnings: usize,
)
    ensures
        (doctor_cells(status_spec(manifest, semantic_hash, current), warnings)[2] == Cell::Bool(
            true,
        )) <==> (manifest matches Some(m) && m.semantic_hash@ == semantic_hash && same_modules(
            m.modules@,
            current,
        )),
        doctor_cells(SyncStatus::NdbOnly, warnings)[2] == Cell::Bool(true),
        (doctor_cells(status, warnings)[2] == Cell::Bool(true)) <==> (status_name(status)
            == "synchronized"@ || status_name(status) == "ndb_only"@),
        doctor_cells(status, warnings)[3] == Cell::Text(status_name(status)),
{
    reveal_strlit("synchronized");
    reveal_strlit("ndb_only");
    reveal_strlit("not_source_managed");
    reveal_strlit("source_drift");
    assert("synchronized"@ != "not_source_managed"@ && "synchronized"@ != "source_drift"@) by {
        assert("synchronized"@.len() != "not_source_managed"@.len());
        assert("synchronized"@[1] != "source_drift"@[1]);
    }
    assert("ndb_only"@ != "not_source_managed"@ && "ndb_only"@ != "source_drift"@) by {
        assert("ndb_only"@.len() != "not_source_managed"@.len());
        assert("ndb_only"@.len() != "source_drift"@.len());
    }
}

/// A database that fails its integrity check cannot be examined further.
pub fn doctor_integrity(valid: bool) -> (result: Result<(), CliError>)
    ensures
        valid ==> result is Ok,
        !valid ==> fails_with(result, (EXIT_DATABASE, "database integrity check failed"@)),
{
    if valid {
        Ok(())
    } else {
        Err(CliError::new(EXIT_DATABASE, owned("database integrity check failed")))
    }
}

/// The message for a database that no project manages.
pub open spec fn not_managed_message() -> Seq<char> {
    "database has no Source Mode synchronization manifest and does not belong to this project; run `nostdb sync` with the intended database path"@
}

/// The message for a database that has drifted from its project.
pub open spec fn drift_message() -> Seq<char> {
    "source files or project identity differ from the database synchronization manifest; run `nostdb sync` before using this database"@
}

/// The exit status of `nostdb doctor` once its row is written: success for
/// a synchronized database and for an NDB-only project.
pub fn doctor_verdict(status: SyncStatus) -> (result: Result<(), CliError>)
    ensures
        status == SyncStatus::Synchronized || status == SyncStatus::NdbOnly ==> result is Ok,
        status == SyncStatus::NotSourceManaged ==> fails_with(
            result,
            (EXIT_DATABASE, not_managed_message()),
        ),
        status == SyncStatus::SourceDrift ==> fails_with(result, (EXIT_PROJECT, drift_message())),
        (result is Ok) <==> doctor_cells(status, 0)[2] == Cell::Bool(true),
{
    match status {
        SyncStatus::Synchronized => Ok(()),
        SyncStatus::NdbOnly => Ok(()),
        SyncStatus::NotSourceManaged => Err(
            CliError::new(
                EXIT_DATABASE,
                owned(
                    "database has no Source Mode synchronization manifest and does not belong to this project; run `nostdb sync` with the intended database path",
                ),
            ),
        ),
        SyncStatus::SourceDrift => Err(
            CliError::project(
                owned(
                    "source files or project identity differ from the database synchronization manifest; run `nostdb sync` before using this database",
                ),
            ),
        ),
    }
}

/// The error for a database other than the one the project configures.
pub open spec fn mismatched_database(database: Seq<char>, configured: Seq<char>) -> ErrorView {
    (
        EXIT_PROJECT,
        "database "@ + database + " does not match .nostdb/settings.json (configured: "@
            + configured + ")"@,
    )
}

/// `nostdb doctor` examines only the database that the project's settings
/// configure (`root`); another one fails before anything is written.
pub fn configured_database(project: &str, database: &str, root: &str) -> (result: Result<
    (),
    CliError,
>)
    ensures
        database@ == project_database(project@, root@) ==> result is Ok,
        database@ != project_database(project@, root@) ==> fails_with(
            result,
            mismatched_database(database@, project_database(project@, root@)),
        ),
{
    let configured = project_database_path(project, root);
    if text_eq(database, configured.as_str()) {
        Ok(())
    } else {
        let mut message = join3("database ", database, " does not match .nostdb/settings.json (configured: ");
        crate::text::append(&mut message, configured.as_str());
        crate::text::append(&mut message, ")");
        Err(CliError::project(message))
    }
}

} // verus!
