//! Projects: `.nostdb/settings.json`, `init` and `update`.
//!
//! A project keeps everything under its `.nostdb` directory: the settings,
//! the root database, linked projects, and (when enabled) human-readable
//! source.
use vstd::prelude::*;

use crate::args::{
    fails_with, join_path, project_database, project_database_path, usage, ErrorView,
};
use crate::error::{CliError, EXIT_PROJECT};
use crate::render::{json_string, push_text, utf8, write_json_string};
use crate::tables::{row_matches, rows_match, text_value, Cell};
use crate::text::{chars_of, join2, owned, text_eq};
use crate::value::QueryValue;
use crate::wire::{find_member, first_member, get, member, JsonValue};

verus! {

/// A linked project: its directory, relative to the linking project, and
/// the name of its root database.
#[derive(Debug)]
pub struct Link {
    pub project: String,
    pub root: String,
}

/// What `.nostdb/settings.json` says of a project.
#[derive(Debug)]
pub struct ProjectSettings {
    /// The file name of the root database inside `.nostdb`.
    pub root: String,
    pub links: Vec<Link>,
    /// Whether human-readable source is materialized and synchronized.
    pub source_enabled: bool,
    /// The language version of the source.
    pub source_version: u32,
}

/// An invalid settings file.
pub open spec fn invalid_settings(detail: Seq<char>) -> ErrorView {
    (EXIT_PROJECT, "invalid .nostdb/settings.json: "@ + detail)
}

/// The value of a member that must be a string.
pub open spec fn text_member(value: JsonValue, key: Seq<char>) -> Option<Seq<char>> {
    match member(value, key) {
        Some(JsonValue::String(s)) => Some(s@),
        _ => None,
    }
}

/// Whether a JSON value is a link: an object with the strings `project`
/// and `root`.
pub open spec fn is_link(value: JsonValue) -> bool {
    text_member(value, "project"@) is Some && text_member(value, "root"@) is Some
}

/// The links of the `database` object: none when `links` is absent.
pub open spec fn links_spec(database: JsonValue) -> Option<Seq<(Seq<char>, Seq<char>)>> {
    match member(database, "links"@) {
        None => Some(Seq::empty()),
        Some(JsonValue::Array(items)) => if forall|i: int|
            0 <= i < items@.len() ==> is_link(#[trigger] items@[i]) {
            Some(
                items@.map_values(
                    |v: JsonValue|
                        (text_member(v, "project"@)->0, text_member(v, "root"@)->0),
                ),
            )
        } else {
            None
        },
        _ => None,
    }
}

/// Whether a JSON value is the integer `n`.
pub open spec fn is_integer(value: JsonValue, n: int) -> bool {
    value matches JsonValue::Number(number) && number.integer == Some(n as i64)
}

/// The `source` object: whether it is enabled (`false` when absent) and
/// its version (1 when absent).
pub open spec fn source_spec(settings: JsonValue) -> Result<(bool, u32), ErrorView> {
    match member(settings, "source"@) {
        None => Ok((false, 1)),
        Some(source) => if !(source is Object) {
            Err(invalid_settings("source must be an object"@))
        } else {
            let enabled = match member(source, "enabled"@) {
                None => Some(false),
                Some(JsonValue::Bool(b)) => Some(b),
                _ => None,
            };
            let version = match member(source, "version"@) {
                None => Some(1u32),
                Some(JsonValue::Number(n)) => match n.integer {
                    Some(i) => if 0 <= i <= u32::MAX {
                        Some(i as u32)
                    } else {
                        None
                    },
                    None => None,
                },
                _ => None,
            };
            if enabled is None {
                Err(invalid_settings("source.enabled must be a boolean"@))
            } else if version is None {
                Err(invalid_settings("source.version must be an unsigned integer"@))
            } else {
                Ok((enabled->0, version->0))
            }
        },
    }
}

/// What a settings file says: version 1, a `database` object naming the
/// root database and optionally linked projects, and an optional `source`
/// object.
pub open spec fn settings_spec(settings: JsonValue) -> Result<
    (Seq<char>, Seq<(Seq<char>, Seq<char>)>, bool, u32),
    ErrorView,
> {
    if !(member(settings, "version"@) matches Some(v) && is_integer(v, 1)) {
        Err(invalid_settings("version must be 1"@))
    } else {
        match member(settings, "database"@) {
            Some(database) => match text_member(database, "root"@) {
                None => Err(invalid_settings("database.root must be a string"@)),
                Some(root) => match links_spec(database) {
                    None => Err(
                        invalid_settings(
                            "database.links must be an array of {project, root} objects"@,
                        ),
                    ),
                    Some(links) => match source_spec(settings) {
                        Err(e) => Err(e),
                        Ok((enabled, version)) => Ok((root, links, enabled, version)),
                    },
                },
            },
            None => Err(invalid_settings("database.root must be a string"@)),
        }
    }
}

/// The view of settings.
pub open spec fn settings_view(s: ProjectSettings) -> (
    Seq<char>,
    Seq<(Seq<char>, Seq<char>)>,
    bool,
    u32,
) {
    (
        s.root@,
        s.links@.map_values(|l: Link| (l.project@, l.root@)),
        s.source_enabled,
        s.source_version,
    )
}

fn settings_error(detail: &str) -> (e: CliError)
    ensures
        e.code == EXIT_PROJECT,
        e.message@ == invalid_settings(detail@).1,
{
    CliError::new(EXIT_PROJECT, join2("invalid .nostdb/settings.json: ", detail))
}

fn text_of(value: &JsonValue, key: &str) -> (result: Option<String>)
    ensures
        match text_member(*value, key@) {
            Some(t) => result matches Some(r) && r@ == t,
            None => result is None,
        },
{
    match get(value, key) {
        Some(JsonValue::String(s)) => Some(owned(s.as_str())),
        _ => None,
    }
}

fn read_links(database: &JsonValue) -> (result: Option<Vec<Link>>)
    ensures
        match links_spec(*database) {
            Some(links) => result matches Some(v) && v@.map_values(
                |l: Link| (l.project@, l.root@),
            ) == links,
            None => result is None,
        },
{
    let items = match get(database, "links") {
        None => return Some(Vec::new()),
        Some(JsonValue::Array(items)) => items,
        _ => return None,
    };
    let mut links: Vec<Link> = Vec::new();
    let mut i: usize = 0;
    while i < items.len()
        invariant
            member(*database, "links"@) == Some(JsonValue::Array(*items)),
            i <= items@.len(),
            links@.len() == i,
            forall|k: int|
                0 <= k < i ==> is_link(#[trigger] items@[k]) && links@[k].project@ == text_member(
                    items@[k],
                    "project"@,
                )->0 && links@[k].root@ == text_member(items@[k], "root"@)->0,
        decreases items@.len() - i,
    {
        let project = text_of(&items[i], "project");
        let root = text_of(&items[i], "root");
        match (project, root) {
            (Some(project), Some(root)) => links.push(Link { project, root }),
            _ => {
                assert(!is_link(items@[i as int]));
                return None;
            },
        }
        i += 1;
    }
    assert(links@.map_values(|l: Link| (l.project@, l.root@)) =~= items@.map_values(
        |v: JsonValue| (text_member(v, "project"@)->0, text_member(v, "root"@)->0),
    ));
    Some(links)
}

fn read_source(settings: &JsonValue) -> (result: Result<(bool, u32), CliError>)
    ensures
        match source_spec(*settings) {
            Ok(v) => result == Ok::<(bool, u32), CliError>(v),
            Err(e) => fails_with(result, e),
        },
{
    let source = match get(settings, "source") {
        None => return Ok((false, 1)),
        Some(source) => source,
    };
    if !matches!(source, JsonValue::Object(_)) {
        return Err(settings_error("source must be an object"));
    }
    let enabled = match get(source, "enabled") {
        None => Some(false),
        Some(JsonValue::Bool(b)) => Some(*b),
        _ => None,
    };
    let version = match get(source, "version") {
        None => Some(1u32),
        Some(JsonValue::Number(n)) => match n.integer {
            Some(i) => if 0 <= i && i <= 4294967295i64 {
                Some(i as u32)
            } else {
                None
            },
            None => None,
        },
        _ => None,
    };
    match (enabled, version) {
        (None, _) => Err(settings_error("source.enabled must be a boolean")),
        (Some(_), None) => Err(settings_error("source.version must be an unsigned integer")),
        (Some(e), Some(v)) => Ok((e, v)),
    }
}

/// Reads the settings of a project from the JSON of its settings file.
pub fn settings_from_json(settings: &JsonValue) -> (result: Result<ProjectSettings, CliError>)
    ensures
        match settings_spec(*settings) {
            Ok(v) => result matches Ok(s) && settings_view(s) == v,
            Err(e) => fails_with(result, e),
        },
{
    let version_ok = match get(settings, "version") {
        Some(JsonValue::Number(n)) => n.integer == Some(1i64),
        _ => false,
    };
    if !version_ok {
        return Err(settings_error("version must be 1"));
    }
    let database = match get(settings, "database") {
        Some(database) => database,
        None => return Err(settings_error("database.root must be a string")),
    };
    let root = match text_of(database, "root") {
        Some(root) => root,
        None => return Err(settings_error("database.root must be a string")),
    };
    let links = match read_links(database) {
        Some(links) => links,
        None => return Err(
            settings_error("database.links must be an array of {project, root} objects"),
        ),
    };
    match read_source(settings) {
        Err(e) => Err(e),
        Ok((source_enabled, source_version)) => Ok(
            ProjectSettings { root, links, source_enabled, source_version },
        ),
    }
}

/// The settings file that `init` writes for a root database.
pub open spec fn settings_bytes(root: Seq<char>) -> Seq<u8> {
    utf8("{\n  \"version\": 1,\n  \"database\": {\n    \"root\": "@) + json_string(root) + utf8(
        ",\n    \"links\": []\n  },\n  \"source\": {\n    \"version\": 1,\n    \"enabled\": false\n  }\n}\n"@,
    )
}

pub fn settings_text(root: &str) -> (bytes: Vec<u8>)
    ensures
        bytes@ == settings_bytes(root@),
{
    let mut bytes: Vec<u8> = Vec::new();
    push_text(&mut bytes, "{\n  \"version\": 1,\n  \"database\": {\n    \"root\": ");
    write_json_string(&mut bytes, root);
    push_text(
        &mut bytes,
        ",\n    \"links\": []\n  },\n  \"source\": {\n    \"version\": 1,\n    \"enabled\": false\n  }\n}\n",
    );
    assert(bytes@ =~= settings_bytes(root@));
    bytes
}

/// What is known of the directory that `init` is asked to use.
#[derive(Debug)]
pub struct InitFacts {
    /// The path itself is a symbolic link.
    pub is_symlink: bool,
    /// It is the home directory or a filesystem root.
    pub is_broad: bool,
    pub exists: bool,
    pub is_directory: bool,
    /// The directory holds entries.
    pub has_entries: bool,
    /// It already holds a `.nostdb` directory.
    pub initialized: bool,
}

/// `init` refuses a symbolic link, a broad root (the home directory or a
/// filesystem root), something that is not a directory, and a directory
/// that already holds a project; a directory with other entries only with
/// `--allow-nonempty`, whose files are then kept.
pub open spec fn init_refusal(facts: InitFacts, allow_nonempty: bool) -> Option<ErrorView> {
    if facts.is_symlink {
        Some((EXIT_PROJECT, "project root must not be a symlink"@))
    } else if facts.is_broad {
        Some((EXIT_PROJECT, "refusing to initialize a broad project root"@))
    } else if facts.exists && !facts.is_directory {
        Some((EXIT_PROJECT, "project root is not a directory"@))
    } else if facts.initialized {
        Some((EXIT_PROJECT, "refusing to initialize a nonempty directory: .nostdb already exists"@))
    } else if facts.has_entries && !allow_nonempty {
        Some(
            (
                EXIT_PROJECT,
                "refusing to initialize a nonempty directory; pass --allow-nonempty to keep its files"@,
            ),
        )
    } else {
        None
    }
}

pub fn init_guard(facts: &InitFacts, allow_nonempty: bool) -> (result: Result<(), CliError>)
    ensures
        match init_refusal(*facts, allow_nonempty) {
            None => result is Ok,
            Some(e) => fails_with(result, e),
        },
{
    if facts.is_symlink {
        Err(CliError::project(owned("project root must not be a symlink")))
    } else if facts.is_broad {
        Err(CliError::project(owned("refusing to initialize a broad project root")))
    } else if facts.exists && !facts.is_directory {
        Err(CliError::project(owned("project root is not a directory")))
    } else if facts.initialized {
        Err(
            CliError::project(
                owned("refusing to initialize a nonempty directory: .nostdb already exists"),
            ),
        )
    } else if facts.has_entries && !allow_nonempty {
        Err(
            CliError::project(
                owned(
                    "refusing to initialize a nonempty directory; pass --allow-nonempty to keep its files",
                ),
            ),
        )
    } else {
        Ok(())
    }
}

/// A path without its trailing slashes (a path of slashes only becomes
/// the empty text).
pub open spec fn without_trailing_slashes(path: Seq<char>) -> Seq<char>
    decreases path.len(),
{
    if path.len() > 0 && path.last() == '/' {
        without_trailing_slashes(path.drop_last())
    } else {
        path
    }
}

/// A broad project root: a filesystem root, or the home directory.
pub open spec fn broad_root(path: Seq<char>, home: Option<Seq<char>>) -> bool {
    let p = without_trailing_slashes(path);
    ||| path.len() > 0 && p.len() == 0
    ||| (home matches Some(h) && without_trailing_slashes(h) == p && p.len() > 0)
}

fn strip_slashes(path: &str) -> (result: String)
    ensures
        result@ == without_trailing_slashes(path@),
{
    let chars = chars_of(path);
    let mut end: usize = chars.len();
    assert(chars@.take(end as int) == chars@);
    while end > 0 && chars[end - 1] == '/'
        invariant
            end <= chars@.len(),
            chars@ == path@,
            without_trailing_slashes(chars@.take(end as int)) == without_trailing_slashes(path@),
        decreases end,
    {
        assert(chars@.take(end - 1) == chars@.take(end as int).drop_last());
        end -= 1;
    }
    assert(chars@.subrange(0, end as int) == chars@.take(end as int));
    crate::text::string_of(&chars, 0, end)
}

/// Whether `path` names a broad project root, given the home directory.
pub fn is_broad_root(path: &str, home: Option<&str>) -> (broad: bool)
    ensures
        broad == broad_root(
            path@,
            match home {
                Some(h) => Some(h@),
                None => None,
            },
        ),
{
    let p = strip_slashes(path);
    if path.unicode_len() > 0 && p.unicode_len() == 0 {
        return true;
    }
    match home {
        Some(h) => {
            let h = strip_slashes(h);
            p.unicode_len() > 0 && text_eq(h.as_str(), p.as_str())
        },
        None => false,
    }
}

/// Whether a root database name is one file name inside `.nostdb`.
pub open spec fn is_file_name(name: Seq<char>) -> bool {
    &&& name.len() > 0
    &&& name != "."@
    &&& name != ".."@
    &&& forall|i: int| 0 <= i < name.len() ==> #[trigger] name[i] != '/'
}

/// The root database of a new project: `root.nostdb`, or the name given
/// with `--database`, which must be one file name.
pub fn init_root(database: Option<String>) -> (result: Result<String, CliError>)
    ensures
        match database {
            None => result matches Ok(r) && r@ == "root.nostdb"@,
            Some(d) => if is_file_name(d@) {
                result matches Ok(r) && r@ == d@
            } else {
                fails_with(result, usage("init --database expects a file name inside .nostdb"@))
            },
        },
{
    let name = match database {
        None => return Ok(owned("root.nostdb")),
        Some(name) => name,
    };
    let chars = chars_of(name.as_str());
    let mut ok = chars.len() > 0 && !text_eq(name.as_str(), ".") && !text_eq(name.as_str(), "..");
    let mut i: usize = 0;
    while i < chars.len()
        invariant
            i <= chars@.len(),
            chars@ == name@,
            ok == (name@.len() > 0 && name@ != "."@ && name@ != ".."@ && forall|k: int|
                0 <= k < i ==> #[trigger] name@[k] != '/'),
        decreases chars@.len() - i,
    {
        if chars[i] == '/' {
            ok = false;
        }
        i += 1;
    }
    if ok {
        Ok(name)
    } else {
        Err(CliError::usage(owned("init --database expects a file name inside .nostdb")))
    }
}

/// The path of a project's settings file.
pub open spec fn settings_path(project: Seq<char>) -> Seq<char> {
    join_path(join_path(project, ".nostdb"@), "settings.json"@)
}

/// The row that `init` reports: the settings file, the root database, the
/// settings version and whether source is enabled (it is not).
pub fn init_row(project: &str, root: &str) -> (row: Vec<QueryValue>)
    ensures
        row_matches(
            row@,
            seq![
                Cell::Text(settings_path(project@)),
                Cell::Text(project_database(project@, root@)),
                Cell::Int(1),
                Cell::Bool(false),
            ],
        ),
{
    let settings = project_database_path(project, "settings.json");
    let database = project_database_path(project, root);
    let mut row: Vec<QueryValue> = Vec::new();
    row.push(text_value(settings.as_str()));
    row.push(text_value(database.as_str()));
    row.push(QueryValue::Integer(1));
    row.push(QueryValue::Boolean(false));
    row
}

/// The projects that `update` brings up to date, in order: each linked
/// project (its directory and root database), in the order of the links,
/// before the project itself.
pub open spec fn update_plan_spec(project: Seq<char>, settings: (
    Seq<char>,
    Seq<(Seq<char>, Seq<char>)>,
    bool,
    u32,
)) -> Seq<(Seq<char>, Seq<char>)> {
    let links = settings.1;
    Seq::new(
        links.len(),
        |i: int|
            (
                join_path(project, links[i].0),
                project_database(join_path(project, links[i].0), links[i].1),
            ),
    ).push((project, project_database(project, settings.0)))
}

/// `update` brings every project linked from the settings up to date
/// before the project itself: one step per link, in the order of the
/// links, and last the project with its root database.
pub proof fn lemma_update_children_first(
    project: Seq<char>,
    settings: (Seq<char>, Seq<(Seq<char>, Seq<char>)>, bool, u32),
)
    ensures
        update_plan_spec(project, settings).len() == settings.1.len() + 1,
        update_plan_spec(project, settings).last() == (project, project_database(project, settings.0)),
        forall|i: int|
            0 <= i < settings.1.len() ==> (#[trigger] update_plan_spec(project, settings)[i]).0
                == join_path(project, settings.1[i].0),
{
}

/// Plans `update`: linked projects first, then the project.
pub fn update_plan(project: &str, settings: &ProjectSettings) -> (plan: Vec<(String, String)>)
    ensures
        plan@.map_values(|p: (String, String)| (p.0@, p.1@)) == update_plan_spec(
            project@,
            settings_view(*settings),
        ),
{
    let ghost links = settings_view(*settings).1;
    let mut plan: Vec<(String, String)> = Vec::new();
    let mut i: usize = 0;
    while i < settings.links.len()
        invariant
            i <= settings.links@.len(),
            links == settings_view(*settings).1,
            plan@.len() == i,
            forall|k: int|
                0 <= k < i ==> (#[trigger] plan@[k]).0@ == join_path(project@, links[k].0)
                    && plan@[k].1@ == project_database(join_path(project@, links[k].0), links[k].1),
        decreases settings.links@.len() - i,
    {
        let link = &settings.links[i];
        let directory = join_linked(project, link.project.as_str());
        let database = project_database_path(directory.as_str(), link.root.as_str());
        plan.push((directory, database));
        i += 1;
    }
    plan.push((owned(project), project_database_path(project, settings.root.as_str())));
    assert(plan@.map_values(|p: (String, String)| (p.0@, p.1@)) =~= update_plan_spec(
        project@,
        settings_view(*settings),
    ));
    plan
}

fn join_linked(project: &str, link: &str) -> (path: String)
    ensures
        path@ == join_path(project@, link@),
{
    let chars = chars_of(project);
    if chars.len() == 0 {
        owned(link)
    } else if chars[chars.len() - 1] == '/' {
        join2(project, link)
    } else {
        crate::text::join3(project, "/", link)
    }
}

/// One row per updated project: its directory, its database and `updated`.
pub fn update_rows(plan: &Vec<(String, String)>) -> (rows: Vec<Vec<QueryValue>>)
    ensures
        rows_match(
            rows@,
            plan@.map_values(
                |p: (String, String)| seq![Cell::Text(p.0@), Cell::Text(p.1@), Cell::Text("updated"@)],
            ),
        ),
{
    let ghost cells = plan@.map_values(
        |p: (String, String)| seq![Cell::Text(p.0@), Cell::Text(p.1@), Cell::Text("updated"@)],
    );
    let mut rows: Vec<Vec<QueryValue>> = Vec::new();
    let mut i: usize = 0;
    while i < plan.len()
        invariant
            i <= plan@.len(),
            cells == plan@.map_values(
                |p: (String, String)| seq![Cell::Text(p.0@), Cell::Text(p.1@), Cell::Text("updated"@)],
            ),
            rows@.len() == i,
            forall|j: int| 0 <= j < i ==> row_matches(#[trigger] rows@[j]@, cells[j]),
        decreases plan@.len() - i,
    {
        let mut row: Vec<QueryValue> = Vec::new();
        row.push(text_value(plan[i].0.as_str()));
        row.push(text_value(plan[i].1.as_str()));
        row.push(text_value("updated"));
        assert(row_matches(row@, cells[i as int]));
        rows.push(row);
        i += 1;
    }
    rows
}

} // verus!
