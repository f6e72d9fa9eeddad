//! Dependency bookkeeping: the records, and the decisions on package
//! names, install commands and `cargo tree` output.
use vstd::prelude::*;
use crate::optimize_rust_dev::{contains_text, text_contains};
use crate::schema::json::{json_field, read_json};
use crate::text::push_str;
use crate::text::{chars_of, first_token, first_token_of, starts_with, string_of};

verus! {

/// A dependency and where it was found.
#[derive(Debug, Clone)]
pub struct Dependency {
    pub name: String,
    pub version: String,
    pub source: String,
    pub required: bool,
}

/// What came of updating one dependency.
#[derive(Debug, Clone)]
pub struct UpdateResult {
    pub name: String,
    pub updated: bool,
    pub from_version: String,
    pub to_version: Option<String>,
    pub error: Option<String>,
}

/// The package managers that can install system dependencies.
#[derive(Debug, Clone, Copy, PartialEq, Eq, Structural)]
pub enum PackageManager {
    Apt,
    Dnf,
    Yum,
    Pacman,
}

/// The views of a sequence of strings.
pub open spec fn words(s: Seq<String>) -> Seq<Seq<char>> {
    s.map_values(|w: String| w@)
}

/// The command that installs `package` with `manager`.
pub open spec fn install_words(manager: PackageManager, package: Seq<char>) -> Seq<Seq<char>> {
    match manager {
        PackageManager::Apt => seq!["sudo"@, "apt"@, "install"@, "-y"@, package],
        PackageManager::Dnf => seq!["sudo"@, "dnf"@, "install"@, "-y"@, package],
        PackageManager::Yum => seq!["sudo"@, "yum"@, "install"@, "-y"@, package],
        PackageManager::Pacman => seq!["sudo"@, "pacman"@, "-S"@, "--noconfirm"@, package],
    }
}

/// The command line that installs `package` with `manager`.
pub fn install_command(manager: PackageManager, package: &str) -> (r: Vec<String>)
    ensures
        words(r@) == install_words(manager, package@),
{
    let (tool, verb, flag) = match manager {
        PackageManager::Apt => ("apt", "install", "-y"),
        PackageManager::Dnf => ("dnf", "install", "-y"),
        PackageManager::Yum => ("yum", "install", "-y"),
        PackageManager::Pacman => ("pacman", "-S", "--noconfirm"),
    };
    let r = vec![
        String::from_str("sudo"),
        String::from_str(tool),
        String::from_str(verb),
        String::from_str(flag),
        String::from_str(package),
    ];
    assert(words(r@) =~= install_words(manager, package@));
    r
}

/// The crate that a line of `cargo tree --duplicates` names: a line that
/// does not start with a space and holds ` v` names the crate in its first
/// token.
pub open spec fn duplicate_name(line: Seq<char>) -> Option<Seq<char>> {
    if contains_text(line, " v"@) && !starts_with(line, seq![' ']) && first_token(line).len() > 0 {
        Some(first_token(line))
    } else {
        None
    }
}

/// Reads the crate name from one line of `cargo tree --duplicates`.
pub fn duplicate_dependency_name(line: &str) -> (r: Option<String>)
    ensures
        match r {
            Some(n) => duplicate_name(line@) == Some(n@),
            None => duplicate_name(line@) is None,
        },
{
    proof {
        reveal_strlit(" v");
    }
    let v = chars_of(line);
    let indented = v.len() > 0 && v[0] == ' ';
    proof {
        if v.len() > 0 {
            assert(v@.subrange(0, 1) =~= seq![v@[0]]);
            assert(seq![v@[0]][0] == v@[0]);
            assert(seq![' '][0] == ' ');
        }
    }
    if !text_contains(line, " v") || indented {
        return None;
    }
    let name = first_token_of(&v);
    if name.len() == 0 {
        return None;
    }
    Some(string_of(&name))
}

/// A license text that names a copyleft family (`GPL`, `AGPL`, `LGPL`).
pub open spec fn copyleft(license: Seq<char>) -> bool {
    contains_text(license, "GPL"@) || contains_text(license, "AGPL"@) || contains_text(
        license,
        "LGPL"@,
    )
}

/// Whether a license may bring compatibility issues.
pub fn is_problematic_license(license: &str) -> (r: bool)
    ensures
        r == copyleft(license@),
{
    proof {
        reveal_strlit("GPL");
        reveal_strlit("AGPL");
        reveal_strlit("LGPL");
    }
    text_contains(license, "GPL") || text_contains(license, "AGPL") || text_contains(
        license,
        "LGPL",
    )
}

/// The outdated dependencies that `cargo outdated --format json` reports:
/// for each entry of its `dependencies` array that has a `name`, a
/// `project` and a `latest` text, a required dependency from source
/// `outdated` whose version reads `<project> -> <latest>`. `None` when the
/// text is not JSON.
pub fn outdated_from_json(json_text: &str) -> (r: Option<Vec<Dependency>>)
    ensures
        r matches Some(ds) ==> forall|i: int|
            0 <= i < ds@.len() ==> (#[trigger] ds@[i]).source@ == "outdated"@ && ds@[i].required,
{
    let json = match read_json(json_text) {
        Ok(v) => v,
        Err(_) => return None,
    };
    let mut outdated: Vec<Dependency> = Vec::new();
    if let Some(deps) = json_field(&json, "dependencies").as_array() {
        let n = deps.len();
        for i in 0..n
            invariant
                n == deps.len(),
                forall|k: int|
                    0 <= k < outdated@.len() ==> (#[trigger] outdated@[k]).source@ == "outdated"@
                        && outdated@[k].required,
        {
            let dep = &deps[i];
            let name = json_field(dep, "name").as_str();
            let project = json_field(dep, "project").as_str();
            let latest = json_field(dep, "latest").as_str();
            if let (Some(name), Some(project), Some(latest)) = (name, project, latest) {
                let mut version = String::from_str(project);
                push_str(&mut version, " -> ");
                push_str(&mut version, latest);
                outdated.push(
                    Dependency {
                        name: String::from_str(name),
                        version,
                        source: String::from_str("outdated"),
                        required: true,
                    },
                );
            }
        }
    }
    Some(outdated)
}

/// The `(name, license)` pairs that `cargo license --json` reports, in
/// order: one for each item of its array that has a `name` and a `license`
/// text. `None` when the text is not a JSON array.
pub fn licenses_from_json(json_text: &str) -> (r: Option<Vec<(String, String)>>) {
    let json = match read_json(json_text) {
        Ok(v) => v,
        Err(_) => return None,
    };
    let items = match json.as_array() {
        Some(items) => items,
        None => return None,
    };
    let mut licenses: Vec<(String, String)> = Vec::new();
    let n = items.len();
    for i in 0..n
        invariant
            n == items.len(),
    {
        let item = &items[i];
        if let (Some(name), Some(license)) = (
            json_field(item, "name").as_str(),
            json_field(item, "license").as_str(),
        ) {
            licenses.push((String::from_str(name), String::from_str(license)));
        }
    }
    Some(licenses)
}

/// `toml::Value`, carried through unopened.
#[verifier::external_type_specification]
#[verifier::external_body]
pub struct ExTomlValue(toml::Value);

/// Relies on `toml::Value::as_str`: the text of a string value, `None` for
/// other values.
pub assume_specification<'a>[ toml::Value::as_str ](v: &'a toml::Value) -> Option<&'a str>;

/// Relies on `toml::from_str`, its error turned into an `anyhow::Error`
/// that carries the context `Failed to parse Cargo.toml`: reads a TOML
/// document.
#[verifier::external_body]
fn read_toml(content: &str) -> (r: Result<toml::Value, anyhow::Error>) {
    toml::from_str::<toml::Value>(content).map_err(
        |e| anyhow::Error::new(e).context("Failed to parse Cargo.toml"),
    )
}

/// Relies on `toml::Value::get`: the entry `key` of a table value; `None`
/// when there is none or the value is no table.
#[verifier::external_body]
fn toml_get<'a>(v: &'a toml::Value, key: &str) -> (r: Option<&'a toml::Value>) {
    v.get(key)
}

/// Relies on `toml::Value::as_table`: the entries of a table value, in the
/// table's order, as pairs; `None` for other values.
#[verifier::external_body]
fn table_entries(v: &toml::Value) -> (r: Option<Vec<(String, toml::Value)>>) {
    v.as_table().map(|t| t.iter().map(|(k, x)| (k.clone(), x.clone())).collect())
}

/// The version that a dependency entry asks for: the entry itself when it
/// is a string, its `version` text when it is a table that has one, else `*`.
pub fn extract_version(value: &toml::Value) -> (r: String) {
    if let Some(s) = value.as_str() {
        return String::from_str(s);
    }
    match toml_get(value, "version") {
        Some(v) => match v.as_str() {
            Some(s) => String::from_str(s),
            None => String::from_str("*"),
        },
        None => String::from_str("*"),
    }
}

/// A dependency record of one of the two manifest sections.
pub open spec fn from_section(d: Dependency) -> bool {
    (d.source@ == "dependencies"@ && d.required) || (d.source@ == "dev-dependencies"@
        && !d.required)
}

fn push_section(
    deps: &mut Vec<Dependency>,
    document: &toml::Value,
    section: &str,
    required: bool,
)
    requires
        section@ == "dependencies"@ && required || section@ == "dev-dependencies"@ && !required,
        forall|i: int| 0 <= i < old(deps)@.len() ==> from_section(#[trigger] old(deps)@[i]),
    ensures
        forall|i: int| 0 <= i < final(deps)@.len() ==> from_section(#[trigger] final(deps)@[i]),
{
    let entries = match toml_get(document, section) {
        Some(t) => match table_entries(t) {
            Some(entries) => entries,
            None => return,
        },
        None => return,
    };
    let n = entries.len();
    for i in 0..n
        invariant
            n == entries.len(),
            section@ == "dependencies"@ && required || section@ == "dev-dependencies"@ && !required,
            forall|k: int| 0 <= k < deps@.len() ==> from_section(#[trigger] deps@[k]),
    {
        let (name, value) = &entries[i];
        deps.push(
            Dependency {
                name: name.clone(),
                version: extract_version(value),
                source: String::from_str(section),
                required,
            },
        );
    }
}

/// The dependencies that a Cargo manifest declares: those of
/// `[dependencies]` (required) and then those of `[dev-dependencies]` (not
/// required), each in the table's order; an error when the text is not TOML.
pub fn dependencies_from_toml(content: &str) -> (r: Result<Vec<Dependency>, anyhow::Error>)
    ensures
        r matches Ok(ds) ==> forall|i: int| 0 <= i < ds@.len() ==> from_section(#[trigger] ds@[i]),
{
    let document = match read_toml(content) {
        Ok(v) => v,
        Err(e) => return Err(e),
    };
    let mut deps: Vec<Dependency> = Vec::new();
    proof {
        reveal_strlit("dependencies");
        reveal_strlit("dev-dependencies");
    }
    push_section(&mut deps, &document, "dependencies", true);
    push_section(&mut deps, &document, "dev-dependencies", false);
    Ok(deps)
}

} // verus!
