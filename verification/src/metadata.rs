//! Readers of the name in static project metadata: the project descriptor
//! and the legacy setup configuration.

use vstd::prelude::*;
use crate::name::normalize;
use crate::name::valid_name;
use crate::name::PackageName;

verus! {

/// The string that a TOML document holds under a path of keys, each key but
/// the last naming a table inside the one before. `None` where the text is
/// no TOML document, a key is missing, or the value is no string.
pub uninterp spec fn toml_string_at(contents: Seq<char>, path: Seq<Seq<char>>) -> Option<Seq<char>>;

/// The value that an INI document holds under a key of a section, read with
/// case-sensitive names and multi-line values. `None` where the text is no
/// INI document, or the section or the key is missing or has no value.
pub uninterp spec fn ini_value_at(contents: Seq<char>, section: Seq<char>, key: Seq<char>) -> Option<
    Seq<char>,
>;

/// The texts of a path of keys.
pub open spec fn keys_view(path: Seq<&str>) -> Seq<Seq<char>> {
    Seq::new(path.len(), |i: int| path[i]@)
}

/// Parses `contents` with `toml::from_str` into a table and descends from it
/// with `toml::Value::get`, one key at a time; the value reached is read with
/// `toml::Value::as_str`. The contract only gives the outcome its name:
/// the parse and the descent depend on the text and the keys alone.
#[verifier::external_body]
fn toml_lookup(contents: &str, path: &Vec<&str>) -> (r: Option<String>)
    ensures
        text_view(r) == toml_string_at(contents@, keys_view(path@)),
{
    let mut value = toml::Value::Table(toml::from_str::<toml::Table>(contents).ok()?);
    for key in path.iter() {
        value = value.get(*key)?.clone();
    }
    value.as_str().map(str::to_owned)
}

/// Reads `contents` with a `configparser::ini::Ini` made by `Ini::new_cs`,
/// switched to multi-line values by `Ini::set_multiline`, through `Ini::read`,
/// and looks the key up with `Ini::get`. The contract only gives the outcome
/// its name: it depends on the three texts alone.
#[verifier::external_body]
fn ini_lookup(contents: &str, section: &str, key: &str) -> (r: Option<String>)
    ensures
        text_view(r) == ini_value_at(contents@, section@, key@),
{
    let mut ini = configparser::ini::Ini::new_cs();
    ini.set_multiline(true);
    ini.read(contents.to_owned()).ok()?;
    ini.get(section, key)
}

/// The normal form of a field that holds a valid name.
pub open spec fn field_name(field: Option<Seq<char>>) -> Option<Seq<char>> {
    match field {
        Some(text) => if valid_name(text) {
            Some(normalize(text))
        } else {
            None
        },
        None => None,
    }
}

/// The first of two fields that holds a valid name, in normal form.
pub open spec fn first_name(first: Option<Seq<char>>, second: Option<Seq<char>>) -> Option<
    Seq<char>,
> {
    if field_name(first).is_some() {
        field_name(first)
    } else {
        field_name(second)
    }
}

/// A name as the characters of its normal form.
pub open spec fn name_view(name: Option<PackageName>) -> Option<Seq<char>> {
    match name {
        Some(n) => Some(n@),
        None => None,
    }
}

/// A text as its characters.
pub open spec fn text_view(text: Option<String>) -> Option<Seq<char>> {
    match text {
        Some(t) => Some(t@),
        None => None,
    }
}

/// The keys under which a project descriptor holds the standard name.
pub open spec fn project_name_keys() -> Seq<Seq<char>> {
    seq!["project"@, "name"@]
}

/// The keys under which a project descriptor holds Poetry's name.
pub open spec fn poetry_name_keys() -> Seq<Seq<char>> {
    seq!["tool"@, "poetry"@, "name"@]
}

/// The name that a project descriptor gives: the `project` table's, or
/// failing that the one of the `tool.poetry` table.
pub open spec fn pyproject_name_of(contents: Seq<char>) -> Option<Seq<char>> {
    first_name(
        toml_string_at(contents, project_name_keys()),
        toml_string_at(contents, poetry_name_keys()),
    )
}

/// The name that a setup configuration gives: the key `name` of its section
/// `metadata`, where that is a valid name.
pub open spec fn setup_cfg_name_of(contents: Seq<char>) -> Option<Seq<char>> {
    field_name(ini_value_at(contents, "metadata"@, "name"@))
}

/// Picks the name out of the two fields of a project descriptor: the
/// standard one wins wherever it is a valid name.
pub fn choose_name(project: Option<String>, poetry: Option<String>) -> (r: Option<PackageName>)
    ensures
        name_view(r) == first_name(text_view(project), text_view(poetry)),
{
    match PackageName::from_field(project) {
        Some(name) => Some(name),
        None => PackageName::from_field(poetry),
    }
}

/// Reads the name from the text of a project descriptor.
pub fn pyproject_name(contents: &str) -> (r: Option<PackageName>)
    ensures
        name_view(r) == pyproject_name_of(contents@),
{
    let mut project_keys: Vec<&str> = Vec::new();
    project_keys.push("project");
    project_keys.push("name");
    let mut poetry_keys: Vec<&str> = Vec::new();
    poetry_keys.push("tool");
    poetry_keys.push("poetry");
    poetry_keys.push("name");
    assert(keys_view(project_keys@) =~= project_name_keys());
    assert(keys_view(poetry_keys@) =~= poetry_name_keys());
    let project: Option<String> = toml_lookup(contents, &project_keys);
    let poetry: Option<String> = toml_lookup(contents, &poetry_keys);
    choose_name(project, poetry)
}

/// Reads the name from the text of a setup configuration.
pub fn setup_cfg_name(contents: &str) -> (r: Option<PackageName>)
    ensures
        name_view(r) == setup_cfg_name_of(contents@),
{
    PackageName::from_field(ini_lookup(contents, "metadata", "name"))
}

} // verus!
