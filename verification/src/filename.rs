//! The names of distribution files: wheels and source archives.
//!
//! Both conventions put the package name first and the version behind it.
//! The name is validated here. The version's own grammar is not: these
//! readers cut the version out of the file name and leave it to be judged.

use vstd::prelude::*;
use vstd::string::*;
use crate::name::normalize;
use crate::name::valid_name;
use crate::name::PackageName;
use crate::text::after_last;
use crate::text::chars_of;
use crate::text::copy_range;
use crate::text::ends_with;
use crate::text::ends_with_text;
use crate::text::find_after_last;
use crate::text::find_first;
use crate::text::first_at;

verus! {

/// What is wrong with a file name that should be a wheel's.
#[derive(Debug, PartialEq, Eq)]
pub enum WheelFault {
    /// It does not end in `.whl`, in lower case.
    Extension,
    /// Nothing follows the name.
    MissingVersion,
    /// Nothing follows the version.
    MissingPythonTag,
    /// Nothing follows the Python tag.
    MissingAbiTag,
    /// Nothing follows the ABI tag.
    MissingPlatformTag,
    /// It has more than six components.
    TooManyComponents,
    /// Its first component is no package name.
    InvalidName,
    /// Its second component is no version; holds the complaint.
    InvalidVersion(String),
}

/// What a fault says to the user.
pub open spec fn fault_message(fault: WheelFault) -> Seq<char> {
    match fault {
        WheelFault::Extension => "Must end with .whl"@,
        WheelFault::MissingVersion => "Must have a version"@,
        WheelFault::MissingPythonTag => "Must have a Python tag"@,
        WheelFault::MissingAbiTag => "Must have an ABI tag"@,
        WheelFault::MissingPlatformTag => "Must have a platform tag"@,
        WheelFault::TooManyComponents => "Must have 5 or 6 components, but has more"@,
        WheelFault::InvalidName => "Not a valid package name"@,
        WheelFault::InvalidVersion(why) => why@,
    }
}

impl WheelFault {
    /// The message of the fault.
    pub fn message(&self) -> (r: String)
        ensures
            r@ == fault_message(*self),
    {
        match self {
            WheelFault::Extension => "Must end with .whl".to_owned(),
            WheelFault::MissingVersion => "Must have a version".to_owned(),
            WheelFault::MissingPythonTag => "Must have a Python tag".to_owned(),
            WheelFault::MissingAbiTag => "Must have an ABI tag".to_owned(),
            WheelFault::MissingPlatformTag => "Must have a platform tag".to_owned(),
            WheelFault::TooManyComponents => "Must have 5 or 6 components, but has more".to_owned(),
            WheelFault::InvalidName => "Not a valid package name".to_owned(),
            WheelFault::InvalidVersion(why) => why.clone(),
        }
    }
}

/// The two leading fields of a distribution's file name.
#[derive(Debug)]
pub struct FileNameParts {
    /// The package name.
    pub name: PackageName,
    /// The version as it is written in the file name.
    pub version: String,
}

/// A wheel's file name without its extension.
pub open spec fn wheel_stem(file_name: Seq<char>) -> Seq<char> {
    file_name.subrange(0, file_name.len() - ".whl"@.len())
}

/// Where the first component of a wheel's stem ends.
pub open spec fn wheel_name_end(stem: Seq<char>) -> int {
    first_at(stem, '-', 0)
}

/// Where the second component of a wheel's stem ends.
pub open spec fn wheel_version_end(stem: Seq<char>) -> int {
    first_at(stem, '-', wheel_name_end(stem) + 1)
}

/// What is wrong with the shape of a wheel's file name, if anything: it
/// ends in `.whl`, and before that stand five or six components between
/// `-`, the first of them a valid package name.
pub open spec fn wheel_fault(file_name: Seq<char>) -> Option<WheelFault> {
    if !ends_with(file_name, ".whl"@) {
        Some(WheelFault::Extension)
    } else {
        let stem = wheel_stem(file_name);
        let d1 = wheel_name_end(stem);
        let d2 = wheel_version_end(stem);
        let d3 = first_at(stem, '-', d2 + 1);
        let d4 = first_at(stem, '-', d3 + 1);
        let d5 = first_at(stem, '-', d4 + 1);
        let d6 = first_at(stem, '-', d5 + 1);
        if d1 >= stem.len() {
            Some(WheelFault::MissingVersion)
        } else if d2 >= stem.len() {
            Some(WheelFault::MissingPythonTag)
        } else if d3 >= stem.len() {
            Some(WheelFault::MissingAbiTag)
        } else if d4 >= stem.len() {
            Some(WheelFault::MissingPlatformTag)
        } else if d5 < stem.len() && d6 < stem.len() {
            Some(WheelFault::TooManyComponents)
        } else if !valid_name(stem.subrange(0, d1)) {
            Some(WheelFault::InvalidName)
        } else {
            None
        }
    }
}

/// The package name in a well-shaped wheel's file name, in normal form.
pub open spec fn wheel_name_of(file_name: Seq<char>) -> Seq<char> {
    let stem = wheel_stem(file_name);
    normalize(stem.subrange(0, wheel_name_end(stem)))
}

/// The version as written in a well-shaped wheel's file name.
pub open spec fn wheel_version_of(file_name: Seq<char>) -> Seq<char> {
    let stem = wheel_stem(file_name);
    stem.subrange(wheel_name_end(stem) + 1, wheel_version_end(stem))
}

/// A source archive's file name without its extension, `.tar.gz` or `.zip`.
pub open spec fn source_dist_stem(file_name: Seq<char>) -> Option<Seq<char>> {
    if ends_with(file_name, ".tar.gz"@) {
        Some(file_name.subrange(0, file_name.len() - ".tar.gz"@.len()))
    } else if ends_with(file_name, ".zip"@) {
        Some(file_name.subrange(0, file_name.len() - ".zip"@.len()))
    } else {
        None
    }
}

/// Whether a file name has the shape of a source archive's: a known
/// extension, and before it a valid package name, a `-` and a version. The
/// version is what follows the last `-`.
pub open spec fn is_source_dist_shaped(file_name: Seq<char>) -> bool {
    match source_dist_stem(file_name) {
        Some(stem) => after_last(stem, '-') > 0 && valid_name(
            stem.subrange(0, after_last(stem, '-') - 1),
        ),
        None => false,
    }
}

/// The package name in a source archive's file name, in normal form.
pub open spec fn source_dist_name_of(file_name: Seq<char>) -> Seq<char> {
    let stem = source_dist_stem(file_name).unwrap();
    normalize(stem.subrange(0, after_last(stem, '-') - 1))
}

/// The version as written in a source archive's file name.
pub open spec fn source_dist_version_of(file_name: Seq<char>) -> Seq<char> {
    let stem = source_dist_stem(file_name).unwrap();
    stem.subrange(after_last(stem, '-'), stem.len() as int)
}

/// Reads a file name under the grammar of wheel file names: the name and
/// the version as written, or what is wrong with its shape.
pub fn parse_wheel(file_name: &str) -> (r: Result<FileNameParts, WheelFault>)
    ensures
        match wheel_fault(file_name@) {
            Some(fault) => r == Err::<FileNameParts, WheelFault>(fault),
            None => {
                &&& r.is_ok()
                &&& r.unwrap().name@ == wheel_name_of(file_name@)
                &&& r.unwrap().version@ == wheel_version_of(file_name@)
            },
        },
{
    let text: Vec<char> = chars_of(file_name);
    if !ends_with_text(&text, ".whl") {
        return Err(WheelFault::Extension);
    }
    let m: usize = text.len() - ".whl".unicode_len();
    let ghost stem = text@.subrange(0, m as int);
    assert(stem == wheel_stem(file_name@));
    let d1: usize = find_first(&text, '-', 0, m);
    if d1 >= m {
        return Err(WheelFault::MissingVersion);
    }
    let d2: usize = find_first(&text, '-', d1 + 1, m);
    if d2 >= m {
        return Err(WheelFault::MissingPythonTag);
    }
    let d3: usize = find_first(&text, '-', d2 + 1, m);
    if d3 >= m {
        return Err(WheelFault::MissingAbiTag);
    }
    let d4: usize = find_first(&text, '-', d3 + 1, m);
    if d4 >= m {
        return Err(WheelFault::MissingPlatformTag);
    }
    let d5: usize = find_first(&text, '-', d4 + 1, m);
    if d5 < m {
        let d6: usize = find_first(&text, '-', d5 + 1, m);
        if d6 < m {
            return Err(WheelFault::TooManyComponents);
        }
    }
    let raw: Vec<char> = copy_range(&text, 0, d1);
    assert(raw@ =~= stem.subrange(0, d1 as int));
    match PackageName::from_chars(&raw) {
        None => Err(WheelFault::InvalidName),
        Some(name) => {
            let version: String = file_name.substring_char(d1 + 1, d2).to_owned();
            assert(version@ =~= stem.subrange(d1 + 1, d2 as int));
            Ok(FileNameParts { name, version })
        },
    }
}

/// Reads a file name under the convention of source archives: the name and
/// the version as written, where the file name has that shape.
pub fn parse_source_dist(file_name: &str) -> (r: Option<FileNameParts>)
    ensures
        r.is_some() == is_source_dist_shaped(file_name@),
        r.is_some() ==> r.unwrap().name@ == source_dist_name_of(file_name@) && r.unwrap().version@
            == source_dist_version_of(file_name@),
{
    let text: Vec<char> = chars_of(file_name);
    let n: usize = text.len();
    let m: usize = if ends_with_text(&text, ".tar.gz") {
        n - ".tar.gz".unicode_len()
    } else if ends_with_text(&text, ".zip") {
        n - ".zip".unicode_len()
    } else {
        return None;
    };
    let ghost stem = text@.subrange(0, m as int);
    assert(source_dist_stem(file_name@) == Some(stem));
    let cut: usize = find_after_last(&text, '-', m);
    if cut == 0 {
        return None;
    }
    let raw: Vec<char> = copy_range(&text, 0, cut - 1);
    assert(raw@ =~= stem.subrange(0, cut - 1));
    match PackageName::from_chars(&raw) {
        None => None,
        Some(name) => {
            let version: String = file_name.substring_char(cut, m).to_owned();
            assert(version@ =~= stem.subrange(cut as int, stem.len() as int));
            Some(FileNameParts { name, version })
        },
    }
}

} // verus!
