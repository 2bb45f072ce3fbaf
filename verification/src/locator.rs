//! Locators and their classification by scheme.

use vstd::prelude::*;
use vstd::string::*;
use crate::name::lower;
use crate::name::lower_char;
use crate::requirement::ResolveError;
use crate::text::after_last;
use crate::text::chars_of;
use crate::text::find_after_last;
use crate::text::text_is;

verus! {

/// An absolute reference to a requirement's source: the text as it was
/// written, and the scheme and the path that it parses to.
#[derive(Debug, Clone, PartialEq, Eq)]
pub struct Locator {
    pub given: String,
    pub scheme: String,
    pub path: String,
}

/// What kind of source a locator points at.
#[derive(Debug, Clone, Copy, PartialEq, Eq)]
pub enum SourceKind {
    /// A directory or a file on the local file system.
    Path,
    /// An archive behind a plain HTTP(S) URL.
    Direct,
    /// A repository under version control.
    VersionControl,
}

/// The kind of source that a scheme stands for, if it is a supported one.
pub open spec fn source_kind(scheme: Seq<char>) -> Option<SourceKind> {
    if scheme == "file"@ {
        Some(SourceKind::Path)
    } else if scheme == "http"@ || scheme == "https"@ {
        Some(SourceKind::Direct)
    } else if scheme == "git+ssh"@ || scheme == "git+https"@ {
        Some(SourceKind::VersionControl)
    } else {
        None
    }
}

/// Where the last segment of a path begins: behind its last `/`, or at 0.
pub open spec fn segment_start(path: Seq<char>) -> int {
    after_last(path, '/')
}

/// The file name of a path: its last segment.
pub open spec fn last_segment(path: Seq<char>) -> Seq<char> {
    path.subrange(segment_start(path), path.len() as int)
}

/// Whether the file name has a stem and the extension `whl`, in any case.
pub open spec fn has_wheel_extension(path: Seq<char>) -> bool {
    let name = last_segment(path);
    let n = name.len() as int;
    &&& n >= 5
    &&& name[n - 4] == '.'
    &&& lower(name[n - 3]) == 'w'
    &&& lower(name[n - 2]) == 'h'
    &&& lower(name[n - 1]) == 'l'
}

impl Locator {
    /// Classifies the locator by its scheme. Any scheme but `file`, `http`,
    /// `https`, `git+ssh` and `git+https` is refused, and the error holds the
    /// locator as it was written.
    pub fn classify(&self) -> (r: Result<SourceKind, ResolveError>)
        ensures
            match source_kind(self.scheme@) {
                Some(kind) => r == Ok::<SourceKind, ResolveError>(kind),
                None => r == Err::<SourceKind, ResolveError>(
                    ResolveError::UnsupportedScheme(self.given),
                ),
            },
    {
        let scheme: Vec<char> = chars_of(self.scheme.as_str());
        if text_is(&scheme, "file") {
            Ok(SourceKind::Path)
        } else if text_is(&scheme, "http") || text_is(&scheme, "https") {
            Ok(SourceKind::Direct)
        } else if text_is(&scheme, "git+ssh") || text_is(&scheme, "git+https") {
            Ok(SourceKind::VersionControl)
        } else {
            Err(ResolveError::UnsupportedScheme(self.given.clone()))
        }
    }

    /// Whether the locator's file name ends like a wheel's.
    pub fn is_wheel(&self) -> (r: bool)
        ensures
            r == has_wheel_extension(self.path@),
    {
        let p: Vec<char> = chars_of(self.path.as_str());
        let n: usize = p.len();
        let start: usize = find_segment_start(&p);
        if n - start < 5 {
            return false;
        }
        p[n - 4] == '.' && lower_char(p[n - 3]) == 'w' && lower_char(p[n - 2]) == 'h'
            && lower_char(p[n - 1]) == 'l'
    }

    /// The locator's file name: the last segment of its path.
    pub fn file_name(&self) -> (r: String)
        ensures
            r@ == last_segment(self.path@),
    {
        let p: Vec<char> = chars_of(self.path.as_str());
        let start: usize = find_segment_start(&p);
        self.path.as_str().substring_char(start, p.len()).to_owned()
    }
}

fn find_segment_start(path: &Vec<char>) -> (start: usize)
    ensures
        start == segment_start(path@),
        start <= path@.len(),
{
    assert(path@.subrange(0, path@.len() as int) == path@);
    find_after_last(path, '/', path.len())
}

} // verus!
