//! The reader of the `Name` field of a legacy metadata file.
//!
//! The file is a block of header lines, `Field: value`, that ends at the
//! first blank line. Only the first `Name` field is read.

use vstd::prelude::*;
use crate::metadata::field_name;
use crate::metadata::name_view;
use crate::name::lower;
use crate::name::lower_char;
use crate::name::PackageName;
use crate::text::chars_of;
use crate::text::copy_range;
use crate::text::find_first;
use crate::text::first_at;

verus! {

/// A blank inside a line: a space, a tab or a carriage return.
pub open spec fn is_blank(c: char) -> bool {
    c == ' ' || c == '\t' || c == '\r'
}

/// Where the line that starts at `from` ends: at the next line feed, or at
/// the end of the text.
pub open spec fn line_end(text: Seq<char>, from: int) -> int {
    first_at(text, '\n', from)
}

/// The text without the blanks at its start.
pub open spec fn trim_start(s: Seq<char>) -> Seq<char>
    decreases s.len(),
{
    if s.len() > 0 && is_blank(s[0]) {
        trim_start(s.drop_first())
    } else {
        s
    }
}

/// The text without the blanks at its end.
pub open spec fn trim_end(s: Seq<char>) -> Seq<char>
    decreases s.len(),
{
    if s.len() > 0 && is_blank(s.last()) {
        trim_end(s.drop_last())
    } else {
        s
    }
}

/// The text without the blanks at either end.
pub open spec fn trim(s: Seq<char>) -> Seq<char> {
    trim_end(trim_start(s))
}

/// Whether a line is the header of the field `Name`, in any case.
pub open spec fn is_name_line(line: Seq<char>) -> bool {
    &&& line.len() >= 5
    &&& lower(line[0]) == 'n'
    &&& lower(line[1]) == 'a'
    &&& lower(line[2]) == 'm'
    &&& lower(line[3]) == 'e'
    &&& line[4] == ':'
}

/// Whether a line goes on with the field of the line before it: it starts
/// with a space or a tab.
pub open spec fn is_continuation(raw: Seq<char>) -> bool {
    raw.len() > 0 && (raw[0] == ' ' || raw[0] == '\t')
}

/// The value of the first `Name` field among the header lines from `from`
/// on. The headers end at the first blank line, and a line that goes on
/// with the field before it starts no field.
pub open spec fn name_field(text: Seq<char>, from: int) -> Option<Seq<char>>
    decreases text.len() - from,
{
    if from < 0 || from >= text.len() {
        None
    } else {
        let end = line_end(text, from);
        let raw = text.subrange(from, end);
        let line = trim(raw);
        if line.len() == 0 {
            None
        } else if !is_continuation(raw) && is_name_line(line) {
            Some(trim(line.subrange(5, line.len() as int)))
        } else if from <= end < text.len() {
            name_field(text, end + 1)
        } else {
            None
        }
    }
}

/// The name that a legacy metadata file gives: the value of its first
/// `Name` field, where that is a valid name.
pub open spec fn pkg_info_name_of(contents: Seq<char>) -> Option<Seq<char>> {
    field_name(name_field(contents, 0))
}

fn is_blank_char(c: char) -> (r: bool)
    ensures
        r == is_blank(c),
{
    c == ' ' || c == '\t' || c == '\r'
}

fn find_line_end(text: &Vec<char>, from: usize) -> (end: usize)
    requires
        from <= text@.len(),
    ensures
        end == line_end(text@, from as int),
        from <= end <= text@.len(),
{
    assert(text@.subrange(0, text@.len() as int) == text@);
    find_first(text, '\n', from, text.len())
}

fn trim_range(text: &Vec<char>, from: usize, to: usize) -> (r: (usize, usize))
    requires
        from <= to <= text@.len(),
    ensures
        from <= r.0 <= r.1 <= to,
        text@.subrange(r.0 as int, r.1 as int) == trim(text@.subrange(from as int, to as int)),
{
    let mut a: usize = from;
    while a < to && is_blank_char(text[a])
        invariant
            from <= a <= to <= text@.len(),
            trim_start(text@.subrange(from as int, to as int)) == trim_start(
                text@.subrange(a as int, to as int),
            ),
        decreases to - a,
    {
        proof {
            let s = text@.subrange(a as int, to as int);
            assert(s[0] == text@[a as int]);
            assert(s.drop_first() =~= text@.subrange(a + 1, to as int));
        }
        a += 1;
    }
    proof {
        let s = text@.subrange(a as int, to as int);
        if a < to {
            assert(s[0] == text@[a as int]);
        }
        assert(trim_start(s) == s);
    }
    let mut b: usize = to;
    while b > a && is_blank_char(text[b - 1])
        invariant
            from <= a <= b <= to <= text@.len(),
            trim(text@.subrange(from as int, to as int)) == trim_end(
                text@.subrange(a as int, b as int),
            ),
        decreases b - a,
    {
        proof {
            let s = text@.subrange(a as int, b as int);
            assert(s.last() == text@[b - 1]);
            assert(s.drop_last() =~= text@.subrange(a as int, b - 1));
        }
        b -= 1;
    }
    proof {
        let s = text@.subrange(a as int, b as int);
        if b > a {
            assert(s.last() == text@[b - 1]);
        }
        assert(trim_end(s) == s);
    }
    (a, b)
}

/// Reads the name from the text of a legacy metadata file.
pub fn pkg_info_name(contents: &str) -> (r: Option<PackageName>)
    ensures
        name_view(r) == pkg_info_name_of(contents@),
{
    let text: Vec<char> = chars_of(contents);
    let n: usize = text.len();
    let mut from: usize = 0;
    while from < n
        invariant
            n == text@.len(),
            text@ == contents@,
            from <= n,
            name_field(text@, 0) == name_field(text@, from as int),
        decreases n - from,
    {
        let end: usize = find_line_end(&text, from);
        let (a, b) = trim_range(&text, from, end);
        if a == b {
            return None;
        }
        let ghost line = text@.subrange(a as int, b as int);
        assert(text@.subrange(from as int, end as int)[0] == text@[from as int]);
        let continued: bool = text[from] == ' ' || text[from] == '\t';
        if !continued && b - a >= 5 && lower_char(text[a]) == 'n' && lower_char(text[a + 1]) == 'a' && lower_char(
            text[a + 2],
        ) == 'm' && lower_char(text[a + 3]) == 'e' && text[a + 4] == ':' {
            let (c, d) = trim_range(&text, a + 5, b);
            let value: Vec<char> = copy_range(&text, c, d);
            proof {
                assert(is_name_line(line));
                assert(line.subrange(5, line.len() as int) =~= text@.subrange(a + 5, b as int));
            }
            return PackageName::from_chars(&value);
        }
        proof {
            if !continued && b - a >= 5 {
                assert(line[0] == text@[a as int]);
                assert(line[1] == text@[a + 1]);
                assert(line[2] == text@[a + 2]);
                assert(line[3] == text@[a + 3]);
                assert(line[4] == text@[a + 4]);
            }
            assert(continued || !is_name_line(line));
        }
        if end < n {
            from = end + 1;
        } else {
            from = n;
        }
    }
    None
}

} // verus!
