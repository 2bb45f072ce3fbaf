//! Package names: the grammar a raw string must meet, and its normal form.

use vstd::prelude::*;
use crate::text::chars_of;
use crate::text::text_is;

verus! {

/// A character that separates the words of a name.
pub open spec fn is_separator(c: char) -> bool {
    c == '-' || c == '_' || c == '.'
}

/// An ASCII letter or digit.
pub open spec fn is_alphanumeric(c: char) -> bool {
    ('a' <= c && c <= 'z') || ('A' <= c && c <= 'Z') || ('0' <= c && c <= '9')
}

/// The lower-case form of an ASCII letter; any other character is itself.
pub open spec fn lower(c: char) -> char {
    if 'A' <= c && c <= 'Z' {
        ((c as u8) + 32) as char
    } else {
        c
    }
}

/// The grammar of a raw package name: letters, digits and separators only,
/// not empty, and neither starting nor ending with a separator.
pub open spec fn valid_name(s: Seq<char>) -> bool {
    &&& s.len() > 0
    &&& forall|i: int| 0 <= i < s.len() ==> is_alphanumeric(#[trigger] s[i]) || is_separator(s[i])
    &&& is_alphanumeric(s[0])
    &&& is_alphanumeric(s[s.len() - 1])
}

/// The normal form of a raw name: letters in lower case, and each run of
/// separators written as a single `-`.
pub open spec fn normalize(s: Seq<char>) -> Seq<char>
    decreases s.len(),
{
    if s.len() == 0 {
        Seq::<char>::empty()
    } else {
        let init = normalize(s.drop_last());
        let c = s.last();
        if !is_separator(c) {
            init.push(lower(c))
        } else if s.len() >= 2 && is_separator(s[s.len() - 2]) {
            init
        } else {
            init.push('-')
        }
    }
}

/// A lower-case ASCII letter or a digit.
pub open spec fn is_lower_alphanumeric(c: char) -> bool {
    ('a' <= c && c <= 'z') || ('0' <= c && c <= '9')
}

/// What a name in normal form looks like: lower-case letters, digits and
/// single `-` between them, with a letter or digit at either end.
pub open spec fn is_normal(s: Seq<char>) -> bool {
    &&& s.len() > 0
    &&& forall|i: int| 0 <= i < s.len() ==> is_lower_alphanumeric(#[trigger] s[i]) || s[i] == '-'
    &&& s[0] != '-'
    &&& s[s.len() - 1] != '-'
    &&& forall|i: int| 0 < i < s.len() ==> !(#[trigger] s[i] == '-' && s[i - 1] == '-')
}

/// The start of a valid name: letters, digits and separators only, and no
/// separator in front.
pub open spec fn well_begun(s: Seq<char>) -> bool {
    &&& forall|i: int| 0 <= i < s.len() ==> is_alphanumeric(#[trigger] s[i]) || is_separator(s[i])
    &&& s.len() > 0 ==> is_alphanumeric(s[0])
}

/// The normal form of the start of a valid name is the start of a normal
/// form, and it ends in `-` exactly where the raw text ends in a separator.
pub proof fn lemma_normalize_prefix(s: Seq<char>)
    requires
        well_begun(s),
    ensures
        s.len() == 0 ==> normalize(s).len() == 0,
        s.len() > 0 ==> normalize(s).len() > 0 && normalize(s)[0] != '-' && (normalize(s).last()
            == '-' <==> is_separator(s.last())),
        forall|i: int|
            0 <= i < normalize(s).len() ==> is_lower_alphanumeric(#[trigger] normalize(s)[i])
                || normalize(s)[i] == '-',
        forall|i: int|
            0 < i < normalize(s).len() ==> !(#[trigger] normalize(s)[i] == '-' && normalize(s)[i
                - 1] == '-'),
    decreases s.len(),
{
    if s.len() > 0 {
        let init = s.drop_last();
        assert(well_begun(init)) by {
            assert forall|i: int| 0 <= i < init.len() implies is_alphanumeric(#[trigger] init[i])
                || is_separator(init[i]) by {
                assert(init[i] == s[i]);
            }
            if init.len() > 0 {
                assert(init[0] == s[0]);
            }
        }
        lemma_normalize_prefix(init);
        let c = s.last();
        assert(is_alphanumeric(c) || is_separator(c)) by {
            assert(c == s[s.len() - 1]);
        }
        if s.len() >= 2 {
            assert(init.last() == s[s.len() - 2]);
        } else {
            assert(c == s[0]);
        }
        assert(is_lower_alphanumeric(lower(c)) || is_separator(c));
    }
}

/// The normal form of a valid name is a name in normal form.
pub proof fn lemma_normalize_is_normal(s: Seq<char>)
    requires
        valid_name(s),
    ensures
        is_normal(normalize(s)),
{
    lemma_normalize_prefix(s);
}

/// A validated package name, held in normal form.
#[derive(Debug)]
pub struct PackageName {
    chars: Vec<char>,
}

impl View for PackageName {
    type V = Seq<char>;

    closed spec fn view(&self) -> Seq<char> {
        self.chars@
    }
}

fn is_separator_char(c: char) -> (r: bool)
    ensures
        r == is_separator(c),
{
    c == '-' || c == '_' || c == '.'
}

fn is_alphanumeric_char(c: char) -> (r: bool)
    ensures
        r == is_alphanumeric(c),
{
    ('a' <= c && c <= 'z') || ('A' <= c && c <= 'Z') || ('0' <= c && c <= '9')
}

pub(crate) fn lower_char(c: char) -> (r: char)
    ensures
        r == lower(c),
{
    if 'A' <= c && c <= 'Z' {
        ((c as u8) + 32) as char
    } else {
        c
    }
}

impl PackageName {
    #[verifier::type_invariant]
    spec fn normal(self) -> bool {
        is_normal(self.chars@)
    }

    /// Validates `raw` against the name grammar and, where it is valid,
    /// gives the name in normal form.
    pub fn new(raw: &str) -> (r: Option<PackageName>)
        ensures
            valid_name(raw@) ==> r.is_some() && r.unwrap()@ == normalize(raw@),
            !valid_name(raw@) ==> r.is_none(),
    {
        let s: Vec<char> = chars_of(raw);
        PackageName::from_chars(&s)
    }

    /// Validates the characters `s` against the name grammar and, where
    /// they are valid, gives the name in normal form.
    pub fn from_chars(s: &Vec<char>) -> (r: Option<PackageName>)
        ensures
            valid_name(s@) ==> r.is_some() && r.unwrap()@ == normalize(s@),
            !valid_name(s@) ==> r.is_none(),
    {
        let n: usize = s.len();
        if n == 0 {
            return None;
        }
        if !is_alphanumeric_char(s[0]) || !is_alphanumeric_char(s[n - 1]) {
            return None;
        }
        let mut out: Vec<char> = Vec::new();
        let mut i: usize = 0;
        while i < n
            invariant
                n == s@.len(),
                i <= n,
                out@ == normalize(s@.subrange(0, i as int)),
                forall|j: int| 0 <= j < i ==> is_alphanumeric(#[trigger] s@[j]) || is_separator(s@[j]),
            decreases n - i,
        {
            let c: char = s[i];
            proof {
                let next = s@.subrange(0, i + 1);
                assert(next.drop_last() == s@.subrange(0, i as int));
                assert(next.last() == c);
                if i >= 1 {
                    assert(next[next.len() - 2] == s@[i - 1]);
                }
            }
            if is_separator_char(c) {
                if i == 0 || !is_separator_char(s[i - 1]) {
                    out.push('-');
                }
            } else if is_alphanumeric_char(c) {
                out.push(lower_char(c));
            } else {
                assert(!is_alphanumeric(s@[i as int]) && !is_separator(s@[i as int]));
                return None;
            }
            i += 1;
        }
        assert(s@.subrange(0, n as int) == s@);
        proof {
            lemma_normalize_is_normal(s@);
        }
        Some(PackageName { chars: out })
    }

    /// Validates the text where there is one.
    pub fn from_field(field: Option<String>) -> (r: Option<PackageName>)
        ensures
            r.is_some() == (field.is_some() && valid_name(field.unwrap()@)),
            r.is_some() ==> r.unwrap()@ == normalize(field.unwrap()@),
    {
        match field {
            Some(text) => PackageName::new(text.as_str()),
            None => None,
        }
    }

    /// The characters of the name, which are in normal form.
    pub fn as_chars(&self) -> (r: &Vec<char>)
        ensures
            r@ == self@,
            is_normal(self@),
    {
        proof {
            use_type_invariant(self);
        }
        &self.chars
    }

    /// Whether the normal form of this name is exactly `text`.
    pub fn matches(&self, text: &str) -> (r: bool)
        ensures
            r == (self@ == text@),
    {
        text_is(&self.chars, text)
    }
}

} // verus!
