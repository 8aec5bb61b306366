//! Locations of manifests and segments, and how a reference found in a
//! manifest is resolved against the manifest's own location.

use vstd::prelude::*;
use vstd::slice::slice_subrange;
use crate::text::{chars_to_string, find, find_char, rfind, rfind_char, str_to_chars, lemma_rfind_char};

verus! {

pub open spec fn is_alpha(c: char) -> bool {
    ('a' <= c && c <= 'z') || ('A' <= c && c <= 'Z')
}

/// Characters that may follow the first letter of a scheme.
pub open spec fn is_scheme_char(c: char) -> bool {
    is_alpha(c) || ('0' <= c && c <= '9') || c == '+' || c == '-' || c == '.'
}

/// Index of the first character at or after `from` that cannot be part of a
/// scheme, or `s.len()`.
pub open spec fn scheme_end(s: Seq<char>, from: int) -> int
    decreases s.len() - from,
{
    if from < 0 || from >= s.len() || !is_scheme_char(s[from]) {
        from
    } else {
        scheme_end(s, from + 1)
    }
}

/// A reference is absolute when it names its scheme: a letter, then letters,
/// digits, `+`, `-` or `.`, then a colon.
pub open spec fn is_absolute_url(s: Seq<char>) -> bool {
    &&& s.len() > 0
    &&& is_alpha(s[0])
    &&& scheme_end(s, 1) < s.len()
    &&& s[scheme_end(s, 1)] == ':'
}

/// The directory of a location: the location up to and including its last
/// `/`, that is without its final path segment. Empty where it has no `/`.
pub open spec fn directory_of(s: Seq<char>) -> Seq<char> {
    s.take(rfind_char(s, '/', s.len() as int) + 1)
}

/// What a reference found in a manifest points to: itself where it is
/// absolute, else the manifest's directory followed by the reference.
pub open spec fn resolve_url(base_directory: Seq<char>, reference: Seq<char>) -> Seq<char> {
    if is_absolute_url(reference) {
        reference
    } else {
        base_directory + reference
    }
}

/// Where the path of a location ends: at its first `?` or `#`, or at its end.
pub open spec fn path_end(s: Seq<char>) -> int {
    if find_char(s, '?', 0) <= find_char(s, '#', 0) {
        find_char(s, '?', 0)
    } else {
        find_char(s, '#', 0)
    }
}

/// The file extension of a location: what follows the last `.` of the final
/// segment of its path. Empty where that segment has no `.`.
pub open spec fn extension_of(s: Seq<char>) -> Seq<char> {
    let end = path_end(s);
    let dot = rfind_char(s, '.', end);
    if dot > rfind_char(s, '/', end) {
        s.subrange(dot + 1, end)
    } else {
        Seq::empty()
    }
}

/// A location, absolute or relative.
#[derive(Debug)]
pub struct Url {
    chars: Vec<char>,
}

impl Clone for Url {
    fn clone(&self) -> (out: Url)
        ensures
            out@ == self@,
    {
        Url::from_chars(self.chars.as_slice())
    }
}

impl View for Url {
    type V = Seq<char>;

    closed spec fn view(&self) -> Seq<char> {
        self.chars@
    }
}

impl Url {
    pub fn new(url: String) -> (out: Url)
        ensures
            out@ == url@,
    {
        Url { chars: str_to_chars(url.as_str()) }
    }

    /// The location whose characters are `chars`.
    pub fn from_chars(chars: &[char]) -> (out: Url)
        ensures
            out@ == chars@,
    {
        Url { chars: vstd::slice::slice_to_vec(chars) }
    }

    pub fn as_chars(&self) -> (out: &[char])
        ensures
            out@ == self@,
    {
        self.chars.as_slice()
    }

    /// The location as text.
    pub fn to_string(&self) -> (out: String)
        ensures
            out@ == self@,
    {
        chars_to_string(self.chars.as_slice())
    }

    pub fn is_absolute(&self) -> (absolute: bool)
        ensures
            absolute == is_absolute_url(self@),
    {
        is_absolute(self.chars.as_slice())
    }

    /// The directory this location lies in.
    pub fn pathname(&self) -> (out: &[char])
        ensures
            out@ == directory_of(self@),
    {
        let chars = self.chars.as_slice();
        proof {
            lemma_rfind_char(chars@, '/', chars@.len() as int);
        }
        match rfind(chars, '/', chars.len()) {
            Some(slash) => {
                assert(chars@.take(slash + 1) =~= chars@.subrange(0, slash + 1));
                slice_subrange(chars, 0, slash + 1)
            },
            None => {
                assert(chars@.take(0) =~= chars@.subrange(0, 0));
                slice_subrange(chars, 0, 0)
            },
        }
    }

    /// The location of `relative` as seen from the directory `base`.
    pub fn from_relative(base: &[char], relative: Url) -> (out: Url)
        ensures
            out@ == base@ + relative@,
    {
        let mut chars = vstd::slice::slice_to_vec(base);
        let mut rest = relative.chars;
        chars.append(&mut rest);
        Url { chars }
    }

    /// What `reference` points to when found in a manifest that lies in the
    /// directory `base`.
    pub fn resolve(base: &[char], reference: &[char]) -> (out: Url)
        ensures
            out@ == resolve_url(base@, reference@),
    {
        let url = Url::from_chars(reference);
        if url.is_absolute() {
            url
        } else {
            Url::from_relative(base, url)
        }
    }

    pub fn extension(&self) -> (out: &[char])
        ensures
            out@ == extension_of(self@),
    {
        let chars = self.chars.as_slice();
        let query = find(chars, '?', 0);
        let fragment = find(chars, '#', 0);
        let end = if query <= fragment { query } else { fragment };
        let dot = rfind(chars, '.', end);
        let slash = rfind(chars, '/', end);
        proof {
            lemma_rfind_char(chars@, '.', end as int);
            lemma_rfind_char(chars@, '/', end as int);
        }
        match dot {
            None => slice_subrange(chars, 0, 0),
            Some(dot) => {
                let after_slash = match slash {
                    Some(slash) => dot > slash,
                    None => true,
                };
                if after_slash {
                    slice_subrange(chars, dot + 1, end)
                } else {
                    slice_subrange(chars, 0, 0)
                }
            },
        }
    }
}

/// Tells whether `reference` names its scheme.
pub fn is_absolute(reference: &[char]) -> (absolute: bool)
    ensures
        absolute == is_absolute_url(reference@),
{
    if reference.len() == 0 || !is_alpha_char(reference[0]) {
        return false;
    }
    let mut i: usize = 1;
    while i < reference.len() && is_scheme_character(reference[i])
        invariant
            1 <= i <= reference@.len(),
            scheme_end(reference@, 1) == scheme_end(reference@, i as int),
        decreases reference@.len() - i,
    {
        i = i + 1;
    }
    i < reference.len() && reference[i] == ':'
}

fn is_alpha_char(c: char) -> (alpha: bool)
    ensures
        alpha == is_alpha(c),
{
    ('a' <= c && c <= 'z') || ('A' <= c && c <= 'Z')
}

fn is_scheme_character(c: char) -> (ok: bool)
    ensures
        ok == is_scheme_char(c),
{
    is_alpha_char(c) || ('0' <= c && c <= '9') || c == '+' || c == '-' || c == '.'
}

} // verus!
