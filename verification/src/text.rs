//! Character-level helpers shared by every parser of the crate.
//!
//! Text is modelled as `Seq<char>`. Executable code works on `&[char]`, so
//! that an offset is a character index and every access is constant time.

use vstd::prelude::*;
use vstd::std_specs::iter::IteratorSpec;

verus! {

/// Index of the first occurrence of `c` in `s` at or after `from`, or
/// `s.len()` when there is none. An offset past the end is returned as is.
pub open spec fn find_char(s: Seq<char>, c: char, from: int) -> int
    decreases s.len() - from,
{
    if from < 0 || from >= s.len() {
        if from < 0 { s.len() as int } else { from }
    } else if s[from] == c {
        from
    } else {
        find_char(s, c, from + 1)
    }
}

/// `find_char` returns the least index at or after `from` that holds `c`.
pub proof fn lemma_find_char(s: Seq<char>, c: char, from: int)
    requires
        0 <= from <= s.len(),
    ensures
        from <= find_char(s, c, from) <= s.len(),
        find_char(s, c, from) < s.len() ==> s[find_char(s, c, from)] == c,
        forall|i: int| from <= i < find_char(s, c, from) ==> s[i] != c,
    decreases s.len() - from,
{
    if from < s.len() && s[from] != c {
        lemma_find_char(s, c, from + 1);
    }
}

/// Any index that holds `c` with no earlier occurrence since `from` is the
/// one `find_char` names.
pub proof fn lemma_find_char_unique(s: Seq<char>, c: char, from: int, at: int)
    requires
        0 <= from <= at <= s.len(),
        at < s.len() ==> s[at] == c,
        forall|i: int| from <= i < at ==> s[i] != c,
    ensures
        find_char(s, c, from) == at,
    decreases at - from,
{
    if from < at {
        lemma_find_char_unique(s, c, from + 1, at);
    }
}

/// Index of the last occurrence of `c` in `s` before `end`, or `-1` when
/// there is none.
pub open spec fn rfind_char(s: Seq<char>, c: char, end: int) -> int
    decreases end,
{
    if end <= 0 || end > s.len() {
        -1
    } else if s[end - 1] == c {
        end - 1
    } else {
        rfind_char(s, c, end - 1)
    }
}

/// `rfind_char` returns the greatest index before `end` that holds `c`.
pub proof fn lemma_rfind_char(s: Seq<char>, c: char, end: int)
    requires
        0 <= end <= s.len(),
    ensures
        -1 <= rfind_char(s, c, end) < end,
        rfind_char(s, c, end) >= 0 ==> s[rfind_char(s, c, end)] == c,
        forall|i: int| rfind_char(s, c, end) < i < end ==> s[i] != c,
    decreases end,
{
    if end > 0 && s[end - 1] != c {
        lemma_rfind_char(s, c, end - 1);
    }
}

pub open spec fn is_digit(c: char) -> bool {
    '0' <= c && c <= '9'
}

/// The number a decimal digit stands for.
pub open spec fn digit_value(c: char) -> nat
    recommends
        is_digit(c),
{
    (c as u32 - '0' as u32) as nat
}

/// Index of the first character at or after `from` that is no decimal
/// digit, or `s.len()`. An offset past the end is returned as is.
pub open spec fn digits_end(s: Seq<char>, from: int) -> int
    decreases s.len() - from,
{
    if from < 0 || from >= s.len() {
        if from < 0 { s.len() as int } else { from }
    } else if !is_digit(s[from]) {
        from
    } else {
        digits_end(s, from + 1)
    }
}

pub proof fn lemma_digits_end(s: Seq<char>, from: int)
    requires
        0 <= from <= s.len(),
    ensures
        from <= digits_end(s, from) <= s.len(),
        digits_end(s, from) < s.len() ==> !is_digit(s[digits_end(s, from)]),
        forall|i: int| from <= i < digits_end(s, from) ==> is_digit(s[i]),
    decreases s.len() - from,
{
    if from < s.len() && is_digit(s[from]) {
        lemma_digits_end(s, from + 1);
    }
}

pub proof fn lemma_digits_end_unique(s: Seq<char>, from: int, at: int)
    requires
        0 <= from <= at <= s.len(),
        at < s.len() ==> !is_digit(s[at]),
        forall|i: int| from <= i < at ==> is_digit(s[i]),
    ensures
        digits_end(s, from) == at,
    decreases at - from,
{
    if from < at {
        lemma_digits_end_unique(s, from + 1, at);
    }
}

/// The natural number that a run of decimal digits writes, most significant
/// digit first. The empty run counts as zero.
pub open spec fn decimal_value(digits: Seq<char>) -> nat
    decreases digits.len(),
{
    if digits.len() == 0 {
        0
    } else {
        decimal_value(digits.drop_last()) * 10 + digit_value(digits.last())
    }
}

/// Decodes a string slice into the sequence of its characters.
pub fn str_to_chars(s: &str) -> (out: Vec<char>)
    ensures
        out@ == s@,
{
    broadcast use vstd::string::group_string_axioms;

    let mut out: Vec<char> = Vec::new();
    let mut it = s.chars();
    loop
        invariant
            out@ + it.remaining() == s@,
            it.decrease() is Some,
        ensures
            out@ == s@,
        decreases it.decrease()->0,
    {
        match it.next() {
            Some(c) => {
                out.push(c);
            },
            None => {
                assert(out@ =~= out@ + it.remaining());
                break ;
            },
        }
    }
    out
}

/// `String::push` of the standard library: appends exactly one character to
/// the end of the string and leaves what was there untouched.
#[verifier::external_body]
fn push_char(s: &mut String, c: char)
    ensures
        final(s)@ == old(s)@.push(c),
{
    s.push(c)
}

/// Encodes a run of characters as an owned string.
pub fn chars_to_string(chars: &[char]) -> (out: String)
    ensures
        out@ == chars@,
{
    let mut out = String::new();
    let mut i: usize = 0;
    while i < chars.len()
        invariant
            i <= chars@.len(),
            out@ == chars@.take(i as int),
        decreases chars@.len() - i,
    {
        push_char(&mut out, chars[i]);
        i = i + 1;
        assert(chars@.take(i as int) =~= chars@.take(i - 1).push(chars@[i - 1]));
    }
    assert(chars@.take(i as int) =~= chars@);
    out
}

/// Finds `c` in `line` at or after `from`.
pub fn find(line: &[char], c: char, from: usize) -> (at: usize)
    ensures
        at == find_char(line@, c, from as int),
        from <= line@.len() ==> from <= at <= line@.len(),
{
    if from >= line.len() {
        return from;
    }
    let mut i: usize = from;
    while i < line.len() && line[i] != c
        invariant
            from <= i <= line@.len(),
            forall|k: int| from <= k < i ==> line@[k] != c,
        decreases line@.len() - i,
    {
        i = i + 1;
    }
    proof {
        lemma_find_char_unique(line@, c, from as int, i as int);
    }
    i
}

/// Finds the last `c` in `line` before `end`.
pub fn rfind(line: &[char], c: char, end: usize) -> (at: Option<usize>)
    requires
        end <= line@.len(),
    ensures
        match at {
            Some(i) => i == rfind_char(line@, c, end as int),
            None => rfind_char(line@, c, end as int) == -1,
        },
{
    let mut i: usize = end;
    while i > 0
        invariant
            i <= end <= line@.len(),
            rfind_char(line@, c, end as int) == rfind_char(line@, c, i as int),
        decreases i,
    {
        if line[i - 1] == c {
            return Some(i - 1);
        }
        i = i - 1;
    }
    None
}

/// Skips the run of decimal digits that starts at `from`.
pub fn skip_digits(line: &[char], from: usize) -> (at: usize)
    ensures
        at == digits_end(line@, from as int),
        from <= line@.len() ==> from <= at <= line@.len(),
{
    if from >= line.len() {
        return from;
    }
    let mut i: usize = from;
    while i < line.len() && '0' <= line[i] && line[i] <= '9'
        invariant
            from <= i <= line@.len(),
            forall|k: int| from <= k < i ==> is_digit(line@[k]),
        decreases line@.len() - i,
    {
        i = i + 1;
    }
    proof {
        lemma_digits_end_unique(line@, from as int, i as int);
    }
    i
}

/// Tells whether the characters of `line` in `from..to` spell `literal`.
pub fn range_is(line: &[char], from: usize, to: usize, literal: &str) -> (same: bool)
    requires
        from <= to <= line@.len(),
    ensures
        same == (line@.subrange(from as int, to as int) == literal@),
{
    let expected = str_to_chars(literal);
    let ghost range = line@.subrange(from as int, to as int);
    if expected.len() != to - from {
        return false;
    }
    let mut i: usize = 0;
    while i < expected.len()
        invariant
            from <= to <= line@.len(),
            range == line@.subrange(from as int, to as int),
            expected@ == literal@,
            expected@.len() == to - from,
            i <= expected@.len(),
            forall|k: int| 0 <= k < i ==> range[k] == expected@[k],
        decreases expected@.len() - i,
    {
        if line[from + i] != expected[i] {
            assert(range[i as int] == line@[from + i]);
            return false;
        }
        i = i + 1;
    }
    assert(range =~= expected@);
    true
}

} // verus!
