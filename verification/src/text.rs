//! Character-level text operations shared by the transcript codec and the
//! workflow: conversion between strings and character vectors, substring
//! search, trimming, replacement and splitting.
//!
//! Every operation is specified over `Seq<char>`, the view of `str` and
//! `String`, so an offset always names a whole character.

use vstd::prelude::*;

verus! {

/// `String::push` of the standard library. Trusted: the character is added
/// at the end.
pub assume_specification[ String::push ](s: &mut String, c: char)
    ensures
        final(s)@ == old(s)@.push(c),
;

/// The `==` of `str` in the standard library. Trusted: two strings are
/// equal exactly when they hold the same characters.
pub assume_specification[ <str as PartialEq>::eq ](a: &str, b: &str) -> (equal: bool)
    ensures
        equal == (a@ == b@),
;

/// What `str::to_lowercase` makes of a text: its lowercase equivalent by the
/// Unicode rules.
pub uninterp spec fn lowercase(text: Seq<char>) -> Seq<char>;

/// `str::to_lowercase` of the standard library. Trusted: what it returns
/// depends on the text alone.
pub assume_specification[ str::to_lowercase ](s: &str) -> (lower: String)
    ensures
        lower@ == lowercase(s@),
;

/// Whether two strings hold the same characters.
pub fn same_text(a: &str, b: &str) -> (equal: bool)
    ensures
        equal == (a@ == b@),
{
    a.eq(b)
}

/// Whether `c` has the Unicode `White_Space` property.
pub open spec fn is_whitespace(c: char) -> bool {
    let n = c as u32;
    (0x09 <= n <= 0x0D) || n == 0x20 || n == 0x85 || n == 0xA0 || n == 0x1680 || (0x2000 <= n
        <= 0x200A) || n == 0x2028 || n == 0x2029 || n == 0x202F || n == 0x205F || n == 0x3000
}

/// Whether `c` is whitespace.
pub fn char_is_whitespace(c: char) -> (b: bool)
    ensures
        b == is_whitespace(c),
{
    let n: u32 = c as u32;
    (0x09 <= n && n <= 0x0D) || n == 0x20 || n == 0x85 || n == 0xA0 || n == 0x1680 || (0x2000 <= n
        && n <= 0x200A) || n == 0x2028 || n == 0x2029 || n == 0x202F || n == 0x205F || n == 0x3000
}

/// The characters of `s`, in order.
pub fn chars_of(s: &str) -> (out: Vec<char>)
    ensures
        out@ == s@,
{
    let mut out: Vec<char> = Vec::new();
    for c in it: s.chars()
        invariant
            out@ == s@.take(it.index() as int),
            it.seq() == s@,
    {
        out.push(c);
    }
    out
}

/// The string made of `chars[from..to]`.
pub fn string_of_range(chars: &Vec<char>, from: usize, to: usize) -> (out: String)
    requires
        from <= to <= chars.len(),
    ensures
        out@ == chars@.subrange(from as int, to as int),
{
    let mut out = String::new();
    let mut i: usize = from;
    while i < to
        invariant
            from <= i <= to <= chars.len(),
            out@ == chars@.subrange(from as int, i as int),
        decreases to - i,
    {
        out.push(chars[i]);
        i += 1;
    }
    out
}

/// Whether `pat` stands in `text` at offset `at`.
pub open spec fn occurs_at(text: Seq<char>, pat: Seq<char>, at: int) -> bool {
    0 <= at && at + pat.len() <= text.len() && text.subrange(at, at + pat.len()) == pat
}

/// The offset of the first occurrence of `pat` in `text` that starts at or
/// after `from`.
pub open spec fn find_from(text: Seq<char>, pat: Seq<char>, from: int) -> Option<int>
    decreases text.len() - from + 1,
{
    if from < 0 || from + pat.len() > text.len() {
        None
    } else if occurs_at(text, pat, from) {
        Some(from)
    } else {
        find_from(text, pat, from + 1)
    }
}

/// What is found is an occurrence at or after `from`, and the first of
/// them.
pub proof fn lemma_find_from_some(text: Seq<char>, pat: Seq<char>, from: int)
    requires
        find_from(text, pat, from) is Some,
    ensures
        from <= find_from(text, pat, from).unwrap(),
        occurs_at(text, pat, find_from(text, pat, from).unwrap()),
        forall|j: int|
            from <= j < find_from(text, pat, from).unwrap() ==> !occurs_at(text, pat, j),
    decreases text.len() - from + 1,
{
    if !occurs_at(text, pat, from) {
        lemma_find_from_some(text, pat, from + 1);
    }
}

/// Where nothing is found, the pattern occurs nowhere at or after `from`.
pub proof fn lemma_find_from_none(text: Seq<char>, pat: Seq<char>, from: int)
    requires
        0 <= from,
        find_from(text, pat, from) is None,
    ensures
        forall|j: int| from <= j ==> !occurs_at(text, pat, j),
    decreases text.len() - from + 1,
{
    if from + pat.len() <= text.len() {
        lemma_find_from_none(text, pat, from + 1);
    }
}

/// The first occurrence at or after `from` is `at` when `pat` stands at `at`
/// and nowhere between `from` and `at`.
pub proof fn lemma_find_from_is(text: Seq<char>, pat: Seq<char>, from: int, at: int)
    requires
        0 <= from <= at,
        occurs_at(text, pat, at),
        forall|j: int| from <= j < at ==> !occurs_at(text, pat, j),
    ensures
        find_from(text, pat, from) == Some(at),
    decreases at - from,
{
    if from < at {
        lemma_find_from_is(text, pat, from + 1, at);
    }
}

fn matches_at(text: &Vec<char>, pat: &Vec<char>, at: usize) -> (b: bool)
    requires
        at + pat.len() <= text.len(),
    ensures
        b == occurs_at(text@, pat@, at as int),
{
    let mut k: usize = 0;
    while k < pat.len()
        invariant
            k <= pat.len(),
            at + pat.len() <= text.len(),
            forall|j: int| 0 <= j < k ==> text@[at + j] == pat@[j],
        decreases pat.len() - k,
    {
        if text[at + k] != pat[k] {
            return false;
        }
        k += 1;
    }
    proof {
        assert(text@.subrange(at as int, at + pat.len()) =~= pat@);
    }
    true
}

/// Scans for the first occurrence of `pat` in `text` at or after `from`.
fn scan(text: &Vec<char>, pat: &Vec<char>, from: usize) -> (found: Option<usize>)
    requires
        from <= text.len(),
    ensures
        match found {
            Some(at) => find_from(text@, pat@, from as int) == Some(at as int),
            None => find_from(text@, pat@, from as int) is None,
        },
{
    if pat.len() > text.len() - from {
        return None;
    }
    let end: usize = text.len() - pat.len();
    let mut i: usize = from;
    while i <= end
        invariant
            from <= i <= end + 1,
            end + pat.len() == text.len(),
            find_from(text@, pat@, from as int) == find_from(text@, pat@, i as int),
        decreases end + 1 - i,
    {
        if matches_at(text, pat, i) {
            return Some(i);
        }
        if i == end {
            return None;
        }
        i += 1;
    }
    None
}

/// Finds the first occurrence of `pat` in `text` at or after `from`: the
/// pattern stands where it is found and nowhere between `from` and there,
/// and where nothing is found it stands nowhere at or after `from`.
pub fn find(text: &Vec<char>, pat: &Vec<char>, from: usize) -> (found: Option<usize>)
    requires
        from <= text.len(),
    ensures
        match found {
            Some(at) => find_from(text@, pat@, from as int) == Some(at as int) && from <= at
                && occurs_at(text@, pat@, at as int) && forall|j: int|
                from <= j < at ==> !occurs_at(text@, pat@, j),
            None => find_from(text@, pat@, from as int) is None && forall|j: int|
                from <= j ==> !occurs_at(text@, pat@, j),
        },
{
    let found = scan(text, pat, from);
    proof {
        if found is Some {
            lemma_find_from_some(text@, pat@, from as int);
        } else {
            lemma_find_from_none(text@, pat@, from as int);
        }
    }
    found
}

/// The first offset at or after `pos` that holds no whitespace, or the end
/// of `text`.
pub open spec fn skip_whitespace(text: Seq<char>, pos: int) -> int
    decreases text.len() - pos,
{
    if 0 <= pos < text.len() && is_whitespace(text[pos]) {
        skip_whitespace(text, pos + 1)
    } else {
        pos
    }
}

/// What is skipped is whitespace, and it is all the whitespace that starts
/// at `pos`.
pub proof fn lemma_skip_whitespace(text: Seq<char>, pos: int)
    requires
        0 <= pos <= text.len(),
    ensures
        pos <= skip_whitespace(text, pos) <= text.len(),
        forall|j: int| pos <= j < skip_whitespace(text, pos) ==> is_whitespace(text[j]),
        skip_whitespace(text, pos) < text.len() ==> !is_whitespace(
            text[skip_whitespace(text, pos)],
        ),
    decreases text.len() - pos,
{
    if pos < text.len() && is_whitespace(text[pos]) {
        lemma_skip_whitespace(text, pos + 1);
    }
}

/// Moves past the whitespace that starts at `pos`.
pub fn skip_whitespace_from(text: &Vec<char>, pos: usize) -> (next: usize)
    requires
        pos <= text.len(),
    ensures
        next == skip_whitespace(text@, pos as int),
        pos <= next <= text.len(),
{
    let mut next: usize = pos;
    while next < text.len() && char_is_whitespace(text[next])
        invariant
            pos <= next <= text.len(),
            skip_whitespace(text@, pos as int) == skip_whitespace(text@, next as int),
        decreases text.len() - next,
    {
        next += 1;
    }
    next
}

/// Whether `pat` stands somewhere in `text`.
pub open spec fn contains_text(text: Seq<char>, pat: Seq<char>) -> bool {
    exists|at: int| occurs_at(text, pat, at)
}

/// Behind a prefix `a`, a pattern stands where it stands in the rest.
pub proof fn lemma_occurs_at_shift(a: Seq<char>, b: Seq<char>, pat: Seq<char>, at: int)
    requires
        0 <= at,
    ensures
        occurs_at(a + b, pat, a.len() + at) == occurs_at(b, pat, at),
{
    if at + pat.len() <= b.len() {
        assert((a + b).subrange(a.len() + at, a.len() + at + pat.len()) =~= b.subrange(
            at,
            at + pat.len(),
        ));
    }
}

/// Searching behind a prefix `a` is searching the rest.
pub proof fn lemma_find_from_shift(a: Seq<char>, b: Seq<char>, pat: Seq<char>, from: int)
    requires
        0 <= from,
    ensures
        find_from(a + b, pat, a.len() + from) == match find_from(b, pat, from) {
            Some(at) => Some(a.len() + at),
            None => None,
        },
    decreases b.len() - from + 1,
{
    lemma_occurs_at_shift(a, b, pat, from);
    if from + pat.len() <= b.len() && !occurs_at(b, pat, from) {
        lemma_find_from_shift(a, b, pat, from + 1);
    }
}

/// Skipping whitespace behind a prefix `a` is skipping it in the rest.
pub proof fn lemma_skip_whitespace_shift(a: Seq<char>, b: Seq<char>, pos: int)
    requires
        0 <= pos <= b.len(),
    ensures
        skip_whitespace(a + b, a.len() + pos) == a.len() + skip_whitespace(b, pos),
    decreases b.len() - pos,
{
    if pos < b.len() && is_whitespace(b[pos]) {
        lemma_skip_whitespace_shift(a, b, pos + 1);
    }
}

/// `s` without the leading characters that `drop` holds of.
pub open spec fn trim_start_by(s: Seq<char>, drop: spec_fn(char) -> bool) -> Seq<char>
    decreases s.len(),
{
    if s.len() > 0 && drop(s.first()) {
        trim_start_by(s.drop_first(), drop)
    } else {
        s
    }
}

/// `s` without the trailing characters that `drop` holds of.
pub open spec fn trim_end_by(s: Seq<char>, drop: spec_fn(char) -> bool) -> Seq<char>
    decreases s.len(),
{
    if s.len() > 0 && drop(s.last()) {
        trim_end_by(s.drop_last(), drop)
    } else {
        s
    }
}

/// `s` without the leading and trailing characters that `drop` holds of.
pub open spec fn trim_by(s: Seq<char>, drop: spec_fn(char) -> bool) -> Seq<char> {
    trim_end_by(trim_start_by(s, drop), drop)
}

pub open spec fn whitespace() -> spec_fn(char) -> bool {
    |c: char| is_whitespace(c)
}

pub open spec fn exactly(wanted: char) -> spec_fn(char) -> bool {
    |c: char| c == wanted
}

/// `s` without leading and trailing whitespace.
pub open spec fn trim(s: Seq<char>) -> Seq<char> {
    trim_by(s, whitespace())
}

/// The bounds of `text[from..to]` without its leading and trailing
/// whitespace.
pub fn trim_bounds(text: &Vec<char>, from: usize, to: usize) -> (bounds: (usize, usize))
    requires
        from <= to <= text.len(),
    ensures
        from <= bounds.0 <= bounds.1 <= to,
        text@.subrange(bounds.0 as int, bounds.1 as int) == trim(
            text@.subrange(from as int, to as int),
        ),
{
    let mut first: usize = from;
    while first < to && char_is_whitespace(text[first])
        invariant
            from <= first <= to <= text.len(),
            trim_start_by(text@.subrange(from as int, to as int), whitespace()) == trim_start_by(
                text@.subrange(first as int, to as int),
                whitespace(),
            ),
        decreases to - first,
    {
        proof {
            let here = text@.subrange(first as int, to as int);
            assert(here.drop_first() =~= text@.subrange(first + 1, to as int));
        }
        first += 1;
    }
    proof {
        let here = text@.subrange(first as int, to as int);
        assert(trim_start_by(here, whitespace()) == here);
    }
    let mut last: usize = to;
    while first < last && char_is_whitespace(text[last - 1])
        invariant
            first <= last <= to <= text.len(),
            trim_end_by(text@.subrange(first as int, to as int), whitespace()) == trim_end_by(
                text@.subrange(first as int, last as int),
                whitespace(),
            ),
        decreases last,
    {
        proof {
            let here = text@.subrange(first as int, last as int);
            assert(here.drop_last() =~= text@.subrange(first as int, last - 1));
        }
        last -= 1;
    }
    (first, last)
}

/// `text` without its leading and trailing occurrences of `wanted`.
pub fn trim_char(text: &Vec<char>, wanted: char) -> (out: String)
    ensures
        out@ == trim_by(text@, exactly(wanted)),
{
    let to: usize = text.len();
    let mut first: usize = 0;
    proof {
        assert(text@.subrange(0, to as int) =~= text@);
    }
    while first < to && text[first] == wanted
        invariant
            first <= to == text.len(),
            trim_start_by(text@, exactly(wanted)) == trim_start_by(
                text@.subrange(first as int, to as int),
                exactly(wanted),
            ),
        decreases to - first,
    {
        proof {
            let here = text@.subrange(first as int, to as int);
            assert(here.drop_first() =~= text@.subrange(first + 1, to as int));
        }
        first += 1;
    }
    proof {
        let here = text@.subrange(first as int, to as int);
        assert(trim_start_by(here, exactly(wanted)) == here);
    }
    let mut last: usize = to;
    while first < last && text[last - 1] == wanted
        invariant
            first <= last <= to == text.len(),
            trim_end_by(text@.subrange(first as int, to as int), exactly(wanted)) == trim_end_by(
                text@.subrange(first as int, last as int),
                exactly(wanted),
            ),
        decreases last,
    {
        proof {
            let here = text@.subrange(first as int, last as int);
            assert(here.drop_last() =~= text@.subrange(first as int, last - 1));
        }
        last -= 1;
    }
    string_of_range(text, first, last)
}

/// `text[pos..]` with every occurrence of `pat` replaced by `with`, the
/// occurrences taken from left to right without overlap.
pub open spec fn replace_from(text: Seq<char>, pat: Seq<char>, with: Seq<char>, pos: int) -> Seq<
    char,
>
    decreases text.len() - pos,
{
    if pos < 0 || pos > text.len() {
        Seq::empty()
    } else if pat.len() == 0 {
        text.subrange(pos, text.len() as int)
    } else {
        match find_from(text, pat, pos) {
            None => text.subrange(pos, text.len() as int),
            Some(at) => {
                proof {
                    lemma_find_from_some(text, pat, pos);
                }
                text.subrange(pos, at) + with + replace_from(text, pat, with, at + pat.len())
            },
        }
    }
}

/// `text` with every occurrence of `pat` replaced by `with`.
pub open spec fn replace_text(text: Seq<char>, pat: Seq<char>, with: Seq<char>) -> Seq<char> {
    replace_from(text, pat, with, 0)
}

/// Appends `source[from..to]` to `out`.
pub fn append_range(out: &mut Vec<char>, source: &Vec<char>, from: usize, to: usize)
    requires
        from <= to <= source.len(),
    ensures
        final(out)@ == old(out)@ + source@.subrange(from as int, to as int),
{
    let mut i: usize = from;
    while i < to
        invariant
            from <= i <= to <= source.len(),
            out@ == old(out)@ + source@.subrange(from as int, i as int),
        decreases to - i,
    {
        out.push(source[i]);
        i += 1;
    }
}

/// Replaces every occurrence of `pat` in `text` by `with`.
pub fn replace(text: &Vec<char>, pat: &Vec<char>, with: &Vec<char>) -> (out: Vec<char>)
    requires
        pat.len() > 0,
    ensures
        out@ == replace_text(text@, pat@, with@),
{
    let mut out: Vec<char> = Vec::new();
    let mut pos: usize = 0;
    loop
        invariant
            pos <= text.len(),
            pat.len() > 0,
            replace_text(text@, pat@, with@) == out@ + replace_from(text@, pat@, with@, pos as int),
        decreases text.len() - pos,
    {
        match find(text, pat, pos) {
            None => {
                append_range(&mut out, text, pos, text.len());
                return out;
            },
            Some(at) => {
                append_range(&mut out, text, pos, at);
                append_range(&mut out, with, 0, with.len());
                pos = at + pat.len();
            },
        }
    }
}

/// Whether `c` ends a line.
pub open spec fn is_line_break(c: char) -> bool {
    c == '\n' || c == '\r'
}

/// The offset of the first line break at or after `pos`, or the length of
/// `text`.
pub open spec fn line_end(text: Seq<char>, pos: int) -> int
    decreases text.len() - pos,
{
    if 0 <= pos < text.len() && !is_line_break(text[pos]) {
        line_end(text, pos + 1)
    } else {
        pos
    }
}

/// No line break stands between `pos` and the end of its line, and a line
/// that ends before the text ends at a line break.
pub proof fn lemma_line_end(text: Seq<char>, pos: int)
    requires
        0 <= pos <= text.len(),
    ensures
        pos <= line_end(text, pos) <= text.len(),
        forall|j: int| pos <= j < line_end(text, pos) ==> !is_line_break(text[j]),
        line_end(text, pos) < text.len() ==> is_line_break(text[line_end(text, pos)]),
    decreases text.len() - pos,
{
    if pos < text.len() && !is_line_break(text[pos]) {
        lemma_line_end(text, pos + 1);
    }
}

/// The lines of `text[pos..]`, each without the whitespace at its ends, the
/// blank ones left out.
pub open spec fn trimmed_lines_from(text: Seq<char>, pos: int) -> Seq<Seq<char>>
    decreases text.len() - pos + 1,
{
    if pos < 0 || pos >= text.len() {
        Seq::empty()
    } else {
        let end = line_end(text, pos);
        let line = trim(text.subrange(pos, end));
        proof {
            lemma_line_end(text, pos);
        }
        let rest = trimmed_lines_from(text, end + 1);
        if line.len() == 0 {
            rest
        } else {
            seq![line] + rest
        }
    }
}

/// The lines of `text`, each without the whitespace at its ends, the blank
/// ones left out.
pub open spec fn trimmed_lines(text: Seq<char>) -> Seq<Seq<char>> {
    trimmed_lines_from(text, 0)
}

/// The texts that a vector of strings holds.
pub open spec fn texts(items: Seq<String>) -> Seq<Seq<char>> {
    items.map_values(|s: String| s@)
}

/// Appends the trimmed, non-blank lines of `text` to `lines`.
pub fn push_trimmed_lines(lines: &mut Vec<String>, text: &Vec<char>)
    ensures
        texts(final(lines)@) == texts(old(lines)@) + trimmed_lines(text@),
{
    let mut pos: usize = 0;
    proof {
        assert(texts(lines@) + trimmed_lines_from(text@, 0) =~= texts(old(lines)@) + trimmed_lines(
            text@,
        ));
    }
    while pos < text.len()
        invariant
            pos <= text.len(),
            texts(old(lines)@) + trimmed_lines(text@) == texts(lines@) + trimmed_lines_from(
                text@,
                pos as int,
            ),
        decreases text.len() - pos,
    {
        let mut end: usize = pos;
        while end < text.len() && text[end] != '\n' && text[end] != '\r'
            invariant
                pos <= end <= text.len(),
                line_end(text@, pos as int) == line_end(text@, end as int),
            decreases text.len() - end,
        {
            end += 1;
        }
        let bounds = trim_bounds(text, pos, end);
        let ghost before = lines@;
        if bounds.0 < bounds.1 {
            let line = string_of_range(text, bounds.0, bounds.1);
            lines.push(line);
            proof {
                assert(texts(lines@) =~= texts(before) + seq![line@]);
            }
        }
        proof {
            let rest = trimmed_lines_from(text@, end + 1);
            assert(texts(lines@) + rest =~= texts(before) + trimmed_lines_from(text@, pos as int));
        }
        if end == text.len() {
            proof {
                assert(trimmed_lines_from(text@, end + 1) =~= Seq::<Seq<char>>::empty());
                assert(trimmed_lines_from(text@, end as int) =~= Seq::<Seq<char>>::empty());
            }
            pos = end;
        } else {
            pos = end + 1;
        }
    }
    proof {
        assert(texts(lines@) + Seq::<Seq<char>>::empty() =~= texts(lines@));
    }
}

/// What is left after the leading characters are dropped starts with a
/// character that is kept, and ends as the text ended.
pub proof fn lemma_trim_start_by(s: Seq<char>, drop: spec_fn(char) -> bool)
    ensures
        trim_start_by(s, drop).len() <= s.len(),
        trim_start_by(s, drop).len() > 0 ==> !drop(trim_start_by(s, drop).first())
            && trim_start_by(s, drop).last() == s.last(),
    decreases s.len(),
{
    if s.len() > 0 && drop(s.first()) {
        lemma_trim_start_by(s.drop_first(), drop);
    }
}

/// What is left after the trailing characters are dropped ends with a
/// character that is kept, and starts as the text started.
pub proof fn lemma_trim_end_by(s: Seq<char>, drop: spec_fn(char) -> bool)
    ensures
        trim_end_by(s, drop).len() <= s.len(),
        trim_end_by(s, drop).len() > 0 ==> !drop(trim_end_by(s, drop).last()) && trim_end_by(
            s,
            drop,
        ).first() == s.first(),
    decreases s.len(),
{
    if s.len() > 0 && drop(s.last()) {
        lemma_trim_end_by(s.drop_last(), drop);
    }
}

/// Trimming a trimmed text changes nothing.
pub proof fn lemma_trim_is_idempotent(s: Seq<char>, drop: spec_fn(char) -> bool)
    ensures
        trim_by(trim_by(s, drop), drop) == trim_by(s, drop),
{
    lemma_trim_start_by(s, drop);
    lemma_trim_end_by(trim_start_by(s, drop), drop);
}

/// Where the pattern does not occur, replacing changes nothing.
pub proof fn lemma_replace_absent(text: Seq<char>, pat: Seq<char>, with: Seq<char>)
    requires
        !contains_text(text, pat),
    ensures
        replace_text(text, pat, with) == text,
{
    if find_from(text, pat, 0) is Some {
        lemma_find_from_some(text, pat, 0);
    }
}

/// A text without line break is one line, unless it is blank.
pub proof fn lemma_one_line(text: Seq<char>)
    requires
        forall|i: int| 0 <= i < text.len() ==> !is_line_break(#[trigger] text[i]),
        trim(text).len() > 0,
    ensures
        trimmed_lines(text) == seq![trim(text)],
{
    lemma_trim_start_by(text, whitespace());
    lemma_trim_end_by(trim_start_by(text, whitespace()), whitespace());
    lemma_line_end(text, 0);
    assert(text.subrange(0, text.len() as int) =~= text);
    assert(trimmed_lines_from(text, text.len() as int + 1) =~= Seq::<Seq<char>>::empty());
}

} // verus!
