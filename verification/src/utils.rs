//! Slugs and the places of the records on disk.
//!
//! A slug is what is left of a name once everything but ASCII letters,
//! digits, whitespace and hyphens is removed, every run of whitespace or
//! hyphens has become one hyphen, the hyphens at both ends are dropped and
//! the rest is put in lower case.

use regex::Regex;
use uuid::Uuid;
use vstd::prelude::*;
use vstd::string::StringExecFns;

use crate::models::optional_text;
use crate::text::{chars_of, exactly, lowercase, trim_by, trim_char};

verus! {

/// `regex::Regex`, a compiled pattern. Nothing of its inside is read here.
#[verifier::external_type_specification]
#[verifier::external_body]
pub struct ExRegex(Regex);

/// The pattern that a compiled regex was made from (`regex::Regex::as_str`).
pub uninterp spec fn regex_pattern(compiled: Regex) -> Seq<char>;

/// Whether `regex::Regex::new` compiles a pattern.
pub uninterp spec fn regex_compiles(pattern: Seq<char>) -> bool;

/// What `regex::Regex::replace_all` returns for the regex compiled from
/// `pattern`: `text` with every match replaced by `replacement`.
pub uninterp spec fn regex_replace_all(
    pattern: Seq<char>,
    text: Seq<char>,
    replacement: Seq<char>,
) -> Seq<char>;

/// Compiles a pattern with `regex::Regex::new`. Trusted: whether a pattern
/// compiles depends on the pattern alone, and the regex keeps the pattern
/// that it was made from.
#[verifier::external_body]
fn compile(pattern: &str) -> (compiled: Option<Regex>)
    ensures
        match compiled {
            Some(regex) => regex_compiles(pattern@) && regex_pattern(regex) == pattern@,
            None => !regex_compiles(pattern@),
        },
{
    Regex::new(pattern).ok()
}

/// Replaces every match in `text` with `regex::Regex::replace_all`. Trusted:
/// the result is the value that the crate computes from the pattern and the
/// two texts.
#[verifier::external_body]
fn replace_all(regex: &Regex, text: &str, replacement: &str) -> (replaced: String)
    ensures
        replaced@ == regex_replace_all(regex_pattern(*regex), text@, replacement@),
{
    regex.replace_all(text, replacement).into_owned()
}

/// Matches every character that a slug cannot hold.
pub open spec fn disallowed_pattern() -> Seq<char> {
    "[^a-zA-Z0-9\\s-]"@
}

/// Matches every run of whitespace or underscores.
pub open spec fn spaces_pattern() -> Seq<char> {
    "[\\s_]+"@
}

/// Matches every run of hyphens.
pub open spec fn hyphens_pattern() -> Seq<char> {
    "-+"@
}

pub open spec fn hyphen() -> Seq<char> {
    "-"@
}

/// Whether the three patterns of a slug compile.
pub open spec fn slug_patterns_compile() -> bool {
    regex_compiles(disallowed_pattern()) && regex_compiles(spaces_pattern()) && regex_compiles(
        hyphens_pattern(),
    )
}

/// The slug of `input`, or `None` where one of the three patterns does not
/// compile: the characters that a slug cannot hold are removed, each run of
/// whitespace and each run of hyphens becomes one hyphen, the hyphens at
/// both ends are dropped, and the rest is put in lower case.
pub open spec fn slug_text(input: Seq<char>) -> Option<Seq<char>> {
    if slug_patterns_compile() {
        let kept = regex_replace_all(disallowed_pattern(), input, Seq::empty());
        let joined = regex_replace_all(spaces_pattern(), kept, hyphen());
        let single = regex_replace_all(hyphens_pattern(), joined, hyphen());
        Some(lowercase(trim_by(single, exactly('-'))))
    } else {
        None
    }
}

/// `prefix`, the slug and `suffix` in a row, where there is a slug.
pub open spec fn framed(prefix: Seq<char>, slug: Option<Seq<char>>, suffix: Seq<char>) -> Option<
    Seq<char>,
> {
    match slug {
        Some(middle) => Some(prefix + middle + suffix),
        None => None,
    }
}

/// The slug of a job without identifier: the slugs of a character and a
/// prompt, joined by a hyphen.
pub open spec fn job_slug_text(character: Seq<char>, prompt: Seq<char>) -> Option<Seq<char>> {
    match slug_text(character) {
        None => None,
        Some(first) => framed(first + hyphen(), slug_text(prompt), Seq::empty()),
    }
}

/// Makes the slug of `input`.
pub fn to_slug(input: &str) -> (slug: Option<String>)
    ensures
        optional_text(slug) == slug_text(input@),
{
    proof {
        reveal_strlit("");
        assert(""@ =~= Seq::<char>::empty());
    }
    let disallowed = match compile("[^a-zA-Z0-9\\s-]") {
        Some(regex) => regex,
        None => {
            return None;
        },
    };
    let spaces = match compile("[\\s_]+") {
        Some(regex) => regex,
        None => {
            return None;
        },
    };
    let hyphens = match compile("-+") {
        Some(regex) => regex,
        None => {
            return None;
        },
    };
    let kept = replace_all(&disallowed, input, "");
    let joined = replace_all(&spaces, kept.as_str(), "-");
    let single = replace_all(&hyphens, joined.as_str(), "-");
    let trimmed = trim_char(&chars_of(single.as_str()), '-');
    Some(trimmed.as_str().to_lowercase())
}

fn frame(prefix: &str, slug: Option<String>, suffix: &str) -> (path: Option<String>)
    ensures
        optional_text(path) == framed(prefix@, optional_text(slug), suffix@),
{
    match slug {
        Some(middle) => {
            let mut path = prefix.to_string();
            path.append(middle.as_str());
            path.append(suffix);
            Some(path)
        },
        None => None,
    }
}

pub fn character_slug(name: &str) -> (slug: Option<String>)
    ensures
        optional_text(slug) == slug_text(name@),
{
    to_slug(name)
}

pub fn prompt_slug(title: &str) -> (slug: Option<String>)
    ensures
        optional_text(slug) == slug_text(title@),
{
    to_slug(title)
}

pub fn job_slug(character: &str, prompt: &str) -> (slug: Option<String>)
    ensures
        optional_text(slug) == job_slug_text(character@, prompt@),
{
    match to_slug(character) {
        Some(first) => {
            let mut prefix = first;
            prefix.append("-");
            proof {
                reveal_strlit("");
            }
            frame(prefix.as_str(), to_slug(prompt), "")
        },
        None => None,
    }
}

pub fn character_file_path(name: &str) -> (path: Option<String>)
    ensures
        optional_text(path) == framed("./data/characters/"@, slug_text(name@), ".json"@),
{
    frame("./data/characters/", character_slug(name), ".json")
}

pub fn prompt_file_path(title: &str) -> (path: Option<String>)
    ensures
        optional_text(path) == framed("./data/prompts/"@, slug_text(title@), ".json"@),
{
    frame("./data/prompts/", prompt_slug(title), ".json")
}

pub fn job_file_path(character: &str, prompt: &str) -> (path: Option<String>)
    ensures
        optional_text(path) == framed(
            "./data/jobs/"@,
            job_slug_text(character@, prompt@),
            ".json"@,
        ),
{
    frame("./data/jobs/", job_slug(character, prompt), ".json")
}

pub fn job_file_path_from_slug(slug: &str) -> (path: String)
    ensures
        path@ == "./data/jobs/"@ + slug@ + ".json"@,
{
    let mut path = "./data/jobs/".to_string();
    path.append(slug);
    path.append(".json");
    path
}

pub fn chat_file_path_from_character(character: &str) -> (path: Option<String>)
    ensures
        optional_text(path) == framed("./data/chats/"@, slug_text(character@), ".json"@),
{
    frame("./data/chats/", character_slug(character), ".json")
}

pub fn audio_file_path(character: &str, filename: &str) -> (path: Option<String>)
    ensures
        optional_text(path) == framed("./data/audio/"@, slug_text(character@), "/"@ + filename@),
{
    let mut suffix = "/".to_string();
    suffix.append(filename);
    frame("./data/audio/", character_slug(character), suffix.as_str())
}

/// The directory that holds the audio of a character.
pub fn audio_directory(character: &str) -> (path: Option<String>)
    ensures
        optional_text(path) == framed("./data/audio/"@, slug_text(character@), Seq::empty()),
{
    proof {
        reveal_strlit("");
    }
    frame("./data/audio/", character_slug(character), "")
}

pub fn image_file_path(character: &str, filename: &str) -> (path: Option<String>)
    ensures
        optional_text(path) == framed("./data/images/"@, slug_text(character@), "/"@ + filename@),
{
    let mut suffix = "/".to_string();
    suffix.append(filename);
    frame("./data/images/", character_slug(character), suffix.as_str())
}

/// The lower-case hexadecimal digit of `value`.
pub open spec fn hex_char(value: nat) -> char {
    "0123456789abcdef"@[value as int]
}

/// The last `count` hexadecimal digits of `value`, the highest first.
pub open spec fn hex_digits(value: nat, count: nat) -> Seq<char>
    decreases count,
{
    if count == 0 {
        Seq::empty()
    } else {
        hex_digits(value / 16, (count - 1) as nat).push(hex_char(value % 16))
    }
}

/// The hyphenated lower-case form of the UUID with the 128-bit value `id`:
/// its 32 hexadecimal digits in groups of 8, 4, 4, 4 and 12.
pub open spec fn uuid_text(id: u128) -> Seq<char> {
    let digits = hex_digits(id as nat, 32);
    digits.subrange(0, 8) + hyphen() + digits.subrange(8, 12) + hyphen() + digits.subrange(12, 16)
        + hyphen() + digits.subrange(16, 20) + hyphen() + digits.subrange(20, 32)
}

/// Formats the identifier with `uuid::Uuid`'s `Display`, after
/// `Uuid::from_u128`. Trusted: the text is the hyphenated lower-case form.
#[verifier::external_body]
pub(crate) fn uuid_string(id: u128) -> (text: String)
    ensures
        text@ == uuid_text(id),
{
    Uuid::from_u128(id).to_string()
}

/// The bits that mark a UUID as random (version 4, RFC variant).
pub open spec fn is_random_uuid(id: u128) -> bool {
    id & 0x0000_0000_0000_F000_C000_0000_0000_0000 == 0x0000_0000_0000_4000_8000_0000_0000_0000
}

/// Draws a fresh identifier for a job with `uuid::Uuid::new_v4`. Trusted:
/// whatever is drawn carries the marks of a random UUID. The crate panics
/// where the system gives it no randomness.
#[verifier::external_body]
pub fn generate_job_id() -> (id: u128)
    ensures
        is_random_uuid(id),
{
    Uuid::new_v4().as_u128()
}

pub fn job_file_path_from_id(id: u128) -> (path: String)
    ensures
        path@ == "./data/jobs/"@ + uuid_text(id) + ".json"@,
{
    let mut path = "./data/jobs/".to_string();
    path.append(uuid_string(id).as_str());
    path.append(".json");
    path
}

} // verus!
