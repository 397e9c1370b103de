//! Regular expressions of the `regex` crate, each kept with the text it was
//! compiled from.
use crate::text::opt_text;
use vstd::prelude::*;

verus! {

#[verifier::external_type_specification]
#[verifier::external_body]
pub struct ExRegex(regex::Regex);

#[verifier::external_type_specification]
#[verifier::external_body]
pub struct ExRegexError(regex::Error);

/// Whether `regex::Regex::new` accepts the pattern (its syntax is valid and
/// the compiled program fits the default size limit).
pub uninterp spec fn regex_compiles(pattern: Seq<char>) -> bool;

/// The groups of the leftmost-first match of the pattern in the text, as
/// `regex::Regex::captures` finds them: `None` when there is no match;
/// otherwise one entry per group (group 0 is the whole match), `None` for a
/// group that did not take part in the match.
pub uninterp spec fn regex_captures(pattern: Seq<char>, text: Seq<char>) -> Option<
    Seq<Option<Seq<char>>>,
>;

/// The text of each group of one match.
pub open spec fn group_texts(c: Vec<Option<String>>) -> Seq<Option<Seq<char>>> {
    c@.map_values(|g: Option<String>| opt_text(g))
}

/// The text of each captured group.
pub open spec fn groups_view(c: Option<Vec<Option<String>>>) -> Option<Seq<Option<Seq<char>>>> {
    match c {
        None => None,
        Some(v) => Some(group_texts(v)),
    }
}

/// Group `i` of a match, `None` when the group does not exist or did not take
/// part in the match (`regex::Captures::get`).
pub open spec fn group(c: Seq<Option<Seq<char>>>, i: int) -> Option<Seq<char>> {
    if 0 <= i < c.len() {
        c[i]
    } else {
        None
    }
}

/// Every successive non-overlapping match of the pattern in the text, as
/// `regex::Regex::captures_iter` yields them, each given by its groups as in
/// `regex_captures`.
pub uninterp spec fn regex_captures_all(pattern: Seq<char>, text: Seq<char>) -> Seq<
    Seq<Option<Seq<char>>>,
>;

/// The groups of every match.
pub open spec fn all_groups_view(v: Seq<Vec<Option<String>>>) -> Seq<Seq<Option<Seq<char>>>> {
    v.map_values(|c: Vec<Option<String>>| group_texts(c))
}

/// Whether `regex::Regex::is_match` finds a match of the pattern in the text.
pub uninterp spec fn regex_is_match(pattern: Seq<char>, text: Seq<char>) -> bool;

/// The characters that `regex::escape` escapes (`regex_syntax::is_meta_character`).
pub open spec fn is_meta_char(c: char) -> bool {
    c == '\\' || c == '.' || c == '+' || c == '*' || c == '?' || c == '(' || c == ')' || c == '|'
        || c == '[' || c == ']' || c == '{' || c == '}' || c == '^' || c == '$' || c == '#'
        || c == '&' || c == '-' || c == '~'
}

/// The text with a backslash put before every meta character.
pub open spec fn escaped(s: Seq<char>) -> Seq<char>
    decreases s.len(),
{
    if s.len() == 0 {
        s
    } else {
        let rest = escaped(s.drop_last());
        if is_meta_char(s.last()) {
            rest.push('\\').push(s.last())
        } else {
            rest.push(s.last())
        }
    }
}

/// Calls `regex::escape`, which walks the text and writes a backslash before
/// each meta character, then the character itself.
#[verifier::external_body]
pub(crate) fn regex_escape(text: &str) -> (r: String)
    ensures
        r@ == escaped(text@),
{
    regex::escape(text)
}

/// The text of a `regex::Error` (its `Display`).
#[verifier::external_body]
pub(crate) fn regex_error_text(e: &regex::Error) -> String {
    format!("{e}")
}

/// Calls `regex::Regex::new`; whether it succeeds is named `regex_compiles`.
#[verifier::external_body]
pub(crate) fn regex_new(pattern: &str) -> (r: Result<regex::Regex, regex::Error>)
    ensures
        r is Ok <==> regex_compiles(pattern@),
{
    regex::Regex::new(pattern)
}

/// A compiled regular expression together with its pattern text. The two
/// fields are only ever set together, by `compile`.
pub struct Pattern {
    source: String,
    re: regex::Regex,
}

impl Pattern {
    /// The pattern text.
    pub closed spec fn source(&self) -> Seq<char> {
        self.source@
    }

    /// Compiles a pattern; `None` when `regex` refuses it.
    pub fn compile(source: &str) -> (r: Option<Pattern>)
        ensures
            r is Some <==> regex_compiles(source@),
            r matches Some(p) ==> p.source() == source@,
    {
        match regex_new(source) {
            Ok(re) => Some(Pattern { source: String::from_str(source), re }),
            Err(_) => None,
        }
    }

    /// Compiles a pattern; on refusal, the text of `regex`'s error.
    pub fn try_compile(source: &str) -> (r: Result<Pattern, String>)
        ensures
            r is Ok <==> regex_compiles(source@),
            r matches Ok(p) ==> p.source() == source@,
    {
        match regex_new(source) {
            Ok(re) => Ok(Pattern { source: String::from_str(source), re }),
            Err(e) => Err(regex_error_text(&e)),
        }
    }

    /// Calls `regex::Regex::captures` on the compiled pattern and copies out
    /// the text of each group (`Captures::iter`, `Match::as_str`); the result
    /// is named `regex_captures` of the pattern text, which `compile` stored
    /// beside the compiled regex.
    #[verifier::external_body]
    pub(crate) fn captures(&self, text: &str) -> (r: Option<Vec<Option<String>>>)
        ensures
            groups_view(r) == regex_captures(self.source(), text@),
    {
        self.re.captures(text).map(|c| c.iter().map(|m| m.map(|m| m.as_str().to_string())).collect())
    }
}

impl Pattern {
    /// Calls `regex::Regex::captures_iter` on the compiled pattern and copies
    /// out the groups of each match; the result is named `regex_captures_all`
    /// of the pattern text.
    #[verifier::external_body]
    pub(crate) fn captures_all(&self, text: &str) -> (r: Vec<Vec<Option<String>>>)
        ensures
            all_groups_view(r@) == regex_captures_all(self.source(), text@),
    {
        self.re
            .captures_iter(text)
            .map(|c| c.iter().map(|m| m.map(|m| m.as_str().to_string())).collect())
            .collect()
    }

    /// Calls `regex::Regex::is_match` on the compiled pattern; the answer is
    /// named `regex_is_match` of the pattern text.
    #[verifier::external_body]
    pub(crate) fn is_match(&self, text: &str) -> (r: bool)
        ensures
            r == regex_is_match(self.source(), text@),
    {
        self.re.is_match(text)
    }
}

/// The groups of the first match of `pattern` in `text`; `None` also when the
/// pattern does not compile.
pub fn captures_of(pattern: &str, text: &str) -> (r: Option<Vec<Option<String>>>)
    ensures
        groups_view(r) == (if regex_compiles(pattern@) {
            regex_captures(pattern@, text@)
        } else {
            None
        }),
{
    match Pattern::compile(pattern) {
        Some(p) => p.captures(text),
        None => None,
    }
}

/// Group `i` of a match, copied out.
pub fn group_at(c: &Vec<Option<String>>, i: usize) -> (r: Option<String>)
    ensures
        groups_view(Some(*c)) matches Some(g) && opt_text_eq(r, group(g, i as int)),
{
    if i < c.len() {
        match &c[i] {
            Some(s) => Some(s.clone()),
            None => None,
        }
    } else {
        None
    }
}

pub open spec fn opt_text_eq(r: Option<String>, g: Option<Seq<char>>) -> bool {
    match r {
        Some(s) => g == Some(s@),
        None => g is None,
    }
}

} // verus!
