//! The search pattern: how a search text becomes a regular expression, and
//! the matcher that compiles it once, on first use.

use vstd::prelude::*;
use vstd::string::*;
use crate::errors::prefixed;
use crate::text::text_of;

verus! {

/// A compiled regular expression of the `regex` crate. It is carried from the
/// compilation to the searches; nothing is read from it.
#[verifier::external_type_specification]
#[verifier::external_body]
pub struct ExRegex(regex::Regex);

/// The error of `Regex::new`; nothing is read from it.
#[verifier::external_type_specification]
#[verifier::external_body]
pub struct ExRegexError(regex::Error);

/// The pattern text that a compiled expression was built from, which is what
/// `Regex::as_str` gives back.
pub uninterp spec fn regex_source(regex: regex::Regex) -> Seq<char>;

/// Whether `Regex::new` accepts `pattern`.
pub uninterp spec fn regex_compiles(pattern: Seq<char>) -> bool;

/// Whether the expression compiled from `pattern` matches anywhere in
/// `haystack`, as `Regex::is_match` reports it.
pub uninterp spec fn regex_is_match(pattern: Seq<char>, haystack: Seq<char>) -> bool;

/// The characters that have a meaning of their own in a regular expression.
pub open spec fn is_meta_character(c: char) -> bool {
    ||| c == '\\'
    ||| c == '.'
    ||| c == '+'
    ||| c == '*'
    ||| c == '?'
    ||| c == '('
    ||| c == ')'
    ||| c == '|'
    ||| c == '['
    ||| c == ']'
    ||| c == '{'
    ||| c == '}'
    ||| c == '^'
    ||| c == '$'
    ||| c == '#'
    ||| c == '&'
    ||| c == '-'
    ||| c == '~'
}

/// Whether `c` has a meaning of its own in a regular expression.
pub fn meta_character(c: char) -> (yes: bool)
    ensures
        yes == is_meta_character(c),
{
    c == '\\' || c == '.' || c == '+' || c == '*' || c == '?' || c == '(' || c == ')' || c == '|'
        || c == '[' || c == ']' || c == '{' || c == '}' || c == '^' || c == '$' || c == '#' || c
        == '&' || c == '-' || c == '~'
}

/// How one character is written so that it stands for itself in a pattern.
pub open spec fn escape_image(c: char) -> Seq<char> {
    if is_meta_character(c) {
        seq!['\\', c]
    } else {
        seq![c]
    }
}

/// `text` with a backslash before each meta character.
pub open spec fn escaped(text: Seq<char>) -> Seq<char>
    decreases text.len(),
{
    if text.len() == 0 {
        text
    } else {
        escaped(text.drop_last()) + escape_image(text.last())
    }
}

/// `regex::escape`: walks `text` and writes each character out, preceded by a
/// backslash when it is one of the crate's meta characters.
#[verifier::external_body]
fn escape(text: &str) -> (quoted: String)
    ensures
        quoted@ == escaped(text@),
{
    regex::escape(text)
}

/// `Regex::new`: compiles `pattern`, or reports why it cannot. A compiled
/// expression remembers the pattern text it came from.
#[verifier::external_body]
fn compile(pattern: &str) -> (compiled: Result<regex::Regex, regex::Error>)
    ensures
        compiled is Ok <==> regex_compiles(pattern@),
        compiled is Ok ==> regex_source(compiled->Ok_0) == pattern@,
{
    regex::Regex::new(pattern)
}

/// `Regex::is_match`: whether the expression matches anywhere in `haystack`.
#[verifier::external_body]
fn is_match(regex: &regex::Regex, haystack: &str) -> (found: bool)
    ensures
        found == regex_is_match(regex_source(*regex), haystack@),
{
    regex.is_match(haystack)
}

/// The marker that makes a search text a regular expression.
pub open spec fn regex_marker() -> Seq<char> {
    seq!['r', 'e', 'g', ':']
}

/// Whether a search text starts with the marker.
pub open spec fn is_marked(text: Seq<char>) -> bool {
    text.len() >= 4 && text.take(4) == regex_marker()
}

/// The modifier that makes a pattern ignore case.
pub open spec fn case_fold_modifier() -> Seq<char> {
    "(?i)"@
}

/// The pattern that a search text stands for. After the marker `reg:` the rest
/// is a regular expression as it is; without the marker the whole text is
/// meant literally, so its meta characters are escaped. When case is to be
/// ignored, the case-fold modifier comes first.
pub open spec fn search_pattern(text: Seq<char>, ignore_case: bool) -> Seq<char> {
    let body = if is_marked(text) {
        text.skip(4)
    } else {
        escaped(text)
    };
    if ignore_case {
        case_fold_modifier() + body
    } else {
        body
    }
}

/// What the matcher knows about its pattern.
pub ghost enum PatternCache {
    /// The pattern has not been compiled yet.
    Pending,
    /// The pattern compiled; the compiled expression is kept.
    Ready,
    /// The pattern did not compile; it will not be tried again.
    Failed,
}

/// The cache after one use: a pending pattern is compiled, with the outcome
/// that `regex_compiles` names; a settled cache stays as it is.
pub open spec fn cache_after_use(pattern: Seq<char>, cache: PatternCache) -> PatternCache {
    match cache {
        PatternCache::Pending => if regex_compiles(pattern) {
            PatternCache::Ready
        } else {
            PatternCache::Failed
        },
        settled => settled,
    }
}

/// Whether a cache is consistent with its pattern.
pub open spec fn cache_agrees(pattern: Seq<char>, cache: PatternCache) -> bool {
    match cache {
        PatternCache::Pending => true,
        PatternCache::Ready => regex_compiles(pattern),
        PatternCache::Failed => !regex_compiles(pattern),
    }
}

/// Whether a line passes the search: the pattern compiles and matches
/// somewhere in the line.
pub open spec fn passes_search(pattern: Seq<char>, line: Seq<char>) -> bool {
    regex_compiles(pattern) && regex_is_match(pattern, line)
}

/// The compiled form of a pattern, once it has been asked for.
enum Matcher {
    /// Not compiled yet.
    Pending,
    /// Compiled; the expression is reused for every later line.
    Ready(regex::Regex),
    /// Compilation failed; every later line is turned away without a retry.
    Failed,
}

/// Keeps the lines in which a given text or regular expression occurs.
pub struct LineWithGivenText {
    /// The pattern handed to the regex engine.
    search_pattern: String,
    /// Whether the search ignores case.
    ignore_case: bool,
    /// The compiled pattern, cached after the first line.
    matcher: Matcher,
}

impl LineWithGivenText {
    /// The pattern that is searched for.
    pub closed spec fn pattern(&self) -> Seq<char> {
        self.search_pattern@
    }

    /// Whether the search ignores case.
    pub closed spec fn case_ignored(&self) -> bool {
        self.ignore_case
    }

    /// What is known of the pattern so far.
    pub closed spec fn cache(&self) -> PatternCache {
        match self.matcher {
            Matcher::Pending => PatternCache::Pending,
            Matcher::Ready(_) => PatternCache::Ready,
            Matcher::Failed => PatternCache::Failed,
        }
    }

    /// The cached expression belongs to the pattern, and a recorded failure is
    /// a failure of this pattern.
    pub closed spec fn cache_belongs(&self) -> bool {
        match self.matcher {
            Matcher::Pending => true,
            Matcher::Ready(regex) => regex_compiles(self.search_pattern@) && regex_source(regex)
                == self.search_pattern@,
            Matcher::Failed => !regex_compiles(self.search_pattern@),
        }
    }

    /// A well-formed matcher's cache agrees with its pattern.
    pub proof fn lemma_cache_agrees(&self)
        requires
            self.cache_belongs(),
        ensures
            cache_agrees(self.pattern(), self.cache()),
    {
    }

    /// A search for `text`: a regular expression when `text` starts with
    /// `reg:`, a literal otherwise. Nothing is compiled yet.
    pub fn new(text: &str, ignore_case: bool) -> (search: Self)
        ensures
            search.cache_belongs(),
            search.pattern() == search_pattern(text@, ignore_case),
            search.case_ignored() == ignore_case,
            search.cache() == PatternCache::Pending,
    {
        let body = match strip_marker(text) {
            Some(expression) => expression.to_owned(),
            None => escape(text),
        };
        let pattern = if ignore_case {
            prefixed("(?i)", &body)
        } else {
            body
        };
        LineWithGivenText { search_pattern: pattern, ignore_case, matcher: Matcher::Pending }
    }

    /// The pattern that is handed to the regex engine.
    pub fn pattern_text(&self) -> (pattern: &str)
        ensures
            pattern@ == self.pattern(),
    {
        self.search_pattern.as_str()
    }

    /// Whether the search ignores case.
    pub fn ignores_case(&self) -> (yes: bool)
        ensures
            yes == self.case_ignored(),
    {
        self.ignore_case
    }

    /// Whether `line` passes the search. The first call compiles the pattern
    /// and settles the cache; later calls reuse what was settled.
    pub fn matches(&mut self, line: &str) -> (found: bool)
        requires
            old(self).cache_belongs(),
        ensures
            final(self).cache_belongs(),
            final(self).pattern() == old(self).pattern(),
            final(self).case_ignored() == old(self).case_ignored(),
            final(self).cache() == cache_after_use(old(self).pattern(), old(self).cache()),
            found == passes_search(old(self).pattern(), line@),
    {
        if let Matcher::Pending = self.matcher {
            match compile(self.search_pattern.as_str()) {
                Ok(regex) => {
                    self.matcher = Matcher::Ready(regex);
                },
                Err(_) => {
                    self.matcher = Matcher::Failed;
                },
            }
        }
        match &self.matcher {
            Matcher::Ready(regex) => is_match(regex, line),
            _ => false,
        }
    }
}

/// The regular expression that follows the marker `reg:`, if `text` starts
/// with the marker.
pub fn strip_marker(text: &str) -> (expression: Option<&str>)
    ensures
        expression is Some <==> is_marked(text@),
        expression matches Some(rest) ==> rest@ == text@.skip(4),
{
    let total: usize = text.unicode_len();
    if total >= 4 && text.get_char(0) == 'r' && text.get_char(1) == 'e' && text.get_char(2) == 'g'
        && text.get_char(3) == ':' {
        assert(text@.take(4) == regex_marker());
        assert(text@.subrange(4, total as int) == text@.skip(4));
        Some(text.substring_char(4, total))
    } else {
        proof {
            if text@.len() >= 4 {
                let head = text@.take(4);
                assert(head[0] == text@[0] && head[1] == text@[1] && head[2] == text@[2] && head[3]
                    == text@[3]);
            }
        }
        None
    }
}

/// The line that a search lets through: a copy of `line` when the pattern was
/// found in it, nothing otherwise.
pub fn matching_line(found: bool, line: &str) -> (kept: Option<String>)
    ensures
        text_of(kept) == if found {
            Some(line@)
        } else {
            None
        },
{
    if found {
        Some(line.to_owned())
    } else {
        None
    }
}

} // verus!
