//! Compiled regular expressions from the `regex` crate, and the library's
//! `Regex`: a multi-line pattern set that may hold patterns the `regex` crate
//! cannot compile (those written for Ruby's engine), which then match nothing.
use vstd::prelude::*;

verus! {

/// Whether `regex::Regex::new` accepts `pattern`.
pub uninterp spec fn regex_compiles(pattern: Seq<char>) -> bool;

/// Whether the regex compiled from `pattern` finds a match in `text`.
pub uninterp spec fn regex_matches(pattern: Seq<char>, text: Seq<char>) -> bool;

/// The capture groups of the successive non-overlapping matches of the regex
/// compiled from `pattern` in `text`: one entry per match, holding group 0
/// (the whole match) and then every group, `None` where a group took no part.
pub uninterp spec fn regex_captures(pattern: Seq<char>, text: Seq<char>) -> Seq<Seq<Option<Seq<char>>>>;

/// `text` with the leftmost match of the regex compiled from `pattern`
/// replaced by `replacement`.
pub uninterp spec fn regex_replace_first(pattern: Seq<char>, text: Seq<char>, replacement: Seq<char>) -> Seq<char>;

/// Whether `regex::RegexSetBuilder` accepts `patterns` with the given multi-line flag.
pub uninterp spec fn regex_set_compiles(patterns: Seq<Seq<char>>, multi_line: bool) -> bool;

/// Whether some pattern of the set compiled from `patterns` (with the given
/// multi-line flag) matches `text`.
pub uninterp spec fn regex_set_matches(patterns: Seq<Seq<char>>, multi_line: bool, text: Seq<char>) -> bool;

/// The indices, in the order `SetMatches::iter` yields them, of the patterns
/// of the set compiled from `patterns` that match `text`.
pub uninterp spec fn regex_set_matching(patterns: Seq<Seq<char>>, multi_line: bool, text: Seq<char>) -> Seq<usize>;

/// `regex::RegexSet`, carried as an opaque value.
#[verifier::external_type_specification]
#[verifier::external_body]
pub struct ExRegexSetInner(::regex::RegexSet);

/// A compiled regex set together with its patterns and multi-line flag.
pub struct CompiledSet {
    patterns: Vec<String>,
    multi_line: bool,
    inner: ::regex::RegexSet,
}

/// The character views of a vector of strings.
pub open spec fn string_views(v: Seq<String>) -> Seq<Seq<char>> {
    v.map_values(|s: String| s@)
}

impl View for CompiledSet {
    type V = (Seq<Seq<char>>, bool);

    closed spec fn view(&self) -> (Seq<Seq<char>>, bool) {
        (string_views(self.patterns@), self.multi_line)
    }
}

/// The character view of the capture groups returned by `captures_all`.
pub open spec fn captures_view(caps: Seq<Vec<Option<String>>>) -> Seq<Seq<Option<Seq<char>>>> {
    caps.map_values(
        |groups: Vec<Option<String>>|
            groups@.map_values(
                |g: Option<String>|
                    match g {
                        Some(s) => Some(s@),
                        None => None,
                    },
            ),
    )
}

/// The view of an optional list of captures, as `pattern_captures` gives it.
pub open spec fn opt_captures_view(c: Option<Vec<Vec<Option<String>>>>) -> Option<Seq<Seq<Option<Seq<char>>>>> {
    match c {
        Some(caps) => Some(captures_view(caps@)),
        None => None,
    }
}

/// What `pattern_captures` gives: the captures of `pattern` in `text`, or
/// `None` where the pattern does not compile.
pub open spec fn captures_result(pattern: Seq<char>, text: Seq<char>) -> Option<Seq<Seq<Option<Seq<char>>>>> {
    if regex_compiles(pattern) {
        Some(regex_captures(pattern, text))
    } else {
        None
    }
}

/// What `pattern_replace_first` gives: `text` with the leftmost match of
/// `pattern` replaced, or `None` where the pattern does not compile.
pub open spec fn replace_result(pattern: Seq<char>, text: Seq<char>, replacement: Seq<char>) -> Option<Seq<char>> {
    if regex_compiles(pattern) {
        Some(regex_replace_first(pattern, text, replacement))
    } else {
        None
    }
}

/// A pattern that compiles and matches `text`.
pub open spec fn pattern_matches(pattern: Seq<char>, text: Seq<char>) -> bool {
    regex_compiles(pattern) && regex_matches(pattern, text)
}

/// Compiles `pattern` with `regex::Regex::new` and calls `is_match` on
/// `text`; a pattern the crate rejects matches nothing.
#[verifier::external_body]
pub fn pattern_is_match(pattern: &str, text: &str) -> (b: bool)
    ensures
        b == (regex_compiles(pattern@) && regex_matches(pattern@, text@)),
{
    match ::regex::Regex::new(pattern) {
        Ok(re) => re.is_match(text),
        Err(_) => false,
    }
}

/// Compiles `pattern` with `regex::Regex::new` and collects `captures_iter`
/// on `text`, each match converted to its groups; `None` where the crate
/// rejects the pattern.
#[verifier::external_body]
pub fn pattern_captures(pattern: &str, text: &str) -> (r: Option<Vec<Vec<Option<String>>>>)
    ensures
        r is Some <==> regex_compiles(pattern@),
        r matches Some(caps) ==> captures_view(caps@) == regex_captures(pattern@, text@),
{
    match ::regex::Regex::new(pattern) {
        Ok(re) => Some(re.captures_iter(text).map(
            |c| c.iter().map(|g| g.map(|m| m.as_str().to_string())).collect()
        ).collect()),
        Err(_) => None,
    }
}

/// Compiles `pattern` with `regex::Regex::new` and calls `replace` (leftmost
/// match, literal replacement) on `text`; `None` where the crate rejects the
/// pattern.
#[verifier::external_body]
pub fn pattern_replace_first(pattern: &str, text: &str, replacement: &str) -> (r: Option<String>)
    ensures
        r is Some <==> regex_compiles(pattern@),
        r matches Some(out) ==> out@ == regex_replace_first(pattern@, text@, replacement@),
{
    match ::regex::Regex::new(pattern) {
        Ok(re) => Some(re.replace(text, ::regex::NoExpand(replacement)).to_string()),
        Err(_) => None,
    }
}

/// Builds a set with `regex::RegexSetBuilder::new(patterns).multi_line(..)
/// .build()`; `None` exactly where the crate rejects the patterns (named
/// `regex_set_compiles`), else a set that keeps the patterns and flag.
#[verifier::external_body]
pub fn compile_set(patterns: &Vec<String>, multi_line: bool) -> (r: Option<CompiledSet>)
    ensures
        r is Some <==> regex_set_compiles(string_views(patterns@), multi_line),
        r matches Some(c) ==> c@ == (string_views(patterns@), multi_line),
{
    match ::regex::RegexSetBuilder::new(patterns.iter()).multi_line(multi_line).build() {
        Ok(inner) => Some(CompiledSet { patterns: patterns.clone(), multi_line, inner }),
        Err(_) => None,
    }
}

/// `regex::RegexSet::is_match`: whether some pattern of the set matches
/// `text`, which the contract names `regex_set_matches` of the set's
/// patterns and multi-line flag.
#[verifier::external_body]
pub fn set_is_match(set: &CompiledSet, text: &str) -> (b: bool)
    ensures
        b == regex_set_matches(set@.0, set@.1, text@),
{
    set.inner.is_match(text)
}

/// `regex::RegexSet::matches`, the indices collected from `SetMatches::iter`
/// (named `regex_set_matching`); each index is that of a pattern of the set,
/// as `SetMatches` holds one slot per pattern.
#[verifier::external_body]
pub fn set_matches(set: &CompiledSet, text: &str) -> (r: Vec<usize>)
    ensures
        r@ == regex_set_matching(set@.0, set@.1, text@),
        forall|k: int| 0 <= k < r@.len() ==> r@[k] < set@.0.len(),
{
    set.inner.matches(text).iter().collect()
}

/// A set of patterns that compiles (without multi-line mode) and matches `text`.
pub open spec fn set_pattern_matches(patterns: Seq<Seq<char>>, text: Seq<char>) -> bool {
    regex_set_compiles(patterns, false) && regex_set_matches(patterns, false, text)
}

/// Compiles `patterns` as a set and tests it against `text`; a set that does
/// not compile matches nothing.
pub fn patterns_are_match(patterns: &Vec<String>, text: &str) -> (b: bool)
    ensures
        b == set_pattern_matches(string_views(patterns@), text@),
{
    match compile_set(patterns, false) {
        Some(set) => set_is_match(&set, text),
        None => false,
    }
}

/// The abstract value of a `Regex`: the patterns of a compiled set with its
/// multi-line flag, or a set the `regex` crate could not compile.
pub enum RegexView {
    Native(Seq<Seq<char>>, bool),
    Ruby,
}

/// Patterns compiled as one multi-line set, or `Ruby` when the `regex` crate
/// rejects them (such patterns never match).
pub enum Regex {
    Native(CompiledSet),
    Ruby,
}

impl View for Regex {
    type V = RegexView;

    open spec fn view(&self) -> RegexView {
        match self {
            Regex::Native(set) => RegexView::Native(set@.0, set@.1),
            Regex::Ruby => RegexView::Ruby,
        }
    }
}

/// What `Regex::new` builds from `patterns`.
pub open spec fn regex_new_spec(patterns: Seq<Seq<char>>) -> RegexView {
    if regex_set_compiles(patterns, true) {
        RegexView::Native(patterns, true)
    } else {
        RegexView::Ruby
    }
}

/// Whether a `Regex` with view `r` matches `text`.
pub open spec fn regex_view_matches(r: RegexView, text: Seq<char>) -> bool {
    match r {
        RegexView::Native(patterns, multi_line) => regex_set_matches(patterns, multi_line, text),
        RegexView::Ruby => false,
    }
}

impl Regex {
    /// Compiles `patterns` as one set in multi-line mode; patterns the
    /// `regex` crate rejects give `Regex::Ruby`.
    pub fn new(patterns: &Vec<String>) -> (r: Regex)
        ensures
            r@ == regex_new_spec(string_views(patterns@)),
    {
        match compile_set(patterns, true) {
            Some(set) => Regex::Native(set),
            None => Regex::Ruby,
        }
    }

    /// Whether any pattern matches `text`; `Ruby` never matches.
    pub fn is_match(&self, text: &str) -> (b: bool)
        ensures
            b == regex_view_matches(self@, text@),
    {
        match self {
            Regex::Native(set) => set_is_match(set, text),
            Regex::Ruby => false,
        }
    }
}

} // verus!
