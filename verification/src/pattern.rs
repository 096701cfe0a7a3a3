//! Regular expressions (`regex`) and shell globs (`glob`), each held with
//! the source text it was compiled from.

use vstd::prelude::*;
use crate::text::opt_views;

verus! {

#[verifier::external_type_specification]
#[verifier::external_body]
pub struct ExRegex(regex::Regex);

#[verifier::external_type_specification]
#[verifier::external_body]
pub struct ExGlobPattern(glob::Pattern);

/// Whether `regex` accepts `source` as a regular expression.
pub uninterp spec fn regex_compiles(source: Seq<char>) -> bool;

/// The names of the capture groups of the regular expression `source`, by
/// group index (index 0 is the whole match, which has no name).
pub uninterp spec fn regex_group_names(source: Seq<char>) -> Seq<Option<Seq<char>>>;

/// The groups of the leftmost-first match of `source` in `text`, by group
/// index (index 0 is the whole match); none when there is no match.
pub uninterp spec fn regex_captures(source: Seq<char>, text: Seq<char>) -> Option<Seq<Option<Seq<char>>>>;

/// The groups of each successive non-overlapping match of `source` in `text`.
pub uninterp spec fn regex_all_captures(source: Seq<char>, text: Seq<char>) -> Seq<Seq<Option<Seq<char>>>>;

/// Whether every group that took part in a match is no longer than `n`.
pub open spec fn groups_within(g: Seq<Option<Seq<char>>>, n: int) -> bool {
    forall|i: int| 0 <= i < g.len() ==> (#[trigger] g[i] matches Some(t) ==> t.len() <= n)
}

/// A compiled regular expression and its source.
pub struct CompiledRegex {
    source: String,
    re: regex::Regex,
}

impl View for CompiledRegex {
    type V = Seq<char>;

    closed spec fn view(&self) -> Seq<char> {
        self.source@
    }
}

impl CompiledRegex {
    /// Compiles `source` with `Regex::new`. The contract claims that a
    /// regular expression comes back exactly when `regex` accepts the source,
    /// and that it carries that source.
    #[verifier::external_body]
    pub(crate) fn new(source: &str) -> (r: Option<CompiledRegex>)
        ensures
            r is Some <==> regex_compiles(source@),
            r matches Some(re) ==> re@ == source@,
    {
        regex::Regex::new(source).ok().map(|re| CompiledRegex { source: source.to_string(), re })
    }

    /// The capture group names, from `Regex::capture_names`, each converted
    /// to a `String`. The contract claims that they are a function of the
    /// source.
    #[verifier::external_body]
    pub(crate) fn group_names(&self) -> (r: Vec<Option<String>>)
        ensures
            opt_views(r@) == regex_group_names(self@),
    {
        self.re.capture_names().map(|n| n.map(|s| s.to_string())).collect()
    }

    /// The groups of the first match in `text`, from `Regex::captures`, each
    /// group converted to a `String`. The contract claims that they are a
    /// function of the source and the text, and that each group, being a
    /// part of the text, is no longer than the text.
    #[verifier::external_body]
    pub(crate) fn captures(&self, text: &str) -> (r: Option<Vec<Option<String>>>)
        ensures
            match r {
                None => regex_captures(self@, text@) is None,
                Some(g) => regex_captures(self@, text@) == Some(opt_views(g@)),
            },
            r matches Some(g) ==> groups_within(opt_views(g@), text@.len() as int),
    {
        (self.re.captures(text).map(|c| c.iter().map(|m| m.map(|m| m.as_str().to_string())).collect()))
    }

    /// The groups of every match in `text`, from `Regex::captures_iter`,
    /// each group converted to a `String`. The contract claims that they are a
    /// function of the source and the text, and that each group, being a
    /// part of the text, is no longer than the text.
    #[verifier::external_body]
    pub(crate) fn captures_all(&self, text: &str) -> (r: Vec<Vec<Option<String>>>)
        ensures
            r@.len() == regex_all_captures(self@, text@).len(),
            forall|k: int| 0 <= k < r@.len() ==> opt_views(#[trigger] r@[k]@) == regex_all_captures(self@, text@)[k],
            forall|k: int| 0 <= k < r@.len() ==> groups_within(opt_views(#[trigger] r@[k]@), text@.len() as int),
    {
        self.re.captures_iter(text)
            .map(|c| c.iter().map(|m| m.map(|m| m.as_str().to_string())).collect())
            .collect()
    }
}

/// Whether `glob` accepts `source` as a pattern.
pub uninterp spec fn glob_compiles(source: Seq<char>) -> bool;

/// Whether the glob pattern `source` matches `text` with the default options.
pub uninterp spec fn glob_matches(source: Seq<char>, text: Seq<char>) -> bool;

/// A compiled glob pattern and its source.
pub struct GlobPattern {
    source: String,
    pat: glob::Pattern,
}

impl View for GlobPattern {
    type V = Seq<char>;

    closed spec fn view(&self) -> Seq<char> {
        self.source@
    }
}

impl GlobPattern {
    /// Compiles `source` with `glob::Pattern::new`. The contract claims that a
    /// pattern comes back exactly when `glob` accepts the source, and that it
    /// carries that source.
    #[verifier::external_body]
    pub(crate) fn new(source: &str) -> (r: Option<GlobPattern>)
        ensures
            r is Some <==> glob_compiles(source@),
            r matches Some(p) ==> p@ == source@,
    {
        glob::Pattern::new(source).ok().map(|pat| GlobPattern { source: source.to_string(), pat })
    }

    /// Whether the pattern matches `text`, from `glob::Pattern::matches`
    /// (what `matches_path` does on a path that is valid UTF-8). The contract
    /// claims that the answer is a function of the source and the text.
    #[verifier::external_body]
    pub(crate) fn matches(&self, text: &str) -> (r: bool)
        ensures
            r == glob_matches(self@, text@),
    {
        self.pat.matches(text)
    }
}

} // verus!
