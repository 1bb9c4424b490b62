//! The name policy's pattern: which names are in scope, and how a name is
//! rewritten. Matching and replacing are the `regex` crate's.

use regex::Regex;
use vstd::prelude::*;
use vstd::string::StringExecFns;

verus! {

/// Whether `Regex::new` accepts `pattern`.
pub uninterp spec fn regex_compiles(pattern: Seq<char>) -> bool;

/// What `Regex::is_match` returns for `haystack` on the regex of `pattern`.
pub uninterp spec fn regex_is_match(pattern: Seq<char>, haystack: Seq<char>) -> bool;

/// What `Regex::replace` returns for `haystack` and the replacement string
/// `replacement` on the regex of `pattern`.
pub uninterp spec fn regex_replace(
    pattern: Seq<char>,
    haystack: Seq<char>,
    replacement: Seq<char>,
) -> Seq<char>;

/// `name` as the pattern rewrites it: the first match replaced by the
/// expanded `template`, and `name` itself where nothing matches.
pub open spec fn rewritten(pattern: Seq<char>, template: Seq<char>, name: Seq<char>) -> Seq<char> {
    if regex_is_match(pattern, name) {
        regex_replace(pattern, name, template)
    } else {
        name
    }
}

/// `Regex::new`: whether `pattern` compiles to a regex. It is refused where
/// its syntax is wrong or the compiled regex would exceed the size limit.
#[verifier::external_body]
fn compiles(pattern: &str) -> (ok: bool)
    ensures
        ok == regex_compiles(pattern@),
{
    Regex::new(pattern).is_ok()
}

/// `Regex::is_match` on the regex that `Regex::new` compiles `pattern` to:
/// whether the regex matches anywhere in `haystack`.
#[verifier::external_body]
fn is_match(pattern: &str, haystack: &str) -> (found: bool)
    requires
        regex_compiles(pattern@),
    ensures
        found == regex_is_match(pattern@, haystack@),
{
    Regex::new(pattern).unwrap().is_match(haystack)
}

/// `Regex::replace` on the regex that `Regex::new` compiles `pattern` to:
/// `haystack` with its leftmost-first match replaced by `replacement`, in
/// which `$` references to capture groups are expanded. Without a match the
/// result is `haystack`.
#[verifier::external_body]
fn replace(pattern: &str, haystack: &str, replacement: &str) -> (replaced: String)
    requires
        regex_compiles(pattern@),
    ensures
        replaced@ == regex_replace(pattern@, haystack@, replacement@),
        !regex_is_match(pattern@, haystack@) ==> replaced@ == haystack@,
{
    Regex::new(pattern).unwrap().replace(haystack, replacement).into_owned()
}

/// A pattern that compiles to a regex.
#[derive(Debug)]
pub struct NamePattern {
    source: String,
}

impl View for NamePattern {
    type V = Seq<char>;

    closed spec fn view(&self) -> Seq<char> {
        self.source@
    }
}

impl Clone for NamePattern {
    fn clone(&self) -> (copy: NamePattern)
        ensures
            copy@ == self@,
    {
        proof {
            use_type_invariant(self);
        }
        NamePattern { source: self.source.clone() }
    }
}

impl NamePattern {
    #[verifier::type_invariant]
    spec fn well_formed(self) -> bool {
        regex_compiles(self.source@)
    }

    /// The pattern `source`, where it compiles.
    pub fn new(source: &str) -> (pattern: Option<NamePattern>)
        ensures
            pattern is Some <==> regex_compiles(source@),
            pattern matches Some(p) ==> p@ == source@,
    {
        if compiles(source) {
            Some(NamePattern { source: String::from_str(source) })
        } else {
            None
        }
    }

    /// The text of the pattern.
    pub fn as_str(&self) -> (source: &str)
        ensures
            source@ == self@,
    {
        self.source.as_str()
    }

    /// Whether the pattern matches anywhere in `name`.
    pub fn is_match(&self, name: &str) -> (found: bool)
        ensures
            found == regex_is_match(self@, name@),
    {
        proof {
            use_type_invariant(self);
        }
        is_match(self.source.as_str(), name)
    }

    /// `name` with the first match replaced by the expanded `template`.
    pub fn replace(&self, name: &str, template: &str) -> (replaced: String)
        ensures
            replaced@ == rewritten(self@, template@, name@),
    {
        proof {
            use_type_invariant(self);
        }
        replace(self.source.as_str(), name, template)
    }
}

/// Rewriting is stable once the pattern no longer matches: a name that the
/// pattern does not match in its rewritten form is rewritten to itself when
/// the rewriting is applied again.
pub proof fn lemma_rewrite_is_stable(pattern: Seq<char>, template: Seq<char>, name: Seq<char>)
    requires
        !regex_is_match(pattern, rewritten(pattern, template, name)),
    ensures
        rewritten(pattern, template, rewritten(pattern, template, name)) == rewritten(
            pattern,
            template,
            name,
        ),
{
}

} // verus!
