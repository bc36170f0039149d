use vstd::prelude::*;

verus! {

#[verifier::external_type_specification]
#[verifier::external_body]
pub struct ExRegex(regex::Regex);

/// Whether `regex::Regex::new` accepts `pattern`.
pub uninterp spec fn regex_compiles(pattern: Seq<char>) -> bool;

/// The text that the error of `regex::Regex::new(pattern)` displays.
pub uninterp spec fn regex_error_text(pattern: Seq<char>) -> Seq<char>;

/// What `Regex::is_match` answers for `text` on the regex built from `pattern`.
pub uninterp spec fn regex_is_match(pattern: Seq<char>, text: Seq<char>) -> bool;

/// What `Regex::replace_all` makes of `text` with replacement `rep`, on the
/// regex built from `pattern`.
pub uninterp spec fn regex_replace_all(pattern: Seq<char>, text: Seq<char>, rep: Seq<char>) -> Seq<char>;

/// A compiled regular expression together with the pattern it was built from.
pub struct Pattern {
    re: regex::Regex,
    source: Ghost<Seq<char>>,
}

impl Pattern {
    /// The pattern this regex was compiled from.
    pub closed spec fn source(&self) -> Seq<char> {
        self.source@
    }
}

/// Compiles `pattern` with `regex::Regex::new`. Claims that the result is a
/// regex for exactly that pattern, or the error's display text; which
/// patterns compile is left to the name `regex_compiles`.
#[verifier::external_body]
pub(crate) fn compile_pattern(pattern: &str) -> (r: Result<Pattern, String>)
    ensures
        match r {
            Ok(p) => p.source() == pattern@ && regex_compiles(pattern@),
            Err(e) => !regex_compiles(pattern@) && e@ == regex_error_text(pattern@),
        },
{
    match regex::Regex::new(pattern) {
        Ok(re) => Ok(Pattern { re, source: Ghost(pattern@) }),
        Err(e) => Err(e.to_string()),
    }
}

/// `Regex::is_match`: whether the regex matches somewhere in `text`.
#[verifier::external_body]
pub(crate) fn pattern_is_match(p: &Pattern, text: &str) -> (r: bool)
    ensures
        r == regex_is_match(p.source(), text@),
{
    p.re.is_match(text)
}

/// `Regex::replace_all` with a literal replacement: every match in `text`
/// replaced by `rep`.
#[verifier::external_body]
pub(crate) fn pattern_replace_all(p: &Pattern, text: &str, rep: &str) -> (r: String)
    ensures
        r@ == regex_replace_all(p.source(), text@, rep@),
{
    p.re.replace_all(text, regex::NoExpand(rep)).into_owned()
}

} // verus!
