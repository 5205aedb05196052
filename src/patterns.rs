//! What the sheriff's authentication relies on from the `regex` crate.
use vstd::prelude::*;

verus! {

/// A compiled regular expression of the `regex` crate.
#[verifier::external_type_specification]
#[verifier::external_body]
pub struct ExRegex(regex::Regex);

/// A regular expression together with the text it was compiled from. Only
/// `compile` makes one, so the two always belong together.
#[derive(Debug)]
pub struct Pattern {
    text: String,
    re: regex::Regex,
}

impl Pattern {
    /// The text the expression was compiled from.
    pub closed spec fn text(&self) -> Seq<char> {
        self.text@
    }

    /// The text the expression was compiled from.
    pub fn as_str(&self) -> (r: &str)
        ensures
            r@ == self.text(),
    {
        self.text.as_str()
    }
}

/// Whether the `regex` crate accepts the pattern.
pub uninterp spec fn regex_compiles(pattern: Seq<char>) -> bool;

/// What the `regex` crate finds of the group `group` when it matches
/// `pattern` against `hay`: one item for each successive match, holding the
/// group's text when the group took part.
pub uninterp spec fn group_matches(pattern: Seq<char>, hay: Seq<char>, group: Seq<char>) -> Seq<
    Option<Seq<char>>,
>;

/// The texts of `v`, as character sequences.
pub open spec fn texts(v: Seq<Option<String>>) -> Seq<Option<Seq<char>>> {
    v.map_values(
        |o: Option<String>|
            match o {
                Some(s) => Some(s@),
                None => None,
            },
    )
}

/// Relies on `regex::Regex::new`: whether a pattern compiles depends on the
/// pattern alone.
#[verifier::external_body]
pub fn compile(pattern: &str) -> (r: Option<Pattern>)
    ensures
        r is Some <==> regex_compiles(pattern@),
        r is Some ==> r->Some_0.text() == pattern@,
{
    regex::Regex::new(pattern).ok().map(|re| Pattern { text: pattern.to_owned(), re })
}

/// Relies on `Regex::captures_iter` and `Captures::name`: one item for each
/// successive match of the pattern in `hay`, holding the text of the group
/// named `group` when that group took part in the match. The result depends
/// on the pattern's text, `hay` and `group` alone.
#[verifier::external_body]
pub(crate) fn group_captures(p: &Pattern, hay: &str, group: &str) -> (r: Vec<Option<String>>)
    ensures
        texts(r@) == group_matches(p.text(), hay@, group@),
{
    p.re.captures_iter(hay).map(|c| c.name(group).map(|m| m.as_str().to_owned())).collect()
}

} // verus!
