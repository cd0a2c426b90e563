//! Sets of patterns that are matched against texts.
//!
//! The patterns are regular expressions, compiled and matched by the crate
//! `regex`. Verus does not look into that crate: this module names what a
//! compiled set holds and what it is for a pattern to match a text, and states
//! over those names what the calls return. These statements are believed, not
//! proved.

use regex::Error as RegexFault;
use regex::RegexSet;
use vstd::prelude::*;

verus! {

/// `regex::RegexSet`, a set of compiled regular expressions.
#[verifier::external_type_specification]
#[verifier::external_body]
pub struct ExRegexSet(RegexSet);

/// `regex::Error`, the reason why a regular expression was refused.
#[verifier::external_type_specification]
#[verifier::external_body]
pub struct ExRegexFault(RegexFault);

/// The patterns that a set was compiled from, in their order.
pub uninterp spec fn set_patterns(set: RegexSet) -> Seq<Seq<char>>;

/// Whether a regular expression matches somewhere in a text.
pub uninterp spec fn pattern_matches(pattern: Seq<char>, text: Seq<char>) -> bool;

/// Whether one of the patterns matches somewhere in the text.
pub open spec fn any_matches(patterns: Seq<Seq<char>>, text: Seq<char>) -> bool {
    exists|i: int| 0 <= i < patterns.len() && pattern_matches(#[trigger] patterns[i], text)
}

/// The texts of a list of patterns.
pub open spec fn pattern_texts(patterns: Seq<String>) -> Seq<Seq<char>> {
    Seq::new(patterns.len(), |i: int| patterns[i]@)
}

/// Whether the regex compiler, as it is built into the program, refuses a set
/// of patterns: for their syntax, or for the size of what they compile to.
pub uninterp spec fn refused(patterns: Seq<Seq<char>>) -> bool;

/// `RegexSet::new`: the patterns are compiled or refused, which depends on the
/// patterns alone, and a set that was compiled holds the patterns given.
#[verifier::external_body]
pub(crate) fn compile(patterns: &[String]) -> (res: Result<RegexSet, RegexFault>)
    ensures
        res is Err <==> refused(pattern_texts(patterns@)),
        res matches Ok(set) ==> set_patterns(set) == pattern_texts(patterns@),
{
    RegexSet::new(patterns)
}

/// `RegexSet::is_match`: true if and only if one of the patterns of the set
/// matches somewhere in the text.
#[verifier::external_body]
pub(crate) fn is_match(set: &RegexSet, text: &str) -> (res: bool)
    ensures
        res == (exists|i: int|
            0 <= i < set_patterns(*set).len() && pattern_matches(
                #[trigger] set_patterns(*set)[i],
                text@,
            )),
{
    set.is_match(text)
}

/// The description of a `regex::Error`: for the variant `Syntax` the
/// description that it holds, for any other the text that it displays.
#[verifier::external_body]
pub(crate) fn description_of(error: RegexFault) -> String {
    match error {
        RegexFault::Syntax(description) => description,
        other => other.to_string(),
    }
}

} // verus!
