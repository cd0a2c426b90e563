//! Filtering of parameters by patterns on their keys.

use regex::RegexSet;
use vstd::prelude::*;

use crate::algebra::{
    lemma_collect_unique, lemma_filter, lemma_filter_all, lemma_filter_ends, lemma_filter_step,
    unique_keys,
};
use crate::error::Error;
use crate::parameter::{Parameter, ParameterView, Parameters};
use crate::parameters::views;
use crate::patterns::{
    any_matches, compile, description_of, is_match, pattern_texts, refused, set_patterns,
};

verus! {

impl Error {
    /// The error for patterns that the regex compiler refused: the parameters
    /// given are invalid, and the error holds the description of the compiler.
    pub fn from_refused_patterns(description: String) -> (res: Error)
        ensures
            res == Error::InvalidParameters(description),
    {
        Error::InvalidParameters(description)
    }
}

/// Whether the patterns given make a filter that is refused: the excludes, if
/// there are any, or the includes, if there are any, are refused by the regex
/// compiler.
pub open spec fn filter_refused(excludes: Seq<String>, includes: Seq<String>) -> bool {
    ||| excludes.len() != 0 && refused(pattern_texts(excludes))
    ||| includes.len() != 0 && refused(pattern_texts(includes))
}

/// The patterns of a compiled set, if there is a set.
pub open spec fn patterns_of(set: Option<&RegexSet>) -> Option<Seq<Seq<char>>> {
    match set {
        Some(set) => Some(set_patterns(*set)),
        None => None,
    }
}

/// The patterns given, if any were given.
pub open spec fn patterns_given(patterns: Seq<String>) -> Option<Seq<Seq<char>>> {
    if patterns.len() == 0 {
        None
    } else {
        Some(pattern_texts(patterns))
    }
}

/// Whether a key passes: no exclude pattern matches it, and, where include
/// patterns are given, one of them matches it.
pub open spec fn passes(
    excludes: Option<Seq<Seq<char>>>,
    includes: Option<Seq<Seq<char>>>,
    key: Seq<char>,
) -> bool {
    &&& excludes matches Some(patterns) ==> !any_matches(patterns, key)
    &&& includes matches Some(patterns) ==> any_matches(patterns, key)
}

/// Selects the parameters whose key passes.
pub open spec fn passing(
    excludes: Option<Seq<Seq<char>>>,
    includes: Option<Seq<Seq<char>>>,
) -> spec_fn(ParameterView) -> bool {
    |p: ParameterView| passes(excludes, includes, p.key())
}

/// Whether the key passes the compiled sets.
fn key_passes(key: &str, excludes: Option<&RegexSet>, includes: Option<&RegexSet>) -> (res: bool)
    ensures
        res == passes(patterns_of(excludes), patterns_of(includes), key@),
{
    let excluded = match excludes {
        Some(set) => is_match(set, key),
        None => false,
    };
    let included = match includes {
        Some(set) => is_match(set, key),
        None => true,
    };
    !excluded && included
}

/// Select the parameters whose key passes the compiled sets given: a key
/// that a set of excludes matches does not pass, and neither does a key that
/// a set of includes does not match. The parameters selected keep their order.
pub fn select_parameters(
    parameters: &Parameters,
    excludes: Option<&RegexSet>,
    includes: Option<&RegexSet>,
) -> (res: Parameters)
    ensures
        res@ == parameters@.filter(passing(patterns_of(excludes), patterns_of(includes))),
        unique_keys(res@),
{
    let ghost keep = passing(patterns_of(excludes), patterns_of(includes));
    let mut selected: Vec<Parameter> = Vec::new();
    let len = parameters.len();
    proof {
        lemma_filter_ends(parameters@, keep);
    }
    for index in 0..len
        invariant
            len == parameters@.len(),
            keep == passing(patterns_of(excludes), patterns_of(includes)),
            views(selected@) == parameters@.take(index as int).filter(keep),
    {
        if let Some(parameter) = parameters.get_index(index) {
            proof {
                lemma_filter_step(parameters@, keep, index as int);
            }
            let ghost before = views(selected@);
            if key_passes(parameter.key(), excludes, includes) {
                selected.push(parameter.clone());
                proof {
                    assert(views(selected@) =~= before.push(parameter@));
                }
            }
        }
    }
    proof {
        lemma_filter_ends(parameters@, keep);
        lemma_filter(parameters@, keep);
        lemma_collect_unique(parameters@.filter(keep));
    }
    Parameters::new(selected)
}

/// Apply exclude and include patterns to the keys of a collection.
///
/// Where exclude patterns are given, every parameter whose key one of them
/// matches is dropped. Where include patterns are given, every parameter whose
/// key none of them matches is dropped too. Without any pattern the collection
/// stays as it is. Patterns that the regex compiler refuses are invalid
/// parameters: the error holds the description of the compiler.
pub fn apply_excludes_includes(
    parameters: Parameters,
    excludes: &[String],
    includes: &[String],
) -> (res: Result<Parameters, Error>)
    ensures
        res is Err <==> filter_refused(excludes@, includes@),
        match res {
            Ok(selected) => selected@ == parameters@.filter(
                passing(patterns_given(excludes@), patterns_given(includes@)),
            ) && unique_keys(selected@) && (excludes@.len() == 0 && includes@.len() == 0
                ==> selected@ == parameters@),
            Err(error) => error is InvalidParameters,
        },
{
    if excludes.len() == 0 && includes.len() == 0 {
        proof {
            lemma_filter_all(parameters@, passing(None, None));
        }
        // Asked for what it says of the keys: no key occurs twice.
        let _ = parameters.len();
        return Ok(parameters);
    }
    let excluding = if excludes.len() != 0 {
        match compile(excludes) {
            Ok(set) => Some(set),
            Err(error) => {
                return Err(Error::from_refused_patterns(description_of(error)));
            },
        }
    } else {
        None
    };
    let including = if includes.len() != 0 {
        match compile(includes) {
            Ok(set) => Some(set),
            Err(error) => {
                return Err(Error::from_refused_patterns(description_of(error)));
            },
        }
    } else {
        None
    };
    Ok(select_parameters(&parameters, excluding.as_ref(), including.as_ref()))
}

} // verus!
