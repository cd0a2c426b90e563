//! Verify that parameters in a file match a deployed stack or a template.

use vstd::prelude::*;

use crate::algebra::{loose_difference, with_defaults};
use crate::command::update_deployed_template::collection_of;
use crate::parameter::{Parameter, ParameterView, Parameters, ParametersDifference};
use crate::parameters::pair_views;
use crate::text::same_text;

verus! {

/// The value that CloudFormation shows in place of the value of a parameter
/// that is not echoed.
pub open spec fn no_echo_value() -> Seq<char> {
    "****"@
}

/// Whether the parameter of the stack of an unequal pair can be compared: it
/// cannot if its value is the one shown for parameters that are not echoed.
pub open spec fn comparable() -> spec_fn((ParameterView, ParameterView)) -> bool {
    |pair: (ParameterView, ParameterView)|
        !(pair.0 matches ParameterView::WithValue { value, .. } && value == no_echo_value())
}

/// An unequal parameter: what the stack has, and what the parameter file has.
#[derive(Debug)]
pub struct UnequalParameterDifference<'a> {
    /// The parameter of the stack or of the template.
    pub stack: &'a Parameter,
    /// The parameter of the parameter file.
    pub template: &'a Parameter,
}

/// The mathematical values of a list of unequal parameters.
pub open spec fn unequal_views(items: Seq<UnequalParameterDifference>) -> Seq<
    (ParameterView, ParameterView),
> {
    Seq::new(items.len(), |i: int| (items[i].stack@, items[i].template@))
}

impl<'a> UnequalParameterDifference<'a> {
    /// The unequal parameters to report, of the pairs of unequal parameters
    /// of a difference. The left parameter of a pair is that of the stack,
    /// the right one that of the parameter file. A pair whose stack parameter
    /// has the value shown for parameters that are not echoed is left out,
    /// since there is nothing to compare a value with.
    pub fn from(unequal_parameters: Vec<(&'a Parameter, &'a Parameter)>) -> (res: Vec<Self>)
        ensures
            unequal_views(res@) == pair_views(unequal_parameters@).filter(comparable()),
    {
        let mut res: Vec<UnequalParameterDifference<'a>> = Vec::new();
        let ghost pairs = pair_views(unequal_parameters@);
        let len = unequal_parameters.len();
        proof {
            reveal(Seq::filter);
            assert(pairs.take(0).filter(comparable()) =~= unequal_views(res@));
        }
        for index in 0..len
            invariant
                len == unequal_parameters@.len(),
                pairs == pair_views(unequal_parameters@),
                unequal_views(res@) == pairs.take(index as int).filter(comparable()),
        {
            let (stack, template) = unequal_parameters[index];
            let hidden = match stack.value() {
                Some(value) => same_text(value, "****"),
                None => false,
            };
            let ghost before = unequal_views(res@);
            proof {
                reveal(Seq::filter);
                assert(pairs.take(index + 1).drop_last() =~= pairs.take(index as int));
                assert(pairs.take(index + 1).last() == (stack@, template@));
            }
            if !hidden {
                res.push(UnequalParameterDifference { stack, template });
                proof {
                    assert(unequal_views(res@) =~= before.push((stack@, template@)));
                }
            }
        }
        proof {
            assert(pairs.take(len as int) =~= pairs);
        }
        res
    }
}

/// The parameters of the file to compare: with the values of the defaults
/// where they have none, if a file of defaults was read.
pub fn file_parameters(given: Parameters, defaults: Option<Parameters>) -> (res: Parameters)
    ensures
        res@ == match collection_of(defaults) {
            Some(defaults) => with_defaults(given@, defaults),
            None => given@,
        },
{
    match defaults {
        Some(defaults) => given.with_defaults(defaults),
        None => given,
    }
}

/// Compare the parameters defined on the stack or by the template with those
/// of the parameter file. A parameter of the file that keeps the previous
/// value is equal to whatever is defined. Nothing is returned where the two
/// match.
pub fn verify_parameter_file<'a>(
    defined_parameters: &'a Parameters,
    file_parameters: &'a Parameters,
) -> (res: Option<ParametersDifference<'a>>)
    ensures
        match res {
            Some(difference) => loose_difference(defined_parameters@, file_parameters@) == Some(
                difference@,
            ),
            None => loose_difference(defined_parameters@, file_parameters@) is None,
        },
{
    defined_parameters.loose_difference(file_parameters)
}

/// What the command says where the parameters match.
pub fn matching() -> (res: String)
    ensures
        res@ == "The parameters in the given file MATCH the CloudFormation stack."@,
{
    "The parameters in the given file MATCH the CloudFormation stack.".to_owned()
}

} // verus!
