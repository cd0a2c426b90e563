//! Show new template parameters not present on the stack.

use vstd::prelude::*;

use crate::algebra::{keys, subtracted, unique_keys};
use crate::parameter::{ParameterView, Parameters};
use crate::text::{join, joined, texts};

verus! {

/// The lines of a list with one key in each line.
pub open spec fn bullets(names: Seq<Seq<char>>) -> Seq<Seq<char>> {
    Seq::new(names.len(), |i: int| "- "@ + names[i])
}

/// The text that lists the new parameters.
pub open spec fn listing(new_parameters: Seq<ParameterView>) -> Seq<char> {
    "New parameters defined in the template, not set on the stack:\n"@ + joined(
        bullets(keys(new_parameters)),
        "\n"@,
    )
}

/// Identify the new parameters: those that the template defines and the
/// stack does not have. (Parameters that the stack has and the template does
/// not define are ignored: they need not be set, and are removed once the
/// change set is deployed.)
pub fn identify_new_parameters(template_parameters: &Parameters, stack_parameters: &Parameters)
    -> (res: Parameters)
    ensures
        res@ == subtracted(template_parameters@, stack_parameters@),
        unique_keys(res@),
{
    template_parameters.clone().subtract(stack_parameters)
}

/// The text that lists the new parameters for a reader: a heading, and one
/// line for each key.
pub fn human_readable(new_parameters: &Parameters) -> (res: String)
    ensures
        res@ == listing(new_parameters@),
{
    let names = new_parameters.keys();
    let mut lines: Vec<String> = Vec::new();
    let len = names.len();
    for index in 0..len
        invariant
            len == names@.len(),
            lines@.len() == index,
            forall|i: int| 0 <= i < index ==> (#[trigger] lines@[i])@ == "- "@ + names@[i]@,
    {
        let mut line = "- ".to_owned();
        line.append(names[index].as_str());
        lines.push(line);
    }
    let mut borrowed: Vec<&String> = Vec::new();
    for index in 0..len
        invariant
            len == lines@.len(),
            borrowed@.len() == index,
            forall|i: int| 0 <= i < index ==> (#[trigger] borrowed@[i])@ == lines@[i]@,
    {
        borrowed.push(&lines[index]);
    }
    proof {
        assert(texts(borrowed@) =~= bullets(keys(new_parameters@))) by {
            assert(texts(names@) == keys(new_parameters@));
            assert forall|i: int| 0 <= i < len implies texts(borrowed@)[i] == bullets(
                keys(new_parameters@),
            )[i] by {
                assert(texts(names@)[i] == names@[i]@);
            }
        }
    }
    let list = join(&borrowed, "\n");
    let mut text = "New parameters defined in the template, not set on the stack:\n".to_owned();
    text.append(list.as_str());
    text
}

} // verus!
