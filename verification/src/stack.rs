//! Handling of CloudFormation stacks.

use vstd::prelude::*;

use crate::algebra::{as_previous_values, collect, lookup};
use crate::change_set::{
    acknowledged_capabilities, capabilities, owned, to_cfn, ChangeSetRequest,
    ChangeSetRequestView, ChangeSetType, TemplateSource, TemplateSourceView,
};
use crate::error::{Error, ErrorView};
use crate::parameter::{CfnParameter, CfnParameterView, Parameter, ParameterView, Parameters};
use crate::parameters::views;

verus! {

/// Represents a CloudFormation stack.
#[derive(Debug)]
pub struct Stack {
    name: String,
}

/// A stack as CloudFormation describes it, as far as the library reads the
/// description.
#[derive(Debug)]
pub struct DescribedStack {
    /// The parameters of the stack, if the description lists any.
    pub parameters: Option<Vec<CfnParameter>>,
}

/// The mathematical value of a [`DescribedStack`]: its parameters, where the
/// description lists some.
pub open spec fn described_view(stack: DescribedStack) -> Option<Seq<CfnParameterView>> {
    match stack.parameters {
        Some(parameters) => Some(crate::change_set::cfn_views(parameters@)),
        None => None,
    }
}

/// The parameters that the library supports among those of a description, in
/// their order.
pub open spec fn supported(entries: Seq<CfnParameterView>) -> Seq<ParameterView> {
    entries.filter_map(|entry: CfnParameterView| entry.to_parameter())
}

/// The parameters of the stack that a response describes: those of the first
/// stack described, as far as the library supports them; none where the
/// description lists none.
pub open spec fn described_parameters(stack: Option<Seq<CfnParameterView>>) -> Seq<ParameterView> {
    match stack {
        Some(entries) => collect(supported(entries)),
        None => Seq::empty(),
    }
}

impl Stack {
    /// The name of the stack, as a sequence of characters.
    pub closed spec fn name_view(&self) -> Seq<char> {
        self.name@
    }

    /// Create a new representation of a CloudFormation stack.
    pub fn new(name: &str) -> (stack: Stack)
        ensures
            stack.name_view() == name@,
    {
        Stack { name: name.to_owned() }
    }

    /// The name of the stack.
    pub fn name(&self) -> (res: &str)
        ensures
            res@ == self.name_view(),
    {
        self.name.as_str()
    }

    /// Get the current parameters for the stack from the stacks that
    /// CloudFormation described when asked for the stack by name.
    ///
    /// Where no stack was described, the stack does not exist, which is an
    /// error that names the stack. Else the parameters are those of the first
    /// stack described, with their current values.
    pub fn get_parameters(&self, described: Option<Vec<DescribedStack>>) -> (res: Result<
        Parameters,
        Error,
    >)
        ensures
            match res {
                Ok(parameters) => described matches Some(stacks) && stacks@.len() > 0
                    && parameters@ == described_parameters(described_view(stacks@[0])),
                Err(error) => (described matches Some(stacks) ==> stacks@.len() == 0) && error@
                    == ErrorView::InvalidStack(self.name_view()),
            },
    {
        let stacks = match described {
            Some(stacks) => stacks,
            None => {
                return Err(Error::InvalidStack(self.name.clone()));
            },
        };
        if stacks.len() == 0 {
            return Err(Error::InvalidStack(self.name.clone()));
        }
        let mut parameters: Vec<Parameter> = Vec::new();
        if let Some(entries) = &stacks[0].parameters {
            let ghost given = crate::change_set::cfn_views(entries@);
            let ghost select = |entry: CfnParameterView| entry.to_parameter();
            let len = entries.len();
            assert(given.take(0).filter_map(select) =~= views(parameters@));
            for index in 0..len
                invariant
                    len == entries@.len(),
                    given == crate::change_set::cfn_views(entries@),
                    select == |entry: CfnParameterView| entry.to_parameter(),
                    views(parameters@) == given.take(index as int).filter_map(select),
            {
                proof {
                    given.lemma_filter_map_take_succ(select, index as int);
                }
                let ghost before = views(parameters@);
                if let Some(parameter) = Parameter::from(&entries[index]) {
                    parameters.push(parameter);
                    proof {
                        assert(views(parameters@) =~= before + seq![parameter@]);
                    }
                }
                proof {
                    assert(views(parameters@) =~= given.take(index + 1).filter_map(select));
                }
            }
            proof {
                assert(given.take(len as int) =~= given);
            }
        } else {
            proof {
                assert(views(parameters@) =~= Seq::<ParameterView>::empty());
                assert(collect(Seq::<ParameterView>::empty()) =~= Seq::<ParameterView>::empty());
            }
        }
        Ok(Parameters::new(parameters))
    }

    /// Get the value of a single parameter of the stack, from the stacks that
    /// CloudFormation described when asked for the stack by name.
    pub fn get_parameter(&self, described: Option<Vec<DescribedStack>>, key: &str) -> (res: Result<
        Option<Parameter>,
        Error,
    >)
        ensures
            match res {
                Ok(parameter) => described matches Some(stacks) && stacks@.len() > 0
                    && crate::parameter::option_view(parameter) == lookup(
                    described_parameters(described_view(stacks@[0])),
                    key@,
                ),
                Err(error) => (described matches Some(stacks) ==> stacks@.len() == 0) && error@
                    == ErrorView::InvalidStack(self.name_view()),
            },
    {
        match self.get_parameters(described) {
            Ok(parameters) => Ok(
                match parameters.get(key) {
                    Some(parameter) => Some(parameter.clone()),
                    None => None,
                },
            ),
            Err(error) => Err(error),
        }
    }

    /// Get the current parameters for the stack, as previous values: every
    /// parameter of the stack, without its value.
    pub fn get_parameters_as_previous_value(&self, described: Option<Vec<DescribedStack>>) -> (res:
        Result<Parameters, Error>)
        ensures
            match res {
                Ok(parameters) => described matches Some(stacks) && stacks@.len() > 0
                    && parameters@ == as_previous_values(
                    described_parameters(described_view(stacks@[0])),
                ),
                Err(error) => (described matches Some(stacks) ==> stacks@.len() == 0) && error@
                    == ErrorView::InvalidStack(self.name_view()),
            },
    {
        match self.get_parameters(described) {
            Ok(parameters) => Ok(parameters.as_previous_values()),
            Err(error) => Err(error),
        }
    }

    /// Create the request for a change set for the current stack with the
    /// provided parameters. The change set updates the stack and keeps its
    /// template.
    ///
    /// This does not verify that the parameters provided are valid parameters
    /// for the stack in question.
    pub fn create_change_set(
        &self,
        name: &str,
        role_arn: Option<&str>,
        parameters: &Parameters,
    ) -> (res: ChangeSetRequest)
        ensures
            res@ == (ChangeSetRequestView {
                stack_name: self.name_view(),
                change_set_name: name@,
                capabilities: acknowledged_capabilities(),
                change_set_type: ChangeSetType::Update,
                role_arn: match role_arn {
                    Some(role_arn) => Some(role_arn@),
                    None => None,
                },
                parameters: to_cfn(parameters@),
                template: TemplateSourceView::Previous,
            }),
    {
        ChangeSetRequest {
            stack_name: self.name.clone(),
            change_set_name: name.to_owned(),
            capabilities: capabilities(),
            change_set_type: ChangeSetType::Update,
            role_arn: owned(role_arn),
            parameters: parameters.to_cfn(),
            template: TemplateSource::Previous,
        }
    }
}

impl Clone for Stack {
    fn clone(&self) -> (res: Stack)
        ensures
            res.name_view() == self.name_view(),
    {
        Stack { name: self.name.clone() }
    }
}

impl PartialEq for Stack {
    fn eq(&self, other: &Self) -> (res: bool) {
        self.name == other.name
    }
}

impl vstd::std_specs::cmp::PartialEqSpecImpl for Stack {
    open spec fn obeys_eq_spec() -> bool {
        true
    }

    open spec fn eq_spec(&self, other: &Self) -> bool {
        self.name_view() == other.name_view()
    }
}

impl Eq for Stack {

}

} // verus!
