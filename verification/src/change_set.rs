//! Requests for change sets.

use vstd::prelude::*;

use crate::parameter::{CfnParameter, CfnParameterView, ParameterView};

verus! {

/// Whether a change set creates a stack or updates one.
#[derive(Debug, Clone, Copy, PartialEq, Eq, Structural)]
pub enum ChangeSetType {
    /// The change set creates a new stack.
    Create,
    /// The change set updates a stack that exists.
    Update,
}

/// Where the template of a change set comes from.
#[derive(Debug)]
pub enum TemplateSource {
    /// The template that the stack was last deployed with.
    Previous,
    /// The template itself, as text.
    Body(String),
    /// The location of the template, which was uploaded.
    Url(String),
}

/// The mathematical value of a [`TemplateSource`].
pub enum TemplateSourceView {
    Previous,
    Body(Seq<char>),
    Url(Seq<char>),
}

impl View for TemplateSource {
    type V = TemplateSourceView;

    open spec fn view(&self) -> TemplateSourceView {
        match self {
            TemplateSource::Previous => TemplateSourceView::Previous,
            TemplateSource::Body(body) => TemplateSourceView::Body(body@),
            TemplateSource::Url(url) => TemplateSourceView::Url(url@),
        }
    }
}

/// The request to create a change set, as it is handed to CloudFormation.
#[derive(Debug)]
pub struct ChangeSetRequest {
    /// The name of the stack that the change set is for.
    pub stack_name: String,
    /// The name of the change set.
    pub change_set_name: String,
    /// The capabilities that are acknowledged.
    pub capabilities: Vec<String>,
    /// Whether the change set creates or updates the stack.
    pub change_set_type: ChangeSetType,
    /// The role that CloudFormation assumes when it executes the change set.
    pub role_arn: Option<String>,
    /// The parameters of the stack.
    pub parameters: Vec<CfnParameter>,
    /// The template of the stack.
    pub template: TemplateSource,
}

/// The mathematical value of a [`ChangeSetRequest`].
pub struct ChangeSetRequestView {
    pub stack_name: Seq<char>,
    pub change_set_name: Seq<char>,
    pub capabilities: Seq<Seq<char>>,
    pub change_set_type: ChangeSetType,
    pub role_arn: Option<Seq<char>>,
    pub parameters: Seq<CfnParameterView>,
    pub template: TemplateSourceView,
}

/// The texts of a list of strings.
pub open spec fn string_texts(items: Seq<String>) -> Seq<Seq<char>> {
    Seq::new(items.len(), |i: int| items[i]@)
}

/// The mathematical values of a list of parameters in the shape of the API.
pub open spec fn cfn_views(items: Seq<CfnParameter>) -> Seq<CfnParameterView> {
    Seq::new(items.len(), |i: int| items[i]@)
}

impl View for ChangeSetRequest {
    type V = ChangeSetRequestView;

    open spec fn view(&self) -> ChangeSetRequestView {
        ChangeSetRequestView {
            stack_name: self.stack_name@,
            change_set_name: self.change_set_name@,
            capabilities: string_texts(self.capabilities@),
            change_set_type: self.change_set_type,
            role_arn: match self.role_arn {
                Some(role_arn) => Some(role_arn@),
                None => None,
            },
            parameters: cfn_views(self.parameters@),
            template: self.template@,
        }
    }
}

/// The capabilities that every change set acknowledges: the creation of IAM
/// resources, with or without custom names, and the expansion of macros.
pub open spec fn acknowledged_capabilities() -> Seq<Seq<char>> {
    seq!["CAPABILITY_IAM"@, "CAPABILITY_NAMED_IAM"@, "CAPABILITY_AUTO_EXPAND"@]
}

/// The parameters of a collection in the shape of the API, in order.
pub open spec fn to_cfn(parameters: Seq<ParameterView>) -> Seq<CfnParameterView> {
    Seq::new(parameters.len(), |i: int| parameters[i].to_cfn())
}

/// The capabilities that every change set acknowledges.
pub fn capabilities() -> (res: Vec<String>)
    ensures
        string_texts(res@) == acknowledged_capabilities(),
{
    let mut res: Vec<String> = Vec::new();
    res.push("CAPABILITY_IAM".to_owned());
    res.push("CAPABILITY_NAMED_IAM".to_owned());
    res.push("CAPABILITY_AUTO_EXPAND".to_owned());
    proof {
        assert(string_texts(res@) =~= acknowledged_capabilities());
    }
    res
}

/// The text of an optional string slice, as a string of its own.
pub fn owned(text: Option<&str>) -> (res: Option<String>)
    ensures
        match text {
            Some(text) => res matches Some(owned) && owned@ == text@,
            None => res is None,
        },
{
    match text {
        Some(text) => Some(text.to_owned()),
        None => None,
    }
}

} // verus!
