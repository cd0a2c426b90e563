//! Type-safe handling of CloudFormation templates.

use vstd::prelude::*;
use vstd::utf8::{decode_utf8, valid_utf8};

use crate::algebra::{as_previous_values, collect, key_set};
use crate::change_set::{
    acknowledged_capabilities, capabilities, owned, to_cfn, ChangeSetRequest,
    ChangeSetRequestView, ChangeSetType, TemplateSource, TemplateSourceView,
};
use crate::digest::{md5_hex, md5_hex_digest};
use crate::error::{Error, ErrorView};
use crate::parameter::{Parameter, ParameterView, Parameters};
use crate::parameters::views;

verus! {

/// A parameter as a template declares it: its name, and its default value if
/// the template gives one.
#[derive(Debug)]
pub struct DeclaredParameter {
    /// The name of the parameter.
    pub name: String,
    /// The default value of the parameter.
    pub default: Option<String>,
}

/// The parameter that a declaration stands for: the name with the default
/// value, or the name without a value where the template gives no default.
pub open spec fn declared_view(declaration: DeclaredParameter) -> ParameterView {
    match declaration.default {
        Some(default) => ParameterView::WithValue { key: declaration.name@, value: default@ },
        None => ParameterView::PreviousValue { key: declaration.name@ },
    }
}

/// The parameters that a list of declarations stands for, in order.
pub open spec fn declared_views(declarations: Seq<DeclaredParameter>) -> Seq<ParameterView> {
    Seq::new(declarations.len(), |i: int| declared_view(declarations[i]))
}

/// Represents a CloudFormation template, based on some source file.
///
/// It holds the loaded file contents as well as the parsed template parameters.
pub struct Template {
    filename: String,
    contents: Vec<u8>,
    parameters: Parameters,
}

/// What the template says where the parameters provided are not its own.
pub open spec fn other_parameters_expected() -> ErrorView {
    ErrorView::InvalidParameters("the template expected other parameters than were provided"@)
}

/// `String::from_utf8`: the text that the bytes encode in UTF-8, or nothing
/// where the bytes are no valid UTF-8.
#[verifier::external_body]
fn text_from_utf8(bytes: Vec<u8>) -> (res: Option<String>)
    ensures
        match res {
            Some(text) => valid_utf8(bytes@) && text@ == decode_utf8(bytes@),
            None => !valid_utf8(bytes@),
        },
{
    String::from_utf8(bytes).ok()
}

impl Template {
    /// The path of the file that the template was loaded from.
    pub closed spec fn filename_view(&self) -> Seq<char> {
        self.filename@
    }

    /// The contents of the template.
    pub closed spec fn contents_view(&self) -> Seq<u8> {
        self.contents@
    }

    /// The parameters that the template declares.
    pub closed spec fn parameters_view(&self) -> Seq<ParameterView> {
        self.parameters@
    }

    /// A template with the contents of the file named, which declares the
    /// parameters given. A parameter has its default value, where the template
    /// gives one.
    pub fn new(filename: &str, contents: Vec<u8>, declared: Vec<DeclaredParameter>) -> (res:
        Template)
        ensures
            res.filename_view() == filename@,
            res.contents_view() == contents@,
            res.parameters_view() == collect(declared_views(declared@)),
    {
        let mut parameters: Vec<Parameter> = Vec::new();
        let ghost declarations = declared@;
        for declaration in it: declared
            invariant
                it.seq() == declarations,
                parameters@.len() == it.index(),
                forall|i: int|
                    0 <= i < it.index() ==> (#[trigger] parameters@[i])@ == declared_view(
                        declarations[i],
                    ),
        {
            let parameter = match declaration.default {
                Some(default) => Parameter::WithValue { key: declaration.name, value: default },
                None => Parameter::PreviousValue { key: declaration.name },
            };
            parameters.push(parameter);
        }
        proof {
            assert(views(parameters@) =~= declared_views(declarations));
        }
        Template {
            filename: filename.to_owned(),
            contents,
            parameters: Parameters::new(parameters),
        }
    }

    /// Return the path to the file loaded.
    pub fn filename(&self) -> (res: &str)
        ensures
            res@ == self.filename_view(),
    {
        self.filename.as_str()
    }

    /// Return the contents of the loaded template.
    pub fn contents(&self) -> (res: &[u8])
        ensures
            res@ == self.contents_view(),
    {
        self.contents.as_slice()
    }

    /// The contents of the template as text, if they are valid UTF-8.
    pub fn body(&self) -> (res: Option<String>)
        ensures
            match res {
                Some(text) => valid_utf8(self.contents_view()) && text@ == decode_utf8(
                    self.contents_view(),
                ),
                None => !valid_utf8(self.contents_view()),
            },
    {
        text_from_utf8(self.contents.clone())
    }

    /// Generate and return a MD5 checksum of the file contents.
    pub fn checksum_md5hex(&self) -> (res: Result<String, Error>)
        ensures
            res matches Ok(checksum) && checksum@ == md5_hex(self.contents_view()),
    {
        Ok(md5_hex_digest(self.contents.as_slice()))
    }

    /// Get the parameters expected by the template.
    pub fn get_parameters(&self) -> (res: &Parameters)
        ensures
            res@ == self.parameters_view(),
    {
        &self.parameters
    }

    /// Get the parameters of type `Parameter::PreviousValue`: every parameter
    /// of the template without its value.
    pub fn get_parameters_as_previous_value(&self) -> (res: Parameters)
        ensures
            res@ == as_previous_values(self.parameters_view()),
    {
        self.parameters.as_previous_values()
    }

    /// The key under which the template is uploaded: the checksum of its
    /// contents, so that a template that was uploaded before is not stored
    /// twice, with the extension `.template`.
    pub fn upload_key(&self) -> (res: String)
        ensures
            res@ == md5_hex(self.contents_view()) + ".template"@,
    {
        let mut key = md5_hex_digest(self.contents.as_slice());
        key.append(".template");
        key
    }

    /// Whether the parameters provided are those that the template expects:
    /// the same keys, no more and no fewer.
    pub fn validate_parameters(&self, parameters: &Parameters) -> (res: bool)
        ensures
            res == (key_set(self.parameters_view()) == key_set(parameters@)),
    {
        self.parameters.same_keys(parameters)
    }

    /// Check that the parameters provided are those that the template
    /// expects. If they are not, the template is not deployed with them.
    pub fn check_parameters(&self, parameters: &Parameters) -> (res: Result<(), Error>)
        ensures
            match res {
                Ok(_) => key_set(self.parameters_view()) == key_set(parameters@),
                Err(error) => key_set(self.parameters_view()) != key_set(parameters@) && error@
                    == other_parameters_expected(),
            },
    {
        if self.validate_parameters(parameters) {
            Ok(())
        } else {
            Err(
                Error::InvalidParameters(
                    "the template expected other parameters than were provided".to_owned(),
                ),
            )
        }
    }

    /// Create the request for a change set for the loaded template and a
    /// given list of parameters.
    ///
    /// This validates that the parameter list matches what the template
    /// expects, and returns an error if this isn't the case. The template is
    /// handed over by its location where it was uploaded, else as text. If the
    /// stack doesn't exist but should be created, set `create_stack` to `true`.
    pub fn create_change_set(
        &self,
        name: &str,
        stack_name: &str,
        parameters: &Parameters,
        role_arn: Option<&str>,
        template_url: Option<String>,
        create_stack: bool,
    ) -> (res: Result<ChangeSetRequest, Error>)
        requires
            template_url is None ==> valid_utf8(self.contents_view()),
        ensures
            match res {
                Ok(request) => key_set(self.parameters_view()) == key_set(parameters@)
                    && request@ == (ChangeSetRequestView {
                    stack_name: stack_name@,
                    change_set_name: name@,
                    capabilities: acknowledged_capabilities(),
                    change_set_type: if create_stack {
                        ChangeSetType::Create
                    } else {
                        ChangeSetType::Update
                    },
                    role_arn: match role_arn {
                        Some(role_arn) => Some(role_arn@),
                        None => None,
                    },
                    parameters: to_cfn(parameters@),
                    template: match template_url {
                        Some(url) => TemplateSourceView::Url(url@),
                        None => TemplateSourceView::Body(decode_utf8(self.contents_view())),
                    },
                }),
                Err(error) => key_set(self.parameters_view()) != key_set(parameters@) && error@
                    == other_parameters_expected(),
            },
    {
        if let Err(error) = self.check_parameters(parameters) {
            return Err(error);
        }
        // Use the uploaded template if there is one, the template as it is else.
        let template = match template_url {
            Some(url) => TemplateSource::Url(url),
            None => match self.body() {
                Some(body) => TemplateSource::Body(body),
                None => vstd::pervasive::unreached(),
            },
        };
        Ok(
            ChangeSetRequest {
                stack_name: stack_name.to_owned(),
                change_set_name: name.to_owned(),
                capabilities: capabilities(),
                change_set_type: if create_stack {
                    ChangeSetType::Create
                } else {
                    ChangeSetType::Update
                },
                role_arn: owned(role_arn),
                parameters: parameters.to_cfn(),
                template,
            },
        )
    }
}

} // verus!
