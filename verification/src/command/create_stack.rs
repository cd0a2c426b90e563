//! Create a new stack with given parameters: which parameters the change set
//! gets.

use vstd::prelude::*;

use crate::algebra::{collect, keys, put, updated};
use crate::command::update_deployed_template::{collection_of, Resolution};
use crate::command::{checked_or_warn, warning_text, Configuration};
use crate::error::{Error, ErrorView};
use crate::parameter::{Parameter, ParameterView, Parameters};
use crate::parameters::{has_no_value, has_value, views};
use crate::text::{enclose, join, joined};

verus! {

/// The parameters of the template with the values that the user provided: by
/// the parameter file, as far as its parameters have a value, and then by the
/// command line, which overrides the file. With the parameter for the
/// deployment metadata, where one is given.
pub open spec fn resolved_parameters(
    template_parameters: Seq<ParameterView>,
    file_parameters: Option<Seq<ParameterView>>,
    parameters: Seq<ParameterView>,
    metadata: Option<ParameterView>,
) -> Seq<ParameterView> {
    let from_file = match file_parameters {
        Some(file) => updated(template_parameters, file.filter(has_value())),
        None => template_parameters,
    };
    let from_command_line = updated(from_file, collect(parameters));
    match metadata {
        Some(metadata) => put(from_command_line, metadata),
        None => from_command_line,
    }
}

/// The parameter that holds the deployment metadata of the new stack: the
/// document given under the key configured, unless the metadata are to be left
/// as they are or no document is given.
pub open spec fn metadata_parameter(
    metadata_parameter: Seq<char>,
    dont_update_deployment_metadata: bool,
    document: Option<Seq<char>>,
) -> Option<ParameterView> {
    match document {
        Some(document) if !dont_update_deployment_metadata => Some(
            ParameterView::WithValue { key: metadata_parameter, value: document },
        ),
        _ => None,
    }
}

/// Whether deployment metadata are to be made for the new stack: they are,
/// unless they are to be left as they are.
pub fn wants_metadata(configuration: &Configuration) -> (res: bool)
    ensures
        res == !configuration.dont_update_deployment_metadata,
{
    !configuration.dont_update_deployment_metadata
}

/// The keys of the parameters that have no value, separated by commas.
pub open spec fn missing_names(resolved: Seq<ParameterView>) -> Seq<char> {
    joined(keys(resolved.filter(has_no_value())), ", "@)
}

/// The warning for a change set that is forced though parameters are missing.
pub open spec fn missing_warning(resolved: Seq<ParameterView>) -> Seq<char> {
    "WARNING: some required parameters ("@ + missing_names(resolved)
        + ") have not been supplied. The change set will be created since it was explicitly requested!"@
}

/// The error for parameters that are missing.
pub open spec fn missing_error(resolved: Seq<ParameterView>) -> ErrorView {
    ErrorView::InvalidParameters(
        "not all required parameters ("@ + missing_names(resolved) + ") were provided"@,
    )
}

/// Decide on the parameters of the change set that creates a stack.
///
/// The parameters of the template take the values that the user provided,
/// and the parameter for the deployment metadata is set to the document given,
/// unless the metadata are to be left as they are.
/// Every parameter has to have a value then, by the user or by the default of
/// the template: if one has none, the command fails, or goes on with a warning
/// where the user forces it.
pub fn create_stack(
    template_parameters: &Parameters,
    file_parameters: Option<Parameters>,
    parameters: &Vec<Parameter>,
    configuration: &Configuration,
    metadata_document: Option<String>,
    force_create: bool,
) -> (res: Result<Resolution, Error>)
    ensures
        ({
            let resolved = resolved_parameters(
                template_parameters@,
                collection_of(file_parameters),
                views(parameters@),
                metadata_parameter(
                    configuration.deployment_metadata_parameter@,
                    configuration.dont_update_deployment_metadata,
                    match metadata_document {
                        Some(document) => Some(document@),
                        None => None,
                    },
                ),
            );
            let passed = resolved.filter(has_no_value()).len() == 0;
            match res {
                Ok(resolution) => (passed || force_create) && resolution.parameters@ == resolved
                    && warning_text(resolution.warning) == if passed {
                    None
                } else {
                    Some(missing_warning(resolved))
                },
                Err(error) => !passed && !force_create && error@ == missing_error(resolved),
            }
        }),
{
    let mut resolved = template_parameters.clone();
    // Take the values that the user provided.
    if let Some(file) = file_parameters {
        resolved.update(file.with_values_only());
    }
    resolved.update(parameters);
    // Set the deployment metadata.
    if let Some(document) = metadata_document {
        if wants_metadata(configuration) {
            resolved.insert(
                Parameter::WithValue {
                    key: configuration.deployment_metadata_parameter.clone(),
                    value: document,
                },
            );
        }
    }
    // The user has to provide all parameters required by the template.

    let missing = resolved.keys_without_value();
    let passed = missing.len() == 0;
    let names = join(&missing, ", ");
    let error = Error::InvalidParameters(
        enclose("not all required parameters (", names.as_str(), ") were provided"),
    );
    let warning = enclose(
        "WARNING: some required parameters (",
        names.as_str(),
        ") have not been supplied. The change set will be created since it was explicitly requested!",
    );
    match checked_or_warn(passed, force_create, error, warning) {
        Ok(warning) => Ok(Resolution { parameters: resolved, warning }),
        Err(error) => Err(error),
    }
}

/// What the command says when the change set was submitted.
pub fn started(change_set_name: &str, stack_name: &str) -> (res: String)
    ensures
        res@ == "Change set "@ + change_set_name@ + " creation for new stack "@ + stack_name@
            + " started successfully"@,
{
    let mut message = enclose("Change set ", change_set_name, " creation for new stack ");
    message.append(stack_name);
    message.append(" started successfully");
    message
}

} // verus!
