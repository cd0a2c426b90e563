//! Update specified parameters on an existing stack: which parameters the
//! change set gets.

use vstd::prelude::*;

use crate::algebra::{collect, updated};
use crate::command::update_deployed_template::collection_of;
use crate::command::{Configuration, Report, ReportView};
use crate::error::Error;
use crate::filter::{apply_excludes_includes, filter_refused, passing, patterns_given};
use crate::parameter::{Parameter, ParameterView, Parameters};
use crate::parameters::{has_value, views};
use crate::text::enclose;

verus! {

/// The parameters of the stack with the values that override them: those of
/// the parameter file, as far as its parameters have a value and pass the
/// patterns, and then those of the command line, which the patterns do not
/// touch. A parameter that the stack does not have overrides nothing.
pub open spec fn overridden(
    stack_parameters: Seq<ParameterView>,
    file_parameters: Option<Seq<ParameterView>>,
    parameter_overrides: Seq<ParameterView>,
    excludes: Option<Seq<Seq<char>>>,
    includes: Option<Seq<Seq<char>>>,
) -> Seq<ParameterView> {
    let from_file = match file_parameters {
        Some(file) => updated(
            stack_parameters,
            file.filter(has_value()).filter(passing(excludes, includes)),
        ),
        None => stack_parameters,
    };
    updated(from_file, collect(parameter_overrides))
}

/// Decide on the parameters of the change set that overrides parameters of a
/// stack.
///
/// `stack_parameters` are the parameters of the stack, each keeping its
/// previous value. The result is nothing where there is no parameter at all,
/// in which case no change set is made. Patterns that the regex compiler
/// refuses are invalid parameters, where a file was read.
pub fn override_parameters(
    stack_parameters: Parameters,
    file_parameters: Option<Parameters>,
    parameter_overrides: &Vec<Parameter>,
    excludes: &[String],
    includes: &[String],
) -> (res: Result<Option<Parameters>, Error>)
    ensures
        res is Err <==> file_parameters is Some && filter_refused(excludes@, includes@),
        ({
            let parameters = overridden(
                stack_parameters@,
                collection_of(file_parameters),
                views(parameter_overrides@),
                patterns_given(excludes@),
                patterns_given(includes@),
            );
            match res {
                Ok(Some(resolved)) => resolved@ == parameters && parameters.len() > 0,
                Ok(None) => parameters.len() == 0,
                Err(error) => error is InvalidParameters,
            }
        }),
{
    let mut parameters = stack_parameters;
    // Override the parameters as the file says, then as the command line says.
    if let Some(file) = file_parameters {
        match apply_excludes_includes(file.with_values_only(), excludes, includes) {
            Ok(selected) => {
                parameters.update(selected);
            },
            Err(error) => {
                return Err(error);
            },
        }
    }
    parameters.update(parameter_overrides);
    if parameters.is_empty() {
        Ok(None)
    } else {
        Ok(Some(parameters))
    }
}

/// What to do about the deployment metadata of a change set.
#[derive(Debug)]
pub enum MetadataStep {
    /// The metadata stay as they are: the user asked for that.
    Keep,
    /// The metadata cannot be set, since the stack has no parameter for them.
    /// The user is warned.
    Missing(String),
    /// The metadata are made anew from those that the stack has, and set.
    Refresh(Parameter),
}

/// The warning for a stack without the parameter for the metadata.
pub open spec fn missing_metadata_warning(metadata_parameter: Seq<char>) -> Seq<char> {
    "WARNING: an update to the deployment-metadata parameter '"@ + metadata_parameter
        + "' was requested, but the stack does not have this parameter. The change-set will be created, although without any metadata."@
}

/// Decide what to do about the deployment metadata: nothing where the user
/// does not want them touched; else they are made anew if the stack has the
/// parameter for them, and the user is warned if not.
pub fn metadata_step(
    configuration: &Configuration,
    previous_metadata_parameter: Option<Parameter>,
) -> (res: MetadataStep)
    ensures
        match res {
            MetadataStep::Keep => configuration.dont_update_deployment_metadata,
            MetadataStep::Missing(warning) => !configuration.dont_update_deployment_metadata
                && previous_metadata_parameter is None && warning@ == missing_metadata_warning(
                configuration.deployment_metadata_parameter@,
            ),
            MetadataStep::Refresh(previous) => !configuration.dont_update_deployment_metadata
                && previous_metadata_parameter == Some(previous),
        },
{
    if configuration.dont_update_deployment_metadata {
        MetadataStep::Keep
    } else {
        match previous_metadata_parameter {
            Some(previous) => MetadataStep::Refresh(previous),
            None => MetadataStep::Missing(
                enclose(
                    "WARNING: an update to the deployment-metadata parameter '",
                    configuration.deployment_metadata_parameter.as_str(),
                    "' was requested, but the stack does not have this parameter. The change-set will be created, although without any metadata.",
                ),
            ),
        }
    }
}

/// What the command reports where there is no parameter at all.
pub open spec fn nothing_to_do() -> ReportView {
    ReportView {
        message: "No parameters specified (or all filtered), no change set created"@,
        successful: false,
    }
}

/// What the command reports: that the creation of the change set started
/// where a change set was submitted, and that there was nothing to do else.
pub fn report(change_set_name: Option<&str>) -> (res: Report)
    ensures
        res@ == match change_set_name {
            Some(name) => ReportView {
                message: "Change set "@ + name@ + " creation started successfully"@,
                successful: true,
            },
            None => nothing_to_do(),
        },
{
    match change_set_name {
        Some(name) => Report {
            message: enclose("Change set ", name, " creation started successfully"),
            successful: true,
        },
        None => Report {
            message: "No parameters specified (or all filtered), no change set created".to_owned(),
            successful: false,
        },
    }
}

} // verus!
