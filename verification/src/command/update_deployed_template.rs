//! Update an existing stack with a new template: which parameters the change
//! set gets.
//!
//! The parameters that the stack has keep their values. The parameters that
//! the template adds have to be provided, exactly those, unless the user
//! forces the change set.

use vstd::prelude::*;

use crate::algebra::{
    as_previous_values, has_key, key_set, keys, put, subtracted, unique_keys, updated,
    with_defaults,
};
use crate::command::identify_new_parameters::identify_new_parameters;
use crate::command::{checked_or_warn, warning_text, Configuration};
use crate::error::{Error, ErrorView};
use crate::filter::{apply_excludes_includes, filter_refused, passing, patterns_given};
use crate::parameter::{Parameter, ParameterView, Parameters};
use crate::parameters::{has_value, key_in, views};
use crate::text::{enclose, join, joined};

verus! {

/// The parameters that the template adds: those that the template declares
/// and the stack does not have, each without a value, in the order of the
/// template.
pub open spec fn added_parameters(
    template_parameters: Seq<ParameterView>,
    stack_parameters: Seq<ParameterView>,
) -> Seq<ParameterView> {
    subtracted(as_previous_values(template_parameters), stack_parameters)
}

/// The mathematical value of an optional collection.
pub open spec fn collection_of(parameters: Option<Parameters>) -> Option<Seq<ParameterView>> {
    match parameters {
        Some(parameters) => Some(parameters@),
        None => None,
    }
}

/// The parameters that the user provided.
///
/// Where a parameter file was read, they are the parameters of the file that
/// have a value, as far as the exclude and include patterns let them pass;
/// the parameters of the command line do not count then. Without a file they
/// are the parameters of the command line. Patterns that the regex compiler
/// refuses are invalid parameters, where a file was read.
pub fn provided_parameters(
    file_parameters: Option<Parameters>,
    parameters: &Vec<Parameter>,
    excludes: &[String],
    includes: &[String],
) -> (res: Result<Parameters, Error>)
    ensures
        res is Err <==> file_parameters is Some && filter_refused(excludes@, includes@),
        match res {
            Ok(provided) => unique_keys(provided@) && provided@ == match file_parameters {
                Some(file) => file@.filter(has_value()).filter(
                    passing(patterns_given(excludes@), patterns_given(includes@)),
                ),
                None => crate::algebra::collect(views(parameters@)),
            },
            Err(error) => error is InvalidParameters,
        },
{
    match file_parameters {
        Some(file) => apply_excludes_includes(file.with_values_only(), excludes, includes),
        None => Ok(Parameters::new(parameters.clone())),
    }
}

/// The warning for a change set that is forced though the parameters provided
/// are not exactly the new ones.
pub open spec fn incomplete_warning(new_parameters: Seq<ParameterView>) -> Seq<char> {
    "WARNING: all newly required parameters ("@ + joined(keys(new_parameters), ", "@)
        + ") might not have been supplied, or some old or non-existent parameters were specified. The change set will be created since it was explicitly requested!"@
}

/// The error for parameters provided that are not exactly the new ones.
pub open spec fn incomplete_error(new_parameters: Seq<ParameterView>) -> ErrorView {
    ErrorView::InvalidParameters(
        "all newly required parameters have to be provided ("@ + joined(
            keys(new_parameters),
            ", "@,
        ) + "), and no old or non-existent parameters can be specified"@,
    )
}

/// The parameters provided, with the values of the defaults where they have
/// none, and without those that are not new where only new ones are wanted.
pub open spec fn effective_parameters(
    template_parameters: Seq<ParameterView>,
    stack_parameters: Seq<ParameterView>,
    provided: Seq<ParameterView>,
    defaults: Option<Seq<ParameterView>>,
    only_new_parameters: bool,
) -> Seq<ParameterView> {
    let with_file_defaults = match defaults {
        Some(defaults) => with_defaults(provided, defaults),
        None => provided,
    };
    let with_all_defaults = with_defaults(with_file_defaults, template_parameters);
    if only_new_parameters {
        with_all_defaults.filter(key_in(added_parameters(template_parameters, stack_parameters)))
    } else {
        with_all_defaults
    }
}

/// Whether the parameters provided are exactly the parameters that are new.
pub open spec fn complete(
    template_parameters: Seq<ParameterView>,
    stack_parameters: Seq<ParameterView>,
    effective: Seq<ParameterView>,
) -> bool {
    key_set(added_parameters(template_parameters, stack_parameters)) == key_set(effective)
}

/// The parameters of a change set, with the warning to show, if any.
#[derive(Debug)]
pub struct Resolution {
    /// The parameters of the change set.
    pub parameters: Parameters,
    /// The warning to show to the user.
    pub warning: Option<String>,
}

/// Decide on the parameters of the change set that updates a stack with a
/// new template.
///
/// `template_parameters` are the parameters as the template declares them,
/// each with its default value where the template gives one, and
/// `stack_parameters` those of the stack; `provided` are the parameters that
/// the user provided, and `defaults` those of the file of defaults, where one
/// was read.
///
/// The parameters provided take the values of the defaults where they have
/// none, first of the file of defaults and then of the template. Where only
/// new parameters are wanted, those that are not new are dropped. What is
/// left has to be exactly the new parameters: if it is not, the command fails,
/// or goes on with a warning where the user forces it. The change set gets the
/// parameters of the template, each keeping its previous value unless a
/// parameter is provided for its key, which then takes its place.
pub fn update_stack(
    template_parameters: &Parameters,
    stack_parameters: &Parameters,
    provided: Parameters,
    defaults: Option<Parameters>,
    only_new_parameters: bool,
    force_create: bool,
) -> (res: Result<Resolution, Error>)
    ensures
        ({
            let effective = effective_parameters(
                template_parameters@,
                stack_parameters@,
                provided@,
                collection_of(defaults),
                only_new_parameters,
            );
            let new = added_parameters(template_parameters@, stack_parameters@);
            let passed = complete(template_parameters@, stack_parameters@, effective);
            match res {
                Ok(resolution) => (passed || force_create) && resolution.parameters@ == updated(
                    as_previous_values(template_parameters@),
                    effective,
                ) && warning_text(resolution.warning) == if passed {
                    None
                } else {
                    Some(incomplete_warning(new))
                },
                Err(error) => !passed && !force_create && error@ == incomplete_error(new),
            }
        }),
{
    // Identify newly added parameters, which are parameters defined on the
    // template, but not on the stack. (Parameters that are defined on the
    // stack but not on the template are simply ignored, since they do not
    // need to be set and will be removed once the change set is deployed.)
    let base = template_parameters.as_previous_values();
    let new_parameters = identify_new_parameters(&base, stack_parameters);

    // Apply defaults if provided, then the defaults of the template.
    let mut provided = match defaults {
        Some(defaults) => provided.with_defaults(defaults),
        None => provided,
    };
    provided.apply_defaults(template_parameters);
    if only_new_parameters {
        provided = provided.restricted_to(&new_parameters);
    }
    // The user has to provide exactly the parameters that have been added.

    let passed = new_parameters.same_keys(&provided);
    let names = join(&new_parameters.keys(), ", ");
    let error = Error::InvalidParameters(
        enclose(
            "all newly required parameters have to be provided (",
            names.as_str(),
            "), and no old or non-existent parameters can be specified",
        ),
    );
    let warning = enclose(
        "WARNING: all newly required parameters (",
        names.as_str(),
        ") might not have been supplied, or some old or non-existent parameters were specified. The change set will be created since it was explicitly requested!",
    );
    match checked_or_warn(passed, force_create, error, warning) {
        Ok(warning) => {
            // Update the template parameters with the provided parameters.
            let parameters = base.updated(provided);
            Ok(Resolution { parameters, warning })
        },
        Err(error) => Err(error),
    }
}

/// What to do about the deployment metadata of a change set.
#[derive(Debug)]
pub enum MetadataStep {
    /// The metadata stay as they are: the user asked for that.
    Keep,
    /// The metadata cannot be set, since the parameters have no parameter for
    /// them. The user is warned.
    Missing(String),
    /// The metadata are made anew and set.
    Refresh,
}

/// The warning for a template without the parameter for the metadata.
pub open spec fn missing_metadata_warning(metadata_parameter: Seq<char>) -> Seq<char> {
    "WARNING: an update to the deployment-metadata parameter '"@ + metadata_parameter
        + "' was requested, but the template that should be deployed does not have this parameter. The change-set will be created, although without any metadata."@
}

/// Decide what to do about the deployment metadata: nothing where the user
/// does not want them touched; else they are made anew if the parameters of
/// the change set have the parameter for them, and the user is warned if not.
pub fn metadata_step(configuration: &Configuration, parameters: &Parameters) -> (res: MetadataStep)
    ensures
        match res {
            MetadataStep::Keep => configuration.dont_update_deployment_metadata,
            MetadataStep::Missing(warning) => !configuration.dont_update_deployment_metadata
                && !has_key(parameters@, configuration.deployment_metadata_parameter@) && warning@
                == missing_metadata_warning(configuration.deployment_metadata_parameter@),
            MetadataStep::Refresh => !configuration.dont_update_deployment_metadata && has_key(
                parameters@,
                configuration.deployment_metadata_parameter@,
            ),
        },
{
    if configuration.dont_update_deployment_metadata {
        MetadataStep::Keep
    } else if parameters.contains_key(configuration.deployment_metadata_parameter.as_str()) {
        MetadataStep::Refresh
    } else {
        MetadataStep::Missing(
            enclose(
                "WARNING: an update to the deployment-metadata parameter '",
                configuration.deployment_metadata_parameter.as_str(),
                "' was requested, but the template that should be deployed does not have this parameter. The change-set will be created, although without any metadata.",
            ),
        )
    }
}

/// The warning for a change set that is forced though it does not continue
/// what is deployed.
pub open spec fn not_descendant_warning() -> Seq<char> {
    "WARNING: the changes you are trying to deploy are not a direct descendant of the currently deployed changes. The created change-set might overwrite and thus destroy the previously deployed changes."@
}

/// The error for a template that does not continue what is deployed.
pub open spec fn not_descendant_error() -> ErrorView {
    ErrorView::InvalidTemplate(
        "the template provided is not a direct descendant of the currently deployed template, creating a changeset might overwrite previously deployed changes"@,
    )
}

/// Decide on the outcome of the check that the changes are compatible with
/// what is deployed: changes that are not compatible fail the command, or let
/// it go on with a warning where the user forces it.
pub fn deployable(changes_compatible: bool, force_create: bool) -> (res: Result<
    Option<String>,
    Error,
>)
    ensures
        match res {
            Ok(warning) => (changes_compatible || force_create) && warning_text(warning)
                == if changes_compatible {
                None
            } else {
                Some(not_descendant_warning())
            },
            Err(error) => !changes_compatible && !force_create && error@ == not_descendant_error(),
        },
{
    checked_or_warn(
        changes_compatible,
        force_create,
        Error::InvalidTemplate(
            "the template provided is not a direct descendant of the currently deployed template, creating a changeset might overwrite previously deployed changes".to_owned(),
        ),
        "WARNING: the changes you are trying to deploy are not a direct descendant of the currently deployed changes. The created change-set might overwrite and thus destroy the previously deployed changes.".to_owned(),
    )
}

/// Set the parameter for the deployment metadata to the document given.
pub fn set_metadata(parameters: &mut Parameters, configuration: &Configuration, document: String)
    ensures
        final(parameters)@ == put(
            old(parameters)@,
            ParameterView::WithValue {
                key: configuration.deployment_metadata_parameter@,
                value: document@,
            },
        ),
        unique_keys(final(parameters)@),
{
    parameters.insert(
        Parameter::WithValue {
            key: configuration.deployment_metadata_parameter.clone(),
            value: document,
        },
    );
}

/// What the command says when the change set was submitted.
pub fn started(change_set_name: &str) -> (res: String)
    ensures
        res@ == "Change set "@ + change_set_name@ + " creation started successfully"@,
{
    enclose("Change set ", change_set_name, " creation started successfully")
}

} // verus!
