//! Type-safe handling of single stack and template parameters.

use vstd::prelude::*;
use vstd::std_specs::cmp::PartialEqSpecImpl;
use vstd::std_specs::convert::FromSpecImpl;

use crate::error::{Error, ErrorView};
pub use crate::parameters::{IntoParameters, Parameters, ParametersDifference};
use crate::text::{find_char, first_index_of, option_text, substring};

verus! {

/// Represents a CloudFormation stack or template parameter.
///
/// A parameter either has a value (`WithValue`), or it keeps whatever value is
/// currently active on the stack (`PreviousValue`).
#[derive(Debug)]
pub enum Parameter {
    /// Identifies a parameter with a value specified.
    WithValue {
        /// Key of the CloudFormation stack or template parameter.
        key: String,
        /// Value of the CloudFormation stack or template parameter.
        value: String,
    },
    /// A parameter where the previous, pre-existing value on the stack should be retained.
    PreviousValue {
        /// Key of the CloudFormation stack or template parameter.
        key: String,
    },
}

/// The mathematical value of a [`Parameter`]: its variant, with each string as
/// the sequence of its characters.
pub enum ParameterView {
    /// A parameter with a value.
    WithValue { key: Seq<char>, value: Seq<char> },
    /// A parameter that keeps the previous value.
    PreviousValue { key: Seq<char> },
}

impl ParameterView {
    /// The key, which both variants have.
    pub open spec fn key(self) -> Seq<char> {
        match self {
            ParameterView::WithValue { key, .. } => key,
            ParameterView::PreviousValue { key } => key,
        }
    }

    /// Whether this is the `PreviousValue` variant.
    pub open spec fn is_previous_value(self) -> bool {
        self is PreviousValue
    }

    /// The same key, without a value.
    pub open spec fn into_previous_value(self) -> ParameterView {
        ParameterView::PreviousValue { key: self.key() }
    }

    /// A `PreviousValue` takes the default as its value, a `WithValue` stays as it is.
    pub open spec fn with_default_value(self, default: Seq<char>) -> ParameterView {
        match self {
            ParameterView::WithValue { .. } => self,
            ParameterView::PreviousValue { key } => ParameterView::WithValue { key, value: default },
        }
    }

    /// Loose equality of `self` with `other`: `other` keeps the previous value,
    /// which stands for any value, or the two are identical.
    pub open spec fn loosely_equals(self, other: ParameterView) -> bool {
        other.is_previous_value() || self == other
    }
}

impl View for Parameter {
    type V = ParameterView;

    open spec fn view(&self) -> ParameterView {
        match self {
            Parameter::WithValue { key, value } => ParameterView::WithValue {
                key: key@,
                value: value@,
            },
            Parameter::PreviousValue { key } => ParameterView::PreviousValue { key: key@ },
        }
    }
}

/// A parameter in the shape that the CloudFormation API and the parameter files
/// of the AWS CLI use: every field is optional.
#[derive(Debug)]
pub struct CfnParameter {
    /// The key associated with the parameter.
    pub parameter_key: Option<String>,
    /// The input value associated with the parameter.
    pub parameter_value: Option<String>,
    /// The value that corresponds to a Systems Manager parameter key.
    pub resolved_value: Option<String>,
    /// During a stack update, use the existing parameter value of the stack.
    pub use_previous_value: Option<bool>,
}

/// The mathematical value of a [`CfnParameter`].
pub struct CfnParameterView {
    pub parameter_key: Option<Seq<char>>,
    pub parameter_value: Option<Seq<char>>,
    pub resolved_value: Option<Seq<char>>,
    pub use_previous_value: Option<bool>,
}

impl View for CfnParameter {
    type V = CfnParameterView;

    open spec fn view(&self) -> CfnParameterView {
        CfnParameterView {
            parameter_key: option_text(self.parameter_key),
            parameter_value: option_text(self.parameter_value),
            resolved_value: option_text(self.resolved_value),
            use_previous_value: self.use_previous_value,
        }
    }
}

impl CfnParameterView {
    /// The parameter that an entry of a stack description stands for, if any:
    /// a key with the request to use the previous value, or else a key with a
    /// value. An entry with neither is not supported.
    pub open spec fn to_parameter(self) -> Option<ParameterView> {
        if self.parameter_key is Some && self.use_previous_value == Some(true) {
            Some(ParameterView::PreviousValue { key: self.parameter_key->0 })
        } else if self.parameter_key is Some && self.parameter_value is Some {
            Some(
                ParameterView::WithValue {
                    key: self.parameter_key->0,
                    value: self.parameter_value->0,
                },
            )
        } else {
            None
        }
    }

    /// The parameter that an entry of a parameter file stands for, if any: a
    /// key with a value, or else a key alone, which keeps the previous value
    /// whatever the other fields hold.
    pub open spec fn to_file_parameter(self) -> Option<ParameterView> {
        if self.parameter_key is Some && self.parameter_value is Some {
            Some(
                ParameterView::WithValue {
                    key: self.parameter_key->0,
                    value: self.parameter_value->0,
                },
            )
        } else if self.parameter_key is Some {
            Some(ParameterView::PreviousValue { key: self.parameter_key->0 })
        } else {
            None
        }
    }

    /// The key as a parameter that keeps the previous value, if there is a key.
    pub open spec fn to_previous_value(self) -> Option<ParameterView> {
        match self.parameter_key {
            Some(key) => Some(ParameterView::PreviousValue { key }),
            None => None,
        }
    }
}

impl ParameterView {
    /// The API shape of a parameter: the key with its value, or the key with
    /// the request to use the previous value.
    pub open spec fn to_cfn(self) -> CfnParameterView {
        match self {
            ParameterView::WithValue { key, value } => CfnParameterView {
                parameter_key: Some(key),
                parameter_value: Some(value),
                resolved_value: None,
                use_previous_value: None,
            },
            ParameterView::PreviousValue { key } => CfnParameterView {
                parameter_key: Some(key),
                parameter_value: None,
                resolved_value: None,
                use_previous_value: Some(true),
            },
        }
    }
}

impl Default for CfnParameter {
    fn default() -> (res: CfnParameter)
        ensures
            res.parameter_key is None,
            res.parameter_value is None,
            res.resolved_value is None,
            res.use_previous_value is None,
    {
        CfnParameter {
            parameter_key: None,
            parameter_value: None,
            resolved_value: None,
            use_previous_value: None,
        }
    }
}

impl Clone for CfnParameter {
    fn clone(&self) -> (res: CfnParameter)
        ensures
            res == *self,
    {
        CfnParameter {
            parameter_key: clone_option_string(&self.parameter_key),
            parameter_value: clone_option_string(&self.parameter_value),
            resolved_value: clone_option_string(&self.resolved_value),
            use_previous_value: self.use_previous_value,
        }
    }
}

/// A copy of an optional string.
pub fn clone_option_string(o: &Option<String>) -> (res: Option<String>)
    ensures
        res == *o,
{
    match o {
        Some(s) => Some(s.clone()),
        None => None,
    }
}

/// What a parameter given as text must look like.
pub open spec fn key_value_form() -> Seq<char> {
    "Parameter needs to be provided in the form `Key=Value`"@
}

/// The error for a text that is no parameter: the parameter is invalid.
pub open spec fn malformed() -> ErrorView {
    ErrorView::InvalidParameters(key_value_form())
}

/// The parameter that a text of the form `Key=Value` stands for: the key is
/// what precedes the first `=`, the value all that follows it. A text without
/// `=` stands for none.
pub open spec fn parse_key_value(s: Seq<char>) -> Option<ParameterView> {
    if s.contains('=') {
        Some(
            ParameterView::WithValue {
                key: s.subrange(0, first_index_of(s, '=')),
                value: s.subrange(first_index_of(s, '=') + 1, s.len() as int),
            },
        )
    } else {
        None
    }
}

impl Parameter {
    /// Create a parameter of the `PreviousValue` variant.
    pub fn previous_value(key: String) -> (res: Self)
        ensures
            res == (Parameter::PreviousValue { key }),
    {
        Parameter::PreviousValue { key }
    }

    /// Check if a parameter is defined to use the previous value.
    pub fn is_previous_value(&self) -> (res: bool)
        ensures
            res == self@.is_previous_value(),
    {
        matches!(self, Parameter::PreviousValue { .. })
    }

    /// Convert a parameter in the shape of the CloudFormation API into a
    /// `Parameter`.
    ///
    /// This conversion can fail: an entry that has only a resolved value, or
    /// that has no value and does not ask for the previous value, is not
    /// supported, and neither is an entry without a key.
    pub fn from(cfn_parameter: &CfnParameter) -> (res: Option<Self>)
        ensures
            option_view(res) == cfn_parameter@.to_parameter(),
    {
        match &cfn_parameter.parameter_key {
            Some(key) => {
                if let Some(true) = cfn_parameter.use_previous_value {
                    Some(Parameter::PreviousValue { key: key.clone() })
                } else {
                    match &cfn_parameter.parameter_value {
                        Some(value) => Some(
                            Parameter::WithValue { key: key.clone(), value: value.clone() },
                        ),
                        None => None,
                    }
                }
            },
            None => None,
        }
    }

    /// Convert a parameter in the shape of the CloudFormation API into the
    /// `PreviousValue` variant. This fails only if the entry has no key.
    pub fn from_as_previous_value(cfn_parameter: &CfnParameter) -> (res: Option<Self>)
        ensures
            option_view(res) == cfn_parameter@.to_previous_value(),
    {
        match &cfn_parameter.parameter_key {
            Some(key) => Some(Parameter::previous_value(key.clone())),
            None => None,
        }
    }

    /// Convert an entry of a parameter file into a `Parameter`: an entry with
    /// a key and a value has that value, any other entry with a key keeps the
    /// previous value. This fails only if the entry has no key.
    pub fn from_file_entry(entry: &CfnParameter) -> (res: Option<Self>)
        ensures
            option_view(res) == entry@.to_file_parameter(),
    {
        match &entry.parameter_key {
            Some(key) => match &entry.parameter_value {
                Some(value) => Some(Parameter::WithValue { key: key.clone(), value: value.clone() }),
                None => Some(Parameter::PreviousValue { key: key.clone() }),
            },
            None => None,
        }
    }

    /// Convert a parameter of any type into the `PreviousValue` variant.
    pub fn into_previous_value(self) -> (res: Self)
        ensures
            res@ == self@.into_previous_value(),
    {
        Parameter::PreviousValue {
            key: match self {
                Parameter::WithValue { key, .. } => key,
                Parameter::PreviousValue { key } => key,
            },
        }
    }

    /// Applies a default value to the current parameter, i.e. it turns a
    /// `PreviousValue` variant into a `WithValue` variant with the provided
    /// default value, but it keeps an existing `WithValue` unchanged. This
    /// method returns a new parameter.
    pub fn with_default_value(&self, default: String) -> (res: Self)
        ensures
            res@ == self@.with_default_value(default@),
    {
        let mut new = self.clone();
        new.set_default_value(default);
        new
    }

    /// Applies a default value to the current parameter, i.e. it turns a
    /// `PreviousValue` variant into a `WithValue` variant with the provided
    /// default value, but it keeps an existing `WithValue` unchanged. This
    /// method changes the existing parameter in-place.
    pub fn set_default_value(&mut self, default: String)
        ensures
            final(self)@ == old(self)@.with_default_value(default@),
    {
        let key = match self {
            Parameter::WithValue { .. } => None,
            Parameter::PreviousValue { key } => Some(key.clone()),
        };
        if let Some(key) = key {
            *self = Parameter::WithValue { key, value: default };
        }
    }

    /// Return a reference to the parameters key, which all variants have.
    pub fn key(&self) -> (res: &str)
        ensures
            res@ == self@.key(),
    {
        match self {
            Parameter::WithValue { key, .. } => key.as_str(),
            Parameter::PreviousValue { key } => key.as_str(),
        }
    }

    /// Return the value of the parameter, if it has one.
    pub fn value(&self) -> (res: Option<&str>)
        ensures
            match res {
                Some(value) => self@ matches ParameterView::WithValue { value: v, .. } && value@ == v,
                None => self@.is_previous_value(),
            },
    {
        match self {
            Parameter::WithValue { value, .. } => Some(value.as_str()),
            Parameter::PreviousValue { .. } => None,
        }
    }

    /// Read a parameter given as `Key=Value`. Only the first `=` splits: the
    /// value may hold further ones. A text without `=` is an invalid parameter.
    pub fn parse(s: &str) -> (res: Result<Self, Error>)
        ensures
            match res {
                Ok(parameter) => parse_key_value(s@) == Some(parameter@),
                Err(error) => parse_key_value(s@) is None && error@ == malformed(),
            },
    {
        match find_char(s, '=') {
            Some(at) => {
                let len = s.unicode_len();
                let key = substring(s, 0, at);
                let value = substring(s, at + 1, len);
                Ok(Parameter::WithValue { key, value })
            },
            None => Err(
                Error::InvalidParameters(
                    "Parameter needs to be provided in the form `Key=Value`".to_owned(),
                ),
            ),
        }
    }
}

/// The mathematical value of an optional parameter.
pub open spec fn option_view(o: Option<Parameter>) -> Option<ParameterView> {
    match o {
        Some(p) => Some(p@),
        None => None,
    }
}

impl Clone for Parameter {
    fn clone(&self) -> (res: Self)
        ensures
            res == *self,
    {
        match self {
            Parameter::WithValue { key, value } => Parameter::WithValue {
                key: key.clone(),
                value: value.clone(),
            },
            Parameter::PreviousValue { key } => Parameter::PreviousValue { key: key.clone() },
        }
    }
}

impl PartialEq for Parameter {
    fn eq(&self, other: &Self) -> (res: bool) {
        match self {
            Parameter::WithValue { key, value } => match other {
                Parameter::WithValue { key: other_key, value: other_value } => {
                    let same_key = *key == *other_key;
                    let same_value = *value == *other_value;
                    same_key && same_value
                },
                Parameter::PreviousValue { .. } => false,
            },
            Parameter::PreviousValue { key } => match other {
                Parameter::WithValue { .. } => false,
                Parameter::PreviousValue { key: other_key } => *key == *other_key,
            },
        }
    }
}

impl PartialEqSpecImpl for Parameter {
    open spec fn obeys_eq_spec() -> bool {
        true
    }

    open spec fn eq_spec(&self, other: &Self) -> bool {
        self@ == other@
    }
}

impl Eq for Parameter {

}

impl std::str::FromStr for Parameter {
    type Err = Error;

    fn from_str(s: &str) -> (res: Result<Self, Error>)
        ensures
            match res {
                Ok(parameter) => parse_key_value(s@) == Some(parameter@),
                Err(error) => parse_key_value(s@) is None && error@ == malformed(),
            },
    {
        Parameter::parse(s)
    }
}

impl From<&Parameter> for CfnParameter {
    fn from(parameter: &Parameter) -> (res: CfnParameter)
        ensures
            res@ == parameter@.to_cfn(),
    {
        match parameter {
            Parameter::WithValue { key, value } => CfnParameter {
                parameter_key: Some(key.clone()),
                parameter_value: Some(value.clone()),
                resolved_value: None,
                use_previous_value: None,
            },
            Parameter::PreviousValue { key } => CfnParameter {
                parameter_key: Some(key.clone()),
                parameter_value: None,
                resolved_value: None,
                use_previous_value: Some(true),
            },
        }
    }
}

impl FromSpecImpl<&Parameter> for CfnParameter {
    open spec fn obeys_from_spec() -> bool {
        true
    }

    open spec fn from_spec(parameter: &Parameter) -> CfnParameter {
        match parameter {
            Parameter::WithValue { key, value } => CfnParameter {
                parameter_key: Some(*key),
                parameter_value: Some(*value),
                resolved_value: None,
                use_previous_value: None,
            },
            Parameter::PreviousValue { key } => CfnParameter {
                parameter_key: Some(*key),
                parameter_value: None,
                resolved_value: None,
                use_previous_value: Some(true),
            },
        }
    }
}

} // verus!
