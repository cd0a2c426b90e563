use awsx::change_set::{ChangeSetType, TemplateSource};
use awsx::error::Error;
use awsx::parameter::{CfnParameter, Parameter, Parameters};
use awsx::stack::{DescribedStack, Stack};

fn entry(
    key: Option<&str>,
    value: Option<&str>,
    resolved: Option<&str>,
    previous: Option<bool>,
) -> CfnParameter {
    CfnParameter {
        parameter_key: key.map(str::to_owned),
        parameter_value: value.map(str::to_owned),
        resolved_value: resolved.map(str::to_owned),
        use_previous_value: previous,
    }
}

fn described() -> Option<Vec<DescribedStack>> {
    Some(vec![
        DescribedStack {
            parameters: Some(vec![
                entry(Some("Name"), Some("web"), None, None),
                entry(Some("Secret"), None, None, Some(true)),
                entry(Some("Resolved"), None, Some("resolved"), None),
                entry(None, Some("no key"), None, None),
                entry(Some("Size"), Some("large"), None, Some(false)),
            ]),
        },
        DescribedStack {
            parameters: Some(vec![entry(Some("Other"), Some("stack"), None, None)]),
        },
    ])
}

fn values_of(parameters: &Parameters) -> Vec<Parameter> {
    parameters.values().into_iter().cloned().collect()
}

#[test]
fn stack_has_its_name() {
    let stack = Stack::new("my-stack");
    assert_eq!(stack.name(), "my-stack");
    assert_eq!(stack, Stack::new("my-stack"));
    assert_ne!(stack, Stack::new("other-stack"));
    assert_eq!(stack.clone(), stack);
}

#[test]
fn parameters_of_the_first_stack_described() {
    let stack = Stack::new("my-stack");
    let parameters = stack.get_parameters(described()).unwrap();
    assert_eq!(
        values_of(&parameters),
        vec![
            Parameter::WithValue {
                key: "Name".to_owned(),
                value: "web".to_owned(),
            },
            Parameter::PreviousValue {
                key: "Secret".to_owned(),
            },
            Parameter::WithValue {
                key: "Size".to_owned(),
                value: "large".to_owned(),
            },
        ]
    );
}

#[test]
fn parameters_as_previous_values() {
    let stack = Stack::new("my-stack");
    let parameters = stack.get_parameters_as_previous_value(described()).unwrap();
    assert_eq!(
        values_of(&parameters),
        vec![
            Parameter::PreviousValue {
                key: "Name".to_owned(),
            },
            Parameter::PreviousValue {
                key: "Secret".to_owned(),
            },
            Parameter::PreviousValue {
                key: "Size".to_owned(),
            },
        ]
    );
}

#[test]
fn single_parameter_of_the_stack() {
    let stack = Stack::new("my-stack");
    assert_eq!(
        stack.get_parameter(described(), "Size").unwrap(),
        Some(Parameter::WithValue {
            key: "Size".to_owned(),
            value: "large".to_owned(),
        })
    );
    assert_eq!(stack.get_parameter(described(), "Other").unwrap(), None);
    assert_eq!(stack.get_parameter(described(), "Resolved").unwrap(), None);
}

#[test]
fn stack_without_parameters() {
    let stack = Stack::new("my-stack");
    let parameters = stack
        .get_parameters(Some(vec![DescribedStack { parameters: None }]))
        .unwrap();
    assert!(parameters.is_empty());
}

#[test]
fn stack_that_is_not_described_is_invalid() {
    let stack = Stack::new("my-stack");
    match stack.get_parameters(None) {
        Err(Error::InvalidStack(name)) => assert_eq!(name, "my-stack"),
        other => panic!("unexpected result: {:?}", other),
    }
    match stack.get_parameters(Some(vec![])) {
        Err(Error::InvalidStack(name)) => assert_eq!(name, "my-stack"),
        other => panic!("unexpected result: {:?}", other),
    }
    assert!(matches!(
        stack.get_parameter(None, "Size"),
        Err(Error::InvalidStack(_))
    ));
    assert!(matches!(
        stack.get_parameters_as_previous_value(Some(vec![])),
        Err(Error::InvalidStack(_))
    ));
}

#[test]
fn change_set_of_a_stack_keeps_the_template() {
    let stack = Stack::new("my-stack");
    let parameters = Parameters::new(vec![
        Parameter::WithValue {
            key: "Name".to_owned(),
            value: "web".to_owned(),
        },
        Parameter::PreviousValue {
            key: "Secret".to_owned(),
        },
    ]);
    let request = stack.create_change_set("my-change", Some("arn:role"), &parameters);
    assert_eq!(request.stack_name, "my-stack");
    assert_eq!(request.change_set_name, "my-change");
    assert_eq!(
        request.capabilities,
        vec![
            "CAPABILITY_IAM",
            "CAPABILITY_NAMED_IAM",
            "CAPABILITY_AUTO_EXPAND"
        ]
    );
    assert_eq!(request.change_set_type, ChangeSetType::Update);
    assert_eq!(request.role_arn.as_deref(), Some("arn:role"));
    assert!(matches!(request.template, TemplateSource::Previous));
    assert_eq!(request.parameters.len(), 2);
    assert_eq!(request.parameters[0].parameter_key.as_deref(), Some("Name"));
    assert_eq!(request.parameters[0].parameter_value.as_deref(), Some("web"));
    assert_eq!(
        request.parameters[1].parameter_key.as_deref(),
        Some("Secret")
    );
    assert_eq!(request.parameters[1].use_previous_value, Some(true));

    let without_role = stack.create_change_set("my-change", None, &parameters);
    assert_eq!(without_role.role_arn, None);
}
