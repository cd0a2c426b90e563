use awsx::error::Error;
use awsx::parameter::{CfnParameter, Parameter};

#[test]
fn parameter_previous_value() {
    let actual = Parameter::previous_value("MyKey".to_owned());
    let expected = Parameter::PreviousValue {
        key: "MyKey".to_owned(),
    };

    assert_eq!(actual, expected);
}

#[test]
fn parameter_is_previous_value() {
    let previous_value = Parameter::PreviousValue {
        key: "MyKey".to_owned(),
    };
    let with_value = Parameter::WithValue {
        key: "MyKey".to_owned(),
        value: "my value".to_owned(),
    };

    assert!(previous_value.is_previous_value());
    assert!(!with_value.is_previous_value());
}

#[test]
fn parameter_fromstr() {
    let with_space_actual = "MyKey=my value";
    let with_space_expected = Parameter::WithValue {
        key: "MyKey".to_owned(),
        value: "my value".to_owned(),
    };
    assert_eq!(with_space_expected, with_space_actual.parse().unwrap());

    let with_equals_actual = "MyKey=value=value";
    let with_equals_expected = Parameter::WithValue {
        key: "MyKey".to_owned(),
        value: "value=value".to_owned(),
    };
    assert_eq!(with_equals_expected, with_equals_actual.parse().unwrap());
}

#[test]
fn parameter_into_previous_value() {
    let with_value_actual = Parameter::WithValue {
        key: "MyKey".to_owned(),
        value: "my value".to_owned(),
    };
    let with_value_expected = Parameter::PreviousValue {
        key: "MyKey".to_owned(),
    };
    assert_eq!(with_value_expected, with_value_actual.into_previous_value());

    let previous_value_actual = Parameter::PreviousValue {
        key: "MyKey".to_owned(),
    };
    let previous_value_expected = Parameter::PreviousValue {
        key: "MyKey".to_owned(),
    };
    assert_eq!(
        previous_value_expected,
        previous_value_actual.into_previous_value()
    );
}

#[test]
fn parameter_key() {
    let with_value_actual = Parameter::WithValue {
        key: "MyKey".to_owned(),
        value: "my value".to_owned(),
    };
    let with_value_expected = "MyKey";
    assert_eq!(with_value_expected, with_value_actual.key());

    let previous_value_actual = Parameter::PreviousValue {
        key: "MyKey".to_owned(),
    };
    let previous_value_expected = "MyKey";
    assert_eq!(previous_value_expected, previous_value_actual.key());
}

#[test]
fn parameter_from_cfnparameter() {
    let with_value_actual = CfnParameter {
        parameter_key: Some("MyKey".to_owned()),
        parameter_value: Some("my value".to_owned()),
        ..Default::default()
    };
    let with_value_expected = Some(Parameter::WithValue {
        key: "MyKey".to_owned(),
        value: "my value".to_owned(),
    });
    assert_eq!(with_value_expected, Parameter::from(&with_value_actual));

    let previous_value_actual = CfnParameter {
        parameter_key: Some("MyKey".to_owned()),
        use_previous_value: Some(true),
        ..Default::default()
    };
    let previous_value_expected = Some(Parameter::PreviousValue {
        key: "MyKey".to_owned(),
    });
    assert_eq!(
        previous_value_expected,
        Parameter::from(&previous_value_actual)
    );

    let resolved_value_actual = CfnParameter {
        parameter_key: Some("MyKey".to_owned()),
        resolved_value: Some("resolved value".to_owned()),
        ..Default::default()
    };
    let resolved_value_expected = None;
    assert_eq!(
        resolved_value_expected,
        Parameter::from(&resolved_value_actual)
    );

    let no_key_actual = CfnParameter {
        parameter_key: None,
        ..Default::default()
    };
    let no_key_expected = None;
    assert_eq!(no_key_expected, Parameter::from(&no_key_actual));
}

#[test]
fn parameter_from_as_previous_value_cfnparameter() {
    let with_value_actual = CfnParameter {
        parameter_key: Some("MyKey".to_owned()),
        parameter_value: Some("my value".to_owned()),
        ..Default::default()
    };
    let with_value_expected = Some(Parameter::PreviousValue {
        key: "MyKey".to_owned(),
    });
    assert_eq!(
        with_value_expected,
        Parameter::from_as_previous_value(&with_value_actual)
    );

    let previous_value_actual = CfnParameter {
        parameter_key: Some("MyKey".to_owned()),
        use_previous_value: Some(true),
        ..Default::default()
    };
    let previous_value_expected = Some(Parameter::PreviousValue {
        key: "MyKey".to_owned(),
    });
    assert_eq!(
        previous_value_expected,
        Parameter::from_as_previous_value(&previous_value_actual)
    );

    let resolved_value_actual = CfnParameter {
        parameter_key: Some("MyKey".to_owned()),
        resolved_value: Some("resolved value".to_owned()),
        ..Default::default()
    };
    let resolved_value_expected = Some(Parameter::PreviousValue {
        key: "MyKey".to_owned(),
    });
    assert_eq!(
        resolved_value_expected,
        Parameter::from_as_previous_value(&resolved_value_actual)
    );

    let no_key_actual = CfnParameter {
        parameter_key: None,
        ..Default::default()
    };
    let no_key_expected = None;
    assert_eq!(
        no_key_expected,
        Parameter::from_as_previous_value(&no_key_actual)
    );
}

#[test]
fn parameter_parse_splits_at_first_equals_only() {
    let parsed = Parameter::parse("Key=value=with=equals").unwrap();
    assert_eq!(
        parsed,
        Parameter::WithValue {
            key: "Key".to_owned(),
            value: "value=with=equals".to_owned(),
        }
    );
}

#[test]
fn parameter_parse_edge_cases() {
    assert_eq!(
        Parameter::parse("Key=").unwrap(),
        Parameter::WithValue {
            key: "Key".to_owned(),
            value: String::new(),
        }
    );
    assert_eq!(
        Parameter::parse("=value").unwrap(),
        Parameter::WithValue {
            key: String::new(),
            value: "value".to_owned(),
        }
    );
    assert_eq!(
        Parameter::parse("=").unwrap(),
        Parameter::WithValue {
            key: String::new(),
            value: String::new(),
        }
    );
    // Characters of more than one byte are counted as one character each.
    assert_eq!(
        Parameter::parse("Schlüssel=Wert=ä").unwrap(),
        Parameter::WithValue {
            key: "Schlüssel".to_owned(),
            value: "Wert=ä".to_owned(),
        }
    );
}

#[test]
fn parameter_parse_refuses_text_without_equals() {
    for text in ["KeyOnly", ""] {
        match Parameter::parse(text) {
            Err(Error::InvalidParameters(message)) => assert_eq!(
                message,
                "Parameter needs to be provided in the form `Key=Value`"
            ),
            other => panic!("unexpected result: {:?}", other),
        }
    }
    assert!(matches!(
        "KeyOnly".parse::<Parameter>(),
        Err(Error::InvalidParameters(_))
    ));
}

#[test]
fn parameter_with_default_value() {
    let with_value = Parameter::WithValue {
        key: "MyParameter".to_owned(),
        value: "Existing value".to_owned(),
    };
    let previous_value = Parameter::PreviousValue {
        key: "MyParameter".to_owned(),
    };
    assert_eq!(
        with_value,
        with_value.with_default_value("new value".to_owned()),
    );
    assert_eq!(
        Parameter::WithValue {
            key: "MyParameter".to_owned(),
            value: "new value".to_owned(),
        },
        previous_value.with_default_value("new value".to_owned()),
    );
}

#[test]
fn parameter_set_default_value() {
    let mut with_value = Parameter::WithValue {
        key: "MyParameter".to_owned(),
        value: "Existing value".to_owned(),
    };
    with_value.set_default_value("new value".to_owned());
    assert_eq!(with_value.value(), Some("Existing value"));

    let mut previous_value = Parameter::PreviousValue {
        key: "MyParameter".to_owned(),
    };
    assert_eq!(previous_value.value(), None);
    previous_value.set_default_value("new value".to_owned());
    assert_eq!(previous_value.value(), Some("new value"));
    assert_eq!(previous_value.key(), "MyParameter");
}

#[test]
fn parameter_equality_is_structural() {
    let with_value = Parameter::WithValue {
        key: "MyKey".to_owned(),
        value: "my value".to_owned(),
    };
    let other_value = Parameter::WithValue {
        key: "MyKey".to_owned(),
        value: "other value".to_owned(),
    };
    let previous_value = Parameter::PreviousValue {
        key: "MyKey".to_owned(),
    };
    let other_key = Parameter::PreviousValue {
        key: "OtherKey".to_owned(),
    };
    assert_eq!(with_value, with_value.clone());
    assert_ne!(with_value, other_value);
    assert_ne!(with_value, previous_value);
    assert_ne!(previous_value, with_value);
    assert_ne!(previous_value, other_key);
}

#[test]
fn parameter_from_file_entry() {
    let with_value = CfnParameter {
        parameter_key: Some("MyKey".to_owned()),
        parameter_value: Some("my value".to_owned()),
        ..Default::default()
    };
    assert_eq!(
        Parameter::from_file_entry(&with_value),
        Some(Parameter::WithValue {
            key: "MyKey".to_owned(),
            value: "my value".to_owned(),
        })
    );

    let previous_value = CfnParameter {
        parameter_key: Some("MyKey".to_owned()),
        use_previous_value: Some(true),
        ..Default::default()
    };
    assert_eq!(
        Parameter::from_file_entry(&previous_value),
        Some(Parameter::PreviousValue {
            key: "MyKey".to_owned(),
        })
    );

    // An entry with a resolved value only keeps the previous value.
    let resolved_value = CfnParameter {
        parameter_key: Some("MyKey".to_owned()),
        resolved_value: Some("ResolvedValue".to_owned()),
        ..Default::default()
    };
    assert_eq!(
        Parameter::from_file_entry(&resolved_value),
        Some(Parameter::PreviousValue {
            key: "MyKey".to_owned(),
        })
    );

    let no_key = CfnParameter {
        parameter_value: Some("MissingKey".to_owned()),
        ..Default::default()
    };
    assert_eq!(Parameter::from_file_entry(&no_key), None);
}

#[test]
fn parameter_to_cfnparameter() {
    let with_value = Parameter::WithValue {
        key: "MyKey".to_owned(),
        value: "my value".to_owned(),
    };
    let entry = CfnParameter::from(&with_value);
    assert_eq!(entry.parameter_key.as_deref(), Some("MyKey"));
    assert_eq!(entry.parameter_value.as_deref(), Some("my value"));
    assert_eq!(entry.resolved_value, None);
    assert_eq!(entry.use_previous_value, None);

    let previous_value = Parameter::PreviousValue {
        key: "MyKey".to_owned(),
    };
    let entry = CfnParameter::from(&previous_value);
    assert_eq!(entry.parameter_key.as_deref(), Some("MyKey"));
    assert_eq!(entry.parameter_value, None);
    assert_eq!(entry.resolved_value, None);
    assert_eq!(entry.use_previous_value, Some(true));

    // Each of the two is read back as itself.
    assert_eq!(
        Parameter::from(&CfnParameter::from(&with_value)),
        Some(with_value)
    );
    assert_eq!(
        Parameter::from(&CfnParameter::from(&previous_value)),
        Some(previous_value)
    );
}
