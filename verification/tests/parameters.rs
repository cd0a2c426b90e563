use awsx::parameter::{Parameter, Parameters};

#[test]
fn parameters_new_empty() {
    let empty = Parameters::new(vec![]);
    assert!(empty.is_empty());
    assert_eq!(empty.len(), 0);
}

#[test]
fn parameters_new_nonempty() {
    let with_value = Parameter::WithValue {
        key: "MyKey".to_owned(),
        value: "my value".to_owned(),
    };
    let previous_value = Parameter::PreviousValue {
        key: "OtherKey".to_owned(),
    };
    let non_empty = Parameters::new(vec![with_value.clone(), previous_value.clone()]);
    assert!(!non_empty.is_empty());
    assert_eq!(non_empty.len(), 2);
    assert_eq!(&with_value, non_empty.get("MyKey").unwrap());
    assert_eq!(&previous_value, non_empty.get("OtherKey").unwrap());
}

#[test]
fn parameters_new_duplicate() {
    let with_value = Parameter::WithValue {
        key: "MyKey".to_owned(),
        value: "my value".to_owned(),
    };
    let duplicate_key = Parameter::WithValue {
        key: "MyKey".to_owned(),
        value: "different value".to_owned(),
    };
    let non_empty = Parameters::new(vec![with_value, duplicate_key.clone()]);
    assert!(!non_empty.is_empty());
    assert_eq!(non_empty.len(), 1);
    assert_eq!(&duplicate_key, non_empty.get("MyKey").unwrap());
}

#[test]
fn parameters_update() {
    let parameter1 = Parameter::WithValue {
        key: "Parameter1".to_owned(),
        value: "Value1".to_owned(),
    };
    let parameter2 = Parameter::PreviousValue {
        key: "Parameter2".to_owned(),
    };
    let mut parameters = Parameters::new(vec![parameter1, parameter2]);

    let parameter1 = Parameter::PreviousValue {
        key: "Parameter1".to_owned(),
    };
    let parameter2 = Parameter::WithValue {
        key: "Parameter2".to_owned(),
        value: "Value2".to_owned(),
    };
    let parameter3 = Parameter::PreviousValue {
        key: "Parameter3".to_owned(),
    };
    let new_parameters = vec![parameter1.clone(), parameter2.clone(), parameter3];

    // Verify that `update` and `updated` returned the same result.
    let parameters_updated = parameters.clone().updated(new_parameters.clone());
    parameters.update(new_parameters);
    assert_eq!(parameters, parameters_updated);

    // Verify the contents of the updated result.
    assert!(!parameters.is_empty());
    assert_eq!(parameters.len(), 2);
    assert_eq!(&parameter1, parameters.get("Parameter1").unwrap());
    assert_eq!(&parameter2, parameters.get("Parameter2").unwrap());
    assert!(parameters.get("Parameter3").is_none());
}

#[test]
fn parameters_merge() {
    let parameter1 = Parameter::WithValue {
        key: "Parameter1".to_owned(),
        value: "Value1".to_owned(),
    };
    let parameter2 = Parameter::PreviousValue {
        key: "Parameter2".to_owned(),
    };
    let mut parameters = Parameters::new(vec![parameter1, parameter2]);

    let parameter1 = Parameter::PreviousValue {
        key: "Parameter1".to_owned(),
    };
    let parameter2 = Parameter::WithValue {
        key: "Parameter2".to_owned(),
        value: "Value2".to_owned(),
    };
    let parameter3 = Parameter::PreviousValue {
        key: "Parameter3".to_owned(),
    };
    let new_parameters = vec![parameter1.clone(), parameter2.clone(), parameter3.clone()];

    // Verify that `merge` and `merged` returned the same result.
    let parameters_merged = parameters.clone().merged(new_parameters.clone());
    parameters.merge(new_parameters);
    assert_eq!(parameters, parameters_merged);

    // Verify the contents of the merged result.
    assert!(!parameters.is_empty());
    assert_eq!(parameters.len(), 3);
    assert_eq!(&parameter1, parameters.get("Parameter1").unwrap());
    assert_eq!(&parameter2, parameters.get("Parameter2").unwrap());
    assert_eq!(&parameter3, parameters.get("Parameter3").unwrap());
}

#[test]
fn parameters_sub() {
    let parameter1 = Parameter::PreviousValue {
        key: "Parameter1".to_owned(),
    };
    let parameter2 = Parameter::WithValue {
        key: "Parameter2".to_owned(),
        value: "Value2".to_owned(),
    };
    let parameter3 = Parameter::PreviousValue {
        key: "Parameter3".to_owned(),
    };
    let parameter4 = Parameter::WithValue {
        key: "Parameter4".to_owned(),
        value: "Value4".to_owned(),
    };

    let left_parameters: Parameters =
        vec![parameter1.clone(), parameter2.clone(), parameter3.clone()].into();
    let right_parameters: Parameters = vec![parameter2, parameter3, parameter4].into();

    let parameters = left_parameters - &right_parameters;

    assert!(!parameters.is_empty());
    assert_eq!(parameters.len(), 1);
    assert_eq!(&parameter1, parameters.get("Parameter1").unwrap());
    assert!(parameters.get("Parameter2").is_none());
    assert!(parameters.get("Parameter3").is_none());
    assert!(parameters.get("Parameter4").is_none());
}

fn with_value(key: &str, value: &str) -> Parameter {
    Parameter::WithValue {
        key: key.to_owned(),
        value: value.to_owned(),
    }
}

fn previous_value(key: &str) -> Parameter {
    Parameter::PreviousValue {
        key: key.to_owned(),
    }
}

fn keys_of(parameters: &Parameters) -> Vec<String> {
    parameters.keys().into_iter().cloned().collect()
}

fn values_of(parameters: &Parameters) -> Vec<Parameter> {
    parameters.values().into_iter().cloned().collect()
}

#[test]
fn parameters_update_documented_example() {
    let mut parameters = Parameters::new(vec![
        with_value("FirstParameter", "Initial value"),
        previous_value("SecondParameter"),
        previous_value("ThirdParameter"),
    ]);
    let others = Parameters::new(vec![
        previous_value("FirstParameter"),
        with_value("ThirdParameter", "New value"),
        with_value("UnknownParameter", "New value"),
    ]);
    parameters.update(others);

    assert_eq!(
        values_of(&parameters),
        vec![
            previous_value("FirstParameter"),
            previous_value("SecondParameter"),
            with_value("ThirdParameter", "New value"),
        ]
    );
}

#[test]
fn parameters_merge_documented_example() {
    let mut parameters = Parameters::new(vec![
        with_value("FirstParameter", "Initial value"),
        previous_value("SecondParameter"),
        previous_value("ThirdParameter"),
    ]);
    let others = Parameters::new(vec![
        previous_value("FirstParameter"),
        with_value("ThirdParameter", "New value"),
        with_value("UnknownParameter", "New value"),
    ]);
    parameters.merge(others);

    assert_eq!(
        values_of(&parameters),
        vec![
            previous_value("FirstParameter"),
            previous_value("SecondParameter"),
            with_value("ThirdParameter", "New value"),
            with_value("UnknownParameter", "New value"),
        ]
    );
}

#[test]
fn parameters_apply_defaults_documented_example() {
    let mut parameters = Parameters::new(vec![
        with_value("FirstParameter", "Initial value"),
        previous_value("SecondParameter"),
        previous_value("ThirdParameter"),
    ]);
    let defaults = Parameters::new(vec![
        with_value("FirstParameter", "Updated value"),
        with_value("SecondParameter", "New value"),
        with_value("ThirdParameter", "New value"),
        with_value("UnknownParameter", "New value"),
    ]);
    let copy = parameters.with_defaults(&defaults);
    parameters.apply_defaults(defaults);
    assert_eq!(parameters, copy);

    assert_eq!(
        values_of(&parameters),
        vec![
            with_value("FirstParameter", "Initial value"),
            with_value("SecondParameter", "New value"),
            with_value("ThirdParameter", "New value"),
        ]
    );
}

#[test]
fn parameters_apply_defaults_ignores_defaults_without_value() {
    let mut parameters = Parameters::new(vec![previous_value("A"), with_value("B", "b")]);
    parameters.apply_defaults(vec![previous_value("A"), previous_value("B")]);
    assert_eq!(
        values_of(&parameters),
        vec![previous_value("A"), with_value("B", "b")]
    );
}

#[test]
fn parameters_keep_insertion_order() {
    let parameters = Parameters::new(vec![
        with_value("Zeta", "1"),
        with_value("Alpha", "2"),
        previous_value("Mu"),
        with_value("Zeta", "3"),
    ]);
    // A key that occurs again keeps its place and takes the later parameter.
    assert_eq!(keys_of(&parameters), vec!["Zeta", "Alpha", "Mu"]);
    assert_eq!(
        values_of(&parameters),
        vec![
            with_value("Zeta", "3"),
            with_value("Alpha", "2"),
            previous_value("Mu"),
        ]
    );
    assert_eq!(parameters.get_index(1), Some(&with_value("Alpha", "2")));
    assert_eq!(parameters.get_index(3), None);
    assert_eq!(parameters.get_index_of("Mu"), Some(2));
    assert_eq!(parameters.get_index_of("Nu"), None);
    assert!(parameters.contains_key("Alpha"));
    assert!(!parameters.contains_key("alpha"));
}

#[test]
fn parameters_insert_replaces_or_appends() {
    let mut parameters = Parameters::new(vec![with_value("A", "1"), with_value("B", "2")]);
    parameters.insert(with_value("A", "3"));
    parameters.insert(previous_value("C"));
    assert_eq!(
        values_of(&parameters),
        vec![
            with_value("A", "3"),
            with_value("B", "2"),
            previous_value("C"),
        ]
    );
}

#[test]
fn parameters_subtract_keeps_the_order() {
    let left = Parameters::new(vec![
        with_value("A", "1"),
        with_value("B", "2"),
        with_value("C", "3"),
        with_value("D", "4"),
    ]);
    let right = Parameters::new(vec![previous_value("A"), previous_value("X")]);
    let rest = left.subtract(&right);
    assert_eq!(
        values_of(&rest),
        vec![
            with_value("B", "2"),
            with_value("C", "3"),
            with_value("D", "4"),
        ]
    );

    let left = Parameters::new(vec![
        previous_value("X"),
        previous_value("Y"),
        previous_value("Z"),
    ]);
    let right = Parameters::new(vec![previous_value("X")]);
    assert_eq!(keys_of(&(left - &right)), vec!["Y", "Z"]);
}

#[test]
fn parameters_subtract_from_the_middle_and_the_end() {
    let left = || {
        Parameters::new(vec![
            with_value("A", "1"),
            with_value("B", "2"),
            with_value("C", "3"),
            with_value("D", "4"),
            with_value("E", "5"),
        ])
    };
    let right = Parameters::new(vec![
        previous_value("E"),
        previous_value("B"),
        previous_value("C"),
    ]);
    assert_eq!(keys_of(&left().subtract(&right)), vec!["A", "D"]);
    assert_eq!(
        keys_of(&left().subtract(&Parameters::new(vec![]))),
        vec!["A", "B", "C", "D", "E"]
    );
    assert!(left().subtract(&left()).is_empty());
}

#[test]
fn parameters_equality_ignores_order() {
    let one = Parameters::new(vec![with_value("A", "1"), previous_value("B")]);
    let other = Parameters::new(vec![previous_value("B"), with_value("A", "1")]);
    let different_value = Parameters::new(vec![with_value("A", "2"), previous_value("B")]);
    let different_key = Parameters::new(vec![with_value("A", "1"), previous_value("C")]);
    let longer = Parameters::new(vec![
        with_value("A", "1"),
        previous_value("B"),
        previous_value("C"),
    ]);
    assert_eq!(one, other);
    assert_ne!(one, different_value);
    assert_ne!(one, different_key);
    assert_ne!(one, longer);
    assert_ne!(longer, one);
}

#[test]
fn parameters_same_keys() {
    let one = Parameters::new(vec![
        with_value("b", "1"),
        previous_value("a"),
        previous_value("c"),
    ]);
    let reordered = Parameters::new(vec![
        previous_value("c"),
        previous_value("b"),
        with_value("a", "2"),
    ]);
    let other = Parameters::new(vec![
        previous_value("a"),
        previous_value("b"),
        previous_value("d"),
    ]);
    let shorter = Parameters::new(vec![previous_value("a"), previous_value("b")]);
    assert!(one.same_keys(&reordered));
    assert!(reordered.same_keys(&one));
    assert!(!one.same_keys(&other));
    assert!(!one.same_keys(&shorter));
    assert!(Parameters::new(vec![]).same_keys(&Parameters::new(vec![])));
}

#[test]
fn parameters_loosely_equal() {
    let stack = Parameters::new(vec![with_value("A", "1"), with_value("B", "2")]);
    let same = Parameters::new(vec![with_value("B", "2"), with_value("A", "1")]);
    let previous = Parameters::new(vec![previous_value("A"), with_value("B", "2")]);
    let unequal = Parameters::new(vec![with_value("A", "1"), with_value("B", "3")]);
    let other_keys = Parameters::new(vec![with_value("A", "1"), with_value("C", "2")]);
    let shorter = Parameters::new(vec![with_value("A", "1")]);

    assert!(stack.loosely_equal(&same));
    // A parameter that keeps the previous value matches any value.
    assert!(stack.loosely_equal(&previous));
    // The other way round it does not: a value is no match for "previous".
    assert!(!previous.loosely_equal(&stack));
    assert!(!stack.loosely_equal(&unequal));
    assert!(!stack.loosely_equal(&other_keys));
    assert!(!stack.loosely_equal(&shorter));
}

#[test]
fn parameters_loose_difference_parts() {
    let stack = Parameters::new(vec![
        with_value("OnlyOnStack", "1"),
        with_value("Same", "2"),
        with_value("KeptAsIs", "3"),
        previous_value("FilledIn"),
        previous_value("BothPrevious"),
        with_value("Changed", "4"),
        previous_value("NowSet"),
    ]);
    let file = Parameters::new(vec![
        with_value("Changed", "5"),
        with_value("Same", "2"),
        previous_value("KeptAsIs"),
        previous_value("FilledIn"),
        previous_value("BothPrevious"),
        with_value("NowSet", "6"),
        with_value("OnlyInFile", "7"),
    ]);
    let difference = stack.loose_difference(&file).unwrap();

    assert_eq!(difference.left, vec![&with_value("OnlyOnStack", "1")]);
    assert_eq!(difference.right, vec![&with_value("OnlyInFile", "7")]);
    assert_eq!(
        difference.unequal,
        vec![
            (&with_value("Changed", "4"), &with_value("Changed", "5")),
            (&previous_value("NowSet"), &with_value("NowSet", "6")),
        ]
    );
    // Where one of two loosely equal parameters has a value, it is the one
    // that is kept.
    assert_eq!(
        difference.equal,
        vec![
            &with_value("Same", "2"),
            &with_value("KeptAsIs", "3"),
            &previous_value("FilledIn"),
            &previous_value("BothPrevious"),
        ]
    );
}

#[test]
fn parameters_loose_difference_none_when_loosely_equal() {
    let stack = Parameters::new(vec![with_value("A", "1"), with_value("B", "2")]);
    let file = Parameters::new(vec![previous_value("B"), with_value("A", "1")]);
    assert!(stack.loose_difference(&file).is_none());
    assert!(stack.loosely_equal(&file));
}

#[test]
fn parameters_selections() {
    let parameters = Parameters::new(vec![
        with_value("A", "1"),
        previous_value("B"),
        with_value("C", "3"),
        previous_value("D"),
    ]);
    assert_eq!(
        values_of(&parameters.with_values_only()),
        vec![with_value("A", "1"), with_value("C", "3")]
    );
    let others = Parameters::new(vec![previous_value("D"), previous_value("A")]);
    assert_eq!(
        values_of(&parameters.restricted_to(&others)),
        vec![with_value("A", "1"), previous_value("D")]
    );
    assert_eq!(
        parameters.keys_without_value(),
        vec![&"B".to_owned(), &"D".to_owned()]
    );
    assert_eq!(
        values_of(&parameters.as_previous_values()),
        vec![
            previous_value("A"),
            previous_value("B"),
            previous_value("C"),
            previous_value("D"),
        ]
    );
}

#[test]
fn parameters_to_cfn() {
    let parameters = Parameters::new(vec![with_value("A", "1"), previous_value("B")]);
    let entries = parameters.to_cfn();
    assert_eq!(entries.len(), 2);
    assert_eq!(entries[0].parameter_key.as_deref(), Some("A"));
    assert_eq!(entries[0].parameter_value.as_deref(), Some("1"));
    assert_eq!(entries[0].use_previous_value, None);
    assert_eq!(entries[1].parameter_key.as_deref(), Some("B"));
    assert_eq!(entries[1].parameter_value, None);
    assert_eq!(entries[1].use_previous_value, Some(true));
}

#[test]
fn parameters_from_lists() {
    let list = vec![with_value("A", "1"), previous_value("B")];
    let references: Vec<&Parameter> = list.iter().collect();
    let from_references: Parameters = references.into();
    let from_reference: Parameters = (&list).into();
    let from_list: Parameters = list.clone().into();
    assert_eq!(values_of(&from_references), list);
    assert_eq!(values_of(&from_reference), list);
    assert_eq!(values_of(&from_list), list);
}
