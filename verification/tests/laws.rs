use awsx::parameter::{Parameter, Parameters};

fn with_value(key: &str, value: &str) -> Parameter {
    Parameter::WithValue {
        key: key.to_owned(),
        value: value.to_owned(),
    }
}

fn previous_value(key: &str) -> Parameter {
    Parameter::PreviousValue {
        key: key.to_owned(),
    }
}

fn keys_of(parameters: &Parameters) -> Vec<String> {
    parameters.keys().into_iter().cloned().collect()
}

fn a() -> Parameters {
    Parameters::new(vec![
        with_value("One", "1"),
        previous_value("Two"),
        with_value("Three", "3"),
    ])
}

fn b() -> Parameters {
    Parameters::new(vec![
        with_value("Three", "three"),
        with_value("Four", "4"),
        previous_value("One"),
    ])
}

#[test]
fn update_keeps_the_keys() {
    let updated = a().updated(b());
    assert_eq!(keys_of(&updated), keys_of(&a()));
    // Keys present in both take the parameter of the other collection.
    assert_eq!(updated.get("One"), Some(&previous_value("One")));
    assert_eq!(updated.get("Three"), Some(&with_value("Three", "three")));
    // A key of `a` alone stays as it is, a key of `b` alone is not added.
    assert_eq!(updated.get("Two"), Some(&previous_value("Two")));
    assert_eq!(updated.get("Four"), None);
}

#[test]
fn merge_is_the_union_and_the_other_wins() {
    let merged = a().merged(b());
    assert_eq!(keys_of(&merged), vec!["One", "Two", "Three", "Four"]);
    assert_eq!(merged.get("One"), Some(&previous_value("One")));
    assert_eq!(merged.get("Two"), Some(&previous_value("Two")));
    assert_eq!(merged.get("Three"), Some(&with_value("Three", "three")));
    assert_eq!(merged.get("Four"), Some(&with_value("Four", "4")));
}

#[test]
fn subtract_self_is_empty() {
    let rest = a().subtract(&a());
    assert!(rest.is_empty());
    assert_eq!(rest, Parameters::new(vec![]));
}

#[test]
fn subtract_nothing_changes_nothing() {
    let rest = a().subtract(&Parameters::new(vec![]));
    assert_eq!(rest, a());
    assert_eq!(keys_of(&rest), keys_of(&a()));
}

#[test]
fn subtract_after_merge() {
    assert_eq!(a().merged(b()).subtract(&b()), a().subtract(&b()));
    assert_eq!(
        a().subtract(&b()),
        Parameters::new(vec![previous_value("Two")])
    );

    // Where no key is shared, subtracting undoes the merge.
    let disjoint = Parameters::new(vec![with_value("Five", "5"), previous_value("Six")]);
    assert_eq!(a().merged(&disjoint).subtract(&disjoint), a());
}

#[test]
fn loosely_equal_is_reflexive() {
    assert!(a().loosely_equal(&a()));
    let with_values = Parameters::new(vec![with_value("A", "1"), with_value("B", "2")]);
    assert!(with_values.loosely_equal(&with_values));
    let previous_values = Parameters::new(vec![previous_value("A"), previous_value("B")]);
    assert!(previous_values.loosely_equal(&previous_values));
    let empty = Parameters::new(vec![]);
    assert!(empty.loosely_equal(&empty));
}

#[test]
fn no_loose_difference_from_self() {
    assert!(a().loose_difference(&a()).is_none());
    let copy = a();
    assert!(a().loose_difference(&copy).is_none());
    let empty = Parameters::new(vec![]);
    assert!(empty.loose_difference(&empty).is_none());
}

#[test]
fn loose_difference_agrees_with_loose_equality() {
    let collections = vec![
        a(),
        b(),
        Parameters::new(vec![]),
        Parameters::new(vec![
            previous_value("One"),
            previous_value("Two"),
            previous_value("Three"),
        ]),
        Parameters::new(vec![
            with_value("Three", "3"),
            with_value("Two", "2"),
            with_value("One", "1"),
        ]),
    ];
    for left in &collections {
        for right in &collections {
            assert_eq!(
                left.loose_difference(right).is_none(),
                left.loosely_equal(right)
            );
        }
    }
}
