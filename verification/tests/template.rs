use awsx::change_set::{ChangeSetType, TemplateSource};
use awsx::error::Error;
use awsx::parameter::{Parameter, Parameters};
use awsx::s3::object_url;
use awsx::template::{DeclaredParameter, Template};

const CONTENTS: &str = "Parameters:\n  Name:\n    Type: String\n";

fn declared(name: &str, default: Option<&str>) -> DeclaredParameter {
    DeclaredParameter {
        name: name.to_owned(),
        default: default.map(str::to_owned),
    }
}

fn template() -> Template {
    Template::new(
        "stack.yml",
        CONTENTS.as_bytes().to_vec(),
        vec![
            declared("Name", None),
            declared("Size", Some("small")),
            declared("Count", Some("")),
        ],
    )
}

fn values_of(parameters: &Parameters) -> Vec<Parameter> {
    parameters.values().into_iter().cloned().collect()
}

fn provided() -> Parameters {
    Parameters::new(vec![
        Parameter::WithValue {
            key: "Size".to_owned(),
            value: "large".to_owned(),
        },
        Parameter::PreviousValue {
            key: "Count".to_owned(),
        },
        Parameter::WithValue {
            key: "Name".to_owned(),
            value: "web".to_owned(),
        },
    ])
}

#[test]
fn template_holds_what_was_loaded() {
    let template = template();
    assert_eq!(template.filename(), "stack.yml");
    assert_eq!(template.contents(), CONTENTS.as_bytes());
    assert_eq!(template.body().as_deref(), Some(CONTENTS));
}

#[test]
fn template_parameters_have_their_defaults() {
    assert_eq!(
        values_of(template().get_parameters()),
        vec![
            Parameter::PreviousValue {
                key: "Name".to_owned(),
            },
            Parameter::WithValue {
                key: "Size".to_owned(),
                value: "small".to_owned(),
            },
            Parameter::WithValue {
                key: "Count".to_owned(),
                value: String::new(),
            },
        ]
    );
    assert_eq!(
        values_of(&template().get_parameters_as_previous_value()),
        vec![
            Parameter::PreviousValue {
                key: "Name".to_owned(),
            },
            Parameter::PreviousValue {
                key: "Size".to_owned(),
            },
            Parameter::PreviousValue {
                key: "Count".to_owned(),
            },
        ]
    );
}

#[test]
fn checksum_is_md5_in_hexadecimal_digits() {
    let empty = Template::new("empty.yml", vec![], vec![]);
    assert_eq!(
        empty.checksum_md5hex().unwrap(),
        "d41d8cd98f00b204e9800998ecf8427e"
    );
    let abc = Template::new("abc.yml", b"abc".to_vec(), vec![]);
    assert_eq!(
        abc.checksum_md5hex().unwrap(),
        "900150983cd24fb0d6963f7d28e17f72"
    );
}

#[test]
fn upload_key_is_the_checksum_with_extension() {
    let abc = Template::new("abc.yml", b"abc".to_vec(), vec![]);
    assert_eq!(
        abc.upload_key(),
        "900150983cd24fb0d6963f7d28e17f72.template"
    );
    // The same contents give the same key, whatever the file is called.
    let copy = Template::new("copy.yml", b"abc".to_vec(), vec![]);
    assert_eq!(copy.upload_key(), abc.upload_key());
}

#[test]
fn body_of_contents_that_are_no_text() {
    let binary = Template::new("binary.yml", vec![0xff, 0xfe, 0x00], vec![]);
    assert_eq!(binary.body(), None);
    let umlaut = Template::new("umlaut.yml", "Größe".as_bytes().to_vec(), vec![]);
    assert_eq!(umlaut.body().as_deref(), Some("Größe"));
}

#[test]
fn parameters_have_to_be_those_of_the_template() {
    let template = template();
    assert!(template.validate_parameters(&provided()));
    assert!(template.validate_parameters(template.get_parameters()));
    let fewer = Parameters::new(vec![Parameter::PreviousValue {
        key: "Name".to_owned(),
    }]);
    assert!(!template.validate_parameters(&fewer));
    let mut more = provided();
    more.insert(Parameter::PreviousValue {
        key: "Unknown".to_owned(),
    });
    assert!(!template.validate_parameters(&more));

    assert!(template.check_parameters(&provided()).is_ok());
    match template.check_parameters(&more) {
        Err(Error::InvalidParameters(text)) => assert_eq!(
            text,
            "the template expected other parameters than were provided"
        ),
        other => panic!("unexpected result: {:?}", other),
    }
}

#[test]
fn change_set_with_the_template_as_text() {
    let request = template()
        .create_change_set("my-change", "my-stack", &provided(), None, None, true)
        .unwrap();
    assert_eq!(request.stack_name, "my-stack");
    assert_eq!(request.change_set_name, "my-change");
    assert_eq!(
        request.capabilities,
        vec![
            "CAPABILITY_IAM",
            "CAPABILITY_NAMED_IAM",
            "CAPABILITY_AUTO_EXPAND"
        ]
    );
    assert_eq!(request.change_set_type, ChangeSetType::Create);
    assert_eq!(request.role_arn, None);
    match request.template {
        TemplateSource::Body(body) => assert_eq!(body, CONTENTS),
        other => panic!("unexpected source: {:?}", other),
    }
    assert_eq!(request.parameters.len(), 3);
    assert_eq!(request.parameters[0].parameter_key.as_deref(), Some("Size"));
    assert_eq!(
        request.parameters[0].parameter_value.as_deref(),
        Some("large")
    );
    assert_eq!(
        request.parameters[1].parameter_key.as_deref(),
        Some("Count")
    );
    assert_eq!(request.parameters[1].use_previous_value, Some(true));
}

#[test]
fn change_set_with_the_template_uploaded() {
    let request = template()
        .create_change_set(
            "my-change",
            "my-stack",
            &provided(),
            Some("arn:role"),
            Some("https://s3.amazonaws.com/bucket/key.template".to_owned()),
            false,
        )
        .unwrap();
    assert_eq!(request.change_set_type, ChangeSetType::Update);
    assert_eq!(request.role_arn.as_deref(), Some("arn:role"));
    match request.template {
        TemplateSource::Url(url) => {
            assert_eq!(url, "https://s3.amazonaws.com/bucket/key.template")
        }
        other => panic!("unexpected source: {:?}", other),
    }
}

#[test]
fn change_set_with_other_parameters_is_refused() {
    let fewer = Parameters::new(vec![Parameter::PreviousValue {
        key: "Name".to_owned(),
    }]);
    match template().create_change_set("my-change", "my-stack", &fewer, None, None, false) {
        Err(Error::InvalidParameters(text)) => assert_eq!(
            text,
            "the template expected other parameters than were provided"
        ),
        other => panic!("unexpected result: {:?}", other),
    }
}

#[test]
fn url_of_an_uploaded_object() {
    assert_eq!(
        object_url(None, "my-bucket", "abc.template"),
        "https://s3.amazonaws.com/my-bucket/abc.template"
    );
    assert_eq!(
        object_url(Some("eu-central-1"), "my-bucket", "abc.template"),
        "https://s3-eu-central-1.amazonaws.com/my-bucket/abc.template"
    );
}
