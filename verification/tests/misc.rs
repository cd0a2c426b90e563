use awsx::error::Error;
use awsx::output::OutputFormat;
use awsx::tag::{tags_match, ResourceTag, Tag};

fn tag(key: &str, value: &str) -> Tag {
    Tag {
        key: key.to_owned(),
        value: value.to_owned(),
    }
}

fn resource_tag(key: Option<&str>, value: Option<&str>) -> ResourceTag {
    ResourceTag {
        key: key.map(str::to_owned),
        value: value.map(str::to_owned),
    }
}

#[test]
fn tag_is_read_from_key_and_value() {
    assert_eq!(Tag::parse("Name=web").unwrap(), tag("Name", "web"));
    assert_eq!(Tag::parse("Name=a=b").unwrap(), tag("Name", "a=b"));
    assert_eq!("Name=web".parse::<Tag>().unwrap(), tag("Name", "web"));
    match Tag::parse("Name") {
        Err(Error::InvalidParameters(message)) => {
            assert_eq!(message, "Tag needs to be provided in the form `Key=Value`")
        }
        other => panic!("unexpected result: {:?}", other),
    }
}

#[test]
fn every_needle_needs_a_tag_with_equal_key_and_value() {
    let haystack = vec![
        resource_tag(Some("Name"), Some("web")),
        resource_tag(Some("Stage"), Some("prod")),
        resource_tag(Some("Empty"), None),
        resource_tag(None, Some("prod")),
    ];
    assert!(tags_match(&[], &haystack));
    assert!(tags_match(&[tag("Name", "web")], &haystack));
    assert!(tags_match(
        &[tag("Stage", "prod"), tag("Name", "web")],
        &haystack
    ));
    assert!(!tags_match(&[tag("Name", "db")], &haystack));
    assert!(!tags_match(&[tag("Web", "Name")], &haystack));
    assert!(!tags_match(
        &[tag("Name", "web"), tag("Stage", "test")],
        &haystack
    ));
    assert!(!tags_match(&[tag("Empty", "")], &haystack));
    assert!(!tags_match(&[tag("Name", "web")], &[]));
    assert!(tags_match(&[], &[]));
}

#[test]
fn output_format_by_name() {
    assert_eq!(
        OutputFormat::parse("human").unwrap(),
        OutputFormat::HumanReadable
    );
    assert_eq!(
        OutputFormat::parse("human-readable").unwrap(),
        OutputFormat::HumanReadable
    );
    assert_eq!(OutputFormat::parse("json").unwrap(), OutputFormat::Json);
    assert_eq!(
        OutputFormat::parse("structured").unwrap(),
        OutputFormat::Json
    );
    assert_eq!(OutputFormat::parse("yml").unwrap(), OutputFormat::Yaml);
    assert_eq!(OutputFormat::parse("yaml").unwrap(), OutputFormat::Yaml);
    assert_eq!(
        "yaml".parse::<OutputFormat>().unwrap(),
        OutputFormat::Yaml
    );
    match OutputFormat::parse("xml") {
        Err(Error::UnknownOutputFormat(name)) => assert_eq!(name, "xml"),
        other => panic!("unexpected result: {:?}", other),
    }
    assert!(OutputFormat::parse("JSON").is_err());
    assert!(OutputFormat::parse("").is_err());
}

#[test]
fn output_format_by_default() {
    assert_eq!(OutputFormat::default_for(true), OutputFormat::HumanReadable);
    assert_eq!(OutputFormat::default_for(false), OutputFormat::Json);
}

#[test]
fn error_messages() {
    let text = || "cause".to_owned();
    assert_eq!(
        Error::AwsError(text()).message(),
        "failed to perform AWS action: cause"
    );
    assert_eq!(
        Error::GitError(text()).message(),
        "failed to perform git action: cause"
    );
    assert_eq!(
        Error::InvalidParameters(text()).message(),
        "invalid parameters provided: cause"
    );
    assert_eq!(Error::InvalidStack(text()).message(), "invalid stack cause");
    assert_eq!(
        Error::InvalidTemplate(text()).message(),
        "invalid template: cause"
    );
    assert_eq!(Error::IoError(text()).message(), "general IO error");
    assert_eq!(
        Error::SerdeJsonError(text()).message(),
        "failed to perform serde_json action: cause"
    );
    assert_eq!(
        Error::TemplateDeserializationFailed(text()).message(),
        "failed to deserialize the template"
    );
    assert_eq!(
        Error::TlsError(text()).message(),
        "failed to perform Rusoto action"
    );
    assert_eq!(
        Error::UnknownAwsError(text()).message(),
        "encountered AWS error:\ncause"
    );
    assert_eq!(
        Error::UnknownOutputFormat(text()).message(),
        "specified output format is unknown: cause"
    );
}
