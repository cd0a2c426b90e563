//! Errors of the library.

use vstd::prelude::*;

verus! {

/// Representation of an error.
///
/// Where an error has a cause outside of this library, the variant holds the
/// text of that cause.
#[derive(Debug)]
pub enum Error {
    /// Error caused in the AWS client, in proxy from AWS.
    AwsError(String),
    /// Error caused in git.
    GitError(String),
    /// The parameters provided were invalid.
    ///
    /// This can happen if either the template or stack the parameters should
    /// be applied to do not match what parameters the template or stack
    /// actually expects.
    InvalidParameters(String),
    /// The requested stack does not exist.
    InvalidStack(String),
    /// The template provided is not valid.
    InvalidTemplate(String),
    /// A general IO error.
    IoError(String),
    /// Error caused while reading or writing JSON.
    SerdeJsonError(String),
    /// Deserializing the template failed.
    TemplateDeserializationFailed(String),
    /// TLS error caused within the AWS client.
    TlsError(String),
    /// An unknown error caused in the AWS client, in proxy from AWS.
    UnknownAwsError(String),
    /// The output format specified was unknown.
    UnknownOutputFormat(String),
}

/// The mathematical value of an [`Error`]: its variant, with the text it holds.
pub enum ErrorView {
    AwsError(Seq<char>),
    GitError(Seq<char>),
    InvalidParameters(Seq<char>),
    InvalidStack(Seq<char>),
    InvalidTemplate(Seq<char>),
    IoError(Seq<char>),
    SerdeJsonError(Seq<char>),
    TemplateDeserializationFailed(Seq<char>),
    TlsError(Seq<char>),
    UnknownAwsError(Seq<char>),
    UnknownOutputFormat(Seq<char>),
}

impl View for Error {
    type V = ErrorView;

    open spec fn view(&self) -> ErrorView {
        match self {
            Error::AwsError(text) => ErrorView::AwsError(text@),
            Error::GitError(text) => ErrorView::GitError(text@),
            Error::InvalidParameters(text) => ErrorView::InvalidParameters(text@),
            Error::InvalidStack(text) => ErrorView::InvalidStack(text@),
            Error::InvalidTemplate(text) => ErrorView::InvalidTemplate(text@),
            Error::IoError(text) => ErrorView::IoError(text@),
            Error::SerdeJsonError(text) => ErrorView::SerdeJsonError(text@),
            Error::TemplateDeserializationFailed(text) => ErrorView::TemplateDeserializationFailed(
                text@,
            ),
            Error::TlsError(text) => ErrorView::TlsError(text@),
            Error::UnknownAwsError(text) => ErrorView::UnknownAwsError(text@),
            Error::UnknownOutputFormat(text) => ErrorView::UnknownOutputFormat(text@),
        }
    }
}

impl ErrorView {
    /// The message of an error, as it is shown to the user.
    pub open spec fn message(self) -> Seq<char> {
        match self {
            ErrorView::AwsError(text) => "failed to perform AWS action: "@ + text,
            ErrorView::GitError(text) => "failed to perform git action: "@ + text,
            ErrorView::InvalidParameters(text) => "invalid parameters provided: "@ + text,
            ErrorView::InvalidStack(text) => "invalid stack "@ + text,
            ErrorView::InvalidTemplate(text) => "invalid template: "@ + text,
            ErrorView::IoError(_) => "general IO error"@,
            ErrorView::SerdeJsonError(text) => "failed to perform serde_json action: "@ + text,
            ErrorView::TemplateDeserializationFailed(_) => "failed to deserialize the template"@,
            ErrorView::TlsError(_) => "failed to perform Rusoto action"@,
            ErrorView::UnknownAwsError(text) => "encountered AWS error:\n"@ + text,
            ErrorView::UnknownOutputFormat(text) => "specified output format is unknown: "@ + text,
        }
    }
}

/// A text that begins with `prefix` and goes on with `text`.
fn prefixed(prefix: &str, text: &String) -> (res: String)
    ensures
        res@ == prefix@ + text@,
{
    let mut message = prefix.to_owned();
    message.append(text.as_str());
    message
}

impl Error {
    /// The error for a failure of the AWS client. Where AWS answered with
    /// something that the client does not know, the error holds the body of
    /// the answer as it is; else it holds the text of the cause.
    pub fn from_aws(unknown_body: Option<String>, cause: String) -> (res: Error)
        ensures
            res == match unknown_body {
                Some(body) => Error::UnknownAwsError(body),
                None => Error::AwsError(cause),
            },
    {
        match unknown_body {
            Some(body) => Error::UnknownAwsError(body),
            None => Error::AwsError(cause),
        }
    }

    /// The message of the error, as it is shown to the user.
    pub fn message(&self) -> (res: String)
        ensures
            res@ == self@.message(),
    {
        match self {
            Error::AwsError(text) => prefixed("failed to perform AWS action: ", text),
            Error::GitError(text) => prefixed("failed to perform git action: ", text),
            Error::InvalidParameters(text) => prefixed("invalid parameters provided: ", text),
            Error::InvalidStack(text) => prefixed("invalid stack ", text),
            Error::InvalidTemplate(text) => prefixed("invalid template: ", text),
            Error::IoError(_) => "general IO error".to_owned(),
            Error::SerdeJsonError(text) => prefixed("failed to perform serde_json action: ", text),
            Error::TemplateDeserializationFailed(_) => "failed to deserialize the template".to_owned(),
            Error::TlsError(_) => "failed to perform Rusoto action".to_owned(),
            Error::UnknownAwsError(text) => prefixed("encountered AWS error:\n", text),
            Error::UnknownOutputFormat(text) => prefixed(
                "specified output format is unknown: ",
                text,
            ),
        }
    }
}

} // verus!
