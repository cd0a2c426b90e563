//! Deployment metadata: the record of who deployed, when, and from what state
//! of the repository, that is kept as the value of a stack parameter.

use vstd::prelude::*;

use crate::error::{Error, ErrorView};
use crate::parameter::{Parameter, ParameterView};
use crate::text::option_text;

verus! {

/// The state of the repository that a deployment was made from.
#[derive(Debug)]
pub struct DeploymentMetadataGit {
    /// The commit that was checked out.
    pub commit: String,
    /// The short name of the reference that was checked out.
    pub reference: String,
    /// Whether the working tree held changes that were not committed.
    pub dirty: bool,
}

/// Who deployed, when, and from what state of the repository.
#[derive(Debug)]
pub struct DeploymentMetadata {
    /// The user that deployed, by e-mail address.
    pub user: String,
    /// The time of the deployment.
    pub when: String,
    /// The state of the repository.
    pub git: DeploymentMetadataGit,
}

/// The mathematical value of a [`DeploymentMetadataGit`].
pub struct DeploymentMetadataGitView {
    pub commit: Seq<char>,
    pub reference: Seq<char>,
    pub dirty: bool,
}

/// The mathematical value of a [`DeploymentMetadata`].
pub struct DeploymentMetadataView {
    pub user: Seq<char>,
    pub when: Seq<char>,
    pub git: DeploymentMetadataGitView,
}

impl View for DeploymentMetadataGit {
    type V = DeploymentMetadataGitView;

    open spec fn view(&self) -> DeploymentMetadataGitView {
        DeploymentMetadataGitView {
            commit: self.commit@,
            reference: self.reference@,
            dirty: self.dirty,
        }
    }
}

impl View for DeploymentMetadata {
    type V = DeploymentMetadataView;

    open spec fn view(&self) -> DeploymentMetadataView {
        DeploymentMetadataView { user: self.user@, when: self.when@, git: self.git@ }
    }
}

/// The metadata that stands where no earlier metadata is known: every text is
/// empty and the working tree counts as clean.
pub open spec fn default_metadata() -> DeploymentMetadataView {
    DeploymentMetadataView {
        user: Seq::empty(),
        when: Seq::empty(),
        git: DeploymentMetadataGitView {
            commit: Seq::empty(),
            reference: Seq::empty(),
            dirty: false,
        },
    }
}

impl Default for DeploymentMetadataGit {
    fn default() -> (res: DeploymentMetadataGit)
        ensures
            res@ == default_metadata().git,
    {
        DeploymentMetadataGit { commit: String::new(), reference: String::new(), dirty: false }
    }
}

impl Default for DeploymentMetadata {
    fn default() -> (res: DeploymentMetadata)
        ensures
            res@ == default_metadata(),
    {
        DeploymentMetadata {
            user: String::new(),
            when: String::new(),
            git: DeploymentMetadataGit::default(),
        }
    }
}

impl Clone for DeploymentMetadataGit {
    fn clone(&self) -> (res: DeploymentMetadataGit)
        ensures
            res == *self,
    {
        DeploymentMetadataGit {
            commit: self.commit.clone(),
            reference: self.reference.clone(),
            dirty: self.dirty,
        }
    }
}

impl Clone for DeploymentMetadata {
    fn clone(&self) -> (res: DeploymentMetadata)
        ensures
            res == *self,
    {
        DeploymentMetadata {
            user: self.user.clone(),
            when: self.when.clone(),
            git: self.git.clone(),
        }
    }
}

/// What HEAD of a repository points to.
#[derive(Debug)]
pub struct Head {
    /// The short name of the reference.
    pub reference: String,
    /// The commit.
    pub commit: String,
}

/// The mathematical value of a [`Head`].
pub struct HeadView {
    pub reference: Seq<char>,
    pub commit: Seq<char>,
}

impl View for Head {
    type V = HeadView;

    open spec fn view(&self) -> HeadView {
        HeadView { reference: self.reference@, commit: self.commit@ }
    }
}

/// What was read from a repository for new metadata.
#[derive(Debug)]
pub struct RepositoryState {
    /// What HEAD points to.
    pub head: Head,
    /// Whether a tracked file has changes that are not committed.
    pub dirty: bool,
    /// The e-mail address of the user in the configuration of the
    /// repository, if one is set.
    pub user_email: Option<String>,
}

/// The mathematical value of a [`RepositoryState`].
pub struct RepositoryStateView {
    pub head: HeadView,
    pub dirty: bool,
    pub user_email: Option<Seq<char>>,
}

impl View for RepositoryState {
    type V = RepositoryStateView;

    open spec fn view(&self) -> RepositoryStateView {
        RepositoryStateView {
            head: self.head@,
            dirty: self.dirty,
            user_email: option_text(self.user_email),
        }
    }
}

/// What HEAD points to, given the short name of its reference and its
/// commit, as far as it has them: without the name there is an error, and
/// without the commit, if it has the name, another.
pub open spec fn resolved_head(shorthand: Option<Seq<char>>, target: Option<Seq<char>>) -> Result<
    HeadView,
    ErrorView,
> {
    match (shorthand, target) {
        (None, _) => Err(ErrorView::GitError("Failed to retrieve ref for git HEAD"@)),
        (Some(_), None) => Err(ErrorView::GitError("Failed to retrieve commit for git HEAD"@)),
        (Some(reference), Some(commit)) => Ok(HeadView { reference, commit }),
    }
}

/// The mathematical value of a result with a head.
pub open spec fn head_view(res: Result<Head, Error>) -> Result<HeadView, ErrorView> {
    match res {
        Ok(head) => Ok(head@),
        Err(error) => Err(error@),
    }
}

/// What HEAD points to: the short name of its reference, and its commit. A
/// HEAD without one of them is an error of git.
pub fn resolve_head(shorthand: Option<String>, target: Option<String>) -> (res: Result<
    Head,
    Error,
>)
    ensures
        head_view(res) == resolved_head(option_text(shorthand), option_text(target)),
{
    let reference = match shorthand {
        Some(shorthand) => shorthand,
        None => {
            return Err(Error::GitError("Failed to retrieve ref for git HEAD".to_owned()));
        },
    };
    let commit = match target {
        Some(target) => target,
        None => {
            return Err(Error::GitError("Failed to retrieve commit for git HEAD".to_owned()));
        },
    };
    Ok(Head { reference, commit })
}

/// The mathematical value of optional metadata.
pub open spec fn metadata_of(o: Option<DeploymentMetadata>) -> Option<DeploymentMetadataView> {
    match o {
        Some(m) => Some(m@),
        None => None,
    }
}

/// The mathematical value of an optional state of a repository.
pub open spec fn state_of(o: Option<RepositoryState>) -> Option<RepositoryStateView> {
    match o {
        Some(s) => Some(s@),
        None => None,
    }
}

/// The user that is recorded: the e-mail address configured, or `unknown`
/// where none is configured.
pub open spec fn user_or_unknown(email: Option<Seq<char>>) -> Seq<char> {
    match email {
        Some(email) => email,
        None => "unknown"@,
    }
}

/// The new metadata of a deployment.
///
/// The user and the time are always new. The state of the repository is new
/// where a repository was read, and the user is then the one of the
/// repository. Where no repository was read, the state of the previous
/// metadata stays, or that of the default where there is no previous metadata.
pub open spec fn assembled(
    previous: Option<DeploymentMetadataView>,
    config_email: Option<Seq<char>>,
    when: Seq<char>,
    repository: Option<RepositoryStateView>,
) -> DeploymentMetadataView {
    let base = match previous {
        Some(previous) => previous,
        None => default_metadata(),
    };
    match repository {
        None => DeploymentMetadataView { user: user_or_unknown(config_email), when, git: base.git },
        Some(state) => DeploymentMetadataView {
            user: user_or_unknown(state.user_email),
            when,
            git: DeploymentMetadataGitView {
                commit: state.head.commit,
                reference: state.head.reference,
                dirty: state.dirty,
            },
        },
    }
}

/// The user to record for an e-mail address that may not be configured.
fn recorded_user(email: Option<String>) -> (res: String)
    ensures
        res@ == user_or_unknown(option_text(email)),
{
    match email {
        Some(email) => email,
        None => "unknown".to_owned(),
    }
}

/// Whether a character is a decimal digit.
pub open spec fn is_digit(c: char) -> bool {
    '0' <= c && c <= '9'
}

/// Whether a text is a year: four digits, or, for a year before 0 or after
/// 9999, a sign and four digits or more.
pub open spec fn is_year(s: Seq<char>) -> bool {
    ||| s.len() == 4 && forall|i: int| 0 <= i < 4 ==> is_digit(#[trigger] s[i])
    ||| s.len() >= 5 && (s[0] == '+' || s[0] == '-') && forall|i: int|
        1 <= i < s.len() ==> is_digit(#[trigger] s[i])
}

/// Whether a text is what follows the year in a time to the second: month,
/// day, and time of day, as in `-02-03T04:05:06`.
pub open spec fn is_day_and_time(s: Seq<char>) -> bool {
    &&& s.len() == 15
    &&& s[0] == '-' && is_digit(s[1]) && is_digit(s[2])
    &&& s[3] == '-' && is_digit(s[4]) && is_digit(s[5])
    &&& s[6] == 'T' && is_digit(s[7]) && is_digit(s[8])
    &&& s[9] == ':' && is_digit(s[10]) && is_digit(s[11])
    &&& s[12] == ':' && is_digit(s[13]) && is_digit(s[14])
}

/// Whether a text is an offset from UTC: `Z`, or a sign with hours and
/// minutes, as in `+01:00`.
pub open spec fn is_offset(s: Seq<char>) -> bool {
    ||| s.len() == 1 && s[0] == 'Z'
    ||| s.len() == 6 && (s[0] == '+' || s[0] == '-') && is_digit(s[1]) && is_digit(s[2]) && s[3]
        == ':' && is_digit(s[4]) && is_digit(s[5])
}

/// Whether a text is a time to the second in the format of RFC 3339: a year,
/// the day and the time, and the offset from UTC.
pub open spec fn is_timestamp(s: Seq<char>) -> bool {
    exists|n: int|
        0 <= n && n + 15 <= s.len() && is_year(#[trigger] s.take(n)) && is_day_and_time(
            s.subrange(n, n + 15),
        ) && is_offset(s.skip(n + 15))
}

/// `chrono::Local::now` and `DateTime::to_rfc3339_opts`: the local time of the
/// moment of the call, to the second, in the format of RFC 3339, with `Z` for
/// an offset of zero. Which time it is is not stated: it differs from call to
/// call.
#[verifier::external_body]
fn current_time() -> (res: String)
    ensures
        is_timestamp(res@),
{
    chrono::Local::now().to_rfc3339_opts(chrono::SecondsFormat::Secs, true)
}

impl DeploymentMetadata {
    /// The document that a parameter holds as metadata: the value of a
    /// parameter that has one. A parameter that keeps the previous value
    /// holds no document, which is an error that names its key.
    pub fn document_of(parameter: Parameter) -> (res: Result<String, Error>)
        ensures
            match res {
                Ok(document) => parameter@ matches ParameterView::WithValue { value, .. }
                    && document@ == value,
                Err(error) => parameter@ matches ParameterView::PreviousValue { key } && error@
                    == ErrorView::InvalidParameters(key),
            },
    {
        match parameter {
            Parameter::WithValue { value, .. } => Ok(value),
            Parameter::PreviousValue { key } => Err(Error::InvalidParameters(key)),
        }
    }

    /// Put together the metadata of a deployment made at the time given.
    ///
    /// `previous` is the metadata of the last deployment, where it is known.
    /// `config_email` is the e-mail address of the user in the default
    /// configuration of git, and `repository` is what was read from the
    /// repository, where one was to be read.
    pub fn assemble(
        previous: Option<DeploymentMetadata>,
        config_email: Option<String>,
        when: String,
        repository: Option<RepositoryState>,
    ) -> (res: DeploymentMetadata)
        ensures
            res@ == assembled(
                metadata_of(previous),
                option_text(config_email),
                when@,
                state_of(repository),
            ),
    {
        let base = match previous {
            Some(previous) => previous,
            None => DeploymentMetadata::default(),
        };
        match repository {
            None => DeploymentMetadata { user: recorded_user(config_email), when, git: base.git },
            Some(state) => DeploymentMetadata {
                user: recorded_user(state.user_email),
                when,
                git: DeploymentMetadataGit {
                    commit: state.head.commit,
                    reference: state.head.reference,
                    dirty: state.dirty,
                },
            },
        }
    }
}

/// Generate the metadata of a deployment that is made now.
///
/// The result is what [`DeploymentMetadata::assemble`] gives for the current
/// time, whatever the clock says, which is written to the second in the
/// format of RFC 3339.
pub fn generate_deployment_metadata(
    previous: Option<DeploymentMetadata>,
    config_email: Option<String>,
    repository: Option<RepositoryState>,
) -> (res: DeploymentMetadata)
    ensures
        is_timestamp(res@.when),
        res@ == assembled(
            metadata_of(previous),
            option_text(config_email),
            res@.when,
            state_of(repository),
        ),
{
    DeploymentMetadata::assemble(previous, config_email, current_time(), repository)
}

} // verus!
