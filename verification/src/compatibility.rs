//! The check that a deployment is a safe continuation of the last one.
//!
//! The last deployment is known by the metadata of the deployed stack, the
//! new one by metadata made from the working tree. The new deployment is
//! compatible if the commit last deployed is an ancestor of the commit that is
//! deployed now, and, where the last deployment was made from a working tree
//! with changes that were not committed, if the same user deploys again.
//!
//! Whether a commit is an ancestor is a question to the repository. The check
//! asks it in steps, and each step hands back what to ask next: whoever holds
//! the repository answers, and makes no decision.

use vstd::prelude::*;

use crate::commit::{is_object_id_text, parsed_object_id, CommitId};
use crate::error::{Error, ErrorView};
use crate::metadata::{DeploymentMetadata, DeploymentMetadataView};

verus! {

/// The code of an error of git, as far as the check tells codes apart.
#[derive(Debug, Clone, Copy, PartialEq, Eq, Structural)]
pub enum GitErrorCode {
    /// A generic error.
    GenericError,
    /// Any other code.
    Other,
}

/// The class of an error of git, as far as the check tells classes apart.
#[derive(Debug, Clone, Copy, PartialEq, Eq, Structural)]
pub enum GitErrorClass {
    /// An error of the object database.
    Odb,
    /// Any other class.
    Other,
}

/// An error that the repository answered with.
#[derive(Debug)]
pub struct GitFailure {
    /// The code of the error.
    pub code: GitErrorCode,
    /// The class of the error.
    pub class: GitErrorClass,
    /// The text of the error.
    pub message: String,
}

/// The mathematical value of a [`GitFailure`].
pub struct GitFailureView {
    pub code: GitErrorCode,
    pub class: GitErrorClass,
    pub message: Seq<char>,
}

impl View for GitFailure {
    type V = GitFailureView;

    open spec fn view(&self) -> GitFailureView {
        GitFailureView { code: self.code, class: self.class, message: self.message@ }
    }
}

impl GitFailureView {
    /// Whether the error says that an object is unknown to the repository: a
    /// generic error of the object database.
    pub open spec fn is_missing_object(self) -> bool {
        self.code == GitErrorCode::GenericError && self.class == GitErrorClass::Odb
    }
}

/// Whether the new deployment is compatible with the last one, given whether
/// the commit last deployed is an ancestor of the commit deployed now.
///
/// After a deployment from a working tree with changes that were not
/// committed, only the same user continuing from the same commit is trusted.
/// After a clean deployment, the ancestry alone decides.
pub open spec fn compatible(
    previous: DeploymentMetadataView,
    current: DeploymentMetadataView,
    previous_commit_is_ancestor: bool,
) -> bool {
    if previous.git.dirty {
        previous.user == current.user && previous_commit_is_ancestor
    } else {
        previous_commit_is_ancestor
    }
}

/// Whether the commit last deployed is an ancestor of the commit deployed
/// now, given what the repository answered when asked for the merge base of
/// the two: it is if it is the merge base itself. Where the repository does
/// not know one of the commits it is not, and no error. Any other error of
/// the repository is passed on.
pub open spec fn ancestry(previous_commit: Seq<u8>, merge_base: Result<Seq<u8>, GitFailureView>)
    -> Result<bool, ErrorView> {
    match merge_base {
        Ok(common_ancestor) => Ok(previous_commit == common_ancestor),
        Err(failure) => if failure.is_missing_object() {
            Ok(false)
        } else {
            Err(ErrorView::GitError(failure.message))
        },
    }
}

/// The outcome of the check for an outcome of the question of ancestry.
pub open spec fn verdict(
    previous: DeploymentMetadataView,
    current: DeploymentMetadataView,
    previous_commit_is_ancestor: Result<bool, ErrorView>,
) -> Result<bool, ErrorView> {
    match previous_commit_is_ancestor {
        Ok(ancestor) => Ok(compatible(previous, current, ancestor)),
        Err(error) => Err(error),
    }
}

/// The mathematical value of the outcome of a check.
pub open spec fn verdict_view(res: Result<bool, Error>) -> Result<bool, ErrorView> {
    match res {
        Ok(compatible) => Ok(compatible),
        Err(error) => Err(error@),
    }
}

/// The mathematical value of an answer with a commit.
pub open spec fn answer_view(res: Result<CommitId, GitFailure>) -> Result<
    Seq<u8>,
    GitFailureView,
> {
    match res {
        Ok(id) => Ok(id@),
        Err(failure) => Err(failure@),
    }
}

/// Whether the new deployment is compatible with the last one, given whether
/// the commit last deployed is an ancestor of the commit deployed now.
pub fn changes_compatible(
    previous: &DeploymentMetadata,
    current: &DeploymentMetadata,
    previous_commit_is_ancestor: bool,
) -> (res: bool)
    ensures
        res == compatible(previous@, current@, previous_commit_is_ancestor),
{
    // In general it is true that if the previous changes were dirty, we cannot
    // guarantee any compatibility. We make one exception: if the user stays
    // unchanged, and the previous commit is the common ancestor, we assume
    // that the change is just the person developing and testing.
    if previous.git.dirty {
        let same_user = previous.user == current.user;
        return same_user && previous_commit_is_ancestor;
    }
    // If the previous changes were not dirty, the current commit has to be a
    // descendant of the previous commit.
    previous_commit_is_ancestor
}

/// Whether the commit last deployed is an ancestor of the commit deployed
/// now, given what the repository answered when asked for their merge base.
pub fn previous_commit_is_ancestor(
    previous_commit: &CommitId,
    merge_base: Result<CommitId, GitFailure>,
) -> (res: Result<bool, Error>)
    ensures
        verdict_view(res) == ancestry(previous_commit@, answer_view(merge_base)),
{
    match merge_base {
        Ok(common_ancestor) => Ok(previous_commit.same(&common_ancestor)),
        Err(failure) => {
            // If either of the commits is unknown to the repository, which
            // happens if the deployed changes are based on a commit that
            // another developer only has locally, or if the user has rebased
            // since the last deployment, the changes are not compatible.
            if failure.code == GitErrorCode::GenericError && failure.class == GitErrorClass::Odb {
                Ok(false)
            } else {
                Err(Error::GitError(failure.message))
            }
        },
    }
}

/// How a check begins: it is decided at once, or the repository is needed.
#[derive(Debug)]
pub enum CompatibilityCheck {
    /// The check is decided, with this outcome.
    Decided(bool),
    /// The repository has to be found.
    NeedsRepository(AwaitingRepository),
}

/// A check that waits for the repository to be found.
#[derive(Debug)]
pub struct AwaitingRepository {
    previous: DeploymentMetadata,
    current: DeploymentMetadata,
}

/// A check that waits for the commit that HEAD points to.
#[derive(Debug)]
pub struct AwaitingHead {
    previous: DeploymentMetadata,
    current: DeploymentMetadata,
    previous_commit: CommitId,
}

/// A check that waits for the merge base of the commit last deployed and the
/// commit that HEAD points to.
#[derive(Debug)]
pub struct AwaitingMergeBase {
    previous: DeploymentMetadata,
    current: DeploymentMetadata,
    previous_commit: CommitId,
    head: CommitId,
}

impl AwaitingRepository {
    /// The metadata of the last deployment.
    pub closed spec fn previous(self) -> DeploymentMetadataView {
        self.previous@
    }

    /// The metadata of the new deployment.
    pub closed spec fn current(self) -> DeploymentMetadataView {
        self.current@
    }

    /// Go on with the answer to the search for the repository.
    ///
    /// An error of the repository ends the check with that error. Else the
    /// commit last deployed is read from the metadata; a commit that is no
    /// object id ends the check with a git error.
    pub fn discovered(self, answer: Result<(), GitFailure>) -> (res: Result<AwaitingHead, Error>)
        ensures
            res is Ok <==> answer is Ok && is_object_id_text(self.previous().git.commit),
            match res {
                Ok(next) => answer is Ok && next.previous() == self.previous() && next.current()
                    == self.current() && parsed_object_id(self.previous().git.commit) == Some(
                    next.previous_commit(),
                ),
                Err(error) => match answer {
                    Err(failure) => error@ == ErrorView::GitError(failure@.message),
                    Ok(_) => parsed_object_id(self.previous().git.commit) is None
                        && error is GitError,
                },
            },
    {
        match answer {
            Err(failure) => Err(Error::GitError(failure.message)),
            Ok(_) => match CommitId::parse(self.previous.git.commit.as_str()) {
                Ok(previous_commit) => Ok(
                    AwaitingHead {
                        previous: self.previous,
                        current: self.current,
                        previous_commit,
                    },
                ),
                Err(error) => Err(error),
            },
        }
    }
}

/// What the check says where HEAD points to no commit.
pub open spec fn no_head_commit() -> ErrorView {
    ErrorView::GitError("Failed to retrieve commit for git HEAD"@)
}

impl AwaitingHead {
    /// The metadata of the last deployment.
    pub closed spec fn previous(self) -> DeploymentMetadataView {
        self.previous@
    }

    /// The metadata of the new deployment.
    pub closed spec fn current(self) -> DeploymentMetadataView {
        self.current@
    }

    /// The commit last deployed.
    pub closed spec fn previous_commit(self) -> Seq<u8> {
        self.previous_commit@
    }

    /// Go on with the answer to the question what HEAD points to: a commit,
    /// or none where HEAD does not point to a commit directly.
    ///
    /// An error of the repository ends the check with that error, and so does
    /// a HEAD without a commit.
    pub fn head(self, answer: Result<Option<CommitId>, GitFailure>) -> (res: Result<
        AwaitingMergeBase,
        Error,
    >)
        ensures
            match res {
                Ok(next) => answer matches Ok(Some(head)) && next.head_commit() == head@
                    && next.previous() == self.previous() && next.current() == self.current()
                    && next.previous_commit() == self.previous_commit(),
                Err(error) => match answer {
                    Err(failure) => error@ == ErrorView::GitError(failure@.message),
                    Ok(head) => head is None && error@ == no_head_commit(),
                },
            },
    {
        match answer {
            Err(failure) => Err(Error::GitError(failure.message)),
            Ok(None) => Err(Error::GitError("Failed to retrieve commit for git HEAD".to_owned())),
            Ok(Some(head)) => Ok(
                AwaitingMergeBase {
                    previous: self.previous,
                    current: self.current,
                    previous_commit: self.previous_commit,
                    head,
                },
            ),
        }
    }
}

impl AwaitingMergeBase {
    /// The metadata of the last deployment.
    pub closed spec fn previous(self) -> DeploymentMetadataView {
        self.previous@
    }

    /// The metadata of the new deployment.
    pub closed spec fn current(self) -> DeploymentMetadataView {
        self.current@
    }

    /// The commit last deployed.
    pub closed spec fn previous_commit(self) -> Seq<u8> {
        self.previous_commit@
    }

    /// The commit that HEAD points to.
    pub closed spec fn head_commit(self) -> Seq<u8> {
        self.head@
    }

    /// The two commits whose merge base is asked for: the commit last
    /// deployed, and the commit that HEAD points to.
    pub fn commits(&self) -> (res: (&CommitId, &CommitId))
        ensures
            res.0@ == self.previous_commit(),
            res.1@ == self.head_commit(),
    {
        (&self.previous_commit, &self.head)
    }

    /// End the check with the answer to the question for the merge base.
    pub fn merge_base(self, answer: Result<CommitId, GitFailure>) -> (res: Result<bool, Error>)
        ensures
            verdict_view(res) == verdict(
                self.previous(),
                self.current(),
                ancestry(self.previous_commit(), answer_view(answer)),
            ),
    {
        match previous_commit_is_ancestor(&self.previous_commit, answer) {
            Ok(ancestor) => Ok(changes_compatible(&self.previous, &self.current, ancestor)),
            Err(error) => Err(error),
        }
    }
}

/// Begin the check that a deployment with the metadata `current` is
/// compatible with the last deployment, which left the metadata `previous`.
///
/// Where both were made from the same commit, the commit last deployed is
/// trivially an ancestor, and the check is decided without the repository.
pub fn verify_changes_compatible(previous: DeploymentMetadata, current: DeploymentMetadata) -> (res:
    CompatibilityCheck)
    ensures
        match res {
            CompatibilityCheck::Decided(outcome) => previous@.git.commit == current@.git.commit
                && outcome == compatible(previous@, current@, true),
            CompatibilityCheck::NeedsRepository(next) => previous@.git.commit
                != current@.git.commit && next.previous() == previous@ && next.current()
                == current@,
        },
{
    let same_commit = previous.git.commit == current.git.commit;
    if same_commit {
        CompatibilityCheck::Decided(changes_compatible(&previous, &current, true))
    } else {
        CompatibilityCheck::NeedsRepository(AwaitingRepository { previous, current })
    }
}

} // verus!
