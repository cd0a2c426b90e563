use awsx::commit::CommitId;
use awsx::compatibility::{
    changes_compatible, previous_commit_is_ancestor, verify_changes_compatible,
    CompatibilityCheck, GitErrorClass, GitErrorCode, GitFailure,
};
use awsx::error::Error;
use awsx::metadata::{DeploymentMetadata, DeploymentMetadataGit};

const DEPLOYED: &str = "0123456789abcdef0123456789abcdef01234567";
const HEAD: &str = "89abcdef0123456789abcdef0123456789abcdef";
const ELSEWHERE: &str = "fedcba9876543210fedcba9876543210fedcba98";

fn metadata(user: &str, commit: &str, dirty: bool) -> DeploymentMetadata {
    DeploymentMetadata {
        user: user.to_owned(),
        when: "2020-01-01T00:00:00Z".to_owned(),
        git: DeploymentMetadataGit {
            commit: commit.to_owned(),
            reference: "master".to_owned(),
            dirty,
        },
    }
}

fn commit(hex: &str) -> CommitId {
    CommitId::parse(hex).unwrap()
}

fn missing_object() -> GitFailure {
    GitFailure {
        code: GitErrorCode::GenericError,
        class: GitErrorClass::Odb,
        message: "object not found - no match for id".to_owned(),
    }
}

/// Run the check with a repository whose HEAD is at `HEAD` and that answers
/// the question for the merge base as given.
fn check(
    previous: DeploymentMetadata,
    current: DeploymentMetadata,
    merge_base: Result<CommitId, GitFailure>,
) -> Result<bool, Error> {
    match verify_changes_compatible(previous, current) {
        CompatibilityCheck::Decided(compatible) => Ok(compatible),
        CompatibilityCheck::NeedsRepository(waiting) => {
            let waiting = waiting.discovered(Ok(()))?;
            let waiting = waiting.head(Ok(Some(commit(HEAD))))?;
            {
                let (one, two) = waiting.commits();
                assert_eq!(one.as_bytes(), commit(DEPLOYED).as_bytes());
                assert_eq!(two.as_bytes(), commit(HEAD).as_bytes());
            }
            waiting.merge_base(merge_base)
        }
    }
}

#[test]
fn same_commit_and_clean_is_compatible() {
    let check = verify_changes_compatible(
        metadata("one@example.com", DEPLOYED, false),
        metadata("two@example.com", DEPLOYED, false),
    );
    assert!(matches!(check, CompatibilityCheck::Decided(true)));
}

#[test]
fn strict_ancestor_and_clean_is_compatible() {
    let outcome = check(
        metadata("one@example.com", DEPLOYED, false),
        metadata("two@example.com", HEAD, false),
        Ok(commit(DEPLOYED)),
    );
    assert!(matches!(outcome, Ok(true)));
}

#[test]
fn diverged_branches_are_not_compatible() {
    let outcome = check(
        metadata("one@example.com", DEPLOYED, false),
        metadata("one@example.com", HEAD, false),
        Ok(commit(ELSEWHERE)),
    );
    assert!(matches!(outcome, Ok(false)));
}

#[test]
fn dirty_with_same_user_and_ancestor_is_compatible() {
    let outcome = check(
        metadata("one@example.com", DEPLOYED, true),
        metadata("one@example.com", HEAD, false),
        Ok(commit(DEPLOYED)),
    );
    assert!(matches!(outcome, Ok(true)));

    let same_commit = verify_changes_compatible(
        metadata("one@example.com", DEPLOYED, true),
        metadata("one@example.com", DEPLOYED, true),
    );
    assert!(matches!(same_commit, CompatibilityCheck::Decided(true)));
}

#[test]
fn dirty_with_other_user_is_not_compatible() {
    // Whatever the ancestry: as an ancestor,
    let outcome = check(
        metadata("one@example.com", DEPLOYED, true),
        metadata("two@example.com", HEAD, false),
        Ok(commit(DEPLOYED)),
    );
    assert!(matches!(outcome, Ok(false)));
    // on a diverged branch,
    let outcome = check(
        metadata("one@example.com", DEPLOYED, true),
        metadata("two@example.com", HEAD, false),
        Ok(commit(ELSEWHERE)),
    );
    assert!(matches!(outcome, Ok(false)));
    // and on the same commit.
    let same_commit = verify_changes_compatible(
        metadata("one@example.com", DEPLOYED, true),
        metadata("two@example.com", DEPLOYED, false),
    );
    assert!(matches!(same_commit, CompatibilityCheck::Decided(false)));
}

#[test]
fn dirty_with_same_user_on_diverged_branch_is_not_compatible() {
    let outcome = check(
        metadata("one@example.com", DEPLOYED, true),
        metadata("one@example.com", HEAD, false),
        Ok(commit(ELSEWHERE)),
    );
    assert!(matches!(outcome, Ok(false)));
}

#[test]
fn unknown_commit_is_not_compatible_and_no_error() {
    let outcome = check(
        metadata("one@example.com", DEPLOYED, false),
        metadata("one@example.com", HEAD, false),
        Err(missing_object()),
    );
    assert!(matches!(outcome, Ok(false)));
}

#[test]
fn other_errors_of_the_repository_are_passed_on() {
    let other_class = GitFailure {
        code: GitErrorCode::GenericError,
        class: GitErrorClass::Other,
        message: "repository is broken".to_owned(),
    };
    match check(
        metadata("one@example.com", DEPLOYED, false),
        metadata("one@example.com", HEAD, false),
        Err(other_class),
    ) {
        Err(Error::GitError(text)) => assert_eq!(text, "repository is broken"),
        other => panic!("unexpected result: {:?}", other),
    }

    let other_code = GitFailure {
        code: GitErrorCode::Other,
        class: GitErrorClass::Odb,
        message: "object is ambiguous".to_owned(),
    };
    match check(
        metadata("one@example.com", DEPLOYED, false),
        metadata("one@example.com", HEAD, false),
        Err(other_code),
    ) {
        Err(Error::GitError(text)) => assert_eq!(text, "object is ambiguous"),
        other => panic!("unexpected result: {:?}", other),
    }
}

#[test]
fn repository_that_is_not_found_ends_the_check() {
    let failure = GitFailure {
        code: GitErrorCode::Other,
        class: GitErrorClass::Other,
        message: "could not find repository".to_owned(),
    };
    match verify_changes_compatible(
        metadata("one@example.com", DEPLOYED, false),
        metadata("one@example.com", HEAD, false),
    ) {
        CompatibilityCheck::NeedsRepository(waiting) => match waiting.discovered(Err(failure)) {
            Err(Error::GitError(text)) => assert_eq!(text, "could not find repository"),
            other => panic!("unexpected result: {:?}", other),
        },
        other => panic!("unexpected result: {:?}", other),
    }
}

#[test]
fn previous_commit_that_is_no_object_id_ends_the_check() {
    match verify_changes_compatible(
        metadata("one@example.com", "not a commit", false),
        metadata("one@example.com", HEAD, false),
    ) {
        CompatibilityCheck::NeedsRepository(waiting) => {
            assert!(matches!(
                waiting.discovered(Ok(())),
                Err(Error::GitError(_))
            ));
        }
        other => panic!("unexpected result: {:?}", other),
    }
}

#[test]
fn head_without_commit_ends_the_check() {
    match verify_changes_compatible(
        metadata("one@example.com", DEPLOYED, false),
        metadata("one@example.com", HEAD, false),
    ) {
        CompatibilityCheck::NeedsRepository(waiting) => {
            let waiting = waiting.discovered(Ok(())).unwrap();
            match waiting.head(Ok(None)) {
                Err(Error::GitError(text)) => {
                    assert_eq!(text, "Failed to retrieve commit for git HEAD")
                }
                other => panic!("unexpected result: {:?}", other),
            }
        }
        other => panic!("unexpected result: {:?}", other),
    }
}

#[test]
fn head_that_cannot_be_resolved_ends_the_check() {
    let failure = GitFailure {
        code: GitErrorCode::Other,
        class: GitErrorClass::Other,
        message: "reference 'refs/heads/master' not found".to_owned(),
    };
    match verify_changes_compatible(
        metadata("one@example.com", DEPLOYED, false),
        metadata("one@example.com", HEAD, false),
    ) {
        CompatibilityCheck::NeedsRepository(waiting) => {
            let waiting = waiting.discovered(Ok(())).unwrap();
            match waiting.head(Err(failure)) {
                Err(Error::GitError(text)) => {
                    assert_eq!(text, "reference 'refs/heads/master' not found")
                }
                other => panic!("unexpected result: {:?}", other),
            }
        }
        other => panic!("unexpected result: {:?}", other),
    }
}

#[test]
fn ancestry_by_merge_base() {
    let deployed = commit(DEPLOYED);
    assert!(matches!(
        previous_commit_is_ancestor(&deployed, Ok(commit(DEPLOYED))),
        Ok(true)
    ));
    assert!(matches!(
        previous_commit_is_ancestor(&deployed, Ok(commit(HEAD))),
        Ok(false)
    ));
    assert!(matches!(
        previous_commit_is_ancestor(&deployed, Err(missing_object())),
        Ok(false)
    ));
}

#[test]
fn compatibility_by_ancestry() {
    let clean = metadata("one@example.com", DEPLOYED, false);
    let dirty = metadata("one@example.com", DEPLOYED, true);
    let same_user = metadata("one@example.com", HEAD, false);
    let other_user = metadata("two@example.com", HEAD, false);

    assert!(changes_compatible(&clean, &same_user, true));
    assert!(changes_compatible(&clean, &other_user, true));
    assert!(!changes_compatible(&clean, &same_user, false));
    assert!(!changes_compatible(&clean, &other_user, false));
    assert!(changes_compatible(&dirty, &same_user, true));
    assert!(!changes_compatible(&dirty, &other_user, true));
    assert!(!changes_compatible(&dirty, &same_user, false));
    assert!(!changes_compatible(&dirty, &other_user, false));
}

#[test]
fn commit_ids_are_read_from_hexadecimal_digits() {
    let id = commit(DEPLOYED);
    assert_eq!(
        id.as_bytes(),
        &vec![
            0x01, 0x23, 0x45, 0x67, 0x89, 0xab, 0xcd, 0xef, 0x01, 0x23, 0x45, 0x67, 0x89, 0xab,
            0xcd, 0xef, 0x01, 0x23, 0x45, 0x67
        ]
    );
    // Upper and lower case stand for the same commit.
    assert!(id.same(&commit("0123456789ABCDEF0123456789ABCDEF01234567")));
    assert!(!id.same(&commit(HEAD)));
    assert!(id.same(&id.clone()));
    assert!(id.same(&CommitId::from_bytes(id.as_bytes().clone()).unwrap()));
    // An identifier has twenty bytes, no more and no fewer.
    assert!(CommitId::from_bytes(vec![0u8; 19]).is_none());
    assert!(CommitId::from_bytes(vec![0u8; 21]).is_none());
    assert!(CommitId::from_bytes(vec![]).is_none());
}

#[test]
fn beginnings_of_commit_ids_are_filled_with_zeros() {
    let id = commit("abc");
    let mut expected = vec![0u8; 20];
    expected[0] = 0xab;
    expected[1] = 0xc0;
    assert_eq!(id.as_bytes(), &expected);
    assert_eq!(commit("0").as_bytes(), &vec![0u8; 20]);
    assert_eq!(commit(DEPLOYED).as_bytes().len(), 20);
}

#[test]
fn texts_that_are_no_commit_ids_are_refused() {
    assert!(matches!(CommitId::parse("xyz"), Err(Error::GitError(_))));
    assert!(matches!(CommitId::parse("012g"), Err(Error::GitError(_))));
    assert!(matches!(CommitId::parse(" 0123"), Err(Error::GitError(_))));
    assert!(matches!(CommitId::parse("0123é"), Err(Error::GitError(_))));
    assert!(matches!(CommitId::parse(""), Err(Error::GitError(_))));
    assert!(matches!(
        CommitId::parse("not a commit"),
        Err(Error::GitError(_))
    ));
    assert!(matches!(
        CommitId::parse("0123456789abcdef0123456789abcdef012345678"),
        Err(Error::GitError(_))
    ));
}
