use asyncgit::branch::{get_branch_name, BranchDetails, BranchInfo, CommitId};
use asyncgit::checkout::{checkout_branch, checkout_remote_branch, CheckoutAction, CheckoutEvent};
use asyncgit::error::Error;

/// Drives a checkout where every action succeeds but those named in `failing`.
fn drive(
    mut guard: asyncgit::checkout::CheckoutGuard,
    mut action: CheckoutAction,
    failing: &[&str],
) -> (Vec<String>, Result<(), Error>) {
    let mut seen = Vec::new();
    loop {
        let text = format!("{:?}", action);
        seen.push(text.clone());
        let fails = failing.iter().any(|f| text.starts_with(f));
        let event = match action {
            CheckoutAction::Return(r) => {
                assert!(guard.is_done());
                return (seen, r);
            }
            _ if fails => CheckoutEvent::Failed(Error::Git(format!("{} failed", text))),
            CheckoutAction::CreateBranch { name, .. } => CheckoutEvent::Created(format!("refs/heads/{}", name)),
            _ => CheckoutEvent::Succeeded,
        };
        action = guard.step(event);
    }
}

#[test]
fn mod_test_smoke_checkout() {
    let head = String::from("refs/heads/master");
    let (g, a) = checkout_branch(head.clone(), true, &String::from("refs/heads/master"));
    assert!(drive(g, a, &[]).1.is_ok());
    let (g, a) = checkout_branch(head, true, &String::from("refs/heads/foobar"));
    let (actions, r) = drive(g, a, &["SetHead"]);
    assert!(r.is_err());
    assert_eq!(actions.len(), 2);
}

#[test]
fn mod_test_multiple_checkout() {
    let mut head = String::from("refs/heads/master");
    for target in ["refs/heads/test", "refs/heads/master", "refs/heads/test"] {
        let (g, a) = checkout_branch(head.clone(), true, &String::from(target));
        let (actions, r) = drive(g, a, &[]);
        assert!(r.is_ok());
        assert_eq!(actions[0], format!("SetHead({:?})", target));
        head = String::from(target);
    }
}

#[test]
fn checkout_refused_with_uncommitted_changes() {
    let (g, a) = checkout_branch(String::from("refs/heads/master"), false, &String::from("refs/heads/test"));
    let (actions, r) = drive(g, a, &[]);
    assert!(matches!(r, Err(Error::UncommittedChanges)));
    assert_eq!(actions.len(), 1);
}

#[test]
fn checkout_clean_then_current_branch() {
    let (g, a) = checkout_branch(String::from("refs/heads/master"), true, &String::from("refs/heads/branch1"));
    let (actions, r) = drive(g, a, &[]);
    assert!(r.is_ok());
    assert_eq!(actions, vec!["SetHead(\"refs/heads/branch1\")", "CheckoutHead", "Return(Ok(()))"]);
    let branches = vec![(true, String::from("branch1")), (false, String::from("master"))];
    assert_eq!(get_branch_name(&branches).unwrap(), "branch1");
}

#[test]
fn checkout_failure_restores_head() {
    let (g, a) = checkout_branch(String::from("refs/heads/master"), true, &String::from("refs/heads/test"));
    let (actions, r) = drive(g, a, &["CheckoutHead"]);
    assert!(matches!(r, Err(Error::Git(_))));
    assert_eq!(actions[2], "RestoreHead(\"refs/heads/master\")");
    assert_eq!(actions.len(), 4);
}

#[test]
fn test_checkout_remote_branch() {
    let branch = BranchInfo {
        name: String::from("origin/foo"),
        reference: String::from("refs/remotes/origin/foo"),
        top_commit_message: String::from("commit2"),
        top_commit: CommitId { id: [3; 20] },
        details: BranchDetails::Remote,
    };
    let (g, a) = checkout_remote_branch(String::from("refs/heads/master"), true, &branch);
    match &a {
        CheckoutAction::CreateBranch { name, commit } => {
            assert_eq!(name, "foo");
            assert_eq!(*commit, CommitId { id: [3; 20] });
        }
        _ => panic!("expected the branch to be created"),
    }
    let (actions, r) = drive(g, a, &[]);
    assert!(r.is_ok());
    assert_eq!(
        actions[1],
        "SetUpstream { reference: \"refs/heads/foo\", upstream: \"origin/foo\" }"
    );
    assert_eq!(actions[2], "SetHead(\"refs/heads/foo\")");
    let branches = vec![(true, String::from("foo")), (false, String::from("master"))];
    assert_eq!(&get_branch_name(&branches).unwrap(), "foo");
}

#[test]
fn checkout_remote_branch_refused_when_dirty() {
    let branch = BranchInfo {
        name: String::from("origin/foo"),
        reference: String::from("refs/remotes/origin/foo"),
        top_commit_message: String::new(),
        top_commit: CommitId { id: [0; 20] },
        details: BranchDetails::Remote,
    };
    let (g, a) = checkout_remote_branch(String::from("refs/heads/master"), false, &branch);
    assert!(matches!(drive(g, a, &[]).1, Err(Error::UncommittedChanges)));
}

fn remote_foo() -> BranchInfo {
    BranchInfo {
        name: String::from("origin/foo"),
        reference: String::from("refs/remotes/origin/foo"),
        top_commit_message: String::from("commit2"),
        top_commit: CommitId { id: [3; 20] },
        details: BranchDetails::Remote,
    }
}

#[test]
fn remote_checkout_failure_deletes_created_branch() {
    let (g, a) = checkout_remote_branch(String::from("refs/heads/master"), true, &remote_foo());
    let (actions, r) = drive(g, a, &["CheckoutHead"]);
    assert!(matches!(r, Err(Error::Git(_))));
    assert_eq!(
        actions[3..],
        [
            "CheckoutHead",
            "RestoreHead(\"refs/heads/master\")",
            "DeleteBranch(\"refs/heads/foo\")",
            "Return(Err(Git(\"CheckoutHead failed\")))"
        ]
    );
}

#[test]
fn remote_checkout_upstream_failure_deletes_created_branch() {
    let (g, a) = checkout_remote_branch(String::from("refs/heads/master"), true, &remote_foo());
    let (actions, r) = drive(g, a, &["SetUpstream"]);
    assert!(r.is_err());
    assert_eq!(actions[2], "DeleteBranch(\"refs/heads/foo\")");
    assert_eq!(actions.len(), 4);
    assert!(!actions.iter().any(|a| a.starts_with("SetHead")));
}

#[test]
fn remote_checkout_set_head_failure_deletes_created_branch() {
    let (g, a) = checkout_remote_branch(String::from("refs/heads/master"), true, &remote_foo());
    let (actions, r) = drive(g, a, &["SetHead"]);
    assert!(r.is_err());
    assert_eq!(actions[3], "DeleteBranch(\"refs/heads/foo\")");
    assert_eq!(actions.len(), 5);
}

#[test]
fn remote_checkout_create_failure_leaves_nothing() {
    let (g, a) = checkout_remote_branch(String::from("refs/heads/master"), true, &remote_foo());
    let (actions, r) = drive(g, a, &["CreateBranch"]);
    assert!(r.is_err());
    assert_eq!(actions.len(), 2);
}
