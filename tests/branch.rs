use asyncgit::branch::{
    config_is_pull_rebase, delete_branch, get_branch_name, get_branches_info, local_branch_name,
    upstream_to_set, BranchDetails, BranchEntry, BranchInfo, CommitId,
};
use asyncgit::error::Error;

fn entry(name: &str, reference: &str, is_head: bool, remote: Option<&str>) -> BranchEntry {
    BranchEntry {
        name: name.to_string(),
        reference: reference.to_string(),
        top_commit_message: String::from("commit"),
        top_commit: CommitId { id: [7; 20] },
        is_head,
        has_upstream: remote.is_some(),
        remote: remote.map(String::from),
    }
}

fn names(branches: &[BranchInfo]) -> Vec<String> {
    branches.iter().map(|b| b.name.clone()).collect()
}

#[test]
fn test_smoke() {
    let branches = vec![(true, String::from("master"))];
    assert_eq!(get_branch_name(&branches).unwrap().as_str(), "master");
}

#[test]
fn test_empty_repo() {
    assert!(matches!(get_branch_name(&Vec::new()), Err(Error::NoHead)));
}

#[test]
fn branch_name_detached_head() {
    let branches = vec![(false, String::from("master")), (false, String::from("test"))];
    assert!(matches!(get_branch_name(&branches), Err(Error::NoHead)));
}

#[test]
fn branch_name_after_switch() {
    let branches = vec![(false, String::from("master")), (true, String::from("branch1"))];
    assert_eq!(get_branch_name(&branches).unwrap().as_str(), "branch1");
}

#[test]
fn mod_test_smoke_branches() {
    let branches = get_branches_info(true, vec![Some(entry("master", "refs/heads/master", true, None))]);
    assert_eq!(names(&branches), vec!["master"]);
}

#[test]
fn mod_test_multiple() {
    let branches = get_branches_info(
        true,
        vec![
            Some(entry("test", "refs/heads/test", true, None)),
            Some(entry("master", "refs/heads/master", false, None)),
        ],
    );
    assert_eq!(names(&branches), vec!["master", "test"]);
}

#[test]
fn test_remotes_of_branches() {
    let branches = get_branches_info(
        true,
        vec![
            Some(entry("r2branch", "refs/heads/r2branch", true, Some("r2"))),
            Some(entry("master", "refs/heads/master", false, None)),
            Some(entry("r1branch", "refs/heads/r1branch", false, Some("r1"))),
        ],
    );
    assert_eq!(branches.len(), 3);
    assert_eq!(branches[1].local_details().unwrap().remote.as_ref().unwrap(), "r1");
    assert_eq!(branches[2].local_details().unwrap().remote.as_ref().unwrap(), "r2");
    assert!(branches[2].local_details().unwrap().is_head);
    assert!(branches[2].local_details().unwrap().has_upstream);
    assert!(!branches[0].local_details().unwrap().has_upstream);
}

#[test]
fn test_remote_branches() {
    let local = get_branches_info(true, vec![Some(entry("master", "refs/heads/master", true, None))]);
    assert_eq!(local.len(), 1);
    let branches = get_branches_info(
        false,
        vec![
            Some(entry("origin/master", "refs/remotes/origin/master", false, None)),
            Some(entry("origin/HEAD", "refs/remotes/origin/HEAD", false, None)),
            Some(entry("origin/foo", "refs/remotes/origin/foo", false, None)),
        ],
    );
    assert_eq!(branches.len(), 3);
    assert_eq!(&branches[0].name, "origin/HEAD");
    assert_eq!(&branches[1].name, "origin/foo");
    assert_eq!(&branches[2].name, "origin/master");
    assert!(branches[0].local_details().is_none());
    assert!(matches!(branches[1].details, BranchDetails::Remote));
}

#[test]
fn branches_skip_unreadable_entries() {
    let branches = get_branches_info(
        true,
        vec![None, Some(entry("b", "refs/heads/b", false, None)), None, Some(entry("a", "refs/heads/a", true, None))],
    );
    assert_eq!(names(&branches), vec!["a", "b"]);
    assert_eq!(branches[0].reference, "refs/heads/a");
}

#[test]
fn branches_sort_by_code_points() {
    let branches = get_branches_info(
        true,
        vec![
            Some(entry("feature", "refs/heads/feature", false, None)),
            Some(entry("Zeta", "refs/heads/Zeta", false, None)),
            Some(entry("feat", "refs/heads/feat", false, None)),
            Some(entry("\u{e9}t\u{e9}", "refs/heads/ete", false, None)),
        ],
    );
    assert_eq!(names(&branches), vec!["Zeta", "feat", "feature", "\u{e9}t\u{e9}"]);
}

#[test]
fn branches_empty_listing() {
    assert!(get_branches_info(false, Vec::new()).is_empty());
}

#[test]
fn test_delete_branch() {
    assert!(delete_branch(false).is_ok());
    assert!(matches!(delete_branch(true), Err(Error::CannotDeleteCurrentBranch)));
}

#[test]
fn delete_branch_then_listing_drops_it() {
    let before = get_branches_info(
        true,
        vec![
            Some(entry("branch1", "refs/heads/branch1", true, None)),
            Some(entry("branch2", "refs/heads/branch2", false, None)),
            Some(entry("master", "refs/heads/master", false, None)),
        ],
    );
    assert_eq!(names(&before), vec!["branch1", "branch2", "master"]);
    assert!(delete_branch(before[1].local_details().unwrap().is_head).is_ok());
    let after = get_branches_info(
        true,
        vec![
            Some(entry("branch1", "refs/heads/branch1", true, None)),
            Some(entry("master", "refs/heads/master", false, None)),
        ],
    );
    assert_eq!(names(&after), vec!["branch1", "master"]);
}

#[test]
fn local_name_of_remote_branch() {
    assert_eq!(local_branch_name(&String::from("origin/foo")), "foo");
    assert_eq!(local_branch_name(&String::from("origin/feature/x")), "x");
    assert_eq!(local_branch_name(&String::from("plain")), "plain");
    assert_eq!(local_branch_name(&String::from("origin/")), "");
}

#[test]
fn upstream_composed_from_default_remote() {
    let remotes = vec![Some(String::from("second")), Some(String::from("origin"))];
    let r = upstream_to_set(false, &remotes, &String::from("feature")).unwrap();
    assert_eq!(r, Some(String::from("origin/feature")));
}

#[test]
fn upstream_kept_when_present() {
    let remotes = vec![Some(String::from("origin"))];
    assert_eq!(upstream_to_set(true, &remotes, &String::from("feature")).unwrap(), None);
}

#[test]
fn upstream_without_default_remote() {
    let remotes = vec![Some(String::from("a")), Some(String::from("b"))];
    let r = upstream_to_set(false, &remotes, &String::from("feature"));
    assert!(matches!(r, Err(Error::NoDefaultRemoteFound)));
}

#[test]
fn pull_rebase_setting() {
    assert!(config_is_pull_rebase(&Some(String::from("true"))));
    assert!(!config_is_pull_rebase(&Some(String::from("false"))));
    assert!(!config_is_pull_rebase(&Some(String::from("True"))));
    assert!(!config_is_pull_rebase(&None));
}
