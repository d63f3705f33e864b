use asyncgit::error::Error;
use asyncgit::remotes::{get_default_remote, get_remotes};

fn remotes(names: &[&str]) -> Vec<Option<String>> {
    names.iter().map(|n| Some(n.to_string())).collect()
}

#[test]
fn mod_test_smoke() {
    let remotes = get_remotes(&remotes(&["origin"]));
    assert_eq!(remotes, vec![String::from("origin")]);
}

#[test]
fn test_default_remote() {
    let entries = remotes(&["origin", "second"]);
    assert_eq!(
        get_remotes(&entries),
        vec![String::from("origin"), String::from("second")]
    );
    let first = get_default_remote(&entries).unwrap();
    assert_eq!(first, String::from("origin"));
}

#[test]
fn test_default_remote_out_of_order() {
    let entries = remotes(&["alternate", "origin"]);
    assert_eq!(
        get_remotes(&entries),
        vec![String::from("alternate"), String::from("origin")]
    );
    let first = get_default_remote(&entries).unwrap();
    assert_eq!(first, String::from("origin"));
}

#[test]
fn test_default_remote_inconclusive() {
    let entries = remotes(&["alternate", "someremote"]);
    assert_eq!(
        get_remotes(&entries),
        vec![String::from("alternate"), String::from("someremote")]
    );
    let res = get_default_remote(&entries);
    assert_eq!(res.is_err(), true);
    assert!(matches!(res, Err(Error::NoDefaultRemoteFound)));
}

#[test]
fn default_remote_single_other_remote() {
    let res = get_default_remote(&remotes(&["alternate"]));
    assert_eq!(res.unwrap(), String::from("alternate"));
}

#[test]
fn default_remote_none_configured() {
    let res = get_default_remote(&Vec::new());
    assert!(matches!(res, Err(Error::NoDefaultRemoteFound)));
}

#[test]
fn default_remote_single_unreadable_name() {
    let res = get_default_remote(&vec![None]);
    assert!(matches!(res, Err(Error::Generic(_))));
}

#[test]
fn default_remote_origin_among_unreadable() {
    let res = get_default_remote(&vec![None, Some(String::from("origin")), None]);
    assert_eq!(res.unwrap(), String::from("origin"));
}

#[test]
fn remotes_leave_out_unreadable_names() {
    let r = get_remotes(&vec![Some(String::from("a")), None, Some(String::from("b"))]);
    assert_eq!(r, vec![String::from("a"), String::from("b")]);
}

#[test]
fn error_messages() {
    assert_eq!(Error::NoHead.message(), "head not found");
    assert_eq!(Error::MergeConflict.message(), "conflicts while merging");
    assert_eq!(Error::Git(String::from("boom")).message(), "boom");
    assert_eq!(
        Error::CannotDeleteCurrentBranch.message(),
        "you cannot delete the branch you are on, switch branch first"
    );
}
