use vstd::multiset::Multiset;
use vstd::prelude::*;
use vstd::seq_lib::{to_multiset_build, to_multiset_insert};
use vstd::string::StrSliceExecFns;

use vstd::string::StringExecFns;

use crate::error::Error;
use crate::remotes::{default_remote_spec, get_default_remote};

verus! {

/// The id of a commit: the 20 bytes of its hash.
#[derive(Debug, Clone, Copy, PartialEq, Eq)]
pub struct CommitId {
    pub id: [u8; 20],
}

/// What is known of a local branch beyond its name and top commit.
#[derive(Debug)]
pub struct LocalBranch {
    /// HEAD points to it
    pub is_head: bool,
    /// an upstream is configured for it
    pub has_upstream: bool,
    /// the remote of its upstream, where that resolves
    pub remote: Option<String>,
}

/// Whether a branch is local, with what is known of it then, or remote-tracking.
#[derive(Debug)]
pub enum BranchDetails {
    /// a local branch
    Local(LocalBranch),
    /// a remote-tracking branch
    Remote,
}

/// A summary of a branch, as shown in a listing.
#[derive(Debug)]
pub struct BranchInfo {
    /// the branch's short name
    pub name: String,
    /// the fully qualified name of its reference
    pub reference: String,
    /// the summary line of its top commit
    pub top_commit_message: String,
    /// its top commit
    pub top_commit: CommitId,
    /// local or remote, and what is known of it
    pub details: BranchDetails,
}

impl BranchInfo {
    /// returns details about local branch or None
    pub fn local_details(&self) -> (r: Option<&LocalBranch>)
        ensures
            r is Some <==> self.details is Local,
            r is Some ==> *r->0 == self.details->Local_0,
    {
        if let BranchDetails::Local(details) = &self.details {
            return Some(details);
        }
        None
    }
}

/// What was read of one branch of the reference store.
#[derive(Debug)]
pub struct BranchEntry {
    /// the branch's short name
    pub name: String,
    /// the fully qualified name of its reference
    pub reference: String,
    /// the summary line of its top commit
    pub top_commit_message: String,
    /// its top commit
    pub top_commit: CommitId,
    /// HEAD points to it
    pub is_head: bool,
    /// an upstream is configured for it
    pub has_upstream: bool,
    /// the remote of its upstream, where that resolves
    pub remote: Option<String>,
}

/// How many commits a branch is ahead of its upstream, and how many behind.
#[derive(Debug, Default)]
pub struct BranchCompare {
    /// commits of the branch that its upstream does not have
    pub ahead: usize,
    /// commits of the upstream that the branch does not have
    pub behind: usize,
}

/// `a` comes strictly before `b` in the lexicographic order of code points,
/// which is the order of their UTF-8 bytes.
pub open spec fn name_lt(a: Seq<char>, b: Seq<char>) -> bool
    decreases a.len(),
{
    if a.len() == 0 {
        b.len() > 0
    } else if b.len() == 0 {
        false
    } else if a[0] != b[0] {
        (a[0] as int) < (b[0] as int)
    } else {
        name_lt(a.drop_first(), b.drop_first())
    }
}

/// `a` does not come after `b`.
pub open spec fn name_le(a: Seq<char>, b: Seq<char>) -> bool {
    !name_lt(b, a)
}

proof fn lemma_name_lt_asymmetric(a: Seq<char>, b: Seq<char>)
    ensures
        name_lt(a, b) ==> !name_lt(b, a),
    decreases a.len(),
{
    if a.len() > 0 && b.len() > 0 && a[0] == b[0] {
        lemma_name_lt_asymmetric(a.drop_first(), b.drop_first());
    }
}

proof fn lemma_name_le_transitive(a: Seq<char>, b: Seq<char>, c: Seq<char>)
    ensures
        name_le(a, b) && name_le(b, c) ==> name_le(a, c),
    decreases a.len(),
{
    if a.len() > 0 && b.len() > 0 && c.len() > 0 {
        lemma_name_le_transitive(a.drop_first(), b.drop_first(), c.drop_first());
    }
}

/// Whether `a` comes strictly before `b`.
fn name_less(a: &String, b: &String) -> (r: bool)
    ensures
        r == name_lt(a@, b@),
{
    let sa = a.as_str();
    let sb = b.as_str();
    let la = sa.unicode_len();
    let lb = sb.unicode_len();
    let mut i: usize = 0;
    assert(a@.skip(0) =~= a@);
    assert(b@.skip(0) =~= b@);
    while i < la && i < lb
        invariant
            la == a@.len(),
            lb == b@.len(),
            sa@ == a@,
            sb@ == b@,
            i <= la,
            i <= lb,
            name_lt(a@, b@) == name_lt(a@.skip(i as int), b@.skip(i as int)),
        decreases la - i,
    {
        let ca = sa.get_char(i);
        let cb = sb.get_char(i);
        assert(a@.skip(i as int)[0] == ca);
        assert(b@.skip(i as int)[0] == cb);
        if ca != cb {
            return (ca as u32) < (cb as u32);
        }
        assert(a@.skip(i as int).drop_first() =~= a@.skip(i as int + 1));
        assert(b@.skip(i as int).drop_first() =~= b@.skip(i as int + 1));
        i = i + 1;
    }
    i < lb
}

/// The index of the first entry that HEAD points to, if any.
pub open spec fn is_first_head(branches: Seq<(bool, String)>, i: int) -> bool {
    &&& 0 <= i < branches.len()
    &&& branches[i].0
    &&& forall|j: int| 0 <= j < i ==> !(#[trigger] branches[j]).0
}

/// returns the branch-name head is currently pointing to, given for each branch
/// whether HEAD points to it and its name
pub fn get_branch_name(branches: &Vec<(bool, String)>) -> (r: Result<String, Error>)
    ensures
        r is Ok <==> exists|i: int| 0 <= i < branches@.len() && (#[trigger] branches@[i]).0,
        r is Ok ==> exists|i: int| is_first_head(branches@, i) && r->Ok_0@ == branches@[i].1@,
        r is Err ==> r->Err_0 is NoHead,
{
    let mut i: usize = 0;
    while i < branches.len()
        invariant
            i <= branches.len(),
            forall|j: int| 0 <= j < i ==> !(#[trigger] branches@[j]).0,
        decreases branches.len() - i,
    {
        if branches[i].0 {
            assert(is_first_head(branches@, i as int));
            return Ok(branches[i].1.clone());
        }
        i = i + 1;
    }
    Err(Error::NoHead)
}

/// The info shown for a branch read as `e`; `local` tells whether it is a local branch.
pub open spec fn info_of(local: bool, e: BranchEntry) -> BranchInfo {
    BranchInfo {
        name: e.name,
        reference: e.reference,
        top_commit_message: e.top_commit_message,
        top_commit: e.top_commit,
        details: if local {
            BranchDetails::Local(
                LocalBranch { is_head: e.is_head, has_upstream: e.has_upstream, remote: e.remote },
            )
        } else {
            BranchDetails::Remote
        },
    }
}

/// The infos of the entries that could be read, in order.
pub open spec fn readable_infos(local: bool, entries: Seq<Option<BranchEntry>>) -> Seq<BranchInfo>
    decreases entries.len(),
{
    if entries.len() == 0 {
        Seq::empty()
    } else {
        let rest = readable_infos(local, entries.drop_last());
        match entries.last() {
            Some(e) => rest.push(info_of(local, e)),
            None => rest,
        }
    }
}

/// No branch of `s` comes after a branch that follows it.
pub open spec fn sorted_by_name(s: Seq<BranchInfo>) -> bool {
    forall|i: int, j: int| 0 <= i < j < s.len() ==> name_le(#[trigger] s[i].name@, #[trigger] s[j].name@)
}

fn make_info(local: bool, e: BranchEntry) -> (r: BranchInfo)
    ensures
        r == info_of(local, e),
{
    let details = if local {
        BranchDetails::Local(
            LocalBranch { is_head: e.is_head, has_upstream: e.has_upstream, remote: e.remote },
        )
    } else {
        BranchDetails::Remote
    };
    BranchInfo {
        name: e.name,
        reference: e.reference,
        top_commit_message: e.top_commit_message,
        top_commit: e.top_commit,
        details,
    }
}

/// Puts `x` into the sorted `out`, before the first branch that does not come before it.
fn insert_sorted(out: &mut Vec<BranchInfo>, x: BranchInfo)
    requires
        sorted_by_name(old(out)@),
    ensures
        sorted_by_name(final(out)@),
        final(out)@.to_multiset() == old(out)@.to_multiset().insert(x),
{
    let mut p: usize = 0;
    while p < out.len() && name_less(&out[p].name, &x.name)
        invariant
            p <= out.len(),
            forall|k: int| 0 <= k < p ==> name_lt(#[trigger] out@[k].name@, x.name@),
        decreases out.len() - p,
    {
        p = p + 1;
    }
    let ghost before = out@;
    proof {
        if p < before.len() {
            assert forall|k: int| p <= k < before.len() implies name_le(x.name@, #[trigger] before[k].name@) by {
                if k > p {
                    lemma_name_le_transitive(x.name@, before[p as int].name@, before[k].name@);
                }
            }
        }
        assert forall|k: int| 0 <= k < p implies name_le(#[trigger] before[k].name@, x.name@) by {
            lemma_name_lt_asymmetric(before[k].name@, x.name@);
        }
        to_multiset_insert(before, p as int, x);
    }
    out.insert(p, x);
    proof {
        let now = out@;
        assert forall|i: int, j: int| 0 <= i < j < now.len() implies name_le(#[trigger] now[i].name@, #[trigger] now[j].name@) by {
            if j < p {
                assert(now[i] == before[i] && now[j] == before[j]);
            } else if j == p {
                assert(now[i] == before[i]);
            } else if i < p {
                assert(now[i] == before[i] && now[j] == before[j - 1]);
                lemma_name_le_transitive(before[i].name@, now[p as int].name@, before[j - 1].name@);
            } else if i == p {
                assert(now[j] == before[j - 1]);
            } else {
                assert(now[i] == before[i - 1] && now[j] == before[j - 1]);
            }
        }
    }
}

/// returns a list of `BranchInfo` with a simple summary on each branch, given what was
/// read of each branch (`None` for one that could not be read, which is left out),
/// sorted by name; `local` tells whether these are local branches or remote ones
pub fn get_branches_info(local: bool, entries: Vec<Option<BranchEntry>>) -> (r: Vec<BranchInfo>)
    ensures
        sorted_by_name(r@),
        r@.to_multiset() == readable_infos(local, entries@).to_multiset(),
{
    broadcast use vstd::seq_lib::group_to_multiset_ensures;

    let ghost all = entries@;
    let mut entries = entries;
    let mut out: Vec<BranchInfo> = Vec::new();
    assert(readable_infos(local, entries@).to_multiset().add(out@.to_multiset())
        =~= readable_infos(local, all).to_multiset());
    while entries.len() > 0
        invariant
            sorted_by_name(out@),
            readable_infos(local, entries@).to_multiset().add(out@.to_multiset())
                == readable_infos(local, all).to_multiset(),
        decreases entries.len(),
    {
        let ghost prev = entries@;
        let e = entries.pop().unwrap();
        assert(prev.drop_last() =~= entries@);
        match e {
            Some(e) => {
                let info = make_info(local, e);
                let ghost old_out = out@;
                proof {
                    to_multiset_build(readable_infos(local, entries@), info);
                }
                insert_sorted(&mut out, info);
                assert(readable_infos(local, entries@).to_multiset().add(out@.to_multiset())
                    =~= readable_infos(local, prev).to_multiset().add(old_out.to_multiset()));
            },
            None => {},
        }
    }
    assert(readable_infos(local, entries@).to_multiset() =~= Multiset::empty());
    out
}

/// The upstream to configure for a local branch named `branch_name`: none where it
/// has one already (`has_upstream`), else `<default remote>/<branch_name>`, where
/// `remotes` are the configured remotes.
pub fn upstream_to_set(has_upstream: bool, remotes: &Vec<Option<String>>, branch_name: &String) -> (r: Result<
    Option<String>,
    Error,
>)
    ensures
        has_upstream ==> r is Ok && r->Ok_0 is None,
        !has_upstream ==> match default_remote_spec(remotes@) {
            Some(n) => r is Ok && r->Ok_0 is Some && r->Ok_0->0@ == n + seq!['/'] + branch_name@,
            None => r is Err && (if remotes@.len() == 1 {
                r->Err_0 is Generic
            } else {
                r->Err_0 is NoDefaultRemoteFound
            }),
        },
{
    if has_upstream {
        return Ok(None);
    }
    match get_default_remote(remotes) {
        Ok(remote) => {
            let mut name = remote;
            name.append("/");
            proof {
                reveal_strlit("/");
            }
            name.append(branch_name.as_str());
            Ok(Some(name))
        },
        Err(e) => Err(e),
    }
}

/// Whether `i` is the position of the last `/` in `s`.
pub open spec fn is_last_slash(s: Seq<char>, i: int) -> bool {
    &&& 0 <= i < s.len()
    &&& s[i] == '/'
    &&& forall|j: int| i < j < s.len() ==> #[trigger] s[j] != '/'
}

/// The name of the local branch that tracks the remote branch `remote_name`:
/// what follows its last `/` (`origin/foo` gives `foo`), or the whole name where it has none.
pub open spec fn local_name_spec(remote_name: Seq<char>) -> Seq<char> {
    if exists|i: int| is_last_slash(remote_name, i) {
        let i = choose|i: int| is_last_slash(remote_name, i);
        remote_name.skip(i + 1)
    } else {
        remote_name
    }
}

/// The name of the local branch that tracks the remote branch named `remote_name`.
pub fn local_branch_name(remote_name: &String) -> (r: String)
    ensures
        r@ == local_name_spec(remote_name@),
{
    let s = remote_name.as_str();
    let len = s.unicode_len();
    let mut i: usize = len;
    while i > 0
        invariant
            i <= len,
            len == s@.len(),
            s@ == remote_name@,
            forall|j: int| i <= j < len ==> #[trigger] s@[j] != '/',
        decreases i,
    {
        if s.get_char(i - 1) == '/' {
            let ghost k = i - 1;
            assert(is_last_slash(s@, k as int));
            proof {
                let c = choose|c: int| is_last_slash(s@, c);
                assert(c == k as int);
            }
            return String::from_str(s.substring_char(i, len));
        }
        i = i - 1;
    }
    assert(s@.subrange(0, len as int) =~= s@);
    String::from_str(s.substring_char(0, len))
}

/// The characters of `true`.
pub open spec fn true_text() -> Seq<char> {
    seq!['t', 'r', 'u', 'e']
}

/// returns whether the pull merge strategy is set to rebase, given the value of
/// the setting `pull.rebase` (`None` where it is not set)
pub fn config_is_pull_rebase(value: &Option<String>) -> (r: bool)
    ensures
        r == (value is Some && value->0@ == true_text()),
{
    match value {
        Some(v) => {
            let t = String::from_str("true");
            proof {
                reveal_strlit("true");
            }
            assert(t@ =~= true_text());
            *v == t
        },
        None => false,
    }
}

/// The user must not be on the branch for the branch to be deleted: fails where
/// HEAD points to it (`is_head`)
pub fn delete_branch(is_head: bool) -> (r: Result<(), Error>)
    ensures
        r is Err <==> is_head,
        r is Err ==> r->Err_0 is CannotDeleteCurrentBranch,
{
    if is_head {
        Err(Error::CannotDeleteCurrentBranch)
    } else {
        Ok(())
    }
}

} // verus!
