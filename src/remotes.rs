use vstd::prelude::*;
use vstd::string::StringExecFns;

use crate::error::Error;

verus! {

/// origin
pub const DEFAULT_REMOTE_NAME: &'static str = "origin";

/// The characters of [`DEFAULT_REMOTE_NAME`].
pub open spec fn origin() -> Seq<char> {
    seq!['o', 'r', 'i', 'g', 'i', 'n']
}

/// The names among `entries`, in order; an entry without a readable name is left out.
pub open spec fn present_names(entries: Seq<Option<String>>) -> Seq<String>
    decreases entries.len(),
{
    if entries.len() == 0 {
        Seq::empty()
    } else {
        let rest = present_names(entries.drop_last());
        match entries.last() {
            Some(n) => rest.push(n),
            None => rest,
        }
    }
}

/// Some entry of `remotes` is a remote named `origin`.
pub open spec fn has_origin(remotes: Seq<Option<String>>) -> bool {
    exists|i: int| 0 <= i < remotes.len() && #[trigger] remotes[i] is Some && remotes[i]->0@ == origin()
}

/// The default remote of a repository whose configured remotes are `remotes`:
/// `origin` if there is one, else the only remote, else none.
pub open spec fn default_remote_spec(remotes: Seq<Option<String>>) -> Option<Seq<char>> {
    if has_origin(remotes) {
        Some(origin())
    } else if remotes.len() == 1 && remotes[0] is Some {
        Some(remotes[0]->0@)
    } else {
        None
    }
}

/// The names of the configured remotes, given as the store lists them
/// (`None` for a name that is not valid UTF-8).
pub fn get_remotes(entries: &Vec<Option<String>>) -> (r: Vec<String>)
    ensures
        r@ == present_names(entries@),
{
    let mut r: Vec<String> = Vec::new();
    let mut i: usize = 0;
    while i < entries.len()
        invariant
            i <= entries.len(),
            r@ == present_names(entries@.subrange(0, i as int)),
        decreases entries.len() - i,
    {
        assert(entries@.subrange(0, i as int + 1).drop_last() =~= entries@.subrange(0, i as int));
        match &entries[i] {
            Some(n) => r.push(n.clone()),
            None => {},
        }
        i = i + 1;
    }
    assert(entries@.subrange(0, i as int) =~= entries@);
    r
}

/// Whether `s` reads `origin`.
fn is_origin(s: &String) -> (r: bool)
    ensures
        r == (s@ == origin()),
{
    let o = String::from_str(DEFAULT_REMOTE_NAME);
    proof {
        reveal_strlit("origin");
    }
    assert(DEFAULT_REMOTE_NAME@ =~= origin());
    *s == o
}

/// tries to find origin or the only remote that is defined if any
/// in case of multiple remotes and none named *origin* we fail
pub fn get_default_remote(remotes: &Vec<Option<String>>) -> (r: Result<String, Error>)
    ensures
        match default_remote_spec(remotes@) {
            Some(n) => r is Ok && r->Ok_0@ == n,
            None => if remotes@.len() == 1 {
                r is Err && r->Err_0 is Generic
            } else {
                r is Err && r->Err_0 is NoDefaultRemoteFound
            },
        },
{
    let mut i: usize = 0;
    while i < remotes.len()
        invariant
            i <= remotes.len(),
            forall|j: int| 0 <= j < i ==> !(#[trigger] remotes@[j] is Some && remotes@[j]->0@ == origin()),
        decreases remotes.len() - i,
    {
        match &remotes[i] {
            Some(n) => {
                if is_origin(n) {
                    proof {
                        reveal_strlit("origin");
                    }
                    assert(DEFAULT_REMOTE_NAME@ =~= origin());
                    return Ok(String::from_str(DEFAULT_REMOTE_NAME));
                }
            },
            None => {},
        }
        i = i + 1;
    }
    if remotes.len() == 1 {
        match &remotes[0] {
            Some(n) => Ok(n.clone()),
            None => Err(Error::Generic(String::from_str("no remote found"))),
        }
    } else {
        Err(Error::NoDefaultRemoteFound)
    }
}

} // verus!
