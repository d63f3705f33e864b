//! Switching HEAD to a branch, only where the working tree is clean, and putting
//! HEAD back where the checkout of the working tree fails.
//!
//! As for a rebase, the decisions are made here and the driver runs the actions
//! on the repository, handing back one event for each, until an action `Return`
//! ends the checkout.
use vstd::prelude::*;

use crate::branch::{local_branch_name, local_name_spec, BranchInfo, CommitId};
use crate::error::Error;

verus! {

/// Where a checkout stands.
#[derive(Debug)]
pub enum CheckoutPhase {
    /// waiting for the local branch to be created; it is to track this upstream
    Creating(String),
    /// waiting for the upstream of the created branch to be set
    SettingUpstream,
    /// waiting for HEAD to point to the target
    Switching,
    /// waiting for the working tree to be checked out from HEAD
    CheckingOut,
    /// waiting for HEAD to point to where it pointed before; the error is reported after that
    Restoring(Error),
    /// waiting for the created branch to be deleted; the error is reported after that
    Deleting(Error),
    /// the checkout is over
    Done,
}

/// What the driver of a checkout does next.
#[derive(Debug)]
pub enum CheckoutAction {
    /// create the local branch `name` at `commit`, and report the name of its reference
    CreateBranch { name: String, commit: CommitId },
    /// let the branch of reference `reference` track `upstream`
    SetUpstream { reference: String, upstream: String },
    /// let HEAD point to this reference
    SetHead(String),
    /// check the working tree out from HEAD, overwriting it
    CheckoutHead,
    /// let HEAD point again to this reference, where it pointed before
    RestoreHead(String),
    /// delete the branch of this reference, which the checkout created
    DeleteBranch(String),
    /// the checkout is over with this result
    Return(Result<(), Error>),
}

/// What the driver of a checkout reports of the action it ran.
#[derive(Debug)]
pub enum CheckoutEvent {
    /// the branch was created; the name of its reference
    Created(String),
    /// the action succeeded
    Succeeded,
    /// the action failed with this error
    Failed(Error),
}

/// A checkout of a branch.
#[derive(Debug)]
pub struct CheckoutGuard {
    /// the reference that HEAD pointed to before the checkout
    pub previous: String,
    /// the reference of the branch that the checkout created, if any
    pub created: Option<String>,
    /// where the checkout stands
    pub phase: CheckoutPhase,
}

/// `event` answers the action that a checkout in `phase` asked for.
pub open spec fn answers(phase: CheckoutPhase, event: CheckoutEvent) -> bool {
    match phase {
        CheckoutPhase::Creating(_) => event is Created || event is Failed,
        CheckoutPhase::Done => false,
        _ => event is Succeeded || event is Failed,
    }
}

/// The checkout is consistent: a branch was created exactly where one is set up or deleted.
pub open spec fn guard_wf(g: CheckoutGuard) -> bool {
    &&& (g.phase is Creating ==> g.created is None)
    &&& (g.phase is SettingUpstream || g.phase is Deleting ==> g.created is Some)
}

/// How a checkout ends with the error `e`: the branch it created, if any, is deleted first.
pub open spec fn fail_with(g: CheckoutGuard, e: Error) -> (CheckoutGuard, CheckoutAction) {
    match g.created {
        Some(r) => (CheckoutGuard { phase: CheckoutPhase::Deleting(e), ..g }, CheckoutAction::DeleteBranch(r)),
        None => (CheckoutGuard { phase: CheckoutPhase::Done, ..g }, CheckoutAction::Return(Err(e))),
    }
}

/// The checkout after `event`, which answers its last action, and the action that follows.
pub open spec fn checkout_step(g: CheckoutGuard, event: CheckoutEvent) -> (CheckoutGuard, CheckoutAction) {
    let done = CheckoutGuard { phase: CheckoutPhase::Done, ..g };
    match g.phase {
        CheckoutPhase::Creating(upstream) => match event {
            CheckoutEvent::Created(reference) => (
                CheckoutGuard { created: Some(reference), phase: CheckoutPhase::SettingUpstream, ..g },
                CheckoutAction::SetUpstream { reference, upstream },
            ),
            CheckoutEvent::Failed(e) => (done, CheckoutAction::Return(Err(e))),
            _ => (g, CheckoutAction::Return(Ok(()))),
        },
        CheckoutPhase::SettingUpstream => match event {
            CheckoutEvent::Failed(e) => fail_with(g, e),
            _ => (
                CheckoutGuard { phase: CheckoutPhase::Switching, ..g },
                CheckoutAction::SetHead(g.created->0),
            ),
        },
        CheckoutPhase::Switching => match event {
            CheckoutEvent::Failed(e) => fail_with(g, e),
            _ => (CheckoutGuard { phase: CheckoutPhase::CheckingOut, ..g }, CheckoutAction::CheckoutHead),
        },
        CheckoutPhase::CheckingOut => match event {
            CheckoutEvent::Failed(e) => (
                CheckoutGuard { phase: CheckoutPhase::Restoring(e), ..g },
                CheckoutAction::RestoreHead(g.previous),
            ),
            _ => (done, CheckoutAction::Return(Ok(()))),
        },
        CheckoutPhase::Restoring(pending) => match event {
            CheckoutEvent::Failed(e) => fail_with(g, e),
            _ => fail_with(g, pending),
        },
        CheckoutPhase::Deleting(pending) => match event {
            CheckoutEvent::Failed(e) => (done, CheckoutAction::Return(Err(e))),
            _ => (done, CheckoutAction::Return(Err(pending))),
        },
        CheckoutPhase::Done => (g, CheckoutAction::Return(Ok(()))),
    }
}

/// Modify HEAD to point to a branch then checkout head, does not work if there are
/// uncommitted changes: starts the checkout of `branch_ref`, where HEAD points to
/// `previous_head` and `clean` tells whether the working tree holds no change
pub fn checkout_branch(previous_head: String, clean: bool, branch_ref: &String) -> (r: (
    CheckoutGuard,
    CheckoutAction,
))
    ensures
        guard_wf(r.0),
        r.0.previous == previous_head,
        r.0.created is None,
        clean ==> r.0.phase is Switching && r.1 is SetHead && r.1->SetHead_0@ == branch_ref@,
        !clean ==> r.0.phase is Done && r.1 is Return && r.1->Return_0 is Err
            && r.1->Return_0->Err_0 is UncommittedChanges,
{
    if clean {
        (
            CheckoutGuard { previous: previous_head, created: None, phase: CheckoutPhase::Switching },
            CheckoutAction::SetHead(branch_ref.clone()),
        )
    } else {
        (
            CheckoutGuard { previous: previous_head, created: None, phase: CheckoutPhase::Done },
            CheckoutAction::Return(Err(Error::UncommittedChanges)),
        )
    }
}

/// The checkout of a remote branch `branch` just started, where HEAD points to `previous`.
pub open spec fn remote_checkout_start(previous: String, branch: BranchInfo) -> CheckoutGuard {
    CheckoutGuard { previous, created: None, phase: CheckoutPhase::Creating(branch.name) }
}

/// Starts the checkout of a new local branch that tracks the remote branch `branch`
/// and starts at its top commit, where HEAD points to `previous_head` and `clean`
/// tells whether the working tree holds no change
pub fn checkout_remote_branch(previous_head: String, clean: bool, branch: &BranchInfo) -> (r: (
    CheckoutGuard,
    CheckoutAction,
))
    ensures
        guard_wf(r.0),
        clean ==> r.0 == remote_checkout_start(previous_head, *branch) && r.1 is CreateBranch
            && r.1->name@ == local_name_spec(branch.name@)
            && r.1->commit == branch.top_commit,
        !clean ==> r.0.previous == previous_head && r.0.created is None && r.0.phase is Done
            && r.1 is Return && r.1->Return_0 is Err && r.1->Return_0->Err_0 is UncommittedChanges,
{
    if clean {
        let name = local_branch_name(&branch.name);
        (
            CheckoutGuard {
                previous: previous_head,
                created: None,
                phase: CheckoutPhase::Creating(branch.name.clone()),
            },
            CheckoutAction::CreateBranch { name, commit: branch.top_commit },
        )
    } else {
        (
            CheckoutGuard { previous: previous_head, created: None, phase: CheckoutPhase::Done },
            CheckoutAction::Return(Err(Error::UncommittedChanges)),
        )
    }
}

impl CheckoutGuard {
    /// The checkout is over.
    pub fn is_done(&self) -> (r: bool)
        ensures
            r == self.phase is Done,
    {
        matches!(self.phase, CheckoutPhase::Done)
    }

    /// Ends the checkout with the error `e`, deleting first the branch it created.
    fn fail(&mut self, e: Error) -> (a: CheckoutAction)
        ensures
            (*final(self), a) == fail_with(*old(self), e),
    {
        match &self.created {
            Some(r) => {
                let r = r.clone();
                self.phase = CheckoutPhase::Deleting(e);
                CheckoutAction::DeleteBranch(r)
            },
            None => {
                self.phase = CheckoutPhase::Done;
                CheckoutAction::Return(Err(e))
            },
        }
    }

    /// Takes in what the last action gave, and returns the action that follows.
    pub fn step(&mut self, event: CheckoutEvent) -> (a: CheckoutAction)
        requires
            guard_wf(*old(self)),
            answers(old(self).phase, event),
        ensures
            guard_wf(*final(self)),
            (*final(self), a) == checkout_step(*old(self), event),
    {
        let mut phase = CheckoutPhase::Done;
        std::mem::swap(&mut phase, &mut self.phase);
        match phase {
            CheckoutPhase::Creating(upstream) => match event {
                CheckoutEvent::Created(reference) => {
                    self.created = Some(reference.clone());
                    self.phase = CheckoutPhase::SettingUpstream;
                    CheckoutAction::SetUpstream { reference, upstream }
                },
                CheckoutEvent::Failed(e) => CheckoutAction::Return(Err(e)),
                _ => CheckoutAction::Return(Ok(())),
            },
            CheckoutPhase::SettingUpstream => match event {
                CheckoutEvent::Failed(e) => self.fail(e),
                _ => {
                    self.phase = CheckoutPhase::Switching;
                    match &self.created {
                        Some(r) => CheckoutAction::SetHead(r.clone()),
                        None => CheckoutAction::Return(Ok(())),
                    }
                },
            },
            CheckoutPhase::Switching => match event {
                CheckoutEvent::Failed(e) => self.fail(e),
                _ => {
                    self.phase = CheckoutPhase::CheckingOut;
                    CheckoutAction::CheckoutHead
                },
            },
            CheckoutPhase::CheckingOut => match event {
                CheckoutEvent::Failed(e) => {
                    self.phase = CheckoutPhase::Restoring(e);
                    CheckoutAction::RestoreHead(self.previous.clone())
                },
                _ => CheckoutAction::Return(Ok(())),
            },
            CheckoutPhase::Restoring(pending) => match event {
                CheckoutEvent::Failed(e) => self.fail(e),
                _ => self.fail(pending),
            },
            CheckoutPhase::Deleting(pending) => match event {
                CheckoutEvent::Failed(e) => CheckoutAction::Return(Err(e)),
                _ => CheckoutAction::Return(Err(pending)),
            },
            CheckoutPhase::Done => CheckoutAction::Return(Ok(())),
        }
    }
}

/// The actions that a checkout in `g` asks for, one per event of `events`, as long as
/// each event answers the action before it.
pub open spec fn checkout_run(g: CheckoutGuard, events: Seq<CheckoutEvent>) -> Seq<CheckoutAction>
    decreases events.len(),
{
    if events.len() == 0 || !answers(g.phase, events[0]) {
        Seq::empty()
    } else {
        let (next, a) = checkout_step(g, events[0]);
        seq![a] + checkout_run(next, events.drop_first())
    }
}

proof fn lemma_deleting_ends_in_error(g: CheckoutGuard, events: Seq<CheckoutEvent>)
    requires
        g.phase is Deleting,
    ensures
        checkout_run(g, events).len() <= 1,
        checkout_run(g, events).len() == 1 ==> checkout_run(g, events)[0] is Return
            && checkout_run(g, events)[0]->Return_0 is Err,
{
    if events.len() > 0 && answers(g.phase, events[0]) {
        let (next, a) = checkout_step(g, events[0]);
        assert(checkout_run(next, events.drop_first()) =~= Seq::empty());
    }
}

/// Where checking the working tree out fails after HEAD was moved, HEAD is moved back
/// to where it pointed before; then the branch that the checkout created, if any, is
/// deleted; only then does the checkout end, in an error.
pub proof fn lemma_checkout_failure_restores_head(g: CheckoutGuard, e: Error, events: Seq<CheckoutEvent>)
    requires
        g.phase is CheckingOut,
    ensures
        ({
            let actions = checkout_run(g, seq![CheckoutEvent::Failed(e)] + events);
            &&& actions[0] == CheckoutAction::RestoreHead(g.previous)
            &&& g.created is None ==> actions.len() <= 2 && (actions.len() == 2 ==> actions[1] is Return
                && actions[1]->Return_0 is Err)
            &&& g.created is None && events.len() > 0 && events[0] is Succeeded ==> actions[1]
                == CheckoutAction::Return(Err(e))
            &&& g.created is Some ==> actions.len() <= 3 && (actions.len() >= 2 ==> actions[1]
                == CheckoutAction::DeleteBranch(g.created->0)) && (actions.len() == 3 ==> actions[2] is Return
                && actions[2]->Return_0 is Err)
        }),
{
    let all = seq![CheckoutEvent::Failed(e)] + events;
    assert(all[0] == CheckoutEvent::Failed(e));
    assert(all.drop_first() =~= events);
    let (next, a) = checkout_step(g, all[0]);
    assert(checkout_run(g, all) == seq![a] + checkout_run(next, events));
    if events.len() > 0 && answers(next.phase, events[0]) {
        let (last, b) = checkout_step(next, events[0]);
        assert(checkout_run(next, events) == seq![b] + checkout_run(last, events.drop_first()));
        if g.created is None {
            assert(last.phase is Done);
            assert(checkout_run(last, events.drop_first()) =~= Seq::empty());
        } else {
            lemma_deleting_ends_in_error(last, events.drop_first());
        }
    }
}

proof fn lemma_created_branch_deleted_on_error(g: CheckoutGuard, events: Seq<CheckoutEvent>)
    requires
        g.created is Some,
        g.phase is SettingUpstream || g.phase is Switching || g.phase is CheckingOut || g.phase is Restoring,
    ensures
        ({
            let actions = checkout_run(g, events);
            &&& forall|k: int|
                0 <= k < actions.len() && (#[trigger] actions[k]) is Return && actions[k]->Return_0 is Err
                    ==> k > 0 && actions[k - 1] == CheckoutAction::DeleteBranch(g.created->0)
            &&& forall|k: int|
                0 <= k < actions.len() - 1 && (#[trigger] actions[k]) is CheckoutHead ==> actions[k + 1]
                    == CheckoutAction::Return(Ok(())) || actions[k + 1] == CheckoutAction::RestoreHead(
                    g.previous,
                )
        }),
    decreases events.len(),
{
    if events.len() > 0 && answers(g.phase, events[0]) {
        let (next, a) = checkout_step(g, events[0]);
        let rest = checkout_run(next, events.drop_first());
        let acts = checkout_run(g, events);
        assert(acts == seq![a] + rest);
        if next.phase is Deleting {
            lemma_deleting_ends_in_error(next, events.drop_first());
            assert(a == CheckoutAction::DeleteBranch(g.created->0));
        } else if next.phase is Done {
            assert(rest =~= Seq::empty());
        } else {
            lemma_created_branch_deleted_on_error(next, events.drop_first());
            if a is CheckoutHead && rest.len() > 0 {
                let ev = events.drop_first();
                assert(rest[0] == checkout_step(next, ev[0]).1);
            }
            assert forall|k: int|
                0 <= k < acts.len() && (#[trigger] acts[k]) is Return && acts[k]->Return_0 is Err implies k > 0
                    && acts[k - 1] == CheckoutAction::DeleteBranch(g.created->0) by {
                if k > 0 {
                    assert(acts[k] == rest[k - 1]);
                    if k > 1 {
                        assert(acts[k - 1] == rest[k - 2]);
                    }
                }
            }
            assert forall|k: int|
                0 <= k < acts.len() - 1 && (#[trigger] acts[k]) is CheckoutHead implies acts[k + 1]
                    == CheckoutAction::Return(Ok(())) || acts[k + 1] == CheckoutAction::RestoreHead(g.previous) by {
                assert(acts[k + 1] == rest[k]);
                if k > 0 {
                    assert(acts[k] == rest[k - 1]);
                }
            }
        }
    }
}

/// A checkout of a remote branch that fails after it created the local branch deletes
/// that branch right before it returns the error; and where it failed after HEAD was
/// moved and the working tree checkout was asked for, it first moved HEAD back to where
/// it pointed before.
pub proof fn lemma_remote_checkout_failure_removes_branch(
    previous: String,
    branch: BranchInfo,
    events: Seq<CheckoutEvent>,
)
    ensures
        ({
            let actions = checkout_run(remote_checkout_start(previous, branch), events);
            events.len() > 0 && events[0] is Created ==> {
                &&& forall|k: int|
                    0 <= k < actions.len() && (#[trigger] actions[k]) is Return && actions[k]->Return_0 is Err
                        ==> k > 0 && actions[k - 1] == CheckoutAction::DeleteBranch(events[0]->Created_0)
                &&& forall|k: int|
                    0 <= k < actions.len() - 1 && (#[trigger] actions[k]) is CheckoutHead ==> actions[k + 1]
                        == CheckoutAction::Return(Ok(())) || actions[k + 1] == CheckoutAction::RestoreHead(
                        previous,
                    )
            }
        }),
{
    let g = remote_checkout_start(previous, branch);
    if events.len() > 0 && events[0] is Created {
        let (next, a) = checkout_step(g, events[0]);
        let rest = checkout_run(next, events.drop_first());
        let acts = checkout_run(g, events);
        assert(acts == seq![a] + rest);
        lemma_created_branch_deleted_on_error(next, events.drop_first());
        assert forall|k: int|
            0 <= k < acts.len() && (#[trigger] acts[k]) is Return && acts[k]->Return_0 is Err implies k > 0
                && acts[k - 1] == CheckoutAction::DeleteBranch(events[0]->Created_0) by {
            if k > 0 {
                assert(acts[k] == rest[k - 1]);
                if k > 1 {
                    assert(acts[k - 1] == rest[k - 2]);
                }
            }
        }
        assert forall|k: int|
            0 <= k < acts.len() - 1 && (#[trigger] acts[k]) is CheckoutHead implies acts[k + 1]
                == CheckoutAction::Return(Ok(())) || acts[k + 1] == CheckoutAction::RestoreHead(previous) by {
            assert(acts[k + 1] == rest[k]);
            if k > 0 {
                assert(acts[k] == rest[k - 1]);
            }
        }
    }
}

} // verus!
