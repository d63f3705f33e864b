//! merging from upstream (rebase)
//!
//! The rebase of the checked out branch onto its upstream is a session of
//! operations, each of which replays one commit. The decisions of that session
//! are made here: which primitive to run next, given what the previous one
//! reported. Whoever drives the session runs the actions on the repository and
//! hands back the events, until an action `Return` ends it.
use vstd::prelude::*;
use vstd::string::StringExecFns;

use crate::error::Error;

verus! {

/// Where a rebase stands.
#[derive(Debug)]
pub enum RebasePhase {
    /// waiting for the session to be opened
    Opening,
    /// waiting for the operation at the cursor to be applied
    Applying,
    /// waiting for the applied operation to be committed
    Committing,
    /// waiting for the session to be finished
    Finishing,
    /// waiting for the session to be aborted; the error is reported after that
    Aborting(Error),
    /// the rebase is over
    Done,
}

/// What the driver of a rebase does next.
#[derive(Debug)]
pub enum RebaseAction {
    /// open a rebase session of the branch onto its upstream
    Open,
    /// apply the next operation of the session, and report whether the index holds conflicts
    ApplyNext,
    /// commit the applied operation, keeping its message and author
    Commit,
    /// finish the session: the branch points to the last replayed commit
    Finish,
    /// abort the session: the branch and the working tree are as before the rebase
    Abort,
    /// the rebase is over with this result
    Return(Result<(), Error>),
}

/// What the driver of a rebase reports of the action it ran.
#[derive(Debug)]
pub enum RebaseEvent {
    /// the session was opened with this many operations
    Opened(usize),
    /// the next operation was applied; whether the index holds conflicts
    Applied(bool),
    /// the commit, finish or abort succeeded
    Succeeded,
    /// the action failed with this error
    Failed(Error),
}

/// A rebase of the checked out branch onto its upstream.
#[derive(Debug)]
pub struct RebaseSession {
    /// the number of operations of the session
    pub total: usize,
    /// the number of operations applied and committed
    pub cursor: usize,
    /// where the rebase stands
    pub phase: RebasePhase,
}

/// `event` answers the action that a session in `phase` asked for.
pub open spec fn answers(phase: RebasePhase, event: RebaseEvent) -> bool {
    match phase {
        RebasePhase::Opening => event is Opened || event is Failed,
        RebasePhase::Applying => event is Applied || event is Failed,
        RebasePhase::Committing | RebasePhase::Finishing | RebasePhase::Aborting(_) => event is Succeeded
            || event is Failed,
        RebasePhase::Done => false,
    }
}

/// The session is consistent: the cursor stays within the operations, and an
/// operation is pending while one is applied or committed.
pub open spec fn session_wf(s: RebaseSession) -> bool {
    &&& s.cursor <= s.total
    &&& (s.phase is Applying || s.phase is Committing) ==> s.cursor < s.total
    &&& s.phase is Finishing ==> s.cursor == s.total
    &&& s.phase is Opening ==> s.cursor == 0 && s.total == 0
}

/// The session after `event`, which answers its last action, and the action that follows.
/// Once the session is open, every failure aborts it before the error is returned.
pub open spec fn rebase_step(s: RebaseSession, event: RebaseEvent) -> (RebaseSession, RebaseAction) {
    match s.phase {
        RebasePhase::Opening => match event {
            RebaseEvent::Opened(n) => if n == 0 {
                (RebaseSession { total: 0, cursor: 0, phase: RebasePhase::Finishing }, RebaseAction::Finish)
            } else {
                (RebaseSession { total: n, cursor: 0, phase: RebasePhase::Applying }, RebaseAction::ApplyNext)
            },
            RebaseEvent::Failed(e) => (
                RebaseSession { phase: RebasePhase::Done, ..s },
                RebaseAction::Return(Err(e)),
            ),
            _ => (s, RebaseAction::Open),
        },
        RebasePhase::Applying => match event {
            RebaseEvent::Applied(conflicts) => if conflicts {
                (RebaseSession { phase: RebasePhase::Aborting(Error::MergeConflict), ..s }, RebaseAction::Abort)
            } else {
                (RebaseSession { phase: RebasePhase::Committing, ..s }, RebaseAction::Commit)
            },
            RebaseEvent::Failed(e) => (RebaseSession { phase: RebasePhase::Aborting(e), ..s }, RebaseAction::Abort),
            _ => (s, RebaseAction::ApplyNext),
        },
        RebasePhase::Committing => match event {
            RebaseEvent::Succeeded => if s.cursor + 1 < s.total {
                (
                    RebaseSession { cursor: (s.cursor + 1) as usize, phase: RebasePhase::Applying, ..s },
                    RebaseAction::ApplyNext,
                )
            } else {
                (
                    RebaseSession { cursor: (s.cursor + 1) as usize, phase: RebasePhase::Finishing, ..s },
                    RebaseAction::Finish,
                )
            },
            RebaseEvent::Failed(e) => (RebaseSession { phase: RebasePhase::Aborting(e), ..s }, RebaseAction::Abort),
            _ => (s, RebaseAction::Commit),
        },
        RebasePhase::Finishing => match event {
            RebaseEvent::Succeeded => (
                RebaseSession { phase: RebasePhase::Done, ..s },
                RebaseAction::Return(Ok(())),
            ),
            RebaseEvent::Failed(e) => (RebaseSession { phase: RebasePhase::Aborting(e), ..s }, RebaseAction::Abort),
            _ => (s, RebaseAction::Finish),
        },
        RebasePhase::Aborting(pending) => match event {
            RebaseEvent::Failed(e) => (
                RebaseSession { phase: RebasePhase::Done, ..s },
                RebaseAction::Return(Err(e)),
            ),
            _ => (RebaseSession { phase: RebasePhase::Done, ..s }, RebaseAction::Return(Err(pending))),
        },
        RebasePhase::Done => (s, RebaseAction::Return(Ok(()))),
    }
}

/// The characters of the error for a branch that is not checked out.
pub open spec fn not_head_text() -> Seq<char> {
    seq![
        'c', 'a', 'n', ' ', 'o', 'n', 'l', 'y', ' ', 'r', 'e', 'b', 'a', 's', 'e', ' ', 'i', 'n', ' ',
        'h', 'e', 'a', 'd', ' ', 'b', 'r', 'a', 'n', 'c', 'h',
    ]
}

/// trys merging current branch with its upstream using rebase: starts the rebase of
/// `branch_name`, where `head_branch` is the branch that HEAD points to; only that
/// branch can be rebased
pub fn merge_upstream_rebase(head_branch: &String, branch_name: &String) -> (r: (RebaseSession, RebaseAction))
    ensures
        session_wf(r.0),
        r.0.cursor == 0 && r.0.total == 0,
        head_branch@ == branch_name@ ==> r.0.phase is Opening && r.1 is Open,
        head_branch@ != branch_name@ ==> r.0.phase is Done && r.1 is Return && r.1->Return_0 is Err
            && r.1->Return_0->Err_0 is Generic && r.1->Return_0->Err_0->Generic_0@ == not_head_text(),
{
    if *head_branch == *branch_name {
        (RebaseSession { total: 0, cursor: 0, phase: RebasePhase::Opening }, RebaseAction::Open)
    } else {
        let m = String::from_str("can only rebase in head branch");
        proof {
            reveal_strlit("can only rebase in head branch");
        }
        assert(m@ =~= not_head_text());
        (RebaseSession { total: 0, cursor: 0, phase: RebasePhase::Done }, RebaseAction::Return(Err(Error::Generic(m))))
    }
}

impl RebaseSession {
    /// The rebase is over.
    pub fn is_done(&self) -> (r: bool)
        ensures
            r == self.phase is Done,
    {
        matches!(self.phase, RebasePhase::Done)
    }

    /// Takes in what the last action gave, and returns the action that follows.
    pub fn step(&mut self, event: RebaseEvent) -> (a: RebaseAction)
        requires
            session_wf(*old(self)),
            answers(old(self).phase, event),
        ensures
            session_wf(*final(self)),
            (*final(self), a) == rebase_step(*old(self), event),
    {
        let mut phase = RebasePhase::Done;
        std::mem::swap(&mut phase, &mut self.phase);
        match phase {
            RebasePhase::Opening => match event {
                RebaseEvent::Opened(n) => {
                    self.total = n;
                    if n == 0 {
                        self.phase = RebasePhase::Finishing;
                        RebaseAction::Finish
                    } else {
                        self.phase = RebasePhase::Applying;
                        RebaseAction::ApplyNext
                    }
                },
                RebaseEvent::Failed(e) => RebaseAction::Return(Err(e)),
                _ => RebaseAction::Open,
            },
            RebasePhase::Applying => match event {
                RebaseEvent::Applied(conflicts) => {
                    if conflicts {
                        self.phase = RebasePhase::Aborting(Error::MergeConflict);
                        RebaseAction::Abort
                    } else {
                        self.phase = RebasePhase::Committing;
                        RebaseAction::Commit
                    }
                },
                RebaseEvent::Failed(e) => {
                    self.phase = RebasePhase::Aborting(e);
                    RebaseAction::Abort
                },
                _ => RebaseAction::ApplyNext,
            },
            RebasePhase::Committing => match event {
                RebaseEvent::Succeeded => {
                    self.cursor = self.cursor + 1;
                    if self.cursor < self.total {
                        self.phase = RebasePhase::Applying;
                        RebaseAction::ApplyNext
                    } else {
                        self.phase = RebasePhase::Finishing;
                        RebaseAction::Finish
                    }
                },
                RebaseEvent::Failed(e) => {
                    self.phase = RebasePhase::Aborting(e);
                    RebaseAction::Abort
                },
                _ => RebaseAction::Commit,
            },
            RebasePhase::Finishing => match event {
                RebaseEvent::Succeeded => RebaseAction::Return(Ok(())),
                RebaseEvent::Failed(e) => {
                    self.phase = RebasePhase::Aborting(e);
                    RebaseAction::Abort
                },
                _ => RebaseAction::Finish,
            },
            RebasePhase::Aborting(pending) => match event {
                RebaseEvent::Failed(e) => RebaseAction::Return(Err(e)),
                _ => RebaseAction::Return(Err(pending)),
            },
            RebasePhase::Done => RebaseAction::Return(Ok(())),
        }
    }
}

/// The actions that a session in `s` asks for, one per event of `events`, as long as
/// each event answers the action before it.
pub open spec fn rebase_run(s: RebaseSession, events: Seq<RebaseEvent>) -> Seq<RebaseAction>
    decreases events.len(),
{
    if events.len() == 0 || !answers(s.phase, events[0]) {
        Seq::empty()
    } else {
        let (next, a) = rebase_step(s, events[0]);
        seq![a] + rebase_run(next, events.drop_first())
    }
}

/// The actions of a rebase of `k` operations that succeeds: each operation is
/// applied and committed, in order, and then the session is finished.
pub open spec fn replay_actions(k: nat) -> Seq<RebaseAction>
    decreases k,
{
    if k == 0 {
        seq![RebaseAction::Finish, RebaseAction::Return(Ok(()))]
    } else {
        seq![RebaseAction::ApplyNext, RebaseAction::Commit] + replay_actions((k - 1) as nat)
    }
}

/// The actions that an open session in `s` still asks for where it succeeds.
pub open spec fn remaining_success(s: RebaseSession) -> Seq<RebaseAction> {
    match s.phase {
        RebasePhase::Applying => seq![RebaseAction::Commit] + replay_actions((s.total - s.cursor - 1) as nat),
        RebasePhase::Committing => replay_actions((s.total - s.cursor - 1) as nat),
        _ => seq![RebaseAction::Return(Ok(()))],
    }
}

proof fn lemma_aborting_ends_in_error(s: RebaseSession, events: Seq<RebaseEvent>)
    requires
        s.phase is Aborting,
    ensures
        rebase_run(s, events).len() <= 1,
        rebase_run(s, events).len() == 1 ==> rebase_run(s, events)[0] is Return
            && rebase_run(s, events)[0]->Return_0 is Err,
{
    if events.len() > 0 && answers(s.phase, events[0]) {
        let (next, a) = rebase_step(s, events[0]);
        assert(next.phase is Done);
        assert(rebase_run(next, events.drop_first()) =~= Seq::empty());
    }
}

proof fn lemma_open_session_success(s: RebaseSession, events: Seq<RebaseEvent>)
    requires
        session_wf(s),
        s.phase is Applying || s.phase is Committing || s.phase is Finishing,
        rebase_run(s, events).len() > 0,
        rebase_run(s, events).last() == RebaseAction::Return(Ok(())),
    ensures
        rebase_run(s, events) == remaining_success(s),
    decreases events.len(),
{
    let (next, a) = rebase_step(s, events[0]);
    let rest = rebase_run(next, events.drop_first());
    assert(rebase_run(s, events) == seq![a] + rest);
    if next.phase is Aborting {
        lemma_aborting_ends_in_error(next, events.drop_first());
        if rest.len() == 0 {
            assert(rebase_run(s, events).last() == a);
        } else {
            assert(rebase_run(s, events).last() == rest[0]);
        }
    } else if next.phase is Done {
        assert(rest =~= Seq::empty());
        assert(rebase_run(s, events) =~= seq![a]);
    } else {
        if rest.len() == 0 {
            assert(rebase_run(s, events).last() == a);
        } else {
            assert(rebase_run(s, events).last() == rest.last());
        }
        lemma_open_session_success(next, events.drop_first());
        match s.phase {
            RebasePhase::Applying => {
                assert(rebase_run(s, events) =~= remaining_success(s));
            },
            RebasePhase::Committing => {
                if next.phase is Applying {
                    let k = (s.total - s.cursor - 1) as nat;
                    assert(replay_actions(k) == seq![RebaseAction::ApplyNext, RebaseAction::Commit]
                        + replay_actions((k - 1) as nat));
                    assert(rebase_run(s, events) =~= remaining_success(s));
                } else {
                    assert(rebase_run(s, events) =~= remaining_success(s));
                }
            },
            _ => {},
        }
    }
}

/// A rebase that succeeds has applied and committed each of the operations that its
/// session was opened with, one after another in their order, and then finished the
/// session; it asked for no abort.
pub proof fn lemma_rebase_success_replays_in_order(events: Seq<RebaseEvent>)
    ensures
        ({
            let start = RebaseSession { total: 0, cursor: 0, phase: RebasePhase::Opening };
            let actions = rebase_run(start, events);
            actions.len() > 0 && actions.last() == RebaseAction::Return(Ok(())) ==> events[0] is Opened
                && actions == replay_actions(events[0]->Opened_0 as nat)
        }),
{
    let start = RebaseSession { total: 0, cursor: 0, phase: RebasePhase::Opening };
    let actions = rebase_run(start, events);
    if actions.len() > 0 && actions.last() == RebaseAction::Return(Ok(())) {
        let (next, a) = rebase_step(start, events[0]);
        let rest = rebase_run(next, events.drop_first());
        assert(actions == seq![a] + rest);
        if events[0] is Failed {
            assert(next.phase is Done);
            assert(rest =~= Seq::empty());
            assert(actions.last() == a);
        } else {
            let n = events[0]->Opened_0;
            if rest.len() == 0 {
                assert(actions.last() == a);
            } else {
                assert(actions.last() == rest.last());
            }
            lemma_open_session_success(next, events.drop_first());
            if n == 0 {
                assert(rest == seq![RebaseAction::Return(Ok(()))]);
                assert(actions =~= replay_actions(0));
            } else {
                assert(replay_actions(n as nat) == seq![RebaseAction::ApplyNext, RebaseAction::Commit]
                    + replay_actions((n - 1) as nat));
                assert(actions =~= replay_actions(n as nat));
            }
        }
    }
}

/// Where applying an operation leaves conflicts in the index, the session is aborted
/// at once, nothing is committed or finished after that, and the rebase ends in an
/// error: the conflict itself once the abort has succeeded.
pub proof fn lemma_rebase_conflict_aborts(s: RebaseSession, events: Seq<RebaseEvent>)
    requires
        session_wf(s),
        s.phase is Applying,
    ensures
        ({
            let actions = rebase_run(s, seq![RebaseEvent::Applied(true)] + events);
            &&& actions[0] == RebaseAction::Abort
            &&& actions.len() <= 2
            &&& actions.len() == 2 ==> actions[1] is Return && actions[1]->Return_0 is Err
            &&& events.len() > 0 && events[0] is Succeeded ==> actions.len() == 2 && actions[1]
                == RebaseAction::Return(Err(Error::MergeConflict))
        }),
{
    let all = seq![RebaseEvent::Applied(true)] + events;
    assert(all[0] == RebaseEvent::Applied(true));
    assert(all.drop_first() =~= events);
    let (next, a) = rebase_step(s, all[0]);
    lemma_aborting_ends_in_error(next, events);
    assert(rebase_run(s, all) == seq![a] + rebase_run(next, events));
    if events.len() > 0 && events[0] is Succeeded {
        let (last, b) = rebase_step(next, events[0]);
        assert(rebase_run(last, events.drop_first()) =~= Seq::empty());
        assert(rebase_run(next, events) == seq![b] + rebase_run(last, events.drop_first()));
    }
}

proof fn lemma_open_session_errors_follow_abort(s: RebaseSession, events: Seq<RebaseEvent>)
    requires
        s.phase is Applying || s.phase is Committing || s.phase is Finishing,
    ensures
        forall|k: int|
            0 <= k < rebase_run(s, events).len() && (#[trigger] rebase_run(s, events)[k]) is Return
                && rebase_run(s, events)[k]->Return_0 is Err ==> k > 0 && rebase_run(s, events)[k - 1]
                is Abort,
    decreases events.len(),
{
    if events.len() > 0 && answers(s.phase, events[0]) {
        let (next, a) = rebase_step(s, events[0]);
        let rest = rebase_run(next, events.drop_first());
        let acts = rebase_run(s, events);
        assert(acts == seq![a] + rest);
        if next.phase is Aborting {
            lemma_aborting_ends_in_error(next, events.drop_first());
            assert(a is Abort);
        } else if next.phase is Done {
            assert(rest =~= Seq::empty());
        } else {
            lemma_open_session_errors_follow_abort(next, events.drop_first());
            assert forall|k: int|
                0 <= k < acts.len() && (#[trigger] acts[k]) is Return && acts[k]->Return_0 is Err implies k > 0
                    && acts[k - 1] is Abort by {
                if k > 0 {
                    assert(acts[k] == rest[k - 1]);
                    if k > 1 {
                        assert(acts[k - 1] == rest[k - 2]);
                    }
                }
            }
        }
    }
}

/// Once its session is open, a rebase returns an error only right after it asked for
/// the session to be aborted: no error leaves a rebase in progress behind.
pub proof fn lemma_rebase_errors_follow_abort(events: Seq<RebaseEvent>)
    ensures
        ({
            let start = RebaseSession { total: 0, cursor: 0, phase: RebasePhase::Opening };
            let actions = rebase_run(start, events);
            events.len() > 0 && events[0] is Opened ==> forall|k: int|
                0 <= k < actions.len() && (#[trigger] actions[k]) is Return && actions[k]->Return_0 is Err
                    ==> k > 0 && actions[k - 1] is Abort
        }),
{
    let start = RebaseSession { total: 0, cursor: 0, phase: RebasePhase::Opening };
    if events.len() > 0 && events[0] is Opened {
        let (next, a) = rebase_step(start, events[0]);
        let rest = rebase_run(next, events.drop_first());
        let acts = rebase_run(start, events);
        assert(acts == seq![a] + rest);
        lemma_open_session_errors_follow_abort(next, events.drop_first());
        assert forall|k: int|
            0 <= k < acts.len() && (#[trigger] acts[k]) is Return && acts[k]->Return_0 is Err implies k > 0
                && acts[k - 1] is Abort by {
            if k > 0 {
                assert(acts[k] == rest[k - 1]);
                if k > 1 {
                    assert(acts[k - 1] == rest[k - 2]);
                }
            }
        }
    }
}

/// The rebase just started on the checked out branch.
pub open spec fn rebase_start() -> RebaseSession {
    RebaseSession { total: 0, cursor: 0, phase: RebasePhase::Opening }
}

/// What the driver reports of `k` operations that apply without conflicts and commit,
/// followed by a finish that succeeds.
pub open spec fn clean_events(k: nat) -> Seq<RebaseEvent>
    decreases k,
{
    if k == 0 {
        seq![RebaseEvent::Succeeded]
    } else {
        seq![RebaseEvent::Applied(false), RebaseEvent::Succeeded] + clean_events((k - 1) as nat)
    }
}

/// What the driver reports of `k` operations that apply without conflicts and commit.
pub open spec fn committed_events(k: nat) -> Seq<RebaseEvent>
    decreases k,
{
    if k == 0 {
        Seq::empty()
    } else {
        seq![RebaseEvent::Applied(false), RebaseEvent::Succeeded] + committed_events((k - 1) as nat)
    }
}

/// The actions asked for while `k` operations are committed, each followed by the next.
pub open spec fn commit_pairs(k: nat) -> Seq<RebaseAction>
    decreases k,
{
    if k == 0 {
        Seq::empty()
    } else {
        seq![RebaseAction::Commit, RebaseAction::ApplyNext] + commit_pairs((k - 1) as nat)
    }
}

proof fn lemma_run_two(s: RebaseSession, a: RebaseEvent, b: RebaseEvent, rest: Seq<RebaseEvent>)
    requires
        answers(s.phase, a),
        answers(rebase_step(s, a).0.phase, b),
    ensures
        rebase_run(s, seq![a, b] + rest) == seq![rebase_step(s, a).1, rebase_step(rebase_step(s, a).0, b).1]
            + rebase_run(rebase_step(rebase_step(s, a).0, b).0, rest),
{
    let all = seq![a, b] + rest;
    assert(all[0] == a);
    assert(all.drop_first() =~= seq![b] + rest);
    let s1 = rebase_step(s, a).0;
    assert((seq![b] + rest)[0] == b);
    assert((seq![b] + rest).drop_first() =~= rest);
    assert(rebase_run(s1, seq![b] + rest) == seq![rebase_step(s1, b).1] + rebase_run(rebase_step(s1, b).0, rest));
    assert(rebase_run(s, all) == seq![rebase_step(s, a).1] + rebase_run(s1, seq![b] + rest));
    assert(seq![rebase_step(s, a).1] + (seq![rebase_step(s1, b).1] + rebase_run(rebase_step(s1, b).0, rest))
        =~= seq![rebase_step(s, a).1, rebase_step(s1, b).1] + rebase_run(rebase_step(s1, b).0, rest));
}

proof fn lemma_clean_run(s: RebaseSession)
    requires
        session_wf(s),
        s.phase is Applying || s.phase is Finishing,
    ensures
        rebase_run(s, clean_events((s.total - s.cursor) as nat)) == (if s.phase is Applying {
            seq![RebaseAction::Commit] + replay_actions((s.total - s.cursor - 1) as nat)
        } else {
            seq![RebaseAction::Return(Ok(()))]
        }),
    decreases s.total - s.cursor,
{
    let k = (s.total - s.cursor) as nat;
    if s.phase is Finishing {
        let (next, a) = rebase_step(s, RebaseEvent::Succeeded);
        assert(clean_events(0) == seq![RebaseEvent::Succeeded]);
        assert(clean_events(0).drop_first() =~= Seq::<RebaseEvent>::empty());
        assert(rebase_run(next, Seq::<RebaseEvent>::empty()) =~= Seq::empty());
        assert(rebase_run(s, clean_events(0)) =~= seq![a]);
    } else {
        let rest = clean_events((k - 1) as nat);
        lemma_run_two(s, RebaseEvent::Applied(false), RebaseEvent::Succeeded, rest);
        let s2 = rebase_step(rebase_step(s, RebaseEvent::Applied(false)).0, RebaseEvent::Succeeded).0;
        lemma_clean_run(s2);
        if s.cursor + 1 < s.total {
            let m = (s.total - s.cursor - 2) as nat;
            assert(replay_actions((m + 1) as nat) == seq![RebaseAction::ApplyNext, RebaseAction::Commit]
                + replay_actions(m));
            assert(rebase_run(s, clean_events(k)) =~= seq![RebaseAction::Commit] + replay_actions((m + 1) as nat));
        } else {
            assert(replay_actions(0) == seq![RebaseAction::Finish, RebaseAction::Return(Ok(()))]);
            assert(rebase_run(s, clean_events(k)) =~= seq![RebaseAction::Commit] + replay_actions(0));
        }
    }
}

/// A rebase whose `n` operations all apply without conflicts, and whose commits and
/// finish succeed, ends in success, having applied and committed each operation in
/// order and then finished the session.
pub proof fn lemma_rebase_conflict_free_succeeds(n: usize)
    ensures
        rebase_run(rebase_start(), seq![RebaseEvent::Opened(n)] + clean_events(n as nat)) == replay_actions(
            n as nat,
        ),
{
    let events = seq![RebaseEvent::Opened(n)] + clean_events(n as nat);
    assert(events[0] == RebaseEvent::Opened(n));
    assert(events.drop_first() =~= clean_events(n as nat));
    let (next, a) = rebase_step(rebase_start(), RebaseEvent::Opened(n));
    lemma_clean_run(next);
    if n == 0 {
        assert(rebase_run(rebase_start(), events) =~= replay_actions(0));
    } else {
        assert(replay_actions(n as nat) == seq![RebaseAction::ApplyNext, RebaseAction::Commit] + replay_actions(
            (n - 1) as nat,
        ));
        assert(rebase_run(rebase_start(), events) =~= replay_actions(n as nat));
    }
}

proof fn lemma_committed_run(s: RebaseSession, j: nat, rest: Seq<RebaseEvent>)
    requires
        session_wf(s),
        s.phase is Applying,
        s.cursor + j < s.total,
    ensures
        rebase_run(s, committed_events(j) + rest) == commit_pairs(j) + rebase_run(
            RebaseSession { cursor: (s.cursor + j) as usize, ..s },
            rest,
        ),
    decreases j,
{
    if j == 0 {
        assert(committed_events(0) + rest =~= rest);
        assert(RebaseSession { cursor: (s.cursor + 0) as usize, ..s } == s);
        assert(commit_pairs(0) + rebase_run(s, rest) =~= rebase_run(s, rest));
    } else {
        let tail = committed_events((j - 1) as nat) + rest;
        assert(committed_events(j) + rest =~= seq![RebaseEvent::Applied(false), RebaseEvent::Succeeded] + tail);
        lemma_run_two(s, RebaseEvent::Applied(false), RebaseEvent::Succeeded, tail);
        let s2 = rebase_step(rebase_step(s, RebaseEvent::Applied(false)).0, RebaseEvent::Succeeded).0;
        lemma_committed_run(s2, (j - 1) as nat, rest);
        assert(RebaseSession { cursor: (s2.cursor + (j - 1)) as usize, ..s2 } == RebaseSession {
            cursor: (s.cursor + j) as usize,
            ..s
        });
        assert(commit_pairs(j) == seq![RebaseAction::Commit, RebaseAction::ApplyNext] + commit_pairs(
            (j - 1) as nat,
        ));
        assert(rebase_run(s, committed_events(j) + rest) =~= commit_pairs(j) + rebase_run(
            RebaseSession { cursor: (s.cursor + j) as usize, ..s },
            rest,
        ));
    }
}

/// A rebase of `n` operations whose operation `j` leaves conflicts, after the `j`
/// before it applied and committed, aborts the session right then, commits nothing
/// more, never finishes, and ends in an error: the conflict itself once the abort has
/// succeeded.
pub proof fn lemma_rebase_conflict_from_start(n: usize, j: int, tail: Seq<RebaseEvent>)
    requires
        0 <= j < n,
    ensures
        ({
            let actions = rebase_run(
                rebase_start(),
                seq![RebaseEvent::Opened(n)] + committed_events(j as nat) + seq![RebaseEvent::Applied(true)] + tail,
            );
            &&& actions.len() >= 2 * j + 2
            &&& actions.subrange(0, 2 * j + 1) == seq![RebaseAction::ApplyNext] + commit_pairs(j as nat)
            &&& actions[2 * j + 1] == RebaseAction::Abort
            &&& actions.len() <= 2 * j + 3
            &&& actions.len() == 2 * j + 3 ==> actions[2 * j + 2] is Return && actions[2 * j + 2]->Return_0 is Err
            &&& tail.len() > 0 && tail[0] is Succeeded ==> actions[2 * j + 2] == RebaseAction::Return(
                Err(Error::MergeConflict),
            )
        }),
{
    let after = seq![RebaseEvent::Applied(true)] + tail;
    let events = seq![RebaseEvent::Opened(n)] + committed_events(j as nat) + after;
    assert(seq![RebaseEvent::Opened(n)] + committed_events(j as nat) + seq![RebaseEvent::Applied(true)] + tail
        =~= events);
    assert(events =~= seq![RebaseEvent::Opened(n)] + (committed_events(j as nat) + after));
    assert(events[0] == RebaseEvent::Opened(n));
    assert(events.drop_first() =~= committed_events(j as nat) + after);
    let (s1, a) = rebase_step(rebase_start(), RebaseEvent::Opened(n));
    lemma_committed_run(s1, j as nat, after);
    let sj = RebaseSession { cursor: (s1.cursor + j) as usize, ..s1 };
    lemma_rebase_conflict_aborts(sj, tail);
    let c = rebase_run(sj, after);
    let actions = rebase_run(rebase_start(), events);
    assert(actions == seq![RebaseAction::ApplyNext] + (commit_pairs(j as nat) + c));
    lemma_commit_pairs_len(j as nat);
    assert(actions =~= (seq![RebaseAction::ApplyNext] + commit_pairs(j as nat)) + c);
    assert(actions.subrange(0, 2 * j + 1) =~= seq![RebaseAction::ApplyNext] + commit_pairs(j as nat));
    assert(after[0] == RebaseEvent::Applied(true));
    assert(c == seq![rebase_step(sj, after[0]).1] + rebase_run(rebase_step(sj, after[0]).0, after.drop_first()));
    assert(c.len() >= 1);
    assert(actions.len() == 2 * j + 1 + c.len());
    assert(actions[2 * j + 1] == c[0]);
    if c.len() == 2 {
        assert(actions[2 * j + 2] == c[1]);
    }
}

proof fn lemma_commit_pairs_len(j: nat)
    ensures
        commit_pairs(j).len() == 2 * j,
    decreases j,
{
    if j > 0 {
        lemma_commit_pairs_len((j - 1) as nat);
    }
}

} // verus!
