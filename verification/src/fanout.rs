//! The join of a run's evaluations.
//!
//! Every candidate is evaluated by itself. A candidate that is passed over
//! leaves no trace in the result. What one evaluation that broke off means for
//! the others is a policy with a name: a run is all or nothing unless it is
//! told to keep what was accepted.

use crate::model::{AcceptedRenewal, EvalError, Outcome};
use vstd::prelude::*;

verus! {

/// The error of the first evaluation that broke off, if any did.
pub open spec fn first_failure(outcomes: Seq<Outcome>) -> Option<EvalError>
    decreases outcomes.len(),
{
    if outcomes.len() == 0 {
        None
    } else {
        match first_failure(outcomes.drop_last()) {
            Some(error) => Some(error),
            None => match outcomes.last() {
                Outcome::Failed(error) => Some(error),
                _ => None,
            },
        }
    }
}

/// The accepted renewals among the outcomes, in their order.
pub open spec fn accepted_of(outcomes: Seq<Outcome>) -> Seq<AcceptedRenewal>
    decreases outcomes.len(),
{
    if outcomes.len() == 0 {
        Seq::empty()
    } else {
        match outcomes.last() {
            Outcome::Accepted(renewal) => accepted_of(outcomes.drop_last()).push(renewal),
            _ => accepted_of(outcomes.drop_last()),
        }
    }
}

/// The errors of the evaluations that broke off, in their order.
pub open spec fn failures_of(outcomes: Seq<Outcome>) -> Seq<EvalError>
    decreases outcomes.len(),
{
    if outcomes.len() == 0 {
        Seq::empty()
    } else {
        match outcomes.last() {
            Outcome::Failed(error) => failures_of(outcomes.drop_last()).push(error),
            _ => failures_of(outcomes.drop_last()),
        }
    }
}

/// What one evaluation that broke off means for the run.
#[derive(Clone, Copy, Debug, PartialEq, Eq, Structural)]
pub enum JoinPolicy {
    /// The run fails, and what the other evaluations found is dropped.
    AbortOnFailure,
    /// The run goes on with the renewals that were accepted, and the errors
    /// are reported beside them.
    KeepAccepted,
}

/// How the evaluations of a run are fanned out and joined.
#[derive(Clone, Copy, Debug, PartialEq, Eq, Structural)]
pub struct FanOutPolicy {
    /// The most evaluations that are under way at one time; `None` sets no
    /// bound.
    pub concurrency: Option<usize>,
    /// What one evaluation that broke off means for the run.
    pub on_failure: JoinPolicy,
}

/// The number of evaluations that are started together where `pending` are
/// still to be made: all of them without a bound, else as many as the bound
/// allows, which is at least one.
pub open spec fn wave_size(concurrency: Option<usize>, pending: nat) -> nat {
    match concurrency {
        None => pending,
        Some(bound) => if pending <= bound {
            pending
        } else if bound == 0 {
            1
        } else {
            bound as nat
        },
    }
}

impl FanOutPolicy {
    /// The policy of a run that is not told otherwise: every evaluation is
    /// started at once, and one that breaks off fails the run.
    pub fn unbounded() -> (r: FanOutPolicy)
        ensures
            r.concurrency is None,
            r.on_failure is AbortOnFailure,
    {
        FanOutPolicy { concurrency: None, on_failure: JoinPolicy::AbortOnFailure }
    }

    /// The number of evaluations to start together where `pending` are still
    /// to be made.
    pub fn wave(&self, pending: usize) -> (r: usize)
        ensures
            r == wave_size(self.concurrency, pending as nat),
            r <= pending,
            pending > 0 ==> r > 0,
    {
        match self.concurrency {
            None => pending,
            Some(bound) => if pending <= bound {
                pending
            } else if bound == 0 {
                1
            } else {
                bound
            },
        }
    }
}

/// What a run hands on under [`JoinPolicy::KeepAccepted`].
#[derive(Debug)]
pub struct Joined {
    /// The accepted renewals, in the order of their candidates.
    pub accepted: Vec<AcceptedRenewal>,
    /// The errors of the evaluations that broke off, in the order of their
    /// candidates.
    pub failures: Vec<EvalError>,
}

/// Joins the outcomes of a run under the given policy. To abort on a failure
/// is to fail with the error of the first evaluation that broke off; to keep
/// what was accepted is to hand on every accepted renewal and every error.
pub fn join_with(policy: JoinPolicy, outcomes: Vec<Outcome>) -> (r: Result<Joined, EvalError>)
    ensures
        match r {
            Ok(joined) => {
                &&& joined.accepted@ == accepted_of(outcomes@)
                &&& joined.failures@ == failures_of(outcomes@)
                &&& policy is AbortOnFailure ==> first_failure(outcomes@) is None
            },
            Err(error) => policy is AbortOnFailure && first_failure(outcomes@) == Some(error),
        },
{
    let ghost all = outcomes@;
    let mut accepted: Vec<AcceptedRenewal> = Vec::new();
    let mut failures: Vec<EvalError> = Vec::new();
    let mut failure: Option<EvalError> = None;
    assert(all.take(0) =~= Seq::<Outcome>::empty());
    for outcome in iter: outcomes
        invariant
            iter.seq() == all,
            failure == first_failure(all.take(iter.index() as int)),
            accepted@ == accepted_of(all.take(iter.index() as int)),
            failures@ == failures_of(all.take(iter.index() as int)),
    {
        proof {
            let k = iter.index() as int;
            assert(all.take(k + 1).drop_last() =~= all.take(k));
            assert(all.take(k + 1).last() == outcome);
        }
        match outcome {
            Outcome::Accepted(renewal) => {
                accepted.push(renewal);
            },
            Outcome::Rejected(_) => {},
            Outcome::Failed(error) => {
                failures.push(error);
                if failure.is_none() {
                    failure = Some(error);
                }
            },
        }
    }
    assert(all.take(all.len() as int) =~= all);
    match (policy, failure) {
        (JoinPolicy::AbortOnFailure, Some(error)) => Err(error),
        _ => Ok(Joined { accepted, failures }),
    }
}

/// Joins the outcomes of a run, all or nothing. Where an evaluation broke off, the run fails
/// with the error of the first that did, and no renewal is handed on. Otherwise
/// the accepted renewals are handed on in the order of their candidates, and
/// the candidates that were passed over are left out.
pub fn join(outcomes: Vec<Outcome>) -> (r: Result<Vec<AcceptedRenewal>, EvalError>)
    ensures
        match r {
            Ok(accepted) => first_failure(outcomes@) is None && accepted@ == accepted_of(
                outcomes@,
            ),
            Err(error) => first_failure(outcomes@) == Some(error),
        },
{
    match join_with(JoinPolicy::AbortOnFailure, outcomes) {
        Ok(joined) => Ok(joined.accepted),
        Err(error) => Err(error),
    }
}

/// A run fails exactly where one of its evaluations broke off.
pub proof fn lemma_failure_aborts(outcomes: Seq<Outcome>)
    ensures
        first_failure(outcomes) is Some <==> exists|i: int|
            0 <= i < outcomes.len() && #[trigger] outcomes[i] is Failed,
    decreases outcomes.len(),
{
    if outcomes.len() > 0 {
        let front = outcomes.drop_last();
        lemma_failure_aborts(front);
        if first_failure(front) is Some {
            let i = choose|i: int| 0 <= i < front.len() && #[trigger] front[i] is Failed;
            assert(outcomes[i] is Failed);
        } else if outcomes.last() is Failed {
            assert(outcomes[outcomes.len() - 1] is Failed);
        } else {
            assert forall|i: int| 0 <= i < outcomes.len() implies !(#[trigger] outcomes[i]
                is Failed) by {
                if i < front.len() {
                    assert(front[i] == outcomes[i]);
                }
            }
        }
    }
}

/// A run without a failure hands on every accepted renewal and nothing else:
/// as many renewals as there are accepted outcomes, none of them twice.
pub proof fn lemma_accepted_count(outcomes: Seq<Outcome>)
    ensures
        accepted_of(outcomes).len() <= outcomes.len(),
        (forall|i: int| 0 <= i < outcomes.len() ==> #[trigger] outcomes[i] is Accepted)
            ==> accepted_of(outcomes).len() == outcomes.len(),
    decreases outcomes.len(),
{
    if outcomes.len() > 0 {
        let front = outcomes.drop_last();
        lemma_accepted_count(front);
        if forall|i: int| 0 <= i < outcomes.len() ==> #[trigger] outcomes[i] is Accepted {
            assert(outcomes[outcomes.len() - 1] is Accepted);
            assert forall|i: int| 0 <= i < front.len() implies #[trigger] front[i] is Accepted by {
                assert(front[i] == outcomes[i]);
            }
        }
    }
}

} // verus!
