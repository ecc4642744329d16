//! The transaction submitter: batches go to the ledger one at a time, in
//! their order, and the first refusal ends the run.
//!
//! The submitter does not send anything by itself. It says which batch is to
//! be sent next, takes the ledger's answer, and keeps the tally of the run.

use crate::batch::{element_column, values, ElementColumn, RenewalBatch};
use crate::felt::Felt;
use crate::model::AcceptedRenewal;
use vstd::prelude::*;

verus! {

/// The tally of a run: which batches it was given, how many of them the
/// ledger took, and whether the ledger refused the one after those.
pub struct Tally {
    /// The batches of the run, in the order in which they are sent.
    pub batches: Seq<Seq<AcceptedRenewal>>,
    /// The number of batches that the ledger took.
    pub submitted: nat,
    /// Whether the ledger refused the batch behind those.
    pub failed: bool,
}

impl Tally {
    /// The tally of a run that has sent nothing yet.
    pub open spec fn opening(batches: Seq<Seq<AcceptedRenewal>>) -> Tally {
        Tally { batches, submitted: 0, failed: false }
    }

    /// The batch that is to be sent next. There is none once every batch was
    /// taken, and none after a refusal.
    pub open spec fn pending(self) -> Option<Seq<AcceptedRenewal>> {
        if !self.failed && self.submitted < self.batches.len() {
            Some(self.batches[self.submitted as int])
        } else {
            None
        }
    }

    /// The tally after the ledger's answer for the pending batch. Without a
    /// pending batch an answer changes nothing.
    pub open spec fn record(self, accepted: bool) -> Tally {
        if self.pending() is None {
            self
        } else if accepted {
            Tally { submitted: self.submitted + 1, ..self }
        } else {
            Tally { failed: true, ..self }
        }
    }

    /// The tally after a series of answers.
    pub open spec fn run(self, answers: Seq<bool>) -> Tally
        decreases answers.len(),
    {
        if answers.len() == 0 {
            self
        } else {
            self.run(answers.drop_last()).record(answers.last())
        }
    }

    /// The number of batches that were handed to the ledger, the refused one
    /// counted in.
    pub open spec fn attempts(self) -> nat {
        if self.failed {
            self.submitted + 1
        } else {
            self.submitted
        }
    }

    /// The number of renewals in the batches that the ledger took.
    pub open spec fn renewed(self) -> nat {
        renewals_in(self.batches.take(self.submitted as int))
    }
}

/// The number of renewals in a series of batches.
pub open spec fn renewals_in(batches: Seq<Seq<AcceptedRenewal>>) -> nat
    decreases batches.len(),
{
    if batches.len() == 0 {
        0
    } else {
        renewals_in(batches.drop_last()) + batches.last().len()
    }
}

/// The renewals of each batch.
pub open spec fn contents(batches: Seq<RenewalBatch>) -> Seq<Seq<AcceptedRenewal>> {
    Seq::new(batches.len(), |i: int| batches[i]@)
}

/// What a run that sent every batch reports.
#[derive(Clone, Copy, Debug, PartialEq, Eq, Structural)]
pub struct SubmissionReport {
    /// The number of batches that the ledger took.
    pub batches: usize,
    /// The number of renewals in them.
    pub renewals: u128,
}

/// What a run that the ledger refused reports.
#[derive(Clone, Debug, PartialEq, Eq)]
pub struct SubmissionError {
    /// The number of batches that the ledger took before it refused one.
    pub submitted: usize,
    /// The identifiers of the domains in the refused batch.
    pub domain_ids: Vec<Felt>,
}

/// A run of submissions.
#[derive(Debug)]
pub struct Submission {
    batches: Vec<RenewalBatch>,
    submitted: usize,
    renewed: u128,
    failed: bool,
}

impl View for Submission {
    type V = Tally;

    closed spec fn view(&self) -> Tally {
        Tally {
            batches: contents(self.batches@),
            submitted: self.submitted as nat,
            failed: self.failed,
        }
    }
}

impl Submission {
    /// No more batches are counted as taken than there are, the refused batch
    /// is one of them, and the renewals are counted as the batches are.
    #[verifier::type_invariant]
    closed spec fn wf(&self) -> bool {
        &&& self.submitted <= self.batches@.len()
        &&& self.failed ==> self.submitted < self.batches@.len()
        &&& self.renewed as nat == renewals_in(contents(self.batches@).take(self.submitted as int))
        &&& self.renewed <= 400 * self.submitted
    }

    /// A run over the given batches, of which nothing is sent yet.
    pub fn new(batches: Vec<RenewalBatch>) -> (r: Submission)
        ensures
            r@ == Tally::opening(contents(batches@)),
    {
        assert(contents(batches@).take(0) =~= Seq::<Seq<AcceptedRenewal>>::empty());
        Submission { batches, submitted: 0, renewed: 0, failed: false }
    }

    /// The batch that is to be sent next, or `None` where the run is over.
    pub fn pending(&self) -> (r: Option<&RenewalBatch>)
        ensures
            match r {
                Some(batch) => self@.pending() == Some(batch@),
                None => self@.pending() is None,
            },
    {
        proof {
            use_type_invariant(self);
        }
        if !self.failed && self.submitted < self.batches.len() {
            Some(&self.batches[self.submitted])
        } else {
            None
        }
    }

    /// Takes the ledger's answer for the pending batch: `true` where the
    /// ledger took it. A refusal ends the run; the batches behind the refused
    /// one are never pending.
    pub fn record(self, accepted: bool) -> (r: Submission)
        ensures
            r@ == self@.record(accepted),
    {
        proof {
            use_type_invariant(&self);
        }
        if self.failed || self.submitted >= self.batches.len() {
            return self;
        }
        if !accepted {
            return Submission {
                batches: self.batches,
                submitted: self.submitted,
                renewed: self.renewed,
                failed: true,
            };
        }
        let size: usize = self.batches[self.submitted].len();
        proof {
            let all = contents(self.batches@);
            let taken = all.take(self.submitted + 1);
            assert(taken.drop_last() =~= all.take(self.submitted as int));
            assert(taken.last() == self.batches@[self.submitted as int]@);
        }
        Submission {
            batches: self.batches,
            submitted: self.submitted + 1,
            renewed: self.renewed + size as u128,
            failed: false,
        }
    }

    /// How the run ended: `None` while a batch is pending, the report of the
    /// batches and renewals once every batch was taken, and after a refusal the
    /// number of batches taken before it with the domains of the refused batch.
    pub fn result(&self) -> (r: Option<Result<SubmissionReport, SubmissionError>>)
        ensures
            match r {
                None => self@.pending() is Some,
                Some(Ok(report)) => {
                    &&& !self@.failed
                    &&& self@.submitted == self@.batches.len()
                    &&& report.batches == self@.submitted
                    &&& report.renewals == self@.renewed()
                },
                Some(Err(error)) => {
                    &&& self@.failed
                    &&& self@.submitted < self@.batches.len()
                    &&& error.submitted == self@.submitted
                    &&& values(error.domain_ids@) == element_column(
                        self@.batches[self@.submitted as int],
                        ElementColumn::DomainId,
                    )
                },
            },
    {
        proof {
            use_type_invariant(self);
        }
        if self.failed {
            Some(
                Err(
                    SubmissionError {
                        submitted: self.submitted,
                        domain_ids: self.batches[self.submitted].domain_ids(),
                    },
                ),
            )
        } else if self.submitted < self.batches.len() {
            None
        } else {
            Some(Ok(SubmissionReport { batches: self.submitted, renewals: self.renewed }))
        }
    }
}

/// An answer changes nothing once the ledger has refused a batch.
pub proof fn lemma_refusal_is_final(tally: Tally, answers: Seq<bool>)
    requires
        tally.failed,
    ensures
        tally.run(answers) == tally,
    decreases answers.len(),
{
    if answers.len() > 0 {
        lemma_refusal_is_final(tally, answers.drop_last());
    }
}

/// While every answer is an acceptance, each answer moves the run on by one
/// batch.
pub proof fn lemma_accepted_prefix(batches: Seq<Seq<AcceptedRenewal>>, answers: Seq<bool>)
    requires
        answers.len() <= batches.len(),
        forall|i: int| 0 <= i < answers.len() ==> answers[i],
    ensures
        Tally::opening(batches).run(answers) == (Tally {
            batches,
            submitted: answers.len(),
            failed: false,
        }),
    decreases answers.len(),
{
    if answers.len() > 0 {
        lemma_accepted_prefix(batches, answers.drop_last());
    }
}

/// Fail-fast submission. Where the ledger takes the first `k` batches and
/// refuses the next, the run reports `k` batches as submitted and the refused
/// batch as the pending one that failed, whatever answers might follow: it has
/// handed `k + 1` batches to the ledger, and no batch behind the refused one is
/// ever pending.
pub proof fn lemma_fail_fast(batches: Seq<Seq<AcceptedRenewal>>, answers: Seq<bool>, k: int)
    requires
        0 <= k < answers.len(),
        k < batches.len(),
        forall|i: int| 0 <= i < k ==> answers[i],
        !answers[k],
    ensures
        Tally::opening(batches).run(answers).failed,
        Tally::opening(batches).run(answers).submitted == k,
        Tally::opening(batches).run(answers).attempts() == k + 1,
        Tally::opening(batches).run(answers).pending() is None,
    decreases answers.len(),
{
    if answers.len() == k + 1 {
        lemma_accepted_prefix(batches, answers.drop_last());
    } else {
        lemma_fail_fast(batches, answers.drop_last(), k);
    }
}

} // verus!
