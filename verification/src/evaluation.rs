//! The evaluation of one candidate as a machine that is fed answers.
//!
//! The machine holds where the candidate stands. It says what is to be asked
//! next, and is moved on by the answer; whoever drives it asks the oracles and
//! does nothing else. The steps themselves are those of the
//! [`evaluator`](crate::evaluator).

use crate::evaluator::{
    funded, identified, priced, start, started, taxed, BalanceQuery, Funded, IdentifierQuery,
    PriceQuery, PriceRequest, Priced, Started, TaxQuery, Taxed,
};
use crate::felt::{hex_field_element, hex_text, Felt};
use crate::model::{CandidateRecord, Outcome, Rejection};
use crate::tax::TaxAnswer;
use vstd::prelude::*;

verus! {

/// Where the evaluation of a candidate stands.
#[derive(Debug)]
pub enum Evaluation {
    /// The candidate waits for its price.
    Price(PriceQuery),
    /// The candidate waits for its tax rate.
    TaxRate(TaxQuery),
    /// The candidate waits for the renewer's balance.
    Balance(BalanceQuery),
    /// The candidate waits for the identifier of its domain.
    Identifier(IdentifierQuery),
    /// The evaluation is over.
    Done(Outcome),
}

/// What is to be asked of the outside world.
#[derive(Clone, Debug, PartialEq, Eq)]
pub enum Request {
    /// The price oracle: the price of a renewal.
    Price(PriceRequest),
    /// The tax resolver: the rate for the metadata that is found under the
    /// key.
    TaxRate { key: String },
    /// The balance oracle: the token balance of the address.
    Balance { address: Felt },
    /// The encoder: the identifier of the domain with the label.
    Identifier { label: String },
}

/// An answer of the outside world. For the oracles and the encoder `None`
/// says that they failed.
#[derive(Clone, Copy, Debug, PartialEq, Eq)]
pub enum Reply {
    /// The price oracle's answer.
    Price(Option<Felt>),
    /// The tax resolver's answer.
    TaxRate(TaxAnswer),
    /// The balance oracle's answer.
    Balance(Option<Felt>),
    /// The encoder's answer.
    Identifier(Option<Felt>),
}

/// The field element that a candidate's metadata hash denotes, where it has a
/// hash and the hash denotes one.
pub open spec fn metadata_of(query: PriceQuery) -> Option<Seq<u8>> {
    match query.metadata_hash {
        Some(hash) => hex_field_element(hash@),
        None => None,
    }
}

impl Evaluation {
    /// The state that the first guards lead to.
    pub open spec fn of_started(step: Started) -> Evaluation {
        match step {
            Started::Done(outcome) => Evaluation::Done(outcome),
            Started::Price(query) => Evaluation::Price(query),
        }
    }

    /// The state that the price leads to.
    pub open spec fn of_priced(step: Priced) -> Evaluation {
        match step {
            Priced::Done(outcome) => Evaluation::Done(outcome),
            Priced::TaxRate(query) => Evaluation::TaxRate(query),
            Priced::Balance(query) => Evaluation::Balance(query),
        }
    }

    /// The state that the tax rate leads to.
    pub open spec fn of_taxed(step: Taxed) -> Evaluation {
        match step {
            Taxed::Done(outcome) => Evaluation::Done(outcome),
            Taxed::Balance(query) => Evaluation::Balance(query),
        }
    }

    /// The state that the balance leads to.
    pub open spec fn of_funded(step: Funded) -> Evaluation {
        match step {
            Funded::Done(outcome) => Evaluation::Done(outcome),
            Funded::Identifier(query) => Evaluation::Identifier(query),
        }
    }

    /// Whether `next` is a state that the evaluation of `candidate` may begin
    /// in: the one that the first guards lead to.
    pub open spec fn begins(candidate: CandidateRecord, next: Evaluation) -> bool {
        exists|step: Started| #[trigger]
            started(candidate, hex_field_element(candidate.renewer_address@), step) && next
                == Evaluation::of_started(step)
    }

    /// Whether `next` is a state that `reply` may move this state to. An
    /// answer moves an evaluation on by the step that waits for it. An answer
    /// to another question than the pending one changes nothing, and neither
    /// does any answer once the evaluation is over.
    pub open spec fn moves(self, reply: Reply, next: Evaluation) -> bool {
        match (self, reply) {
            (Evaluation::Price(query), Reply::Price(answer)) => exists|step: Priced| #[trigger]
                priced(query, answer, metadata_of(query), step) && next == Evaluation::of_priced(
                    step,
                ),
            (Evaluation::TaxRate(query), Reply::TaxRate(answer)) => exists|step: Taxed| #[trigger]
                taxed(query, answer, step) && next == Evaluation::of_taxed(step),
            (Evaluation::Balance(query), Reply::Balance(answer)) => exists|step: Funded| #[trigger]
                funded(query, answer, step) && next == Evaluation::of_funded(step),
            (Evaluation::Identifier(query), Reply::Identifier(answer)) => exists|
                outcome: Outcome,
            | #[trigger]
                identified(query, answer, outcome) && next == Evaluation::Done(outcome),
            _ => next == self,
        }
    }

    /// Begins the evaluation of a candidate with the guards that need no
    /// answer from outside.
    pub fn begin(candidate: CandidateRecord) -> (r: Evaluation)
        ensures
            Evaluation::begins(candidate, r),
    {
        let step = start(candidate);
        match step {
            Started::Done(outcome) => Evaluation::Done(outcome),
            Started::Price(query) => Evaluation::Price(query),
        }
    }

    /// What is to be asked next, or `None` where the evaluation is over.
    pub fn request(&self) -> (r: Option<Request>)
        ensures
            match *self {
                Evaluation::Price(query) => r matches Some(Request::Price(request))
                    && request.duration == crate::evaluator::RENEWAL_DURATION
                    && request.label_length == vstd::utf8::encode_utf8(query.label@).len() as usize,
                Evaluation::TaxRate(query) => r matches Some(Request::TaxRate { key }) && key@
                    == hex_text(query.metadata@),
                Evaluation::Balance(query) => r == Some(Request::Balance { address: query.renewer }),
                Evaluation::Identifier(query) => r matches Some(Request::Identifier { label })
                    && label == query.label,
                Evaluation::Done(_) => r is None,
            },
    {
        match self {
            Evaluation::Price(query) => Some(Request::Price(query.request())),
            Evaluation::TaxRate(query) => Some(Request::TaxRate { key: query.lookup_key() }),
            Evaluation::Balance(query) => Some(Request::Balance { address: query.renewer }),
            Evaluation::Identifier(query) => Some(
                Request::Identifier { label: query.label.clone() },
            ),
            Evaluation::Done(_) => None,
        }
    }

    /// Moves the evaluation on by an answer.
    pub fn resume(self, reply: Reply) -> (r: Evaluation)
        ensures
            self.moves(reply, r),
    {
        match (self, reply) {
            (Evaluation::Price(query), Reply::Price(answer)) => {
                let step = query.on_price(answer);
                match step {
                    Priced::Done(outcome) => Evaluation::Done(outcome),
                    Priced::TaxRate(next) => Evaluation::TaxRate(next),
                    Priced::Balance(next) => Evaluation::Balance(next),
                }
            },
            (Evaluation::TaxRate(query), Reply::TaxRate(answer)) => {
                let step = query.on_tax_rate(answer);
                match step {
                    Taxed::Done(outcome) => Evaluation::Done(outcome),
                    Taxed::Balance(next) => Evaluation::Balance(next),
                }
            },
            (Evaluation::Balance(query), Reply::Balance(answer)) => {
                let step = query.on_balance(answer);
                match step {
                    Funded::Done(outcome) => Evaluation::Done(outcome),
                    Funded::Identifier(next) => Evaluation::Identifier(next),
                }
            },
            (Evaluation::Identifier(query), Reply::Identifier(answer)) => Evaluation::Done(
                query.on_identifier(answer),
            ),
            (state, _) => state,
        }
    }

    /// How the evaluation ended, where it is over.
    pub fn outcome(self) -> (r: Option<Outcome>)
        ensures
            r == match self {
                Evaluation::Done(outcome) => Some(outcome),
                _ => None,
            },
    {
        match self {
            Evaluation::Done(outcome) => Some(outcome),
            _ => None,
        }
    }
}

/// A candidate with automatic renewal off or without an allowance is over
/// with as soon as its evaluation begins: it is passed over, no renewal is
/// accepted for it, and nothing is ever asked about it.
pub proof fn lemma_not_enabled_never_asks(candidate: CandidateRecord, state: Evaluation)
    requires
        !candidate.renewal_enabled || candidate.allowance is None,
        Evaluation::begins(candidate, state),
    ensures
        state == Evaluation::Done(Outcome::Rejected(Rejection::NotEnabled)),
{
}

/// Once an evaluation is over, no answer moves it.
pub proof fn lemma_done_is_final(outcome: Outcome, reply: Reply, next: Evaluation)
    requires
        Evaluation::Done(outcome).moves(reply, next),
    ensures
        next == Evaluation::Done(outcome),
{
}

} // verus!
