//! Automatic renewal of domains in a naming registry: who is renewed, for
//! what cost, in which batches, and what happens where the ledger says no.
//!
//! A run takes the candidates that the store lists and decides for each of
//! them whether it is renewed ([`evaluator`]): automatic renewal must be on,
//! the token approval and the owner's allowance must each cover the price with
//! its tax, and the renewer must hold that much. The evaluations of a run are
//! joined, all or nothing ([`fanout`]). The accepted renewals are cut into
//! batches of at most 400 and written out as calldata ([`batch`]), and the
//! batches are sent one after the other until the ledger refuses one
//! ([`submitter`]).
//!
//! The library asks nothing of the outside world. Where a step needs an
//! answer from an oracle or from the ledger, it hands back what is to be
//! asked, and goes on when it is given the answer.
//!
//! Amounts are exact ([`decimal`]): their arithmetic is done by the
//! `bigdecimal` crate on numbers that are held as plain bytes ([`natural`]),
//! as the ledger's field elements are ([`felt`]).

pub mod batch;
pub mod decimal;
pub mod evaluation;
pub mod evaluator;
pub mod fanout;
pub mod felt;
pub mod hex;
pub mod indexer;
pub mod model;
pub mod natural;
pub mod schedule;
pub mod submitter;
pub mod tax;
