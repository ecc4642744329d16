use auto_renewal::decimal::Decimal;
use auto_renewal::evaluation::{Evaluation, Reply, Request};
use auto_renewal::evaluator::PriceRequest;
use auto_renewal::felt::Felt;
use auto_renewal::model::{CandidateRecord, EvalError, Outcome, Rejection};
use auto_renewal::tax::TaxAnswer;

fn candidate(approved: u128, allowance: u128, hash: Option<&str>) -> CandidateRecord {
    CandidateRecord {
        domain_name: String::from("example.stark"),
        expiry: 1_700_000_000,
        renewer_address: String::from("0x1234"),
        renewal_enabled: true,
        allowance: Some(Decimal::from_word(allowance)),
        approved_value: Some(Decimal::from_word(approved)),
        metadata_hash: hash.map(String::from),
    }
}

/// Drives an evaluation with fixed answers and tells what was asked.
fn drive(
    candidate: CandidateRecord,
    price: Option<u128>,
    tax: TaxAnswer,
    balance: Option<u128>,
    identifier: Option<u128>,
) -> (Outcome, Vec<Request>) {
    let mut asked = Vec::new();
    let mut evaluation = Evaluation::begin(candidate);
    while let Some(request) = evaluation.request() {
        let reply = match &request {
            Request::Price(_) => Reply::Price(price.map(Felt::from_word)),
            Request::TaxRate { .. } => Reply::TaxRate(tax),
            Request::Balance { .. } => Reply::Balance(balance.map(Felt::from_word)),
            Request::Identifier { .. } => Reply::Identifier(identifier.map(Felt::from_word)),
        };
        asked.push(request);
        assert!(asked.len() <= 4, "an evaluation asks at most four times");
        evaluation = evaluation.resume(reply);
    }
    (evaluation.outcome().unwrap(), asked)
}

#[test]
fn a_renewal_without_metadata_asks_three_times() {
    let (outcome, asked) =
        drive(candidate(100, 100, None), Some(100), TaxAnswer::Unknown, Some(100), Some(9));
    assert_eq!(
        asked,
        vec![
            Request::Price(PriceRequest { label_length: 7, duration: 365 }),
            Request::Balance { address: Felt::from_word(0x1234) },
            Request::Identifier { label: String::from("example") },
        ]
    );
    match outcome {
        Outcome::Accepted(renewal) => {
            assert_eq!(renewal.domain_id, Felt::from_word(9));
            assert_eq!(renewal.renewer_address, Felt::from_word(0x1234));
            assert!(renewal.base_price.same_amount(&Decimal::from_word(100)));
            assert!(renewal.tax_amount.same_amount(&Decimal::zero()));
            assert!(renewal.metadata_hash.is_zero());
        }
        other => panic!("{:?}", other),
    }
}

#[test]
fn a_renewal_with_metadata_asks_four_times() {
    let (outcome, asked) = drive(
        candidate(1000, 1000, Some("0x00AB")),
        Some(200),
        TaxAnswer::Rate(5),
        Some(210),
        Some(9),
    );
    assert_eq!(
        asked,
        vec![
            Request::Price(PriceRequest { label_length: 7, duration: 365 }),
            Request::TaxRate { key: String::from("ab") },
            Request::Balance { address: Felt::from_word(0x1234) },
            Request::Identifier { label: String::from("example") },
        ]
    );
    match outcome {
        Outcome::Accepted(renewal) => {
            assert!(renewal.tax_amount.same_amount(&Decimal::from_word(10)));
            assert_eq!(renewal.metadata_hash, Felt::from_word(0xab));
        }
        other => panic!("{:?}", other),
    }
}

#[test]
fn a_disabled_candidate_asks_nothing() {
    let mut c = candidate(100, 100, Some("0x1"));
    c.renewal_enabled = false;
    let (outcome, asked) = drive(c, Some(1), TaxAnswer::Rate(1), Some(1000), Some(1));
    assert!(asked.is_empty());
    assert!(matches!(outcome, Outcome::Rejected(Rejection::NotEnabled)));
    let mut c = candidate(100, 100, None);
    c.allowance = None;
    let (outcome, asked) = drive(c, Some(1), TaxAnswer::Rate(1), Some(1000), Some(1));
    assert!(asked.is_empty());
    assert!(matches!(outcome, Outcome::Rejected(Rejection::NotEnabled)));
}

#[test]
fn a_failing_price_oracle_ends_the_evaluation_at_once() {
    let (outcome, asked) =
        drive(candidate(100, 100, Some("0x1")), None, TaxAnswer::Rate(1), Some(1000), Some(1));
    assert_eq!(asked.len(), 1);
    assert!(matches!(outcome, Outcome::Failed(EvalError::PriceLookup)));
}

#[test]
fn an_unauthorized_renewal_never_asks_for_the_balance() {
    let (outcome, asked) =
        drive(candidate(50, 200, None), Some(100), TaxAnswer::Unknown, Some(1000), Some(1));
    assert_eq!(asked.len(), 1);
    assert!(matches!(outcome, Outcome::Rejected(Rejection::ApprovalBelowPrice)));
    let (outcome, asked) = drive(
        candidate(200, 104, Some("0x1")),
        Some(100),
        TaxAnswer::Rate(5),
        Some(1000),
        Some(1),
    );
    assert_eq!(asked.len(), 2);
    assert!(matches!(outcome, Outcome::Rejected(Rejection::AllowanceBelowPrice)));
}

#[test]
fn an_unfunded_renewal_is_never_encoded() {
    let (outcome, asked) =
        drive(candidate(100, 100, None), Some(100), TaxAnswer::Unknown, Some(99), Some(1));
    assert_eq!(asked.len(), 2);
    assert!(matches!(outcome, Outcome::Rejected(Rejection::InsufficientBalance)));
    let (outcome, _) =
        drive(candidate(100, 100, None), Some(100), TaxAnswer::Unknown, None, Some(1));
    assert!(matches!(outcome, Outcome::Failed(EvalError::BalanceLookup)));
}

#[test]
fn failures_of_resolver_and_encoder_end_the_evaluation() {
    let (outcome, asked) = drive(
        candidate(1000, 1000, Some("0x1")),
        Some(100),
        TaxAnswer::Failed,
        Some(1000),
        Some(1),
    );
    assert_eq!(asked.len(), 2);
    assert!(matches!(outcome, Outcome::Failed(EvalError::TaxLookup)));
    let (outcome, asked) =
        drive(candidate(1000, 1000, None), Some(100), TaxAnswer::Unknown, Some(1000), None);
    assert_eq!(asked.len(), 3);
    assert!(matches!(outcome, Outcome::Failed(EvalError::Encoding)));
}

#[test]
fn an_answer_to_another_question_changes_nothing() {
    let evaluation = Evaluation::begin(candidate(100, 100, None));
    assert!(matches!(evaluation.request(), Some(Request::Price(_))));
    let evaluation = evaluation.resume(Reply::Balance(Some(Felt::from_word(5))));
    assert!(matches!(evaluation.request(), Some(Request::Price(_))));
    let evaluation = evaluation.resume(Reply::TaxRate(TaxAnswer::Rate(5)));
    let evaluation = evaluation.resume(Reply::Identifier(None));
    assert!(matches!(evaluation.request(), Some(Request::Price(_))));
    let evaluation = evaluation.resume(Reply::Price(Some(Felt::from_word(100))));
    assert!(matches!(evaluation.request(), Some(Request::Balance { .. })));
    let evaluation = evaluation.resume(Reply::Price(None));
    assert!(matches!(evaluation.request(), Some(Request::Balance { .. })));
    assert!(evaluation.outcome().is_none());
}

#[test]
fn a_finished_evaluation_stays_finished() {
    let evaluation = Evaluation::begin(candidate(100, 100, None)).resume(Reply::Price(None));
    assert!(evaluation.request().is_none());
    let evaluation = evaluation.resume(Reply::Price(Some(Felt::from_word(1))));
    let evaluation = evaluation.resume(Reply::Balance(Some(Felt::from_word(1))));
    assert!(evaluation.request().is_none());
    assert!(matches!(evaluation.outcome(), Some(Outcome::Failed(EvalError::PriceLookup))));
}
