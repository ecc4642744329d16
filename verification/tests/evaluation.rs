use auto_renewal::decimal::Decimal;
use auto_renewal::evaluator::{
    start, BalanceQuery, Funded, IdentifierQuery, PriceQuery, Priced, Started, TaxQuery,
    Taxed, RENEWAL_DURATION,
};
use auto_renewal::fanout::{join, join_with, FanOutPolicy, JoinPolicy};
use auto_renewal::felt::Felt;
use auto_renewal::model::{AcceptedRenewal, CandidateRecord, EvalError, Outcome, Rejection};
use auto_renewal::tax::TaxAnswer;

const ADDRESS: &str = "0x061b6c0a78f9edf13cea17b50719f3344533fadd470b8cb29c2b4318014f52d3";

fn candidate(approved: u128, allowance: u128) -> CandidateRecord {
    CandidateRecord {
        domain_name: String::from("example.stark"),
        expiry: 1_700_000_000,
        renewer_address: String::from(ADDRESS),
        renewal_enabled: true,
        allowance: Some(Decimal::from_word(allowance)),
        approved_value: Some(Decimal::from_word(approved)),
        metadata_hash: None,
    }
}

fn awaiting_price(candidate: CandidateRecord) -> PriceQuery {
    match start(candidate) {
        Started::Price(query) => query,
        Started::Done(outcome) => panic!("ended at once: {:?}", outcome),
    }
}

fn awaiting_tax(candidate: CandidateRecord, price: u128) -> TaxQuery {
    match awaiting_price(candidate).on_price(Some(Felt::from_word(price))) {
        Priced::TaxRate(query) => query,
        other => panic!("no tax query: {:?}", other),
    }
}

fn awaiting_balance(candidate: CandidateRecord, price: u128) -> BalanceQuery {
    match awaiting_price(candidate).on_price(Some(Felt::from_word(price))) {
        Priced::Balance(query) => query,
        other => panic!("no balance query: {:?}", other),
    }
}

fn awaiting_identifier(candidate: CandidateRecord, price: u128, balance: u128) -> IdentifierQuery {
    match awaiting_balance(candidate, price).on_balance(Some(Felt::from_word(balance))) {
        Funded::Identifier(query) => query,
        other => panic!("no identifier query: {:?}", other),
    }
}

fn accepted(domain: u128) -> Outcome {
    Outcome::Accepted(AcceptedRenewal {
        domain_id: Felt::from_word(domain),
        renewer_address: Felt::from_word(1),
        base_price: Decimal::from_word(100),
        tax_amount: Decimal::zero(),
        metadata_hash: Felt::zero(),
    })
}

#[test]
fn renewal_duration_is_fixed() {
    assert_eq!(RENEWAL_DURATION, 365);
}

#[test]
fn disabled_candidate_is_passed_over_without_a_query() {
    let mut c = candidate(1000, 1000);
    c.renewal_enabled = false;
    assert!(matches!(start(c), Started::Done(Outcome::Rejected(Rejection::NotEnabled))));
}

#[test]
fn candidate_without_allowance_is_passed_over_without_a_query() {
    let mut c = candidate(1000, 1000);
    c.allowance = None;
    assert!(matches!(start(c), Started::Done(Outcome::Rejected(Rejection::NotEnabled))));
}

#[test]
fn disabled_candidate_is_passed_over_before_anything_is_parsed() {
    let mut c = candidate(1000, 1000);
    c.renewal_enabled = false;
    c.renewer_address = String::from("not an address");
    c.domain_name = String::from("no suffix");
    assert!(matches!(start(c), Started::Done(Outcome::Rejected(Rejection::NotEnabled))));
}

#[test]
fn malformed_address_breaks_off() {
    let mut c = candidate(1000, 1000);
    c.renewer_address = String::from("0xnothex");
    assert!(matches!(start(c), Started::Done(Outcome::Failed(EvalError::InvalidAddress))));
}

#[test]
fn address_beyond_the_field_breaks_off() {
    let mut c = candidate(1000, 1000);
    c.renewer_address =
        String::from("0xffffffffffffffffffffffffffffffffffffffffffffffffffffffffffffffff");
    assert!(matches!(start(c), Started::Done(Outcome::Failed(EvalError::InvalidAddress))));
}

#[test]
fn address_is_looked_at_before_the_domain_name() {
    let mut c = candidate(1000, 1000);
    c.renewer_address = String::from("0xnothex");
    c.domain_name = String::from("example.eth");
    assert!(matches!(start(c), Started::Done(Outcome::Failed(EvalError::InvalidAddress))));
}

#[test]
fn domain_without_the_suffix_breaks_off() {
    let mut c = candidate(1000, 1000);
    c.domain_name = String::from("example.eth");
    assert!(matches!(start(c), Started::Done(Outcome::Failed(EvalError::InvalidDomainName))));
    let mut c = candidate(1000, 1000);
    c.domain_name = String::from("stark");
    assert!(matches!(start(c), Started::Done(Outcome::Failed(EvalError::InvalidDomainName))));
}

#[test]
fn start_reads_label_and_address() {
    let query = awaiting_price(candidate(1000, 2000));
    assert_eq!(query.label, "example");
    assert_eq!(query.label_length(), 7);
    assert_eq!(query.renewer.bytes[0], 0x06);
    assert_eq!(query.renewer.bytes[1], 0x1b);
    assert_eq!(query.renewer.bytes[31], 0xd3);
    assert!(query.approved.same_amount(&Decimal::from_word(1000)));
    assert!(query.allowance.same_amount(&Decimal::from_word(2000)));
    assert_eq!(query.metadata_hash, None);
}

#[test]
fn short_address_is_padded() {
    let mut c = candidate(1000, 1000);
    c.renewer_address = String::from("0x1f");
    assert_eq!(awaiting_price(c).renewer, Felt::from_word(0x1f));
}

#[test]
fn label_length_counts_bytes() {
    let mut c = candidate(1000, 1000);
    c.domain_name = String::from("caf\u{e9}.stark");
    let query = awaiting_price(c);
    assert_eq!(query.label, "caf\u{e9}");
    assert_eq!(query.label_length(), 5);
    let mut c = candidate(1000, 1000);
    c.domain_name = String::from(".stark");
    assert_eq!(awaiting_price(c).label_length(), 0);
}

#[test]
fn only_the_last_suffix_is_cut() {
    let mut c = candidate(1000, 1000);
    c.domain_name = String::from("a.stark.stark");
    assert_eq!(awaiting_price(c).label, "a.stark");
}

#[test]
fn missing_approval_counts_as_zero() {
    let mut c = candidate(0, 1000);
    c.approved_value = None;
    let query = awaiting_price(c);
    assert!(query.approved.same_amount(&Decimal::zero()));
    assert!(matches!(
        query.on_price(Some(Felt::from_word(1))),
        Priced::Done(Outcome::Rejected(Rejection::ApprovalBelowPrice))
    ));
}

#[test]
fn price_oracle_failure_breaks_off() {
    let query = awaiting_price(candidate(1000, 1000));
    assert!(matches!(query.on_price(None), Priced::Done(Outcome::Failed(EvalError::PriceLookup))));
}

#[test]
fn price_oracle_failure_comes_before_the_metadata_hash() {
    let mut c = candidate(1000, 1000);
    c.metadata_hash = Some(String::from("zz"));
    assert!(matches!(
        awaiting_price(c).on_price(None),
        Priced::Done(Outcome::Failed(EvalError::PriceLookup))
    ));
}

#[test]
fn malformed_metadata_hash_breaks_off() {
    let mut c = candidate(1000, 1000);
    c.metadata_hash = Some(String::from("zz"));
    assert!(matches!(
        awaiting_price(c).on_price(Some(Felt::from_word(100))),
        Priced::Done(Outcome::Failed(EvalError::InvalidMetadataHash))
    ));
}

#[test]
fn metadata_hash_sends_to_the_tax_resolver() {
    let mut c = candidate(1000, 1000);
    c.metadata_hash = Some(String::from("0x2a"));
    let query = awaiting_tax(c, 100);
    assert_eq!(query.metadata, Felt::from_word(0x2a));
    assert_eq!(query.price, Felt::from_word(100));
    assert_eq!(query.label, "example");
}

#[test]
fn zero_metadata_hash_is_not_resolved() {
    for zero in ["0", "0x0", "0x", "0x0000"] {
        let mut c = candidate(1000, 1000);
        c.metadata_hash = Some(String::from(zero));
        let query = awaiting_balance(c, 100);
        assert!(query.metadata.is_zero());
        assert!(query.tax.same_amount(&Decimal::zero()));
    }
}

#[test]
fn absent_metadata_hash_means_no_tax() {
    let query = awaiting_balance(candidate(100, 100), 100);
    assert!(query.tax.same_amount(&Decimal::zero()));
    assert!(query.metadata.is_zero());
    assert_eq!(query.price, Felt::from_word(100));
}

#[test]
fn approval_below_price_is_rejected_whatever_the_allowance() {
    let query = awaiting_price(candidate(50, 200));
    assert!(matches!(
        query.on_price(Some(Felt::from_word(100))),
        Priced::Done(Outcome::Rejected(Rejection::ApprovalBelowPrice))
    ));
}

#[test]
fn allowance_below_price_is_rejected() {
    let query = awaiting_price(candidate(200, 50));
    assert!(matches!(
        query.on_price(Some(Felt::from_word(100))),
        Priced::Done(Outcome::Rejected(Rejection::AllowanceBelowPrice))
    ));
}

#[test]
fn exact_cover_passes_authorization() {
    let query = awaiting_balance(candidate(100, 100), 100);
    assert_eq!(query.renewer.bytes[31], 0xd3);
}

#[test]
fn tax_resolver_failure_breaks_off() {
    let mut c = candidate(1000, 1000);
    c.metadata_hash = Some(String::from("0x2a"));
    assert!(matches!(
        awaiting_tax(c, 100).on_tax_rate(TaxAnswer::Failed),
        Taxed::Done(Outcome::Failed(EvalError::TaxLookup))
    ));
}

#[test]
fn unknown_jurisdiction_means_no_tax() {
    let mut c = candidate(100, 100);
    c.metadata_hash = Some(String::from("0x2a"));
    match awaiting_tax(c, 100).on_tax_rate(TaxAnswer::Unknown) {
        Taxed::Balance(query) => {
            assert!(query.tax.same_amount(&Decimal::zero()));
            assert_eq!(query.metadata, Felt::from_word(0x2a));
        }
        other => panic!("{:?}", other),
    }
}

#[test]
fn tax_counts_towards_the_authorization() {
    let with_hash = |approved, allowance| {
        let mut c = candidate(approved, allowance);
        c.metadata_hash = Some(String::from("0x2a"));
        awaiting_tax(c, 100)
    };
    assert!(matches!(
        with_hash(106, 200).on_tax_rate(TaxAnswer::Rate(7)),
        Taxed::Done(Outcome::Rejected(Rejection::ApprovalBelowPrice))
    ));
    assert!(matches!(
        with_hash(107, 106).on_tax_rate(TaxAnswer::Rate(7)),
        Taxed::Done(Outcome::Rejected(Rejection::AllowanceBelowPrice))
    ));
    match with_hash(107, 107).on_tax_rate(TaxAnswer::Rate(7)) {
        Taxed::Balance(query) => assert!(query.tax.same_amount(&Decimal::from_word(7))),
        other => panic!("{:?}", other),
    }
}

#[test]
fn hundredths_of_tax_count_towards_the_authorization() {
    let mut c = candidate(160, 161);
    c.metadata_hash = Some(String::from("0x2a"));
    // 150 and 7 percent of it are 160.50.
    assert!(matches!(
        awaiting_tax(c, 150).on_tax_rate(TaxAnswer::Rate(7)),
        Taxed::Done(Outcome::Rejected(Rejection::ApprovalBelowPrice))
    ));
}

#[test]
fn balance_oracle_failure_breaks_off() {
    let query = awaiting_balance(candidate(100, 100), 100);
    assert!(matches!(
        query.on_balance(None),
        Funded::Done(Outcome::Failed(EvalError::BalanceLookup))
    ));
}

#[test]
fn insufficient_balance_is_rejected() {
    let query = awaiting_balance(candidate(100, 100), 100);
    assert!(matches!(
        query.on_balance(Some(Felt::from_word(99))),
        Funded::Done(Outcome::Rejected(Rejection::InsufficientBalance))
    ));
}

#[test]
fn balance_must_cover_the_tax_too() {
    let mut c = candidate(1000, 1000);
    c.metadata_hash = Some(String::from("0x2a"));
    let query = match awaiting_tax(c, 150).on_tax_rate(TaxAnswer::Rate(7)) {
        Taxed::Balance(query) => query,
        other => panic!("{:?}", other),
    };
    assert!(matches!(
        query.on_balance(Some(Felt::from_word(160))),
        Funded::Done(Outcome::Rejected(Rejection::InsufficientBalance))
    ));
}

#[test]
fn exact_balance_is_enough() {
    let query = awaiting_identifier(candidate(100, 100), 100, 100);
    assert_eq!(query.label, "example");
    assert_eq!(query.price, Felt::from_word(100));
}

#[test]
fn encoding_failure_breaks_off() {
    let query = awaiting_identifier(candidate(100, 100), 100, 100);
    assert!(matches!(query.on_identifier(None), Outcome::Failed(EvalError::Encoding)));
}

#[test]
fn accepted_renewal_carries_what_was_found() {
    let mut c = candidate(1000, 1000);
    c.metadata_hash = Some(String::from("0x2a"));
    let query = match awaiting_tax(c, 150).on_tax_rate(TaxAnswer::Rate(7)) {
        Taxed::Balance(query) => query,
        other => panic!("{:?}", other),
    };
    let query = match query.on_balance(Some(Felt::from_word(161))) {
        Funded::Identifier(query) => query,
        other => panic!("{:?}", other),
    };
    match query.on_identifier(Some(Felt::from_word(999))) {
        Outcome::Accepted(renewal) => {
            assert_eq!(renewal.domain_id, Felt::from_word(999));
            assert_eq!(renewal.renewer_address.bytes[31], 0xd3);
            assert!(renewal.base_price.same_amount(&Decimal::from_word(150)));
            assert!(renewal.tax_amount.same_amount(&Decimal::from_fraction(1050, 2).unwrap()));
            assert_eq!(renewal.metadata_hash, Felt::from_word(0x2a));
        }
        other => panic!("{:?}", other),
    }
}

#[test]
fn join_keeps_the_accepted_in_order() {
    let outcomes = vec![
        accepted(1),
        Outcome::Rejected(Rejection::NotEnabled),
        accepted(2),
        Outcome::Rejected(Rejection::InsufficientBalance),
        accepted(3),
    ];
    let renewals = join(outcomes).unwrap();
    let ids: Vec<Felt> = renewals.iter().map(|r| r.domain_id).collect();
    assert_eq!(ids, vec![Felt::from_word(1), Felt::from_word(2), Felt::from_word(3)]);
}

#[test]
fn join_of_nothing_is_nothing() {
    assert!(join(vec![]).unwrap().is_empty());
    assert!(join(vec![Outcome::Rejected(Rejection::AllowanceBelowPrice)]).unwrap().is_empty());
}

#[test]
fn one_failure_aborts_the_whole_run() {
    let outcomes = vec![
        accepted(1),
        accepted(2),
        Outcome::Failed(EvalError::PriceLookup),
        accepted(4),
        accepted(5),
    ];
    assert_eq!(join(outcomes).unwrap_err(), EvalError::PriceLookup);
}

#[test]
fn the_first_failure_is_reported() {
    let outcomes = vec![
        accepted(1),
        Outcome::Failed(EvalError::BalanceLookup),
        Outcome::Failed(EvalError::Encoding),
    ];
    assert_eq!(join(outcomes).unwrap_err(), EvalError::BalanceLookup);
}

#[test]
fn fan_out_aborts_on_the_third_oracle_failure() {
    // Five candidates that are valid by themselves; the price oracle fails
    // for the third.
    let mut outcomes = Vec::new();
    for i in 0..5u128 {
        let query = awaiting_price(candidate(1000, 1000));
        let reply = if i == 2 { None } else { Some(Felt::from_word(100)) };
        let outcome = match query.on_price(reply) {
            Priced::Done(outcome) => outcome,
            Priced::Balance(query) => match query.on_balance(Some(Felt::from_word(500))) {
                Funded::Done(outcome) => outcome,
                Funded::Identifier(query) => query.on_identifier(Some(Felt::from_word(i + 1))),
            },
            Priced::TaxRate(_) => panic!("no metadata hash was given"),
        };
        outcomes.push(outcome);
    }
    let valid = outcomes.iter().filter(|o| matches!(o, Outcome::Accepted(_))).count();
    assert_eq!(valid, 4);
    let joined = join(outcomes);
    assert!(joined.is_err());
    assert_eq!(joined.unwrap_err(), EvalError::PriceLookup);
}

#[test]
fn keeping_the_accepted_reports_the_errors_beside_them() {
    let outcomes = || {
        vec![
            accepted(1),
            Outcome::Failed(EvalError::BalanceLookup),
            Outcome::Rejected(Rejection::NotEnabled),
            accepted(2),
            Outcome::Failed(EvalError::Encoding),
        ]
    };
    let joined = join_with(JoinPolicy::KeepAccepted, outcomes()).unwrap();
    let ids: Vec<Felt> = joined.accepted.iter().map(|r| r.domain_id).collect();
    assert_eq!(ids, vec![Felt::from_word(1), Felt::from_word(2)]);
    assert_eq!(joined.failures, vec![EvalError::BalanceLookup, EvalError::Encoding]);
    assert_eq!(
        join_with(JoinPolicy::AbortOnFailure, outcomes()).unwrap_err(),
        EvalError::BalanceLookup
    );
    let clean = join_with(JoinPolicy::AbortOnFailure, vec![accepted(1), accepted(2)]).unwrap();
    assert_eq!(clean.accepted.len(), 2);
    assert!(clean.failures.is_empty());
}

#[test]
fn waves_respect_the_concurrency_bound() {
    let unbounded = FanOutPolicy::unbounded();
    assert_eq!(unbounded.concurrency, None);
    assert_eq!(unbounded.on_failure, JoinPolicy::AbortOnFailure);
    assert_eq!(unbounded.wave(0), 0);
    assert_eq!(unbounded.wave(5000), 5000);
    let bounded = FanOutPolicy { concurrency: Some(16), on_failure: JoinPolicy::KeepAccepted };
    assert_eq!(bounded.wave(0), 0);
    assert_eq!(bounded.wave(5), 5);
    assert_eq!(bounded.wave(16), 16);
    assert_eq!(bounded.wave(17), 16);
    let stalled = FanOutPolicy { concurrency: Some(0), on_failure: JoinPolicy::AbortOnFailure };
    assert_eq!(stalled.wave(0), 0);
    assert_eq!(stalled.wave(3), 1);
}
