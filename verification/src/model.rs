//! The records that pass through a renewal run.

use crate::decimal::Decimal;
use crate::felt::Felt;
use vstd::prelude::*;

verus! {

/// A domain that comes up for renewal, joined with what its owner has set and
/// approved.
#[derive(Clone, Debug)]
pub struct CandidateRecord {
    /// The full domain name, ending in `.stark`.
    pub domain_name: String,
    /// When the domain expires, in seconds since the epoch.
    pub expiry: i64,
    /// The address that pays for the renewal, in hexadecimal.
    pub renewer_address: String,
    /// Whether the owner switched automatic renewal on.
    pub renewal_enabled: bool,
    /// The most that the owner lets one renewal cost.
    pub allowance: Option<Decimal>,
    /// What the token contract lets the renewal contract spend.
    pub approved_value: Option<Decimal>,
    /// The hash of the owner's metadata, in hexadecimal.
    pub metadata_hash: Option<String>,
}

/// A renewal that passed every guard.
#[derive(Clone, Debug)]
pub struct AcceptedRenewal {
    /// The domain's identifier on the ledger.
    pub domain_id: Felt,
    /// The address that pays.
    pub renewer_address: Felt,
    /// The price of the renewal before tax.
    pub base_price: Decimal,
    /// The tax on it.
    pub tax_amount: Decimal,
    /// The hash of the owner's metadata, zero where there is none.
    pub metadata_hash: Felt,
}

/// Why a candidate is passed over. The run goes on.
#[derive(Clone, Copy, Debug, PartialEq, Eq, Structural)]
pub enum Rejection {
    /// Automatic renewal is off, or no allowance is set.
    NotEnabled,
    /// The token approval does not cover the price with tax.
    ApprovalBelowPrice,
    /// The owner's allowance does not cover the price with tax.
    AllowanceBelowPrice,
    /// The renewer's balance does not cover the price with tax.
    InsufficientBalance,
}

/// What is said of a rejection where it is reported.
pub open spec fn rejection_text(rejection: Rejection) -> Seq<char> {
    match rejection {
        Rejection::NotEnabled => "renewal not enabled"@,
        Rejection::ApprovalBelowPrice => "approval below final price"@,
        Rejection::AllowanceBelowPrice => "allowance below final price"@,
        Rejection::InsufficientBalance => "insufficient balance"@,
    }
}

impl Rejection {
    /// Whether the rejection is reported at all. A candidate that never opted
    /// in is passed over in silence; every other rejection is reported as a
    /// warning.
    pub fn is_reported(&self) -> (r: bool)
        ensures
            r == !(self is NotEnabled),
    {
        match self {
            Rejection::NotEnabled => false,
            _ => true,
        }
    }

    /// The reason in words.
    pub fn reason(&self) -> (r: &'static str)
        ensures
            r@ == rejection_text(*self),
    {
        match self {
            Rejection::NotEnabled => "renewal not enabled",
            Rejection::ApprovalBelowPrice => "approval below final price",
            Rejection::AllowanceBelowPrice => "allowance below final price",
            Rejection::InsufficientBalance => "insufficient balance",
        }
    }
}

/// Why the evaluation of a candidate broke off. The run ends.
#[derive(Clone, Copy, Debug, PartialEq, Eq, Structural)]
pub enum EvalError {
    /// The renewer's address denotes no field element.
    InvalidAddress,
    /// The domain name does not end in `.stark`.
    InvalidDomainName,
    /// The price oracle failed.
    PriceLookup,
    /// The metadata hash denotes no field element.
    InvalidMetadataHash,
    /// The tax resolver failed.
    TaxLookup,
    /// The balance oracle failed.
    BalanceLookup,
    /// The domain's name could not be encoded.
    Encoding,
}

/// What is said of an error where it is reported.
pub open spec fn error_text(error: EvalError) -> Seq<char> {
    match error {
        EvalError::InvalidAddress => "invalid renewer address"@,
        EvalError::InvalidDomainName => "invalid domain name"@,
        EvalError::PriceLookup => "price lookup failed"@,
        EvalError::InvalidMetadataHash => "invalid metadata hash"@,
        EvalError::TaxLookup => "tax lookup failed"@,
        EvalError::BalanceLookup => "balance lookup failed"@,
        EvalError::Encoding => "encoding failed"@,
    }
}

impl EvalError {
    /// The error in words.
    pub fn message(&self) -> (r: &'static str)
        ensures
            r@ == error_text(*self),
    {
        match self {
            EvalError::InvalidAddress => "invalid renewer address",
            EvalError::InvalidDomainName => "invalid domain name",
            EvalError::PriceLookup => "price lookup failed",
            EvalError::InvalidMetadataHash => "invalid metadata hash",
            EvalError::TaxLookup => "tax lookup failed",
            EvalError::BalanceLookup => "balance lookup failed",
            EvalError::Encoding => "encoding failed",
        }
    }
}

/// How the evaluation of one candidate ended.
#[derive(Clone, Debug)]
pub enum Outcome {
    /// Every guard passed: the renewal is to be sent.
    Accepted(AcceptedRenewal),
    /// A guard passed the candidate over.
    Rejected(Rejection),
    /// The evaluation broke off.
    Failed(EvalError),
}

} // verus!
