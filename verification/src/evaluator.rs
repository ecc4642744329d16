//! The eligibility evaluator.
//!
//! A candidate passes a chain of guards, in a fixed order, and the first guard
//! that fails decides. Three of the guards need an answer from outside (the
//! price oracle, the tax resolver, the balance oracle), and the last step needs
//! the domain's identifier. The evaluator never asks by itself: each step
//! either ends the evaluation or hands back a query, and the caller brings the
//! answer to the next step.

use crate::decimal::Decimal;
use crate::felt::{field_element_from_hex, hex_field_element, hex_text, Felt};
use crate::model::{AcceptedRenewal, CandidateRecord, EvalError, Outcome, Rejection};
use crate::natural::be_value;
use crate::tax::TaxAnswer;
use vstd::prelude::*;
use vstd::utf8::encode_utf8;

verus! {

/// The duration that a renewal is priced for, in the protocol's own unit.
pub const RENEWAL_DURATION: u64 = 365;

/// The ending that every domain name carries.
pub open spec fn stark_suffix() -> Seq<char> {
    seq!['.', 's', 't', 'a', 'r', 'k']
}

/// Whether `text` ends with `suffix`.
pub open spec fn ends_with(text: Seq<char>, suffix: Seq<char>) -> bool {
    text.len() >= suffix.len() && text.subrange(text.len() - suffix.len(), text.len() as int)
        == suffix
}

/// The label of a domain name: what stands before `.stark`.
pub open spec fn label_of(name: Seq<char>) -> Option<Seq<char>> {
    if ends_with(name, stark_suffix()) {
        Some(name.subrange(0, name.len() - stark_suffix().len()))
    } else {
        None
    }
}

/// The tax on a price, in hundredths: so many percent of it.
pub open spec fn tax_hundredths(price: nat, percent: nat) -> nat {
    price * percent
}

/// What a renewal costs, in hundredths: the price and the tax on it.
pub open spec fn due_hundredths(price: nat, tax: nat) -> nat {
    100 * price + tax
}

/// The two-tier authorization guard. The token approval is looked at first,
/// the owner's allowance second; each must cover the whole cost by itself.
pub open spec fn authorization(approved: nat, allowance: nat, due: nat) -> Option<Rejection> {
    if approved < due {
        Some(Rejection::ApprovalBelowPrice)
    } else if allowance < due {
        Some(Rejection::AllowanceBelowPrice)
    } else {
        None
    }
}

/// Approval comes first. Where the token approval does not cover the cost, the
/// candidate is rejected for that, whatever its allowance is.
pub proof fn lemma_approval_before_allowance(approved: nat, allowance: nat, due: nat)
    requires
        approved < due,
    ensures
        authorization(approved, allowance, due) == Some(Rejection::ApprovalBelowPrice),
{
}

/// The authorization guard lets a candidate through exactly where the
/// approval and the allowance each cover the cost.
pub proof fn lemma_authorization_passes(approved: nat, allowance: nat, due: nat)
    ensures
        authorization(approved, allowance, due) is None <==> approved >= due && allowance >= due,
{
}

/// A candidate that waits for its price.
#[derive(Debug)]
pub struct PriceQuery {
    /// The domain's label: its name without `.stark`.
    pub label: String,
    /// The address that pays.
    pub renewer: Felt,
    /// What the token contract lets the renewal contract spend.
    pub approved: Decimal,
    /// The most that the owner lets one renewal cost.
    pub allowance: Decimal,
    /// The hash of the owner's metadata, in hexadecimal, as the store gave it.
    pub metadata_hash: Option<String>,
}

/// A priced candidate that waits for its tax rate.
#[derive(Debug)]
pub struct TaxQuery {
    /// The domain's label.
    pub label: String,
    /// The address that pays.
    pub renewer: Felt,
    /// What the token contract lets the renewal contract spend.
    pub approved: Decimal,
    /// The most that the owner lets one renewal cost.
    pub allowance: Decimal,
    /// The price of the renewal before tax.
    pub price: Felt,
    /// The hash of the owner's metadata, which is not zero.
    pub metadata: Felt,
}

/// An authorized candidate that waits for the renewer's balance.
#[derive(Debug)]
pub struct BalanceQuery {
    /// The domain's label.
    pub label: String,
    /// The address that pays, whose balance is asked for.
    pub renewer: Felt,
    /// The price of the renewal before tax.
    pub price: Felt,
    /// The tax on the price.
    pub tax: Decimal,
    /// The hash of the owner's metadata, zero where there is none.
    pub metadata: Felt,
}

/// A funded candidate that waits for the identifier of its domain.
#[derive(Debug)]
pub struct IdentifierQuery {
    /// The domain's label, which is to be encoded.
    pub label: String,
    /// The address that pays.
    pub renewer: Felt,
    /// The price of the renewal before tax.
    pub price: Felt,
    /// The tax on the price.
    pub tax: Decimal,
    /// The hash of the owner's metadata, zero where there is none.
    pub metadata: Felt,
}

/// Where a candidate stands after the first guards.
#[derive(Debug)]
pub enum Started {
    /// The evaluation is over.
    Done(Outcome),
    /// The price oracle is to be asked.
    Price(PriceQuery),
}

/// Where a candidate stands once its price is known.
#[derive(Debug)]
pub enum Priced {
    /// The evaluation is over.
    Done(Outcome),
    /// The tax resolver is to be asked.
    TaxRate(TaxQuery),
    /// The balance oracle is to be asked.
    Balance(BalanceQuery),
}

/// Where a candidate stands once its tax is known.
#[derive(Debug)]
pub enum Taxed {
    /// The evaluation is over.
    Done(Outcome),
    /// The balance oracle is to be asked.
    Balance(BalanceQuery),
}

/// Where a candidate stands once the renewer's balance is known.
#[derive(Debug)]
pub enum Funded {
    /// The evaluation is over.
    Done(Outcome),
    /// The label is to be encoded.
    Identifier(IdentifierQuery),
}

/// `str::strip_suffix` of std. Believed of it, as its documentation says:
/// where the text ends with the suffix, it gives what stands before the
/// suffix, and `None` where the text does not end with it.
#[verifier::external_body]
fn strip_suffix<'a>(text: &'a str, suffix: &str) -> (r: Option<&'a str>)
    ensures
        match r {
            Some(rest) => text@ == rest@ + suffix@,
            None => !ends_with(text@, suffix@),
        },
{
    text.strip_suffix(suffix)
}

/// The tax on `price` under the resolver's answer: so many percent of the
/// price where a rate is known, nothing where none is.
pub fn tax_amount(price: &Felt, percent: Option<u32>) -> (r: Decimal)
    ensures
        r.wf(),
        r.hundredths() == match percent {
            Some(p) => tax_hundredths(price@, p as nat),
            None => 0,
        },
{
    match percent {
        Some(p) => Decimal::percent_of(price, p),
        None => Decimal::zero(),
    }
}

/// What a renewal costs: the price and the tax on it.
pub fn due_amount(price: &Felt, tax: &Decimal) -> (r: Decimal)
    ensures
        r.wf(),
        r.hundredths() == due_hundredths(price@, tax.hundredths()),
{
    Decimal::from_felt(price).plus(tax)
}

/// The authorization guard on a cost of `due`.
pub fn authorize(approved: &Decimal, allowance: &Decimal, due: &Decimal) -> (r: Option<Rejection>)
    ensures
        r == authorization(approved.hundredths(), allowance.hundredths(), due.hundredths()),
{
    if !approved.at_least(due) {
        Some(Rejection::ApprovalBelowPrice)
    } else if !allowance.at_least(due) {
        Some(Rejection::AllowanceBelowPrice)
    } else {
        None
    }
}

/// What [`start`] owes for a candidate whose address denotes the field
/// element `renewer`, or none where `renewer` is `None`.
///
/// Automatic renewal that is off, or an allowance that is missing, passes the
/// candidate over before anything else is looked at. Then the address must
/// denote a field element, then the domain name must end in `.stark`. A
/// candidate that gets through waits for its price, with its label cut from
/// the name; a token approval that is missing counts as zero.
pub open spec fn started(candidate: CandidateRecord, renewer: Option<Seq<u8>>, r: Started) -> bool {
    if !candidate.renewal_enabled || candidate.allowance is None {
        r == Started::Done(Outcome::Rejected(Rejection::NotEnabled))
    } else if renewer is None {
        r == Started::Done(Outcome::Failed(EvalError::InvalidAddress))
    } else if label_of(candidate.domain_name@) is None {
        r == Started::Done(Outcome::Failed(EvalError::InvalidDomainName))
    } else {
        &&& r matches Started::Price(query)
        &&& Some(query.label@) == label_of(candidate.domain_name@)
        &&& Some(query.renewer.bytes@) == renewer
        &&& query.allowance == candidate.allowance->0
        &&& query.approved.hundredths() == match candidate.approved_value {
            Some(value) => value.hundredths(),
            None => 0,
        }
        &&& query.metadata_hash == candidate.metadata_hash
    }
}

/// The enablement guard comes before everything else. A candidate with
/// automatic renewal off or without an allowance is passed over at the first
/// step, whatever its address and its domain name are: no renewal is accepted
/// for it, and no query is made, so no oracle is ever asked about it.
pub proof fn lemma_not_enabled_asks_nothing(
    candidate: CandidateRecord,
    renewer: Option<Seq<u8>>,
    r: Started,
)
    requires
        !candidate.renewal_enabled || candidate.allowance is None,
        started(candidate, renewer, r),
    ensures
        r == Started::Done(Outcome::Rejected(Rejection::NotEnabled)),
        !(r is Price),
{
}

/// The balance guard: whether a balance covers a cost of `due`.
pub fn has_funds(balance: &Felt, due: &Decimal) -> (r: bool)
    ensures
        r == (100 * balance@ >= due.hundredths()),
{
    Decimal::from_felt(balance).at_least(due)
}

/// The first guards, which need no answer from outside. A candidate with
/// automatic renewal off or without an allowance is passed over at once, and no
/// query is made for it.
pub fn start(candidate: CandidateRecord) -> (r: Started)
    ensures
        started(candidate, hex_field_element(candidate.renewer_address@), r),
{
    let renewer = if candidate.renewal_enabled && candidate.allowance.is_some() {
        field_element_from_hex(candidate.renewer_address.as_str())
    } else {
        None
    };
    start_with(candidate, renewer)
}

/// The first guards for a candidate whose address has been read: `renewer` is
/// the field element that the address denotes, `None` where it denotes none.
pub fn start_with(candidate: CandidateRecord, renewer: Option<Felt>) -> (r: Started)
    ensures
        started(
            candidate,
            match renewer {
                Some(element) => Some(element.bytes@),
                None => None,
            },
            r,
        ),
{
    if !candidate.renewal_enabled {
        return Started::Done(Outcome::Rejected(Rejection::NotEnabled));
    }
    let allowance = match candidate.allowance {
        Some(allowance) => allowance,
        None => {
            return Started::Done(Outcome::Rejected(Rejection::NotEnabled));
        },
    };
    let renewer = match renewer {
        Some(renewer) => renewer,
        None => {
            return Started::Done(Outcome::Failed(EvalError::InvalidAddress));
        },
    };
    let approved = match candidate.approved_value {
        Some(value) => value,
        None => Decimal::zero(),
    };
    proof {
        reveal_strlit(".stark");
        assert(".stark"@ =~= stark_suffix());
    }
    let label = match strip_suffix(candidate.domain_name.as_str(), ".stark") {
        Some(label) => label.to_owned(),
        None => {
            return Started::Done(Outcome::Failed(EvalError::InvalidDomainName));
        },
    };
    proof {
        let name = candidate.domain_name@;
        assert(name == label@ + stark_suffix());
        assert(name.subrange(name.len() - 6, name.len() as int) =~= stark_suffix());
        assert(name.subrange(0, name.len() - 6) =~= label@);
    }
    Started::Price(
        PriceQuery { label, renewer, approved, allowance, metadata_hash: candidate.metadata_hash },
    )
}

/// What the price oracle is asked.
#[derive(Clone, Copy, Debug, PartialEq, Eq, Structural)]
pub struct PriceRequest {
    /// The length of the domain's label, in bytes.
    pub label_length: usize,
    /// The duration to price, always [`RENEWAL_DURATION`].
    pub duration: u64,
}

/// What [`PriceQuery::on_price`] owes once the oracle has answered with
/// `reply`, for a candidate whose metadata hash, where it has one, denotes the
/// field element `metadata`, or none where `metadata` is `None`.
///
/// A failure of the oracle ends the evaluation before the hash is looked at.
/// A hash that denotes no field element ends it next. A hash that is present
/// and not zero sends the candidate to the tax resolver. Without such a hash
/// the tax is zero and the authorization guard decides at once.
pub open spec fn priced(
    query: PriceQuery,
    reply: Option<Felt>,
    metadata: Option<Seq<u8>>,
    r: Priced,
) -> bool {
    if reply is None {
        r == Priced::Done(Outcome::Failed(EvalError::PriceLookup))
    } else if query.metadata_hash is Some && metadata is None {
        r == Priced::Done(Outcome::Failed(EvalError::InvalidMetadataHash))
    } else if query.metadata_hash is Some && be_value(metadata->0) != 0 {
        &&& r matches Priced::TaxRate(next)
        &&& next.label == query.label
        &&& next.renewer == query.renewer
        &&& next.approved == query.approved
        &&& next.allowance == query.allowance
        &&& next.price == reply->0
        &&& Some(next.metadata.bytes@) == metadata
    } else {
        match authorization(
            query.approved.hundredths(),
            query.allowance.hundredths(),
            due_hundredths(reply->0@, 0),
        ) {
            Some(reason) => r == Priced::Done(Outcome::Rejected(reason)),
            None => {
                &&& r matches Priced::Balance(next)
                &&& next.label == query.label
                &&& next.renewer == query.renewer
                &&& next.price == reply->0
                &&& next.tax.hundredths() == 0
                &&& next.metadata@ == 0
            },
        }
    }
}

impl PriceQuery {
    /// The length of the label, in bytes: what the price oracle is asked
    /// with, beside [`RENEWAL_DURATION`].
    pub fn label_length(&self) -> (n: usize)
        ensures
            n == encode_utf8(self.label@).len() as usize,
    {
        self.label.as_str().len()
    }

    /// What the price oracle is to be asked for this candidate.
    pub fn request(&self) -> (r: PriceRequest)
        ensures
            r.label_length == encode_utf8(self.label@).len() as usize,
            r.duration == RENEWAL_DURATION,
    {
        PriceRequest { label_length: self.label_length(), duration: RENEWAL_DURATION }
    }

    /// The step after the price oracle's answer; `None` says that the oracle
    /// failed.
    pub fn on_price(self, reply: Option<Felt>) -> (r: Priced)
        ensures
            priced(
                self,
                reply,
                match self.metadata_hash {
                    Some(hash) => hex_field_element(hash@),
                    None => None,
                },
                r,
            ),
    {
        let metadata = match &self.metadata_hash {
            Some(hash) => if reply.is_some() {
                field_element_from_hex(hash.as_str())
            } else {
                None
            },
            None => None,
        };
        self.on_price_with(reply, metadata)
    }

    /// The step after the price oracle's answer for a candidate whose metadata
    /// hash has been read: `metadata` is the field element that the hash
    /// denotes, `None` where it denotes none or where there is no hash.
    pub fn on_price_with(self, reply: Option<Felt>, metadata: Option<Felt>) -> (r: Priced)
        ensures
            priced(
                self,
                reply,
                match metadata {
                    Some(element) => Some(element.bytes@),
                    None => None,
                },
                r,
            ),
    {
        let price = match reply {
            Some(price) => price,
            None => {
                return Priced::Done(Outcome::Failed(EvalError::PriceLookup));
            },
        };
        let metadata = if self.metadata_hash.is_some() {
            match metadata {
                Some(metadata) => metadata,
                None => {
                    return Priced::Done(Outcome::Failed(EvalError::InvalidMetadataHash));
                },
            }
        } else {
            Felt::zero()
        };
        if !metadata.is_zero() {
            return Priced::TaxRate(
                TaxQuery {
                    label: self.label,
                    renewer: self.renewer,
                    approved: self.approved,
                    allowance: self.allowance,
                    price,
                    metadata,
                },
            );
        }
        let tax = tax_amount(&price, None);
        let due = due_amount(&price, &tax);
        match authorize(&self.approved, &self.allowance, &due) {
            Some(reason) => Priced::Done(Outcome::Rejected(reason)),
            None => Priced::Balance(
                BalanceQuery { label: self.label, renewer: self.renewer, price, tax, metadata },
            ),
        }
    }
}

/// What [`TaxQuery::on_tax_rate`] owes once the tax resolver has answered
/// with `reply`.
///
/// A failure of the resolver ends the evaluation. Otherwise the tax is so many
/// percent of the price as the answer gives, or nothing where no rate is
/// known, and the authorization guard decides on the price with that tax.
pub open spec fn taxed(query: TaxQuery, reply: TaxAnswer, r: Taxed) -> bool {
    if reply is Failed {
        r == Taxed::Done(Outcome::Failed(EvalError::TaxLookup))
    } else {
        let tax = match reply {
            TaxAnswer::Rate(percent) => tax_hundredths(query.price@, percent as nat),
            _ => 0,
        };
        match authorization(
            query.approved.hundredths(),
            query.allowance.hundredths(),
            due_hundredths(query.price@, tax),
        ) {
            Some(reason) => r == Taxed::Done(Outcome::Rejected(reason)),
            None => {
                &&& r matches Taxed::Balance(next)
                &&& next.label == query.label
                &&& next.renewer == query.renewer
                &&& next.price == query.price
                &&& next.tax.hundredths() == tax
                &&& next.metadata == query.metadata
            },
        }
    }
}

/// What [`BalanceQuery::on_balance`] owes once the balance oracle has
/// answered with `reply`.
///
/// A failure of the oracle ends the evaluation. A balance below the price with
/// its tax passes the candidate over. Otherwise the candidate waits for the
/// identifier of its domain.
pub open spec fn funded(query: BalanceQuery, reply: Option<Felt>, r: Funded) -> bool {
    if reply is None {
        r == Funded::Done(Outcome::Failed(EvalError::BalanceLookup))
    } else if 100 * reply->0@ < due_hundredths(query.price@, query.tax.hundredths()) {
        r == Funded::Done(Outcome::Rejected(Rejection::InsufficientBalance))
    } else {
        &&& r matches Funded::Identifier(next)
        &&& next.label == query.label
        &&& next.renewer == query.renewer
        &&& next.price == query.price
        &&& next.tax == query.tax
        &&& next.metadata == query.metadata
    }
}

/// What [`IdentifierQuery::on_identifier`] owes once the label has been
/// encoded, or could not be.
///
/// Without an identifier the evaluation ends with an error. With one the
/// renewal is accepted: it carries the identifier, the renewer, the price, the
/// tax and the metadata hash that the guards were passed with.
pub open spec fn identified(query: IdentifierQuery, reply: Option<Felt>, r: Outcome) -> bool {
    if reply is None {
        r == Outcome::Failed(EvalError::Encoding)
    } else {
        &&& r matches Outcome::Accepted(renewal)
        &&& renewal.domain_id == reply->0
        &&& renewal.renewer_address == query.renewer
        &&& renewal.base_price.hundredths() == 100 * query.price@
        &&& renewal.tax_amount == query.tax
        &&& renewal.metadata_hash == query.metadata
    }
}

impl TaxQuery {
    /// The key under which the tax resolver finds the owner's metadata: the
    /// hash in hexadecimal notation, in lower case, without a prefix and
    /// without leading zeros.
    pub fn lookup_key(&self) -> (r: String)
        ensures
            r@ == hex_text(self.metadata@),
    {
        self.metadata.to_hex_text()
    }

    /// The step after the tax resolver's answer.
    pub fn on_tax_rate(self, reply: TaxAnswer) -> (r: Taxed)
        ensures
            taxed(self, reply, r),
    {
        let percent = match reply {
            TaxAnswer::Rate(percent) => Some(percent),
            TaxAnswer::Unknown => None,
            TaxAnswer::Failed => {
                return Taxed::Done(Outcome::Failed(EvalError::TaxLookup));
            },
        };
        let tax = tax_amount(&self.price, percent);
        let due = due_amount(&self.price, &tax);
        match authorize(&self.approved, &self.allowance, &due) {
            Some(reason) => Taxed::Done(Outcome::Rejected(reason)),
            None => Taxed::Balance(
                BalanceQuery {
                    label: self.label,
                    renewer: self.renewer,
                    price: self.price,
                    tax,
                    metadata: self.metadata,
                },
            ),
        }
    }
}

impl BalanceQuery {
    /// The step after the balance oracle's answer; `None` says that the oracle
    /// failed.
    pub fn on_balance(self, reply: Option<Felt>) -> (r: Funded)
        ensures
            funded(self, reply, r),
    {
        let balance = match reply {
            Some(balance) => balance,
            None => {
                return Funded::Done(Outcome::Failed(EvalError::BalanceLookup));
            },
        };
        if !has_funds(&balance, &due_amount(&self.price, &self.tax)) {
            return Funded::Done(Outcome::Rejected(Rejection::InsufficientBalance));
        }
        Funded::Identifier(
            IdentifierQuery {
                label: self.label,
                renewer: self.renewer,
                price: self.price,
                tax: self.tax,
                metadata: self.metadata,
            },
        )
    }
}

impl IdentifierQuery {
    /// The last step; `None` says that the label could not be encoded.
    pub fn on_identifier(self, reply: Option<Felt>) -> (r: Outcome)
        ensures
            identified(self, reply, r),
    {
        match reply {
            Some(domain_id) => Outcome::Accepted(
                AcceptedRenewal {
                    domain_id,
                    renewer_address: self.renewer,
                    base_price: Decimal::from_felt(&self.price),
                    tax_amount: self.tax,
                    metadata_hash: self.metadata,
                },
            ),
            None => Outcome::Failed(EvalError::Encoding),
        }
    }
}

} // verus!
