//! The rules by which ledger events are read into domain records.
//!
//! An event arrives as a list of field elements. What is written to the store
//! for it is decided here; the store and the decoding of names are not part
//! of the library.

use crate::evaluator::{label_of, stark_suffix};
use crate::felt::Felt;
use crate::natural::{lemma_pow256_words, two_pow_128};
use vstd::prelude::*;

verus! {

/// The largest number of seconds that a timestamp can hold.
pub open spec fn max_seconds() -> nat {
    0x7fff_ffff_ffff_ffff
}

/// The largest number that 64 bits hold without a sign.
pub open spec fn max_unsigned() -> nat {
    0xffff_ffff_ffff_ffff
}

/// Why an event's number cannot be read.
#[derive(Clone, Copy, Debug, PartialEq, Eq, Structural)]
pub enum NumberError {
    /// The number does not fit in 64 bits.
    ExceedsUnsigned,
    /// The number fits in 64 bits but not in a signed timestamp.
    ExceedsSigned,
}

/// How a transfer event changes the store.
#[derive(Clone, Copy, Debug, PartialEq, Eq, Structural)]
pub enum TransferKind {
    /// The domain had no owner before: a record is made for it.
    Mint,
    /// The domain changes hands: its record gets the new owner.
    Handover,
}

/// Whether an event speaks of a domain with a single label. Only those are
/// indexed; an event for a subdomain is left aside.
pub fn is_single_label(length: &Felt) -> (r: bool)
    ensures
        r == (length@ == 1),
{
    match length.to_word() {
        Some(n) => n == 1,
        None => {
            proof {
                lemma_pow256_words();
            }
            false
        },
    }
}

/// The expiry that an event carries, in seconds. It must fit in 64 bits, and
/// then in a signed timestamp.
pub fn expiry_seconds(raw: &Felt) -> (r: Result<i64, NumberError>)
    ensures
        match r {
            Ok(seconds) => seconds >= 0 && seconds as nat == raw@,
            Err(NumberError::ExceedsUnsigned) => raw@ > max_unsigned(),
            Err(NumberError::ExceedsSigned) => max_seconds() < raw@ <= max_unsigned(),
        },
{
    proof {
        lemma_pow256_words();
    }
    match raw.to_word() {
        Some(n) => {
            if n > 0xffff_ffff_ffff_ffff {
                Err(NumberError::ExceedsUnsigned)
            } else if n > 0x7fff_ffff_ffff_ffff {
                Err(NumberError::ExceedsSigned)
            } else {
                Ok(n as i64)
            }
        },
        None => Err(NumberError::ExceedsUnsigned),
    }
}

/// The switch that a toggle event carries: off for zero, on for any other
/// number that a signed 64-bit integer holds; a larger number is refused.
pub fn renewal_switch(raw: &Felt) -> (r: Option<bool>)
    ensures
        match r {
            Some(enabled) => raw@ <= max_seconds() && enabled == (raw@ != 0),
            None => raw@ > max_seconds(),
        },
{
    proof {
        lemma_pow256_words();
    }
    match raw.to_word() {
        Some(n) => {
            if n > 0x7fff_ffff_ffff_ffff {
                None
            } else {
                Some(n != 0)
            }
        },
        None => None,
    }
}

/// What a transfer event does: a transfer from the owner zero makes the
/// domain's record, any other changes the owner in it.
pub fn transfer_kind(previous_owner: &Felt) -> (r: TransferKind)
    ensures
        r == if previous_owner@ == 0 {
            TransferKind::Mint
        } else {
            TransferKind::Handover
        },
{
    if previous_owner.is_zero() {
        TransferKind::Mint
    } else {
        TransferKind::Handover
    }
}

/// Whether an approval event is one for the renewal contract: its spender is
/// that contract.
pub fn is_renewal_approval(spender: &Felt, renewal_contract: &Felt) -> (r: bool)
    ensures
        r == (spender@ == renewal_contract@),
{
    let (spender_high, spender_low) = spender.to_words();
    let (contract_high, contract_low) = renewal_contract.to_words();
    proof {
        let p: int = two_pow_128() as int;
        let a: int = spender_high as int;
        let b: int = spender_low as int;
        let c: int = contract_high as int;
        let d: int = contract_low as int;
        assert(a * p + b == c * p + d ==> a == c && b == d) by (nonlinear_arith)
            requires
                0 <= b < p,
                0 <= d < p,
                0 <= a,
                0 <= c,
        ;
    }
    spender_high == contract_high && spender_low == contract_low
}

/// The full name of a domain with the given label. The label can be read
/// back from it.
pub fn domain_name(label: &str) -> (r: String)
    ensures
        r@ == label@ + stark_suffix(),
        label_of(r@) == Some(label@),
{
    proof {
        reveal_strlit(".stark");
        assert(".stark"@ =~= stark_suffix());
    }
    let name = label.to_owned().concat(".stark");
    proof {
        assert(name@.subrange(name@.len() - 6, name@.len() as int) =~= stark_suffix());
        assert(name@.subrange(0, name@.len() - 6) =~= label@);
    }
    name
}

} // verus!
