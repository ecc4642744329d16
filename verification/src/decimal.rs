//! Non-negative decimal amounts with at most two decimal places.
//!
//! A price is a whole number of the token's smallest unit; a tax of so many
//! percent of it may end in hundredths. An amount is held as plain values (the
//! bytes of an integer and the number of its digits that stand behind the
//! point), and its arithmetic is done by the `bigdecimal` crate.

use crate::felt::Felt;
use crate::natural::{
    be_value, bytes_of_word, high_word, lemma_be_value_bound, lemma_pow256_words, low_word,
    two_pow_128, two_pow_256, words_of_bytes,
};
use bigdecimal::num_bigint::{BigInt, Sign, ToBigInt};
use bigdecimal::BigDecimal;
use vstd::prelude::*;

verus! {

/// `10^90`. A whole number below it, divided by one hundred, has fewer
/// significant digits than the 100 that `bigdecimal` keeps of a quotient.
pub open spec fn exact_quotient_limit() -> nat {
    1_000_000_000_000_000_000_000_000_000_000_000_000_000_000_000_000_000_000_000_000_000_000_000_000_000_000_000_000_000_000nat
}

/// A non-negative decimal number: the integer that `mantissa` denotes, most
/// significant byte first, divided by ten to the power `scale`.
#[derive(Debug)]
pub struct Decimal {
    mantissa: Vec<u8>,
    scale: i64,
}

impl Clone for Decimal {
    fn clone(&self) -> (r: Decimal)
        ensures
            r.units() == self.units(),
            r.places() == self.places(),
            r.hundredths() == self.hundredths(),
    {
        proof {
            use_type_invariant(self);
        }
        let mut mantissa: Vec<u8> = Vec::new();
        let mut i: usize = 0;
        while i < self.mantissa.len()
            invariant
                i <= self.mantissa@.len(),
                mantissa@ =~= self.mantissa@.subrange(0, i as int),
            decreases self.mantissa@.len() - i,
        {
            mantissa.push(self.mantissa[i]);
            i += 1;
        }
        assert(mantissa@ =~= self.mantissa@);
        Decimal { mantissa, scale: self.scale }
    }
}

impl Decimal {
    /// The integer that the digits of the amount make, the point left out.
    pub closed spec fn units(&self) -> nat {
        be_value(self.mantissa@)
    }

    /// The number of digits behind the point.
    pub closed spec fn places(&self) -> int {
        self.scale as int
    }

    /// An amount has at most two digits behind the point. Every amount that
    /// the library hands out or takes is of this form.
    #[verifier::type_invariant]
    pub open spec fn wf(&self) -> bool {
        0 <= self.places() <= 2
    }

    /// The amount, counted in hundredths.
    pub open spec fn hundredths(&self) -> nat {
        if self.places() == 0 {
            100 * self.units()
        } else if self.places() == 1 {
            10 * self.units()
        } else {
            self.units()
        }
    }

    /// The whole part of the amount.
    pub open spec fn whole(&self) -> nat {
        self.hundredths() / 100
    }

    /// The whole number `x`.
    pub fn from_word(x: u128) -> (r: Decimal)
        ensures
            r.wf(),
            r.places() == 0,
            r.units() == x as nat,
            r.hundredths() == 100 * (x as nat),
    {
        Decimal { mantissa: bytes_of_word(x), scale: 0 }
    }

    /// The whole number `high * 2^128 + low`.
    pub fn from_words(high: u128, low: u128) -> (r: Decimal)
        ensures
            r.wf(),
            r.places() == 0,
            r.units() == high as nat * two_pow_128() + low as nat,
            r.hundredths() == 100 * (high as nat * two_pow_128() + low as nat),
    {
        Decimal::from_felt(&Felt::from_words(high, low))
    }

    /// The whole number that `digits` denote, most significant byte first.
    pub fn from_bytes(digits: Vec<u8>) -> (r: Decimal)
        ensures
            r.wf(),
            r.places() == 0,
            r.units() == be_value(digits@),
            r.hundredths() == 100 * be_value(digits@),
    {
        Decimal { mantissa: digits, scale: 0 }
    }

    /// The bytes of the integer that the digits of the amount make, the
    /// point left out, most significant byte first.
    pub fn digits(&self) -> (r: &Vec<u8>)
        ensures
            be_value(r@) == self.units(),
    {
        &self.mantissa
    }

    /// The number of digits that stand behind the point: none, one or two.
    pub fn decimal_places(&self) -> (r: u8)
        ensures
            r as int == self.places(),
            r <= 2,
    {
        proof {
            use_type_invariant(self);
        }
        self.scale as u8
    }

    /// The whole number that a field element stands for.
    pub fn from_felt(element: &Felt) -> (r: Decimal)
        ensures
            r.wf(),
            r.places() == 0,
            r.units() == element@,
            r.hundredths() == 100 * element@,
    {
        let mut mantissa: Vec<u8> = Vec::new();
        let mut i: usize = 0;
        while i < 32
            invariant
                i <= 32,
                mantissa@ =~= element.bytes@.subrange(0, i as int),
            decreases 32 - i,
        {
            mantissa.push(element.bytes[i]);
            i += 1;
        }
        assert(mantissa@ =~= element.bytes@);
        Decimal { mantissa, scale: 0 }
    }

    /// The number whose digits make the integer `units` and of which `places`
    /// stand behind the point, or `None` where those are more than two.
    pub fn from_fraction(units: u128, places: u8) -> (r: Option<Decimal>)
        ensures
            match r {
                Some(amount) => {
                    &&& places <= 2
                    &&& amount.wf()
                    &&& amount.units() == units as nat
                    &&& amount.places() == places as int
                },
                None => places > 2,
            },
    {
        if places > 2 {
            None
        } else {
            Some(Decimal { mantissa: bytes_of_word(units), scale: places as i64 })
        }
    }

    /// Zero.
    pub fn zero() -> (r: Decimal)
        ensures
            r.wf(),
            r.hundredths() == 0,
    {
        Decimal::from_word(0)
    }

    /// The sum of two amounts.
    pub fn plus(&self, other: &Decimal) -> (r: Decimal)
        ensures
            r.wf(),
            r.hundredths() == self.hundredths() + other.hundredths(),
    {
        proof {
            use_type_invariant(self);
            use_type_invariant(other);
        }
        decimal_sum(self, other)
    }

    /// Whether this amount is at least `other`.
    pub fn at_least(&self, other: &Decimal) -> (r: bool)
        ensures
            r == (self.hundredths() >= other.hundredths()),
    {
        proof {
            use_type_invariant(self);
            use_type_invariant(other);
        }
        decimal_at_least(self, other)
    }

    /// Whether the two amounts are the same number, however they are written.
    pub fn same_amount(&self, other: &Decimal) -> (r: bool)
        ensures
            r == (self.hundredths() == other.hundredths()),
    {
        self.at_least(other) && other.at_least(self)
    }

    /// `percent` hundredths of the whole number `base`.
    pub fn percent_of(base: &Felt, percent: u32) -> (r: Decimal)
        ensures
            r.wf(),
            r.hundredths() == base@ * (percent as nat),
    {
        let amount = Decimal::from_felt(base);
        let factor = Decimal::from_word(percent as u128);
        let product = decimal_product(&amount, &factor);
        let hundred = Decimal::from_word(100);
        proof {
            lemma_be_value_bound(base.bytes@);
            lemma_pow256_words();
            let b: nat = base@;
            let p: nat = percent as nat;
            assert(b * p < exact_quotient_limit()) by (nonlinear_arith)
                requires
                    b < two_pow_256(),
                    p < 0x1_0000_0000,
            ;
        }
        decimal_quotient(&product, &hundred)
    }

    /// The whole part of the amount as a 256-bit integer, low word first, or
    /// `None` where it needs more than 256 bits.
    pub fn to_uint256(&self) -> (r: Option<(Felt, Felt)>)
        ensures
            match r {
                Some((low, high)) => {
                    &&& self.whole() < two_pow_256()
                    &&& low@ == low_word(self.whole())
                    &&& high@ == high_word(self.whole())
                },
                None => self.whole() >= two_pow_256(),
            },
    {
        proof {
            use_type_invariant(self);
        }
        match decimal_whole_part(self) {
            Some(digits) => match words_of_bytes(&digits) {
                Some((low, high)) => Some((Felt::from_word(low), Felt::from_word(high))),
                None => None,
            },
            None => None,
        }
    }
}

/// `BigDecimal`'s `*`. Believed of it, for two whole numbers written without
/// decimal places: the result is their product, again without decimal places.
#[verifier::external_body]
fn decimal_product(a: &Decimal, b: &Decimal) -> (r: Decimal)
    requires
        a.places() == 0,
        b.places() == 0,
    ensures
        r.places() == 0,
        r.units() == a.units() * b.units(),
{
    let x = BigDecimal::new(BigInt::from_bytes_be(Sign::Plus, &a.mantissa), a.scale);
    let y = BigDecimal::new(BigInt::from_bytes_be(Sign::Plus, &b.mantissa), b.scale);
    let (digits, scale) = (x * y).into_bigint_and_exponent();
    Decimal { mantissa: digits.to_bytes_be().1, scale }
}

/// `BigDecimal`'s `/`, which keeps 100 significant digits of a quotient unless
/// the crate was built for another precision. Believed of it, for a whole
/// number below `10^90` divided by the whole number one hundred, both written
/// without decimal places: the quotient is exact and has at most two decimal
/// places, so its hundredths are the units of the dividend.
#[verifier::external_body]
fn decimal_quotient(a: &Decimal, b: &Decimal) -> (r: Decimal)
    requires
        a.places() == 0,
        a.units() < exact_quotient_limit(),
        b.places() == 0,
        b.units() == 100,
    ensures
        r.wf(),
        r.hundredths() == a.units(),
{
    let x = BigDecimal::new(BigInt::from_bytes_be(Sign::Plus, &a.mantissa), a.scale);
    let y = BigDecimal::new(BigInt::from_bytes_be(Sign::Plus, &b.mantissa), b.scale);
    let (digits, scale) = (x / y).into_bigint_and_exponent();
    Decimal { mantissa: digits.to_bytes_be().1, scale }
}

/// `BigDecimal`'s `+`. Believed of it, for two amounts with at most two
/// decimal places: the result is their sum and has as many decimal places as
/// the one of them that has more.
#[verifier::external_body]
fn decimal_sum(a: &Decimal, b: &Decimal) -> (r: Decimal)
    requires
        a.wf(),
        b.wf(),
    ensures
        r.wf(),
        r.hundredths() == a.hundredths() + b.hundredths(),
{
    let x = BigDecimal::new(BigInt::from_bytes_be(Sign::Plus, &a.mantissa), a.scale);
    let y = BigDecimal::new(BigInt::from_bytes_be(Sign::Plus, &b.mantissa), b.scale);
    let (digits, scale) = (x + y).into_bigint_and_exponent();
    Decimal { mantissa: digits.to_bytes_be().1, scale }
}

/// `BigDecimal`'s `>=`. Believed of it: it compares the two numbers by their
/// value, whatever their decimal places.
#[verifier::external_body]
fn decimal_at_least(a: &Decimal, b: &Decimal) -> (r: bool)
    requires
        a.wf(),
        b.wf(),
    ensures
        r == (a.hundredths() >= b.hundredths()),
{
    let x = BigDecimal::new(BigInt::from_bytes_be(Sign::Plus, &a.mantissa), a.scale);
    let y = BigDecimal::new(BigInt::from_bytes_be(Sign::Plus, &b.mantissa), b.scale);
    x >= y
}

/// `BigDecimal`'s `to_bigint`. Believed of it, for a non-negative amount with
/// at most two decimal places: it always gives an integer, the amount with the
/// digits behind the point dropped. The integer comes back as the bytes that
/// `BigInt::to_bytes_be` gives.
#[verifier::external_body]
fn decimal_whole_part(a: &Decimal) -> (r: Option<Vec<u8>>)
    requires
        a.wf(),
    ensures
        match r {
            Some(bytes) => be_value(bytes@) == a.whole(),
            None => false,
        },
{
    let x = BigDecimal::new(BigInt::from_bytes_be(Sign::Plus, &a.mantissa), a.scale);
    match x.to_bigint() {
        Some(whole) => Some(whole.to_bytes_be().1),
        None => None,
    }
}

} // verus!
