//! Field elements of the ledger: identifiers, addresses and calldata words.

use crate::natural::{
    be_value, bytes_of_word, lemma_be_value_concat, lemma_be_value_large,
    lemma_be_value_leading_zeros, lemma_be_value_zero, lemma_be_value_zero_converse,
    lemma_pow256_words, range_is_zero, two_pow_128, word_of_bytes,
};
use bigdecimal::num_bigint::BigUint;
use vstd::prelude::*;

verus! {

/// The sixteen digits of the hexadecimal notation, in lower case.
pub open spec fn digit_chars() -> Seq<char> {
    seq!['0', '1', '2', '3', '4', '5', '6', '7', '8', '9', 'a', 'b', 'c', 'd', 'e', 'f']
}

/// The number `n` in decimal notation, without leading zeros.
pub open spec fn decimal_text(n: nat) -> Seq<char>
    decreases n,
{
    if n < 10 {
        seq![digit_chars()[n as int]]
    } else {
        decimal_text(n / 10).push(digit_chars()[(n % 10) as int])
    }
}

/// The number `n` in hexadecimal notation, in lower case, without a prefix
/// and without leading zeros.
pub open spec fn hex_text(n: nat) -> Seq<char>
    decreases n,
{
    if n < 16 {
        seq![digit_chars()[n as int]]
    } else {
        hex_text(n / 16).push(digit_chars()[(n % 16) as int])
    }
}

/// The bytes of the field element that a hexadecimal text denotes, or `None`
/// where the text denotes none.
pub uninterp spec fn hex_field_element(text: Seq<char>) -> Option<Seq<u8>>;

/// A field element, held as the 32 bytes of its canonical integer, most
/// significant byte first.
#[derive(Clone, Copy, Debug, PartialEq, Eq)]
pub struct Felt {
    /// The bytes of the integer, most significant first.
    pub bytes: [u8; 32],
}

impl View for Felt {
    type V = nat;

    /// The integer that the element stands for.
    open spec fn view(&self) -> nat {
        be_value(self.bytes@)
    }
}

/// The array that holds the 32 bytes of `v`.
fn array_of(v: &Vec<u8>) -> (r: [u8; 32])
    requires
        v@.len() == 32,
    ensures
        r@ == v@,
{
    let mut r: [u8; 32] = [0u8; 32];
    let mut i: usize = 0;
    while i < 32
        invariant
            i <= 32,
            v@.len() == 32,
            r@.subrange(0, i as int) =~= v@.subrange(0, i as int),
        decreases 32 - i,
    {
        r[i] = v[i];
        i += 1;
        assert forall|j: int| 0 <= j < i implies r@.subrange(0, i as int)[j] == v@.subrange(
            0,
            i as int,
        )[j] by {
            if j < i - 1 {
                assert(r@.subrange(0, i - 1)[j] == v@.subrange(0, i - 1)[j]);
            }
        }
    }
    assert(r@ =~= r@.subrange(0, 32));
    assert(v@ =~= v@.subrange(0, 32));
    r
}

impl Felt {
    /// The element zero.
    pub fn zero() -> (r: Felt)
        ensures
            r@ == 0,
    {
        let r = Felt { bytes: [0u8; 32] };
        proof {
            lemma_be_value_zero(r.bytes@);
        }
        r
    }

    /// The element whose integer is `high * 2^128 + low`.
    pub fn from_words(high: u128, low: u128) -> (r: Felt)
        ensures
            r@ == high as nat * two_pow_128() + low as nat,
    {
        let mut all: Vec<u8> = bytes_of_word(high);
        let mut tail: Vec<u8> = bytes_of_word(low);
        let ghost head = all@;
        let ghost rest = tail@;
        all.append(&mut tail);
        proof {
            assert(all@ =~= head + rest);
            lemma_be_value_concat(head, rest);
            lemma_pow256_words();
        }
        Felt { bytes: array_of(&all) }
    }

    /// The element whose integer is `x`.
    pub fn from_word(x: u128) -> (r: Felt)
        ensures
            r@ == x as nat,
    {
        let r = Felt::from_words(0, x);
        assert(0 * two_pow_128() == 0) by (nonlinear_arith);
        r
    }

    /// The element whose integer is the count `n`.
    pub fn from_count(n: usize) -> (r: Felt)
        ensures
            r@ == n as nat,
    {
        Felt::from_word(n as u128)
    }

    /// Whether the element is zero.
    pub fn is_zero(&self) -> (r: bool)
        ensures
            r == (self@ == 0),
    {
        let r = range_is_zero(self.bytes.as_slice(), 0, 32);
        proof {
            assert(self.bytes@.subrange(0, 32) =~= self.bytes@);
            if r {
                lemma_be_value_zero(self.bytes@);
            } else if self@ == 0 {
                lemma_be_value_zero_converse(self.bytes@);
            }
        }
        r
    }

    /// The element's integer as one word, where it is below `2^128`.
    pub fn to_word(&self) -> (r: Option<u128>)
        ensures
            match r {
                Some(x) => x as nat == self@,
                None => self@ >= two_pow_128(),
            },
    {
        let ghost head = self.bytes@.subrange(0, 16);
        let ghost tail = self.bytes@.subrange(16, 32);
        proof {
            assert(self.bytes@ =~= head + tail);
            lemma_pow256_words();
        }
        if range_is_zero(self.bytes.as_slice(), 0, 16) {
            proof {
                lemma_be_value_leading_zeros(head, tail);
            }
            Some(word_of_bytes(self.bytes.as_slice(), 16, 32))
        } else {
            proof {
                lemma_be_value_large(head, tail);
            }
            None
        }
    }

    /// The element's integer in decimal notation.
    pub fn to_decimal_text(&self) -> (r: String)
        ensures
            r@ == decimal_text(self@),
    {
        natural_decimal_text(self.bytes.as_slice())
    }

    /// The element's integer in hexadecimal notation, in lower case, without
    /// a prefix and without leading zeros.
    pub fn to_hex_text(&self) -> (r: String)
        ensures
            r@ == hex_text(self@),
    {
        natural_radix_text(self.bytes.as_slice(), 16)
    }

    /// The high and the low word of the element's integer.
    pub fn to_words(&self) -> (r: (u128, u128))
        ensures
            self@ == r.0 as nat * two_pow_128() + r.1 as nat,
    {
        let high = word_of_bytes(self.bytes.as_slice(), 0, 16);
        let low = word_of_bytes(self.bytes.as_slice(), 16, 32);
        proof {
            let head = self.bytes@.subrange(0, 16);
            let tail = self.bytes@.subrange(16, 32);
            assert(self.bytes@ =~= head + tail);
            lemma_be_value_concat(head, tail);
            lemma_pow256_words();
        }
        (high, low)
    }
}

/// `FieldElement::from_hex_be` of the `starknet` crate, which reads a
/// hexadecimal text, with or without the prefix `0x`, as a field element.
/// Believed of it: the outcome depends on the text alone. The element comes
/// back as the bytes that its `to_bytes_be` gives; a text that it refuses
/// gives `None`.
#[verifier::external_body]
pub(crate) fn field_element_from_hex(text: &str) -> (r: Option<Felt>)
    ensures
        match r {
            Some(element) => hex_field_element(text@) == Some(element.bytes@),
            None => hex_field_element(text@) is None,
        },
{
    match starknet::core::types::FieldElement::from_hex_be(text) {
        Ok(element) => Some(Felt { bytes: element.to_bytes_be() }),
        Err(_) => None,
    }
}

/// `BigUint`'s `to_string`, of the `num-bigint` crate that `bigdecimal` hands
/// on. Believed of it: it writes the number in decimal notation, without
/// leading zeros, zero as `0`.
#[verifier::external_body]
fn natural_decimal_text(digits: &[u8]) -> (r: String)
    ensures
        r@ == decimal_text(be_value(digits@)),
{
    BigUint::from_bytes_be(digits).to_string()
}

/// `BigUint::to_str_radix`. Believed of it, for the radix 16: it writes the
/// number in hexadecimal notation with the digits `0` to `9` and `a` to `f`,
/// without a prefix and without leading zeros, zero as `0`.
#[verifier::external_body]
fn natural_radix_text(digits: &[u8], radix: u32) -> (r: String)
    requires
        radix == 16,
    ensures
        r@ == hex_text(be_value(digits@)),
{
    BigUint::from_bytes_be(digits).to_str_radix(radix)
}

} // verus!
