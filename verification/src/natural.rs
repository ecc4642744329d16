//! Big-endian byte strings read as natural numbers.
//!
//! Amounts and field elements cross the library as plain bytes, most
//! significant byte first. This module says which number a byte string
//! denotes and proves the facts about it that the rest of the library uses.

use vstd::prelude::*;

verus! {

/// `2^128`, the weight of the high word of a 256-bit integer.
pub open spec fn two_pow_128() -> nat {
    0x1_0000_0000_0000_0000_0000_0000_0000_0000nat
}

/// `2^256`, the first value that a 256-bit integer cannot hold.
pub open spec fn two_pow_256() -> nat {
    0x1_0000_0000_0000_0000_0000_0000_0000_0000_0000_0000_0000_0000_0000_0000_0000_0000nat
}

/// `256^n`.
pub open spec fn pow256(n: nat) -> nat
    decreases n,
{
    if n == 0 {
        1
    } else {
        256 * pow256((n - 1) as nat)
    }
}

/// The number that the bytes `s` denote, most significant byte first.
pub open spec fn be_value(s: Seq<u8>) -> nat
    decreases s.len(),
{
    if s.len() == 0 {
        0
    } else {
        256 * be_value(s.drop_last()) + s.last() as nat
    }
}

/// Every byte of `s` is zero.
pub open spec fn all_zero(s: Seq<u8>) -> bool {
    forall|i: int| 0 <= i < s.len() ==> s[i] == 0u8
}

/// The low 128 bits of `v`.
pub open spec fn low_word(v: nat) -> nat {
    v % two_pow_128()
}

/// What stands above the low 128 bits of `v`.
pub open spec fn high_word(v: nat) -> nat {
    v / two_pow_128()
}

/// A power of 256 is positive.
pub proof fn lemma_pow256_positive(n: nat)
    ensures
        pow256(n) > 0,
    decreases n,
{
    if n > 0 {
        lemma_pow256_positive((n - 1) as nat);
    }
}

/// Powers of 256 multiply by adding their exponents.
pub proof fn lemma_pow256_adds(a: nat, b: nat)
    ensures
        pow256(a + b) == pow256(a) * pow256(b),
    decreases b,
{
    if b == 0 {
        assert(pow256(a) * 1 == pow256(a)) by (nonlinear_arith);
    } else {
        lemma_pow256_adds(a, (b - 1) as nat);
        let p: nat = pow256(a);
        let q: nat = pow256((b - 1) as nat);
        assert(pow256(a + b) == 256 * pow256((a + b - 1) as nat));
        assert(256 * (p * q) == p * (256 * q)) by (nonlinear_arith);
    }
}

/// A larger exponent gives no smaller power of 256.
pub proof fn lemma_pow256_monotonic(a: nat, b: nat)
    requires
        a <= b,
    ensures
        pow256(a) <= pow256(b),
    decreases b,
{
    if a < b {
        lemma_pow256_monotonic(a, (b - 1) as nat);
        lemma_pow256_positive((b - 1) as nat);
    }
}

/// Sixteen bytes make a 128-bit word, thirty-two a 256-bit integer.
pub proof fn lemma_pow256_words()
    ensures
        pow256(16) == two_pow_128(),
        pow256(32) == two_pow_256(),
        two_pow_128() * two_pow_128() == two_pow_256(),
{
    assert(pow256(4) == 0x1_0000_0000) by {
        reveal_with_fuel(pow256, 5);
    }
    lemma_pow256_adds(4, 4);
    assert(pow256(8) == 0x1_0000_0000_0000_0000) by {
        assert(0x1_0000_0000nat * 0x1_0000_0000nat == 0x1_0000_0000_0000_0000nat) by (nonlinear_arith);
    }
    lemma_pow256_adds(8, 8);
    assert(pow256(16) == two_pow_128()) by {
        assert(0x1_0000_0000_0000_0000nat * 0x1_0000_0000_0000_0000nat == two_pow_128())
            by (nonlinear_arith);
    }
    lemma_pow256_adds(16, 16);
    assert(two_pow_128() * two_pow_128() == two_pow_256()) by (nonlinear_arith);
}

/// A string of `n` bytes denotes a number below `256^n`.
pub proof fn lemma_be_value_bound(s: Seq<u8>)
    ensures
        be_value(s) < pow256(s.len()),
    decreases s.len(),
{
    if s.len() > 0 {
        lemma_be_value_bound(s.drop_last());
    }
}

/// Concatenation shifts the left part by the length of the right part.
pub proof fn lemma_be_value_concat(a: Seq<u8>, b: Seq<u8>)
    ensures
        be_value(a + b) == be_value(a) * pow256(b.len()) + be_value(b),
    decreases b.len(),
{
    if b.len() == 0 {
        assert(a + b =~= a);
        assert(be_value(a) * 1 == be_value(a)) by (nonlinear_arith);
    } else {
        lemma_be_value_concat(a, b.drop_last());
        assert((a + b).drop_last() =~= a + b.drop_last());
        assert((a + b).last() == b.last());
        let x: nat = be_value(a);
        let p: nat = pow256((b.len() - 1) as nat);
        assert(256 * (x * p) == x * (256 * p)) by (nonlinear_arith);
    }
}

/// A single byte denotes itself.
pub proof fn lemma_be_value_single(byte: u8)
    ensures
        be_value(seq![byte]) == byte as nat,
{
    assert(seq![byte].drop_last() =~= Seq::<u8>::empty());
    assert(be_value(Seq::<u8>::empty()) == 0);
    assert(seq![byte].last() == byte);
}

/// A string of zero bytes denotes zero.
pub proof fn lemma_be_value_zero(s: Seq<u8>)
    requires
        all_zero(s),
    ensures
        be_value(s) == 0,
    decreases s.len(),
{
    if s.len() > 0 {
        lemma_be_value_zero(s.drop_last());
    }
}

/// A string that denotes zero holds zero bytes only.
pub proof fn lemma_be_value_zero_converse(s: Seq<u8>)
    requires
        be_value(s) == 0,
    ensures
        all_zero(s),
    decreases s.len(),
{
    if s.len() > 0 {
        lemma_be_value_zero_converse(s.drop_last());
        assert forall|i: int| 0 <= i < s.len() implies s[i] == 0u8 by {
            if i < s.len() - 1 {
                assert(s.drop_last()[i] == s[i]);
            }
        }
    }
}

/// Leading zero bytes do not change the number.
pub proof fn lemma_be_value_leading_zeros(zeros: Seq<u8>, s: Seq<u8>)
    requires
        all_zero(zeros),
    ensures
        be_value(zeros + s) == be_value(s),
{
    lemma_be_value_concat(zeros, s);
    lemma_be_value_zero(zeros);
    assert(0 * pow256(s.len()) == 0) by (nonlinear_arith);
}

/// A non-zero byte among the leading ones puts the number at or above the
/// weight of the bytes that follow them.
pub proof fn lemma_be_value_large(head: Seq<u8>, tail: Seq<u8>)
    requires
        !all_zero(head),
    ensures
        be_value(head + tail) >= pow256(tail.len()),
{
    lemma_be_value_concat(head, tail);
    if be_value(head) == 0 {
        lemma_be_value_zero_converse(head);
    }
    let h: nat = be_value(head);
    let p: nat = pow256(tail.len());
    assert(h * p >= p) by (nonlinear_arith)
        requires
            h >= 1,
    ;
}

/// Whether the bytes of `bytes` from `from` up to `to` are all zero.
pub(crate) fn range_is_zero(bytes: &[u8], from: usize, to: usize) -> (r: bool)
    requires
        from <= to <= bytes@.len(),
    ensures
        r == all_zero(bytes@.subrange(from as int, to as int)),
{
    let mut i: usize = from;
    while i < to
        invariant
            from <= i <= to <= bytes@.len(),
            all_zero(bytes@.subrange(from as int, i as int)),
        decreases to - i,
    {
        if bytes[i] != 0 {
            assert(bytes@.subrange(from as int, to as int)[i - from] == bytes@[i as int]);
            return false;
        }
        i += 1;
        assert forall|j: int| 0 <= j < i - from implies bytes@.subrange(from as int, i as int)[j]
            == 0u8 by {
            if j < i - 1 - from {
                assert(bytes@.subrange(from as int, i - 1)[j] == bytes@[from + j]);
            }
        }
    }
    true
}

/// The number that at most sixteen bytes denote.
pub(crate) fn word_of_bytes(bytes: &[u8], from: usize, to: usize) -> (r: u128)
    requires
        from <= to <= bytes@.len(),
        to - from <= 16,
    ensures
        r as nat == be_value(bytes@.subrange(from as int, to as int)),
{
    let mut acc: u128 = 0;
    let mut i: usize = from;
    assert(bytes@.subrange(from as int, from as int) =~= Seq::<u8>::empty());
    while i < to
        invariant
            from <= i <= to <= bytes@.len(),
            to - from <= 16,
            acc as nat == be_value(bytes@.subrange(from as int, i as int)),
        decreases to - i,
    {
        let ghost prefix = bytes@.subrange(from as int, i as int);
        let ghost next = bytes@.subrange(from as int, i + 1);
        proof {
            assert(next.drop_last() =~= prefix);
            assert(next.last() == bytes@[i as int]);
            lemma_be_value_bound(next);
            lemma_pow256_monotonic(next.len(), 16);
            lemma_pow256_words();
        }
        acc = acc * 256 + bytes[i] as u128;
        i += 1;
    }
    acc
}

/// The sixteen bytes of a 128-bit word, most significant first.
pub fn bytes_of_word(x: u128) -> (r: Vec<u8>)
    ensures
        r@.len() == 16,
        be_value(r@) == x as nat,
{
    let mut digits: Vec<u8> = Vec::new();
    let mut rest: u128 = x;
    let mut k: usize = 0;
    proof {
        assert(digits@.reverse() =~= Seq::<u8>::empty());
        assert(rest as nat * pow256(0) == rest as nat) by (nonlinear_arith)
            requires
                pow256(0) == 1,
        ;
    }
    // Least significant byte first; turned round below.
    while k < 16
        invariant
            k <= 16,
            digits@.len() == k,
            be_value(digits@.reverse()) + rest as nat * pow256(k as nat) == x as nat,
        decreases 16 - k,
    {
        let byte: u8 = (rest % 256) as u8;
        let ghost before = digits@;
        let ghost rest_before = rest;
        digits.push(byte);
        rest = rest / 256;
        proof {
            assert(digits@.reverse() =~= seq![byte] + before.reverse());
            lemma_be_value_concat(seq![byte], before.reverse());
            lemma_be_value_single(byte);
            let p: nat = pow256(k as nat);
            assert(pow256((k + 1) as nat) == 256 * p);
            assert(rest_before as nat == 256 * (rest as nat) + byte as nat);
            assert((256 * (rest as nat) + byte as nat) * p == (rest as nat) * (256 * p) + (
            byte as nat) * p) by (nonlinear_arith);
        }
        k += 1;
    }
    proof {
        lemma_pow256_words();
        let p: nat = pow256(16);
        assert(rest == 0) by (nonlinear_arith)
            requires
                (rest as nat) * p <= x as nat,
                (x as nat) < p,
        ;
        assert(0 * p == 0) by (nonlinear_arith);
    }
    let mut r: Vec<u8> = Vec::new();
    let mut i: usize = 0;
    while i < 16
        invariant
            i <= 16,
            digits@.len() == 16,
            r@ =~= digits@.reverse().subrange(0, i as int),
        decreases 16 - i,
    {
        r.push(digits[15 - i]);
        i += 1;
    }
    assert(r@ =~= digits@.reverse());
    r
}

/// The low and the high 128-bit word of the number that `bytes` denote, or
/// `None` where the number needs more than 256 bits.
pub fn words_of_bytes(bytes: &Vec<u8>) -> (r: Option<(u128, u128)>)
    ensures
        match r {
            Some((low, high)) => {
                &&& be_value(bytes@) < two_pow_256()
                &&& low as nat == low_word(be_value(bytes@))
                &&& high as nat == high_word(be_value(bytes@))
            },
            None => be_value(bytes@) >= two_pow_256(),
        },
{
    let n: usize = bytes.len();
    let low_from: usize = if n >= 16 { n - 16 } else { 0 };
    let high_from: usize = if n >= 32 { n - 32 } else { 0 };
    let ghost excess = bytes@.subrange(0, high_from as int);
    let ghost upper = bytes@.subrange(high_from as int, low_from as int);
    let ghost lower = bytes@.subrange(low_from as int, n as int);
    proof {
        assert(bytes@ =~= excess + upper + lower);
        lemma_pow256_words();
        lemma_be_value_concat(excess + upper, lower);
        lemma_be_value_bound(lower);
        lemma_be_value_bound(upper);
        lemma_pow256_monotonic(lower.len(), 16);
        lemma_pow256_monotonic(upper.len(), 16);
    }
    if !range_is_zero(bytes.as_slice(), 0, high_from) {
        proof {
            assert(n > 32);
            lemma_be_value_large(excess, upper + lower);
            assert(excess + (upper + lower) =~= bytes@);
        }
        return None;
    }
    let low: u128 = word_of_bytes(bytes.as_slice(), low_from, n);
    let high: u128 = word_of_bytes(bytes.as_slice(), high_from, low_from);
    proof {
        lemma_be_value_leading_zeros(excess, upper);
        let h: nat = high as nat;
        let l: nat = low as nat;
        let v: nat = be_value(bytes@);
        if n >= 16 {
            assert(v == h * two_pow_128() + l);
        } else {
            assert(upper =~= Seq::<u8>::empty());
            assert(h == 0);
            assert(0 * pow256(lower.len()) == 0) by (nonlinear_arith);
            assert(v == l);
        }
        assert(v == h * two_pow_128() + l) by (nonlinear_arith)
            requires
                (n >= 16 && v == h * two_pow_128() + l) || (h == 0 && v == l),
        ;
        lemma_words(v, h, l);
    }
    Some((low, high))
}

/// A number written as `h * 2^128 + l` with both words below `2^128` has `l`
/// for its low and `h` for its high word, and is below `2^256`.
pub proof fn lemma_words(v: nat, h: nat, l: nat)
    requires
        v == h * two_pow_128() + l,
        h < two_pow_128(),
        l < two_pow_128(),
    ensures
        low_word(v) == l,
        high_word(v) == h,
        v < two_pow_256(),
{
    let p: int = two_pow_128() as int;
    let hi: int = h as int;
    let li: int = l as int;
    assert((hi * p + li) / p == hi && (hi * p + li) % p == li) by (nonlinear_arith)
        requires
            0 <= li < p,
            0 <= hi,
    ;
    assert(hi * p + li < p * p) by (nonlinear_arith)
        requires
            0 <= li < p,
            0 <= hi < p,
    ;
    assert(p * p == two_pow_256()) by (nonlinear_arith)
        requires
            p == two_pow_128(),
    ;
}

/// Splitting a 256-bit integer into its low and its high 128 bits loses
/// nothing: the low word plus `2^128` times the high word is the integer
/// again, and each word fits in 128 bits.
pub proof fn lemma_uint256_round_trip(v: nat)
    requires
        v < two_pow_256(),
    ensures
        low_word(v) + high_word(v) * two_pow_128() == v,
        low_word(v) < two_pow_128(),
        high_word(v) < two_pow_128(),
{
    let p: int = two_pow_128() as int;
    let x: int = v as int;
    assert(x == (x / p) * p + x % p && 0 <= x % p < p && (x < p * p ==> x / p < p) && 0 <= x / p)
        by (nonlinear_arith)
        requires
            p > 0,
            x >= 0,
    ;
    assert(p * p == two_pow_256()) by (nonlinear_arith)
        requires
            p == two_pow_128(),
    ;
}

} // verus!
