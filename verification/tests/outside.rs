use auto_renewal::decimal::Decimal;
use auto_renewal::evaluator::{due_amount, start, tax_amount, Started};
use auto_renewal::felt::Felt;
use auto_renewal::model::{CandidateRecord, EvalError, Outcome};
use bigdecimal::num_bigint::{BigInt, BigUint, Sign};
use bigdecimal::{BigDecimal, ToPrimitive};

fn to_big_decimal(amount: &Decimal) -> BigDecimal {
    BigDecimal::new(
        BigInt::from_bytes_be(Sign::Plus, amount.digits()),
        i64::from(amount.decimal_places()),
    )
}

fn to_big_uint(element: &Felt) -> BigUint {
    BigUint::from_bytes_be(&element.bytes)
}

fn samples() -> Vec<(u128, u128)> {
    let mut state: u128 = 0x2545_f491_4f6c_dd1d_89ab_cdef_0123_4567;
    let mut next = || {
        state = state.wrapping_mul(0x5851_f42d_4c95_7f2d_1405_7b7e_f767_814f).wrapping_add(1);
        state
    };
    let mut list = vec![(0, 0), (0, 1), (0, 99), (0, 100), (1, 0), (u128::MAX, u128::MAX)];
    for _ in 0..40 {
        list.push((next() >> 64, next()));
        list.push((0, next() >> 100));
        list.push((next(), next()));
    }
    list
}

#[test]
fn tax_agrees_with_the_decimal_arithmetic() {
    for (high, low) in samples() {
        for percent in [0u32, 1, 3, 7, 10, 33, 50, 99, 100, 117, 4_000_000_000] {
            let price = Felt::from_words(high, low);
            let tax = tax_amount(&price, Some(percent));
            let expected = BigDecimal::new(BigInt::from(to_big_uint(&price)), 0)
                * BigDecimal::from(percent)
                / BigDecimal::from(100);
            assert_eq!(to_big_decimal(&tax), expected, "{:?} at {}%", (high, low), percent);
            assert!(tax.decimal_places() <= 2);
        }
    }
}

#[test]
fn cost_agrees_with_the_decimal_arithmetic() {
    for (high, low) in samples() {
        let price = Felt::from_words(high, low);
        let tax = tax_amount(&price, Some(7));
        let due = due_amount(&price, &tax);
        let plain = BigDecimal::new(BigInt::from(to_big_uint(&price)), 0);
        let expected = plain.clone() + plain * BigDecimal::from(7) / BigDecimal::from(100);
        assert_eq!(to_big_decimal(&due), expected);
    }
}

#[test]
fn comparison_agrees_with_the_decimal_arithmetic() {
    let amounts: Vec<Decimal> = samples()
        .into_iter()
        .flat_map(|(high, low)| {
            vec![
                Decimal::from_words(high, low),
                Decimal::from_fraction(low, 1).unwrap(),
                Decimal::from_fraction(low, 2).unwrap(),
            ]
        })
        .take(60)
        .collect();
    for a in &amounts {
        for b in &amounts {
            let expected = to_big_decimal(a) >= to_big_decimal(b);
            assert_eq!(a.at_least(b), expected);
            assert_eq!(a.same_amount(b), to_big_decimal(a) == to_big_decimal(b));
        }
    }
}

#[test]
fn uint256_agrees_with_the_integer_arithmetic() {
    for (high, low) in samples() {
        for places in 0..=2u8 {
            let amount = Decimal::from_fraction(low, places).unwrap();
            let whole = low / 10u128.pow(u32::from(places));
            let (l, h) = amount.to_uint256().unwrap();
            assert_eq!(l.to_word(), Some(whole));
            assert_eq!(h.to_word(), Some(0));
        }
        let (l, h) = Decimal::from_words(high, low).to_uint256().unwrap();
        assert_eq!((h.to_word(), l.to_word()), (Some(high), Some(low)));
        let value = (to_big_uint(&h) << 128usize) + to_big_uint(&l);
        assert_eq!(value, to_big_uint(&Felt::from_words(high, low)));
    }
}

#[test]
fn hex_amounts_agree_with_the_integer_arithmetic() {
    for (high, low) in samples() {
        let value = (BigUint::from(high) << 128usize) + BigUint::from(low);
        for text in [format!("{:x}", value), format!("0x{:x}", value), format!("0x{:X}", value)] {
            let amount = Decimal::parse_hex(&text).unwrap();
            assert_eq!(to_big_decimal(&amount), BigDecimal::new(BigInt::from(value.clone()), 0));
        }
    }
}

#[test]
fn texts_agree_with_the_integer_arithmetic() {
    for (high, low) in samples() {
        let element = Felt::from_words(high, low);
        let value = to_big_uint(&element);
        assert_eq!(element.to_decimal_text(), value.to_string());
        assert_eq!(element.to_hex_text(), format!("{:x}", value));
        assert_eq!(value.to_u128(), element.to_word());
    }
}

#[test]
fn addresses_are_read_as_the_ledger_reads_them() {
    for text in [
        "0x0",
        "0x1",
        "1f",
        "0x061b6c0a78f9edf13cea17b50719f3344533fadd470b8cb29c2b4318014f52d3",
        "0x0800000000000011000000000000000000000000000000000000000000000000",
        "0x0800000000000011000000000000000000000000000000000000000000000001",
        "0x08000000000000110000000000000000000000000000000000000000000000000",
        "",
        "0xg",
        "12345678901234567890123456789012345678901234567890123456789012345",
    ] {
        let candidate = CandidateRecord {
            domain_name: String::from("a.stark"),
            expiry: 0,
            renewer_address: String::from(text),
            renewal_enabled: true,
            allowance: Some(Decimal::zero()),
            approved_value: None,
            metadata_hash: None,
        };
        match (start(candidate), starknet::core::types::FieldElement::from_hex_be(text)) {
            (Started::Price(query), Ok(element)) => {
                assert_eq!(query.renewer.bytes, element.to_bytes_be(), "{}", text)
            }
            (Started::Done(Outcome::Failed(EvalError::InvalidAddress)), Err(_)) => {}
            (started, element) => panic!("{}: {:?} against {:?}", text, started, element),
        }
    }
}
