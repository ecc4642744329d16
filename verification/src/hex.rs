//! Amounts written in hexadecimal, as the store holds them.

use crate::decimal::Decimal;
use crate::natural::be_value;
use vstd::prelude::*;
use vstd::string::is_ascii_spec_bytes;
use vstd::string::StringSliceAdditionalSpecFns;
use vstd::utf8::is_ascii_chars;

verus! {

/// The value of a hexadecimal digit, in either case.
pub open spec fn hex_digit(c: char) -> Option<nat> {
    if '0' <= c <= '9' {
        Some((c as nat - '0' as nat) as nat)
    } else if 'a' <= c <= 'f' {
        Some((c as nat - 'a' as nat + 10) as nat)
    } else if 'A' <= c <= 'F' {
        Some((c as nat - 'A' as nat + 10) as nat)
    } else {
        None
    }
}

/// The number that a string of hexadecimal digits denotes, or `None` where
/// one of its characters is no such digit.
pub open spec fn hex_number(digits: Seq<char>) -> Option<nat>
    decreases digits.len(),
{
    if digits.len() == 0 {
        Some(0)
    } else {
        match (hex_number(digits.drop_last()), hex_digit(digits.last())) {
            (Some(front), Some(digit)) => Some(16 * front + digit),
            _ => None,
        }
    }
}

/// Whether the text begins with `0x`.
pub open spec fn has_hex_prefix(text: Seq<char>) -> bool {
    text.len() >= 2 && text[0] == '0' && text[1] == 'x'
}

/// The number that a hexadecimal text denotes: at least one digit, with or
/// without `0x` in front. `None` where the text is of another form.
pub open spec fn hex_amount(text: Seq<char>) -> Option<nat> {
    let digits = if has_hex_prefix(text) {
        text.skip(2)
    } else {
        text
    };
    if digits.len() == 0 {
        None
    } else {
        hex_number(digits)
    }
}

/// A string of digits denotes a number exactly where each of its characters is
/// a digit.
pub proof fn lemma_hex_number_digits(digits: Seq<char>)
    ensures
        hex_number(digits) is Some <==> forall|i: int|
            0 <= i < digits.len() ==> hex_digit(#[trigger] digits[i]) is Some,
    decreases digits.len(),
{
    if digits.len() > 0 {
        let front = digits.drop_last();
        lemma_hex_number_digits(front);
        if hex_number(digits) is Some {
            assert forall|i: int| 0 <= i < digits.len() implies hex_digit(#[trigger] digits[i])
                is Some by {
                if i < front.len() {
                    assert(front[i] == digits[i]);
                }
            }
        }
        if forall|i: int| 0 <= i < digits.len() ==> hex_digit(#[trigger] digits[i]) is Some {
            assert(hex_digit(digits[digits.len() - 1]) is Some);
            assert forall|i: int| 0 <= i < front.len() implies hex_digit(#[trigger] front[i])
                is Some by {
                assert(front[i] == digits[i]);
            }
        }
    }
}

/// The value of the digit with the code `code`.
pub open spec fn digit_of_code(code: nat) -> Option<nat> {
    if 48 <= code <= 57 {
        Some((code - 48) as nat)
    } else if 97 <= code <= 102 {
        Some((code - 87) as nat)
    } else if 65 <= code <= 70 {
        Some((code - 55) as nat)
    } else {
        None
    }
}

/// A digit's value goes by the code of its character.
pub proof fn lemma_digit_of_code(c: char)
    ensures
        hex_digit(c) == digit_of_code(c as nat),
{
}

/// The value of the digit that the byte `b` is the code of.
fn digit_of(b: u8) -> (r: Option<u8>)
    ensures
        match r {
            Some(digit) => digit_of_code(b as nat) == Some(digit as nat) && digit < 16,
            None => digit_of_code(b as nat) is None,
        },
{
    if b >= 48 && b <= 57 {
        Some(b - 48)
    } else if b >= 97 && b <= 102 {
        Some(b - 97 + 10)
    } else if b >= 65 && b <= 70 {
        Some(b - 65 + 10)
    } else {
        None
    }
}

/// Reads an amount written in hexadecimal, with or without `0x` in front:
/// the bytes of the number, most significant first, or `None` where the text is
/// no such number.
pub fn parse_hex(text: &str) -> (r: Option<Vec<u8>>)
    ensures
        match r {
            Some(bytes) => hex_amount(text@) == Some(be_value(bytes@)),
            None => hex_amount(text@) is None,
        },
{
    let ghost chars = text@;
    let ghost digits = if has_hex_prefix(chars) {
        chars.skip(2)
    } else {
        chars
    };
    let ghost offset: int = if has_hex_prefix(chars) {
        2
    } else {
        0
    };
    proof {
        lemma_hex_number_digits(digits);
    }
    if !text.is_ascii() {
        proof {
            let i = choose|i: int| 0 <= i < chars.len() && !('\0' <= #[trigger] chars[i] <= '\u{7f}');
            assert(hex_digit(chars[i]) is None);
            assert(i >= offset);
            assert(digits[i - offset] == chars[i]);
        }
        return None;
    }
    let bytes = text.as_bytes();
    let n: usize = bytes.len();
    proof {
        is_ascii_spec_bytes(text);
        assert(bytes@.len() == chars.len());
        assert forall|i: int| 0 <= i < n implies bytes@[i] as nat == (#[trigger] chars[i]) as nat by {
            assert('\0' <= chars[i] <= '\u{7f}');
        }
    }
    let start: usize = if n >= 2 && bytes[0] == 48 && bytes[1] == 120 {
        2
    } else {
        0
    };
    proof {
        if n >= 2 {
            assert(bytes@[0] as nat == chars[0] as nat);
            assert(bytes@[1] as nat == chars[1] as nat);
        }
        assert(start == offset);
        assert(digits.len() == n - start);
        assert forall|k: int| 0 <= k < digits.len() implies #[trigger] digits[k] == chars[k + start] by {}
    }
    if start == n {
        return None;
    }
    let mut out: Vec<u8> = Vec::new();
    let mut i: usize = start;
    proof {
        assert(digits.take(0) =~= Seq::<char>::empty());
        assert(hex_number(digits.take(0)) == Some(0nat));
        assert(be_value(out@) == 0);
    }
    if (n - start) % 2 == 1 {
        proof {
            assert(digits.take(1).drop_last() =~= digits.take(0));
            assert(digits.take(1).last() == digits[0]);
            assert(bytes@[i as int] as nat == chars[i as int] as nat);
            lemma_digit_of_code(digits[0]);
        }
        match digit_of(bytes[i]) {
            Some(digit) => {
                out.push(digit);
                proof {
                    assert(out@.drop_last() =~= Seq::<u8>::empty());
                    assert(be_value(out@.drop_last()) == 0);
                    assert(out@.last() == digit);
                    assert(be_value(out@) == digit as nat);
                    assert(hex_number(digits.take(1)) == Some(digit as nat));
                }
            },
            None => {
                proof {
                    assert(hex_digit(digits[0]) is None);
                }
                return None;
            },
        }
        i += 1;
    }
    while i < n
        invariant
            start <= i <= n,
            (n - i) % 2 == 0,
            n == bytes@.len(),
            n == chars.len(),
            digits.len() == n - start,
            forall|k: int| 0 <= k < n ==> bytes@[k] as nat == (#[trigger] chars[k]) as nat,
            forall|k: int| 0 <= k < digits.len() ==> #[trigger] digits[k] == chars[k + start],
            hex_number(digits.take(i - start)) == Some(be_value(out@)),
            hex_amount(text@) == hex_number(digits),
            hex_number(digits) is Some <==> forall|k: int|
                0 <= k < digits.len() ==> hex_digit(#[trigger] digits[k]) is Some,
        decreases n - i,
    {
        let ghost done = i - start;
        proof {
            assert(digits.take(done + 1).drop_last() =~= digits.take(done));
            assert(digits.take(done + 1).last() == digits[done]);
            assert(digits.take(done + 2).drop_last() =~= digits.take(done + 1));
            assert(digits.take(done + 2).last() == digits[done + 1]);
            assert(bytes@[i as int] as nat == chars[i as int] as nat);
            assert(bytes@[i + 1] as nat == chars[i + 1] as nat);
            lemma_digit_of_code(digits[done]);
            lemma_digit_of_code(digits[done + 1]);
        }
        let high = match digit_of(bytes[i]) {
            Some(digit) => digit,
            None => {
                proof {
                    assert(hex_digit(digits[done]) is None);
                }
                return None;
            },
        };
        let low = match digit_of(bytes[i + 1]) {
            Some(digit) => digit,
            None => {
                proof {
                    assert(hex_digit(digits[done + 1]) is None);
                }
                return None;
            },
        };
        let ghost before = out@;
        out.push(high * 16 + low);
        proof {
            assert(out@.drop_last() =~= before);
            assert(out@.last() == high * 16 + low);
            assert(be_value(out@) == 256 * be_value(before) + 16 * high + low);
            assert(hex_number(digits.take(done + 1)) == Some(
                (16 * be_value(before) + high) as nat,
            ));
            assert(hex_number(digits.take(done + 2)) == Some(
                (16 * (16 * be_value(before) + high) + low) as nat,
            ));
        }
        i += 2;
    }
    proof {
        assert(digits.take(n - start) =~= digits);
    }
    Some(out)
}

impl Decimal {
    /// The whole number that a hexadecimal text denotes, with or without `0x`
    /// in front, or `None` where the text is no such number.
    pub fn parse_hex(text: &str) -> (r: Option<Decimal>)
        ensures
            match r {
                Some(amount) => hex_amount(text@) == Some(amount.whole()) && amount.hundredths()
                    == 100 * amount.whole(),
                None => hex_amount(text@) is None,
            },
    {
        match parse_hex(text) {
            Some(digits) => Some(Decimal::from_bytes(digits)),
            None => None,
        }
    }
}

} // verus!
