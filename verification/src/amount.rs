//! Payment amounts: decimal text with at most seven fractional digits,
//! held as a whole number of stroops (ten-millionths of a unit).
use vstd::prelude::*;
use vstd::string::StringSliceAdditionalSpecFns;
use crate::error::WalletError;

verus! {

/// Number of stroops in one unit of an asset.
pub const STROOPS_PER_UNIT: u64 = 10_000_000;

/// Most fractional digits that an amount may carry.
pub const MAX_FRACTION_DIGITS: usize = 7;

/// Largest whole part whose stroops can still fit in 63 bits.
pub const MAX_WHOLE_UNITS: u64 = 922_337_203_685;

/// Largest amount, in stroops.
pub const MAX_STROOPS: u64 = 0x7fff_ffff_ffff_ffff;

/// The byte is an ASCII decimal digit.
pub open spec fn is_digit(b: u8) -> bool {
    0x30 <= b <= 0x39
}

/// Every byte of `s` is an ASCII decimal digit.
pub open spec fn all_digits(s: Seq<u8>) -> bool {
    forall|i: int| 0 <= i < s.len() ==> is_digit(#[trigger] s[i])
}

/// The number that the digits of `s` write in base ten.
pub open spec fn decimal_value(s: Seq<u8>) -> nat
    decreases s.len(),
{
    if s.len() == 0 {
        0
    } else {
        decimal_value(s.drop_last()) * 10 + (s.last() - 0x30) as nat
    }
}

/// Ten to the power `n`.
pub open spec fn pow10(n: nat) -> nat
    decreases n,
{
    if n == 0 {
        1
    } else {
        10 * pow10((n - 1) as nat)
    }
}

/// Length of the longest prefix of `s` that is made of digits.
pub open spec fn digit_run(s: Seq<u8>) -> nat
    decreases s.len(),
{
    if s.len() == 0 || !is_digit(s[0]) {
        0
    } else {
        1 + digit_run(s.skip(1))
    }
}

/// The whole part of an amount: its leading digits.
pub open spec fn whole_part(s: Seq<u8>) -> Seq<u8> {
    s.subrange(0, digit_run(s) as int)
}

/// The fractional part of an amount: what follows the byte after the
/// whole part. Empty where the whole part ends the text.
pub open spec fn fraction_part(s: Seq<u8>) -> Seq<u8> {
    if digit_run(s) < s.len() {
        s.subrange(digit_run(s) as int + 1, s.len() as int)
    } else {
        Seq::empty()
    }
}

/// `s` is written as an amount: one or more digits, then optionally a
/// point and one to seven digits. No sign, no blanks, no exponent.
pub open spec fn amount_syntax(s: Seq<u8>) -> bool {
    &&& digit_run(s) >= 1
    &&& digit_run(s) < s.len() ==> {
        &&& s[digit_run(s) as int] == 0x2e
        &&& 1 <= fraction_part(s).len() <= MAX_FRACTION_DIGITS
        &&& all_digits(fraction_part(s))
    }
}

/// The stroops that text of the amount syntax stands for.
pub open spec fn written_stroops(s: Seq<u8>) -> nat {
    decimal_value(whole_part(s)) * pow10(7) + decimal_value(fraction_part(s)) * pow10(
        (7 - fraction_part(s).len()) as nat,
    )
}

/// The amount that `s` denotes, in stroops: defined where `s` has the amount
/// syntax and stands for a positive number of stroops that fits in 63 bits.
pub open spec fn amount_stroops(s: Seq<u8>) -> Option<i64> {
    if amount_syntax(s) && 0 < written_stroops(s) <= MAX_STROOPS {
        Some(written_stroops(s) as i64)
    } else {
        None
    }
}

/// Where the digits stop, the run of digits stops.
pub proof fn lemma_digit_run_is(s: Seq<u8>, n: int)
    requires
        0 <= n <= s.len(),
        all_digits(s.subrange(0, n)),
        n < s.len() ==> !is_digit(s[n]),
    ensures
        digit_run(s) == n,
    decreases n,
{
    if n == 0 {
    } else {
        assert(s.subrange(0, n)[0] == s[0]);
        let t = s.skip(1);
        assert forall|i: int| 0 <= i < n - 1 implies is_digit(#[trigger] t.subrange(0, n - 1)[i]) by {
            assert(t.subrange(0, n - 1)[i] == s.subrange(0, n)[i + 1]);
        }
        lemma_digit_run_is(t, n - 1);
    }
}

/// A number of at most `n` digits is below ten to the `n`.
pub proof fn lemma_decimal_value_bound(s: Seq<u8>)
    requires
        all_digits(s),
    ensures
        decimal_value(s) < pow10(s.len()),
    decreases s.len(),
{
    if s.len() > 0 {
        let t = s.drop_last();
        assert forall|i: int| 0 <= i < t.len() implies is_digit(#[trigger] t[i]) by {
            assert(t[i] == s[i]);
        }
        lemma_decimal_value_bound(t);
    }
}

/// More digits never write a smaller number.
pub proof fn lemma_decimal_value_prefix(s: Seq<u8>, n: int)
    requires
        0 <= n <= s.len(),
        all_digits(s),
    ensures
        decimal_value(s.subrange(0, n)) <= decimal_value(s),
    decreases s.len() - n,
{
    if n == s.len() {
        assert(s.subrange(0, n) =~= s);
    } else {
        let t = s.drop_last();
        assert forall|i: int| 0 <= i < t.len() implies is_digit(#[trigger] t[i]) by {
            assert(t[i] == s[i]);
        }
        lemma_decimal_value_prefix(t, n);
        assert(t.subrange(0, n) =~= s.subrange(0, n));
    }
}

/// The first powers of ten, written out.
pub proof fn lemma_pow10_values()
    ensures
        pow10(0) == 1,
        pow10(1) == 10,
        pow10(2) == 100,
        pow10(3) == 1_000,
        pow10(4) == 10_000,
        pow10(5) == 100_000,
        pow10(6) == 1_000_000,
        pow10(7) == 10_000_000,
{
    reveal_with_fuel(pow10, 9);
}

/// Every amount that is accepted is positive and starts with a digit: text
/// with a sign in front, and text that writes zero, is never accepted.
pub proof fn lemma_accepted_amounts_are_positive(s: Seq<u8>)
    ensures
        amount_stroops(s) matches Some(v) ==> v > 0 && s.len() > 0 && is_digit(s[0]),
        s.len() > 0 && !is_digit(s[0]) ==> amount_stroops(s) is None,
        written_stroops(s) == 0 ==> amount_stroops(s) is None,
{
}

/// Reads the digits `s[from..to]` as a number, or reports that the number
/// exceeds `limit`.
fn read_digits(s: &[u8], from: usize, to: usize, limit: u64) -> (value: Option<u64>)
    requires
        from <= to <= s@.len(),
        all_digits(s@.subrange(from as int, to as int)),
        limit <= 1_000_000_000_000_000,
    ensures
        value == if decimal_value(s@.subrange(from as int, to as int)) <= limit {
            Some(decimal_value(s@.subrange(from as int, to as int)) as u64)
        } else {
            None
        },
{
    let ghost digits = s@.subrange(from as int, to as int);
    let mut acc: u64 = 0;
    let mut i: usize = from;
    while i < to
        invariant
            from <= i <= to <= s@.len(),
            digits == s@.subrange(from as int, to as int),
            all_digits(digits),
            acc == decimal_value(digits.subrange(0, i - from)),
            acc <= limit,
            limit <= 1_000_000_000_000_000,
        decreases to - i,
    {
        proof {
            assert(digits[i - from] == s@[i as int]);
            assert(is_digit(digits[i - from]));
        }
        let d: u64 = (s[i] - 0x30) as u64;
        proof {
            let next = digits.subrange(0, i - from + 1);
            assert(next.drop_last() =~= digits.subrange(0, i - from));
            assert(next.last() == s@[i as int]);
            assert(decimal_value(next) == acc * 10 + d);
        }
        let next_acc: u64 = acc * 10 + d;
        if next_acc > limit {
            proof {
                lemma_decimal_value_prefix(digits, i - from + 1);
            }
            return None;
        }
        acc = next_acc;
        i = i + 1;
    }
    proof {
        assert(digits.subrange(0, to - from) =~= digits);
    }
    Some(acc)
}

/// Parses `text` as an amount and returns it in stroops.
///
/// The text is accepted exactly where [`amount_stroops`] is defined on its
/// bytes; every other text is refused with
/// [`WalletError::InvalidAmountError`]: a sign, a missing digit on either side
/// of the point, more than seven fractional digits, zero, or a value beyond
/// the ledger's range.
pub fn parse_amount(text: &str) -> (stroops: Result<i64, WalletError>)
    ensures
        stroops == match amount_stroops(text.spec_bytes()) {
            Some(v) => Ok::<i64, WalletError>(v),
            None => Err::<i64, WalletError>(WalletError::InvalidAmountError),
        },
        stroops matches Ok(v) ==> 0 < v,
{
    parse_amount_bytes(text.as_bytes())
}

/// Parses the bytes of an amount; see [`parse_amount`].
#[verifier::rlimit(50)]
pub fn parse_amount_bytes(s: &[u8]) -> (stroops: Result<i64, WalletError>)
    ensures
        stroops == match amount_stroops(s@) {
            Some(v) => Ok::<i64, WalletError>(v),
            None => Err::<i64, WalletError>(WalletError::InvalidAmountError),
        },
        stroops matches Ok(v) ==> 0 < v,
{
    let n: usize = s.len();
    let mut dot: usize = 0;
    while dot < n && s[dot] >= 0x30 && s[dot] <= 0x39
        invariant
            dot <= n == s@.len(),
            all_digits(s@.subrange(0, dot as int)),
        decreases n - dot,
    {
        proof {
            let grown = s@.subrange(0, dot + 1);
            assert forall|i: int| 0 <= i < grown.len() implies is_digit(#[trigger] grown[i]) by {
                if i < dot {
                    assert(grown[i] == s@.subrange(0, dot as int)[i]);
                }
            }
        }
        dot = dot + 1;
    }
    proof {
        lemma_digit_run_is(s@, dot as int);
        lemma_pow10_values();
    }
    if dot == 0 {
        return Err(WalletError::InvalidAmountError);
    }
    let mut digits: usize = 0;
    if dot < n {
        if s[dot] != 0x2e {
            return Err(WalletError::InvalidAmountError);
        }
        digits = n - dot - 1;
        if digits == 0 || digits > MAX_FRACTION_DIGITS {
            return Err(WalletError::InvalidAmountError);
        }
        let mut j: usize = dot + 1;
        while j < n
            invariant
                dot + 1 <= j <= n == s@.len(),
                digit_run(s@) == dot,
                all_digits(s@.subrange(dot + 1, j as int)),
            decreases n - j,
        {
            if !(s[j] >= 0x30 && s[j] <= 0x39) {
                proof {
                    assert(fraction_part(s@)[j - dot - 1] == s@[j as int]);
                }
                return Err(WalletError::InvalidAmountError);
            }
            proof {
                let grown = s@.subrange(dot + 1, j + 1);
                assert forall|i: int| 0 <= i < grown.len() implies is_digit(#[trigger] grown[i]) by {
                    if i < j - dot - 1 {
                        assert(grown[i] == s@.subrange(dot + 1, j as int)[i]);
                    }
                }
            }
            j = j + 1;
        }
    }
    let ghost whole = whole_part(s@);
    let ghost fraction = fraction_part(s@);
    assert(amount_syntax(s@));
    let units: u64 = match read_digits(s, 0, dot, MAX_WHOLE_UNITS) {
        Some(u) => u,
        None => {
            proof {
                assert(decimal_value(whole) * pow10(7) > MAX_STROOPS) by (nonlinear_arith)
                    requires
                        decimal_value(whole) > 922_337_203_685,
                        pow10(7) == 10_000_000,
                        MAX_STROOPS == 0x7fff_ffff_ffff_ffff,
                ;
            }
            return Err(WalletError::InvalidAmountError);
        },
    };
    let mut part: u64 = 0;
    if dot < n {
        proof {
            lemma_decimal_value_bound(fraction);
            lemma_pow10_bound(fraction.len());
        }
        part =
        match read_digits(s, dot + 1, n, 9_999_999) {
            Some(p) => p,
            None => {
                return Err(WalletError::InvalidAmountError);
            },
        };
    } else {
        assert(decimal_value(fraction) == 0);
    }
    let mut scale: usize = digits;
    let ghost read = part;
    if dot < n {
        assert(pow10(0) == 1);
        assert(read * pow10(0) == read) by (nonlinear_arith)
            requires
                pow10(0) == 1,
        ;
        while scale < MAX_FRACTION_DIGITS
            invariant
                1 <= digits <= scale <= 7,
                part == read * pow10((scale - digits) as nat),
                read < pow10(digits as nat),
                part < pow10(scale as nat),
            decreases 7 - scale,
        {
            proof {
                lemma_pow10_bound(scale as nat);
                assert(pow10((scale + 1 - digits) as nat) == 10 * pow10((scale - digits) as nat));
                assert(read * (10 * pow10((scale - digits) as nat)) == 10 * (read * pow10(
                    (scale - digits) as nat,
                ))) by (nonlinear_arith);
                assert(pow10((scale + 1) as nat) == 10 * pow10(scale as nat));
            }
            part = part * 10;
            scale = scale + 1;
        }
    } else {
        assert(part == 0);
        assert(decimal_value(fraction) * pow10((7 - fraction.len()) as nat) == 0) by (nonlinear_arith)
            requires
                decimal_value(fraction) == 0,
        ;
    }
    assert(part == decimal_value(fraction) * pow10((7 - fraction.len()) as nat));
    assert(part < 10_000_000);
    assert(units * 10_000_000 <= 9_223_372_036_850_000_000) by (nonlinear_arith)
        requires
            units <= 922_337_203_685,
    ;
    let total: u64 = units * STROOPS_PER_UNIT + part;
    assert(total == written_stroops(s@));
    if total == 0 || total > MAX_STROOPS {
        return Err(WalletError::InvalidAmountError);
    }
    Ok(total as i64)
}

/// Powers of ten up to the seventh stay below a hundred million.
pub proof fn lemma_pow10_bound(n: nat)
    requires
        n <= 7,
    ensures
        1 <= pow10(n) <= 10_000_000,
        n < 7 ==> pow10(n) <= 1_000_000,
{
    lemma_pow10_values();
    if n == 0 {
    } else if n == 1 {
    } else if n == 2 {
    } else if n == 3 {
    } else if n == 4 {
    } else if n == 5 {
    } else if n == 6 {
    } else {
    }
}

} // verus!
