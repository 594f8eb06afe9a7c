use stellar_wallet_tools::amount::{parse_amount, parse_amount_bytes};
use stellar_wallet_tools::error::WalletError;

#[test]
fn whole_amount_is_scaled_to_stroops() {
    assert_eq!(parse_amount("10"), Ok(100_000_000));
    assert_eq!(parse_amount("1"), Ok(10_000_000));
}

#[test]
fn fraction_is_padded_to_seven_digits() {
    assert_eq!(parse_amount("10.5"), Ok(105_000_000));
    assert_eq!(parse_amount("13.12"), Ok(131_200_000));
    assert_eq!(parse_amount("0.0000001"), Ok(1));
    assert_eq!(parse_amount("1.2345678"), Ok(12_345_678));
}

#[test]
fn leading_zeros_do_not_change_the_value() {
    assert_eq!(parse_amount("0010"), Ok(100_000_000));
    assert_eq!(parse_amount("000000000000000000000000001.5"), Ok(15_000_000));
}

#[test]
fn largest_amount_is_accepted() {
    assert_eq!(parse_amount("922337203685.4775807"), Ok(i64::MAX));
    assert_eq!(parse_amount("922337203685"), Ok(9_223_372_036_850_000_000));
}

#[test]
fn amount_beyond_the_range_is_refused() {
    assert_eq!(parse_amount("922337203685.4775808"), Err(WalletError::InvalidAmountError));
    assert_eq!(parse_amount("922337203686"), Err(WalletError::InvalidAmountError));
    assert_eq!(
        parse_amount("99999999999999999999999999999999"),
        Err(WalletError::InvalidAmountError)
    );
}

#[test]
fn negative_amount_is_refused() {
    assert_eq!(parse_amount("-5"), Err(WalletError::InvalidAmountError));
}

#[test]
fn zero_amount_is_refused() {
    assert_eq!(parse_amount("0"), Err(WalletError::InvalidAmountError));
    assert_eq!(parse_amount("0.0"), Err(WalletError::InvalidAmountError));
    assert_eq!(parse_amount("0.0000000"), Err(WalletError::InvalidAmountError));
}

#[test]
fn more_than_seven_fraction_digits_are_refused() {
    assert_eq!(parse_amount("1.00000001"), Err(WalletError::InvalidAmountError));
    assert_eq!(parse_amount("0.12345678"), Err(WalletError::InvalidAmountError));
}

#[test]
fn malformed_amounts_are_refused() {
    for text in ["", ".", "1.", ".5", "+5", "1e3", " 1", "1 ", "1,5", "1.2.3", "abc", "١٠"] {
        assert_eq!(parse_amount(text), Err(WalletError::InvalidAmountError), "{:?}", text);
    }
}

#[test]
fn bytes_and_text_agree() {
    assert_eq!(parse_amount_bytes(b"10.5"), parse_amount("10.5"));
    assert_eq!(parse_amount_bytes(b"-5"), parse_amount("-5"));
    assert_eq!(parse_amount_bytes(&[0x31, 0xff]), Err(WalletError::InvalidAmountError));
}
