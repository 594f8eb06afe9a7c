use stellar_wallet_tools::asset::{is_native, resolve, Asset, AssetCode};
use stellar_wallet_tools::error::WalletError;
use stellar_wallet_tools::strkey::{AccountId, SecretSeed};

const ISSUER: &str = "GA5ZSEJYB37JRC5AVCIA5MOP4RHTM335X2KGX3IHOJAPP5RE34K4KZVN";
const ACCOUNT: &str = "GBNTC5W2J7UHNWDSKIE26EOZL4ZJWNAPOCEWGZNMFBUM7GU2EFYVZNOL";
const ACCOUNT_KEY: [u8; 32] = [
    91, 49, 118, 218, 79, 232, 118, 216, 114, 82, 9, 175, 17, 217, 95, 50, 155, 52, 15, 112, 137,
    99, 101, 172, 40, 104, 207, 154, 154, 33, 113, 92,
];
const SECRET: &str = "SAZ443I6BNR2MD3G27C4EZIEEFMKOPT4SR6IHZDLXPODEHR2GRQVIC7R";
const SECRET_ACCOUNT: &str = "GACAMF2WHKKQTYVHVA3CRMVUHN6GUBLTB7PBJQF73N7ATCIYAIFUCT6B";

#[test]
fn native_code_resolves_to_native_whatever_the_issuer() {
    assert_eq!(resolve("XLM", None), Ok(Asset::Native));
    assert_eq!(resolve("XLM", Some(ISSUER)), Ok(Asset::Native));
    assert_eq!(resolve("XLM", Some("not an account")), Ok(Asset::Native));
    assert_eq!(resolve("XLM", Some("")), Ok(Asset::Native));
}

#[test]
fn native_code_is_compared_without_case() {
    assert_eq!(resolve("xlm", None), Ok(Asset::Native));
    assert_eq!(resolve("Xlm", Some("junk")), Ok(Asset::Native));
    assert!(is_native(b"xLM"));
    assert!(!is_native(b"XLMX"));
    assert!(!is_native(b"XL"));
    assert!(!is_native(b""));
}

#[test]
fn issued_asset_without_issuer_is_refused() {
    assert_eq!(resolve("USD", None), Err(WalletError::InvalidAssetError));
    assert_eq!(resolve("", None), Err(WalletError::InvalidAssetError));
}

#[test]
fn issued_asset_with_malformed_issuer_is_refused() {
    assert_eq!(resolve("USD", Some("GABC")), Err(WalletError::InvalidAccountIdError));
    assert_eq!(resolve("USD", Some("")), Err(WalletError::InvalidAccountIdError));
    // A secret key is no account identifier.
    assert_eq!(resolve("USD", Some(SECRET)), Err(WalletError::InvalidAccountIdError));
    // One character changed: the checksum fails.
    assert_eq!(
        resolve("USD", Some("GA5ZSEJYB37JRC5AVCIA5MOP4RHTM335X2KGX3IHOJAPP5RE34K4KZVA")),
        Err(WalletError::InvalidAccountIdError)
    );
}

#[test]
fn issued_asset_code_is_made_upper_case() {
    let asset = resolve("usdc", Some(ISSUER)).unwrap();
    match asset {
        Asset::Credit { code, issuer } => {
            assert_eq!(code.len, 4);
            assert_eq!(&code.bytes, b"USDC\0\0\0\0\0\0\0\0");
            assert_eq!(issuer, AccountId::parse(ISSUER).unwrap());
            assert!(code.is_well_formed());
        }
        Asset::Native => panic!("an issued asset was expected"),
    }
}

#[test]
fn long_code_fills_twelve_bytes() {
    let asset = resolve("Doget2024abc", Some(ISSUER)).unwrap();
    match asset {
        Asset::Credit { code, .. } => {
            assert_eq!(code.len, 12);
            assert_eq!(&code.bytes, b"DOGET2024ABC");
        }
        Asset::Native => panic!("an issued asset was expected"),
    }
}

#[test]
fn malformed_code_with_valid_issuer_is_refused() {
    assert_eq!(resolve("", Some(ISSUER)), Err(WalletError::InvalidAssetError));
    assert_eq!(resolve("TOOLONGCODE13", Some(ISSUER)), Err(WalletError::InvalidAssetError));
    assert_eq!(resolve("US D", Some(ISSUER)), Err(WalletError::InvalidAssetError));
    assert_eq!(resolve(":#$%", Some(ISSUER)), Err(WalletError::InvalidAssetError));
}

#[test]
fn asset_code_from_bytes() {
    assert_eq!(AssetCode::from_bytes(b""), None);
    assert_eq!(AssetCode::from_bytes(b"ABCDEFGHIJKLM"), None);
    assert_eq!(AssetCode::from_bytes(b"a-b"), None);
    let code = AssetCode::from_bytes(b"rbt").unwrap();
    assert_eq!(code, AssetCode { len: 3, bytes: *b"RBT\0\0\0\0\0\0\0\0\0" });
}

#[test]
fn ill_formed_codes_are_recognised() {
    assert!(!AssetCode { len: 0, bytes: [0; 12] }.is_well_formed());
    assert!(!AssetCode { len: 13, bytes: [0x41; 12] }.is_well_formed());
    assert!(!AssetCode { len: 2, bytes: *b"ABC\0\0\0\0\0\0\0\0\0" }.is_well_formed());
    assert!(!AssetCode { len: 3, bytes: *b"A\0C\0\0\0\0\0\0\0\0\0" }.is_well_formed());
    assert!(AssetCode { len: 3, bytes: *b"aBc\0\0\0\0\0\0\0\0\0" }.is_well_formed());
    assert!(Asset::Native.is_well_formed());
}

#[test]
fn account_identifier_decodes_to_its_key() {
    let id = AccountId::parse(ACCOUNT).unwrap();
    assert_eq!(id.key, ACCOUNT_KEY);
}

#[test]
fn account_identifier_encodes_from_its_key() {
    let id = AccountId { key: ACCOUNT_KEY };
    assert_eq!(id.to_text(), ACCOUNT);
}

#[test]
fn malformed_account_identifiers_are_refused() {
    assert_eq!(AccountId::parse(""), None);
    assert_eq!(AccountId::parse("GA======"), None);
    assert_eq!(AccountId::parse("G"), None);
    assert_eq!(AccountId::parse(SECRET), None);
    assert_eq!(AccountId::parse("GBNTC5W2J7UHNWDSKIE26EOZL4ZJWNAPOCEWGZNMFBUM7GU2EFYVZNOB"), None);
    assert_eq!(AccountId::parse("gbntc5w2j7uhnwdskie26eozl4zjwnapocewgznmfbum7gu2efyvznol"), None);
    // 56 bytes, but not 56 characters of the alphabet.
    assert_eq!(AccountId::parse("ééééééééééééééééééééééééééééGBNT"), None);
}

#[test]
fn secret_key_gives_its_account() {
    let seed = SecretSeed::parse(SECRET).expect("a valid secret key");
    assert_eq!(seed.account_id().to_text(), SECRET_ACCOUNT);
    assert_eq!(seed.to_text(), SECRET);
}

#[test]
fn malformed_secret_keys_are_refused() {
    assert!(SecretSeed::parse("").is_none());
    assert!(SecretSeed::parse(ACCOUNT).is_none());
    assert!(SecretSeed::parse("SAZ443I6BNR2MD3G27C4EZIEEFMKOPT4SR6IHZDLXPODEHR2GRQVIC7A").is_none());
}

#[test]
fn text_of_a_key_parses_back_to_the_key() {
    for fill in [0u8, 1, 0x7f, 0x80, 0xff] {
        let mut key = [fill; 32];
        key[5] = 9;
        key[31] = fill.wrapping_add(3);
        let id = AccountId { key };
        let text = id.to_text();
        assert_eq!(text.len(), 56);
        assert!(text.starts_with('G'));
        assert_eq!(AccountId::parse(&text), Some(id));

        let seed = SecretSeed { seed: key };
        let text = seed.to_text();
        assert_eq!(text.len(), 56);
        assert!(text.starts_with('S'));
        assert!(SecretSeed::parse(&text) == Some(seed));
    }
}
