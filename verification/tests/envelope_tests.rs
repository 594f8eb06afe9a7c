use stellar_wallet_tools::assembler::{assemble, assemble_from};
use stellar_wallet_tools::asset::{resolve, Asset, AssetCode};
use stellar_wallet_tools::encoder::{decode, decode_bytes, encode};
use stellar_wallet_tools::error::WalletError;
use stellar_wallet_tools::keygen::{derive_key_pair, StellarKeyPair};
use stellar_wallet_tools::signer::{sign, sign_with};
use stellar_wallet_tools::strkey::{AccountId, SecretSeed};
use stellar_wallet_tools::transaction::{
    AccountState, PaymentOperation, Signature, TransactionEnvelope, BASE_FEE,
};
use stellar_wallet_tools::wallet::StellarWalletTools;
use stellar_wallet_tools::xdr::envelope_bytes;

const TESTNET: &str = "Test SDF Network ; September 2015";
const PHRASE: &str = "illness spike retreat truth genius clock brain pass fit cave bargain toe";
const SECRET: &str = "SAZ443I6BNR2MD3G27C4EZIEEFMKOPT4SR6IHZDLXPODEHR2GRQVIC7R";
const SOURCE: &str = "GACAMF2WHKKQTYVHVA3CRMVUHN6GUBLTB7PBJQF73N7ATCIYAIFUCT6B";
const DESTINATION: &str = "GBNTC5W2J7UHNWDSKIE26EOZL4ZJWNAPOCEWGZNMFBUM7GU2EFYVZNOL";
const ISSUER: &str = "GA5ZSEJYB37JRC5AVCIA5MOP4RHTM335X2KGX3IHOJAPP5RE34K4KZVN";

fn pair() -> StellarKeyPair {
    StellarKeyPair {
        mnemonic_phrase: String::new(),
        public_key: SOURCE.to_string(),
        secret_key: SECRET.to_string(),
    }
}

fn unsigned(asset: Asset, amount: &str, sequence: i64) -> TransactionEnvelope {
    assemble(&pair(), DESTINATION, asset, amount, TESTNET, sequence).expect("valid arguments")
}

#[test]
fn assembled_envelope_holds_one_payment_and_no_signature() {
    let envelope = unsigned(Asset::Native, "10", 41);
    assert_eq!(envelope.source_account, AccountId::parse(SOURCE).unwrap());
    assert_eq!(envelope.fee, BASE_FEE);
    assert_eq!(envelope.fee, 100);
    assert_eq!(envelope.sequence_number, 42);
    assert_eq!(envelope.network_identity, TESTNET);
    assert_eq!(
        envelope.operations,
        vec![PaymentOperation {
            destination: AccountId::parse(DESTINATION).unwrap(),
            asset: Asset::Native,
            amount: 100_000_000,
        }]
    );
    assert!(envelope.signatures.is_empty());
    assert!(!envelope.is_signed());
    assert!(envelope.is_well_formed());
}

#[test]
fn assembler_uses_the_number_after_the_fetched_one_each_time() {
    let first = unsigned(Asset::Native, "1", 41);
    let second = unsigned(Asset::Native, "2", 41);
    assert_eq!(first.sequence_number, 42);
    assert_eq!(second.sequence_number, 42);
    let later = unsigned(Asset::Native, "2", 42);
    assert_eq!(later.sequence_number, 43);
    assert_eq!(unsigned(Asset::Native, "2", 0).sequence_number, 1);
    assert_eq!(unsigned(Asset::Native, "2", i64::MAX - 1).sequence_number, i64::MAX);
}

#[test]
fn assembler_refuses_negative_and_zero_amounts() {
    let source = pair();
    assert_eq!(
        assemble(&source, DESTINATION, Asset::Native, "-5", TESTNET, 41).err(),
        Some(WalletError::InvalidAmountError)
    );
    assert_eq!(
        assemble(&source, DESTINATION, Asset::Native, "0", TESTNET, 41).err(),
        Some(WalletError::InvalidAmountError)
    );
}

#[test]
fn assembler_refuses_a_malformed_destination() {
    assert_eq!(
        assemble(&pair(), "GABC", Asset::Native, "10", TESTNET, 41).err(),
        Some(WalletError::InvalidDestinationError)
    );
    assert_eq!(
        assemble(&pair(), SECRET, Asset::Native, "10", TESTNET, 41).err(),
        Some(WalletError::InvalidDestinationError)
    );
}

#[test]
fn assembler_refuses_the_largest_sequence_number() {
    assert_eq!(
        assemble(&pair(), DESTINATION, Asset::Native, "10", TESTNET, i64::MAX).err(),
        Some(WalletError::SequenceOverflowError)
    );
}

#[test]
fn assembler_refuses_a_malformed_source_and_asset() {
    let mut source = pair();
    source.public_key = "nobody".to_string();
    assert_eq!(
        assemble(&source, DESTINATION, Asset::Native, "10", TESTNET, 41).err(),
        Some(WalletError::InvalidAccountIdError)
    );
    let broken = Asset::Credit {
        code: AssetCode { len: 0, bytes: [0; 12] },
        issuer: AccountId::parse(ISSUER).unwrap(),
    };
    assert_eq!(
        assemble(&pair(), DESTINATION, broken, "10", TESTNET, 41).err(),
        Some(WalletError::InvalidAssetError)
    );
}

#[test]
fn assembler_checks_in_its_stated_order() {
    let source = AccountId::parse(SOURCE).unwrap();
    let broken = Asset::Credit { code: AssetCode { len: 0, bytes: [0; 12] }, issuer: source };
    assert_eq!(
        assemble_from(source, "x", broken, "-1", TESTNET, i64::MAX).err(),
        Some(WalletError::InvalidAmountError)
    );
    assert_eq!(
        assemble_from(source, "x", broken, "1", TESTNET, i64::MAX).err(),
        Some(WalletError::InvalidDestinationError)
    );
    assert_eq!(
        assemble_from(source, DESTINATION, broken, "1", TESTNET, i64::MAX).err(),
        Some(WalletError::InvalidAssetError)
    );
    assert_eq!(
        assemble_from(source, DESTINATION, Asset::Native, "1", TESTNET, i64::MAX).err(),
        Some(WalletError::SequenceOverflowError)
    );
}

#[test]
fn native_payment_has_the_canonical_bytes() {
    let envelope = unsigned(Asset::Native, "10", 41);
    let mut expected: Vec<u8> = Vec::new();
    expected.extend_from_slice(&[0, 0, 0, 2]); // envelope type
    expected.extend_from_slice(&[0, 0, 0, 0]); // key type of the source
    expected.extend_from_slice(&AccountId::parse(SOURCE).unwrap().key);
    expected.extend_from_slice(&[0, 0, 0, 100]); // fee
    expected.extend_from_slice(&[0, 0, 0, 0, 0, 0, 0, 42]); // sequence number
    expected.extend_from_slice(&[0, 0, 0, 0]); // no preconditions
    expected.extend_from_slice(&[0, 0, 0, 0]); // no memo
    expected.extend_from_slice(&[0, 0, 0, 1]); // one operation
    expected.extend_from_slice(&[0, 0, 0, 0]); // no source of its own
    expected.extend_from_slice(&[0, 0, 0, 1]); // payment
    expected.extend_from_slice(&[0, 0, 0, 0]); // key type of the destination
    expected.extend_from_slice(&AccountId::parse(DESTINATION).unwrap().key);
    expected.extend_from_slice(&[0, 0, 0, 0]); // native asset
    expected.extend_from_slice(&[0, 0, 0, 0, 0x05, 0xf5, 0xe1, 0x00]); // 100000000 stroops
    expected.extend_from_slice(&[0, 0, 0, 0]); // extension
    expected.extend_from_slice(&[0, 0, 0, 0]); // no signatures
    assert_eq!(envelope_bytes(&envelope), expected);
}

#[test]
fn issued_asset_has_the_canonical_bytes() {
    let short = resolve("usd", Some(ISSUER)).unwrap();
    let bytes = envelope_bytes(&unsigned(short, "1", 1));
    assert_eq!(bytes.len(), 64 + 52 + 44 + 8);
    assert_eq!(&bytes[108..120], &[0, 0, 0, 1, b'U', b'S', b'D', 0, 0, 0, 0, 0]);
    assert_eq!(&bytes[120..152], &AccountId::parse(ISSUER).unwrap().key);

    let long = resolve("DOGET", Some(ISSUER)).unwrap();
    let bytes = envelope_bytes(&unsigned(long, "1", 1));
    assert_eq!(bytes.len(), 64 + 52 + 52 + 8);
    assert_eq!(
        &bytes[108..128],
        &[0, 0, 0, 2, b'D', b'O', b'G', b'E', b'T', 0, 0, 0, 0, 0, 0, 0, 0, 0, 0, 0]
    );
}

#[test]
fn negative_numbers_are_written_in_twos_complement() {
    let envelope = TransactionEnvelope {
        source_account: AccountId { key: [7; 32] },
        fee: 0x0102_0304,
        sequence_number: -2,
        network_identity: String::new(),
        operations: vec![PaymentOperation {
            destination: AccountId { key: [9; 32] },
            asset: Asset::Native,
            amount: i64::MAX,
        }],
        signatures: vec![],
    };
    let bytes = envelope_bytes(&envelope);
    assert_eq!(&bytes[40..44], &[1, 2, 3, 4]);
    assert_eq!(&bytes[44..52], &[0xff, 0xff, 0xff, 0xff, 0xff, 0xff, 0xff, 0xfe]);
    assert_eq!(&bytes[112..120], &[0x7f, 0xff, 0xff, 0xff, 0xff, 0xff, 0xff, 0xff]);
    assert_eq!(decode_bytes(&bytes, ""), Some(envelope));
}

#[test]
fn signing_appends_one_signature() {
    let envelope = unsigned(Asset::Native, "10", 41);
    let before = envelope.clone();
    let signed = sign(envelope, &pair(), TESTNET).expect("a valid secret key");
    assert!(signed.is_signed());
    assert_eq!(signed.signatures.len(), 1);
    let key = AccountId::parse(SOURCE).unwrap().key;
    assert_eq!(signed.signatures[0].hint, [key[28], key[29], key[30], key[31]]);
    assert_eq!(signed.operations, before.operations);
    assert_eq!(signed.sequence_number, before.sequence_number);
    assert_eq!(signed.source_account, before.source_account);
    assert_eq!(signed.fee, before.fee);
}

#[test]
fn signing_twice_appends_two_signatures() {
    let envelope = unsigned(Asset::Native, "10", 41);
    let once = sign(envelope, &pair(), TESTNET).unwrap();
    let first = once.signatures[0];
    let twice = sign(once, &pair(), TESTNET).unwrap();
    assert_eq!(twice.signatures.len(), 2);
    assert_eq!(twice.signatures[0], first);
    // The same key signs the same transaction: the same signature again.
    assert_eq!(twice.signatures[1], first);
}

#[test]
fn signature_depends_on_key_network_and_transaction() {
    let other = derive_key_pair(PHRASE).ok().unwrap();
    let base = sign(unsigned(Asset::Native, "10", 41), &pair(), TESTNET).unwrap().signatures[0];
    let by_other = sign(unsigned(Asset::Native, "10", 41), &other, TESTNET).unwrap().signatures[0];
    let on_public = sign(
        unsigned(Asset::Native, "10", 41),
        &pair(),
        "Public Global Stellar Network ; September 2015",
    )
    .unwrap()
    .signatures[0];
    let of_more = sign(unsigned(Asset::Native, "11", 41), &pair(), TESTNET).unwrap().signatures[0];
    assert_ne!(base.signature, by_other.signature);
    assert_ne!(base.hint, by_other.hint);
    assert_ne!(base.signature, on_public.signature);
    assert_eq!(base.hint, on_public.hint);
    assert_ne!(base.signature, of_more.signature);
}

#[test]
fn signing_with_a_malformed_secret_key_fails() {
    let mut source = pair();
    source.secret_key = "SAZ443".to_string();
    assert_eq!(
        sign(unsigned(Asset::Native, "10", 41), &source, TESTNET).err(),
        Some(WalletError::SigningError)
    );
    source.secret_key = SOURCE.to_string();
    assert_eq!(
        sign(unsigned(Asset::Native, "10", 41), &source, TESTNET).err(),
        Some(WalletError::SigningError)
    );
}

#[test]
fn twenty_signatures_are_the_most() {
    let seed = SecretSeed::parse(SECRET).unwrap();
    let mut envelope = unsigned(Asset::Native, "10", 41);
    for _ in 0..20 {
        envelope = sign_with(envelope, &seed, TESTNET).unwrap();
    }
    assert_eq!(envelope.signatures.len(), 20);
    assert!(encode(&envelope).is_ok());
    assert_eq!(sign_with(envelope, &seed, TESTNET).err(), Some(WalletError::EncodingError));
}

#[test]
fn ill_formed_envelopes_are_not_signed_or_encoded() {
    let seed = SecretSeed::parse(SECRET).unwrap();
    let mut empty = unsigned(Asset::Native, "10", 41);
    empty.operations.clear();
    assert!(!empty.is_well_formed());
    assert_eq!(encode(&empty), Err(WalletError::EncodingError));
    assert_eq!(sign_with(empty, &seed, TESTNET).err(), Some(WalletError::EncodingError));

    let mut free = unsigned(Asset::Native, "10", 41);
    free.operations[0].amount = 0;
    assert_eq!(encode(&free), Err(WalletError::EncodingError));

    let mut crowded = unsigned(Asset::Native, "10", 41);
    let one = crowded.operations[0];
    for _ in 0..100 {
        crowded.operations.push(one);
    }
    assert_eq!(encode(&crowded), Err(WalletError::EncodingError));
    crowded.operations.pop();
    assert!(encode(&crowded).is_ok());
}

#[test]
fn decoding_gives_back_what_was_assembled() {
    let assets = [
        Asset::Native,
        resolve("usd", Some(ISSUER)).unwrap(),
        resolve("USDC", Some(ISSUER)).unwrap(),
        resolve("DOGET", Some(ISSUER)).unwrap(),
        resolve("abcdefghijkl", Some(ISSUER)).unwrap(),
    ];
    for asset in assets {
        for amount in ["10", "0.0000001", "922337203685.4775807"] {
            let envelope = unsigned(asset, amount, 41);
            let signed = sign(envelope, &pair(), TESTNET).unwrap();
            let text = encode(&signed).expect("a well-formed envelope");
            assert!(!text.is_empty());
            assert!(text.is_ascii());
            let decoded = decode(&text, TESTNET).expect("the text of an envelope");
            assert_eq!(decoded, signed);
            assert_eq!(decoded.source_account.to_text(), SOURCE);
            assert_eq!(decoded.operations[0].destination.to_text(), DESTINATION);
            assert_eq!(decoded.operations[0].asset, asset);
            assert_eq!(decoded.sequence_number, 42);
        }
    }
}

#[test]
fn decoding_gives_back_several_payments_and_signatures() {
    let mut envelope = unsigned(Asset::Native, "10", 41);
    envelope.operations.push(PaymentOperation {
        destination: AccountId { key: [3; 32] },
        asset: resolve("DOGET", Some(ISSUER)).unwrap(),
        amount: 5,
    });
    envelope.operations.push(PaymentOperation {
        destination: AccountId { key: [4; 32] },
        asset: resolve("EUR", Some(ISSUER)).unwrap(),
        amount: 6,
    });
    envelope.signatures.push(Signature { hint: [1, 2, 3, 4], signature: [0xab; 64] });
    envelope.signatures.push(Signature { hint: [5, 6, 7, 8], signature: [0xcd; 64] });
    let text = encode(&envelope).unwrap();
    assert_eq!(decode(&text, TESTNET), Some(envelope));
}

#[test]
fn unsigned_envelope_round_trips_too() {
    let envelope = unsigned(Asset::Native, "10", 41);
    let text = encode(&envelope).unwrap();
    assert_eq!(decode(&text, TESTNET), Some(envelope));
}

#[test]
fn decoder_gives_the_envelope_the_network_it_is_told() {
    let envelope = unsigned(Asset::Native, "10", 41);
    let text = encode(&envelope).unwrap();
    let decoded = decode(&text, "another network").unwrap();
    assert_eq!(decoded.network_identity, "another network");
    assert_eq!(decoded.operations, envelope.operations);
}

#[test]
fn decoder_refuses_what_is_no_envelope() {
    assert_eq!(decode("", TESTNET), None);
    assert_eq!(decode("AAAA", TESTNET), None);
    assert_eq!(decode("not base64 at all", TESTNET), None);
    let envelope = unsigned(Asset::Native, "10", 41);
    let bytes = envelope_bytes(&envelope);
    assert_eq!(decode_bytes(&bytes, TESTNET), Some(envelope));
    // One byte more, one byte less.
    let mut longer = bytes.clone();
    longer.push(0);
    assert_eq!(decode_bytes(&longer, TESTNET), None);
    assert_eq!(decode_bytes(&bytes[..bytes.len() - 1], TESTNET), None);
    // Another envelope type, a memo, an extension, an unknown asset type.
    for (at, value) in [(3usize, 5u8), (59, 1), (bytes.len() - 5, 1), (111, 3)] {
        let mut changed = bytes.clone();
        changed[at] = value;
        assert_eq!(decode_bytes(&changed, TESTNET), None, "byte {}", at);
    }
    // A count of operations that the bytes do not hold, and one beyond the limit.
    let mut changed = bytes.clone();
    changed[63] = 2;
    assert_eq!(decode_bytes(&changed, TESTNET), None);
    changed[63] = 101;
    assert_eq!(decode_bytes(&changed, TESTNET), None);
    // An amount of zero is no payment.
    let mut changed = bytes.clone();
    for at in 112..120 {
        changed[at] = 0;
    }
    assert_eq!(decode_bytes(&changed, TESTNET), None);
}

#[test]
fn decoder_refuses_codes_that_are_not_canonical() {
    let asset = resolve("USD", Some(ISSUER)).unwrap();
    let bytes = envelope_bytes(&unsigned(asset, "1", 1));
    assert!(decode_bytes(&bytes, TESTNET).is_some());
    // A byte after the zero that ends the code.
    let mut changed = bytes.clone();
    changed[115] = b'X';
    changed[114] = 0;
    assert_eq!(decode_bytes(&changed, TESTNET), None);
    // A byte that is no letter or digit.
    let mut changed = bytes.clone();
    changed[112] = b'-';
    assert_eq!(decode_bytes(&changed, TESTNET), None);
    // A short code written in twelve bytes.
    let mut long = bytes[..108].to_vec();
    long.extend_from_slice(&[0, 0, 0, 2, b'U', b'S', b'D', 0, 0, 0, 0, 0, 0, 0, 0, 0]);
    long.extend_from_slice(&bytes[116..]);
    assert_eq!(decode_bytes(&long, TESTNET), None);
}

#[test]
fn end_to_end_payment() {
    let a = StellarWalletTools::generate_key_pair().ok().expect("a key pair for A");
    let b = StellarWalletTools::generate_key_pair().ok().expect("a key pair for B");
    let fetched = AccountState { account_id: a.public_key.clone(), sequence_number: 41 };

    let envelope =
        assemble(&a, &b.public_key, resolve("XLM", None).unwrap(), "10", TESTNET, 41).unwrap();
    let signed = sign(envelope, &a, TESTNET).unwrap();
    let text = encode(&signed).unwrap();

    assert!(!text.is_empty());
    assert!(text.bytes().all(|c| c.is_ascii_alphanumeric() || c == b'+' || c == b'/' || c == b'='));
    let decoded = decode(&text, TESTNET).expect("the output decodes");
    assert_eq!(decoded.sequence_number, 42);
    assert_eq!(decoded.operations.len(), 1);
    assert_eq!(decoded.signatures.len(), 1);
    assert_eq!(decoded.source_account.to_text(), a.public_key);
    assert_eq!(decoded.operations[0].destination.to_text(), b.public_key);
    assert_eq!(decoded.operations[0].asset, Asset::Native);
    assert_eq!(decoded.operations[0].amount, 100_000_000);

    // The wallet's one call gives the same text.
    let whole = StellarWalletTools::create_payment_transaction(
        &a.secret_key,
        &b.public_key,
        "10",
        "XLM",
        None,
        TESTNET,
        &fetched,
    );
    assert_eq!(whole, Ok(text));
}

#[test]
fn wallet_reports_each_error() {
    let state = AccountState { account_id: SOURCE.to_string(), sequence_number: 41 };
    let call = |secret: &str, destination: &str, amount: &str, code: &str, issuer: Option<&str>| {
        StellarWalletTools::create_payment_transaction(
            secret,
            destination,
            amount,
            code,
            issuer,
            TESTNET,
            &state,
        )
    };
    assert!(call(SECRET, DESTINATION, "10", "XLM", None).is_ok());
    assert!(call(SECRET, DESTINATION, "10", "USD", Some(ISSUER)).is_ok());
    assert_eq!(call("S", DESTINATION, "10", "XLM", None), Err(WalletError::SigningError));
    assert_eq!(call(SECRET, DESTINATION, "10", "USD", None), Err(WalletError::InvalidAssetError));
    assert_eq!(
        call(SECRET, DESTINATION, "10", "USD", Some("G")),
        Err(WalletError::InvalidAccountIdError)
    );
    assert_eq!(call(SECRET, "G", "10", "XLM", None), Err(WalletError::InvalidDestinationError));
    assert_eq!(call(SECRET, DESTINATION, "-5", "XLM", None), Err(WalletError::InvalidAmountError));
    assert_eq!(call(SECRET, DESTINATION, "0", "XLM", None), Err(WalletError::InvalidAmountError));

    let last = AccountState { account_id: SOURCE.to_string(), sequence_number: i64::MAX };
    assert_eq!(
        StellarWalletTools::create_payment_transaction(
            SECRET,
            DESTINATION,
            "10",
            "XLM",
            None,
            TESTNET,
            &last
        ),
        Err(WalletError::SequenceOverflowError)
    );
    let stranger = AccountState { account_id: DESTINATION.to_string(), sequence_number: 41 };
    assert_eq!(
        StellarWalletTools::create_payment_transaction(
            SECRET,
            DESTINATION,
            "10",
            "XLM",
            None,
            TESTNET,
            &stranger
        ),
        Err(WalletError::FetchError)
    );
}

#[test]
fn error_messages() {
    assert_eq!(
        WalletError::InvalidAssetError.message(),
        "issuer key required for non-native asset"
    );
    assert_eq!(WalletError::InvalidAccountIdError.message(), "invalid account id");
    let all = [
        WalletError::EntropyError,
        WalletError::DerivationError,
        WalletError::InvalidAssetError,
        WalletError::InvalidAccountIdError,
        WalletError::FetchError,
        WalletError::InvalidAmountError,
        WalletError::InvalidDestinationError,
        WalletError::SequenceOverflowError,
        WalletError::SigningError,
        WalletError::EncodingError,
    ];
    for (i, e) in all.iter().enumerate() {
        assert!(!e.message().is_empty());
        for other in &all[i + 1..] {
            assert_ne!(e.message(), other.message());
        }
    }
}
