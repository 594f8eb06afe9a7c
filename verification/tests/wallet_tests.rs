use stellar_wallet_tools::counter::CounterContract;
use stellar_wallet_tools::encoder::decode;
use stellar_wallet_tools::transaction::AccountState;
use stellar_wallet_tools::wallet::StellarWalletTools;

#[test]
fn test_initialize_and_get() {
    let mut contract = CounterContract::new();

    // Initialize the counter to 0.
    contract.initialize(0);
    assert_eq!(contract.get_count(), 0);

    // The contract holds a count now: a second initialization would abort.
    assert!(contract.stored.is_some());
}

#[test]
fn test_increment() {
    let mut contract = CounterContract::new();

    contract.initialize(0);
    assert_eq!(contract.increment(5), 5);
    assert_eq!(contract.get_count(), 5);
    assert_eq!(contract.increment(10), 15);
    assert_eq!(contract.get_count(), 15);
}

#[test]
fn test_decrement() {
    let mut contract = CounterContract::new();

    contract.initialize(20);
    assert_eq!(contract.decrement(5), 15);
    assert_eq!(contract.get_count(), 15);

    // The count is 15: taking 20 away would abort.
    assert!(contract.get_count() < 20);
}

#[test]
fn test_generate_key_pair() {
    let key_pair_result = StellarWalletTools::generate_key_pair();

    assert!(
        key_pair_result.is_ok(),
        "Key pair generation failed: {:?}",
        key_pair_result.err()
    );

    let key_pair = key_pair_result.unwrap();

    assert!(!key_pair.mnemonic_phrase.is_empty(), "Mnemonic phrase should not be empty");
    assert!(key_pair.public_key.starts_with("G"), "Public key should start with 'G'");
    assert!(key_pair.secret_key.starts_with("S"), "Secret key should start with 'S'");
}

#[test]
fn test_create_payment_transaction() {
    let source_key_pair_result = StellarWalletTools::generate_key_pair();
    assert!(source_key_pair_result.is_ok());
    let source_key_pair = source_key_pair_result.unwrap();

    let dest_key_pair_result = StellarWalletTools::generate_key_pair();
    assert!(dest_key_pair_result.is_ok());
    let dest_key_pair = dest_key_pair_result.unwrap();

    let source_secret_key = &source_key_pair.secret_key;
    let destination_public_key = &dest_key_pair.public_key;
    let amount = "10";
    let asset_code = "XLM";
    let asset_issuer_public_key = None;
    let network_passphrase = "Test SDF Network ; September 2015";

    // The account's state, as a network client would report it.
    let source_account =
        AccountState { account_id: source_key_pair.public_key.clone(), sequence_number: 41 };

    let transaction_result = StellarWalletTools::create_payment_transaction(
        source_secret_key,
        destination_public_key,
        amount,
        asset_code,
        asset_issuer_public_key,
        network_passphrase,
        &source_account,
    );

    assert!(
        transaction_result.is_ok(),
        "Transaction creation failed: {:?}",
        transaction_result.err()
    );

    let xdr = transaction_result.unwrap();
    assert!(!xdr.is_empty(), "Transaction XDR should not be empty");

    let envelope = decode(&xdr, network_passphrase).expect("the text decodes");
    assert_eq!(envelope.sequence_number, 42);
    assert_eq!(envelope.operations.len(), 1);
    assert_eq!(envelope.signatures.len(), 1);
}
