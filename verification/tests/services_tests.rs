use blockwallet::blockchain::{calculate_wallet_balance, now};
use blockwallet::config::Config;
use blockwallet::crypto::{
    create_transaction_payload, decrypt_private_key, encrypt_private_key,
    export_private_key_pem, export_public_key_pem, import_private_key_pem,
    import_public_key_pem, new_nonce, sha256_hash, sign_data, verify_signature,
    wallet_id_of_pem,
};
use blockwallet::database::queries::{create_utxo, create_wallet, get_wallet};
use blockwallet::database::Ledger;
use blockwallet::mining::{initialize_blockchain_at, mine_block_at};
use blockwallet::models::{CreateTransactionRequest, PendingTransaction, RegisterRequest, User, Wallet};
use blockwallet::services::auth_service::{
    email_taken, register_user, token_claims, AuthError,
};
use blockwallet::services::otp_service::{generate_otp, otp_expiry, otp_text, OtpError};
use blockwallet::services::transaction_service::{
    admit_transfer, check_transfer, create_transaction, create_transaction_at, get_pending_count,
    sign_transfer, TransactionError,
};
use blockwallet::services::wallet_service::{
    get_wallet_balance, wallet_exists, wallet_keypair_of, WalletError,
};
use blockwallet::value::{Value, DUST_PER_UNIT};
use blockwallet::services::zakat_service::{
    calculate_zakat, decide_zakat, process_monthly_zakat, process_monthly_zakat_at,
    process_wallet_zakat, process_wallet_zakat_at, trigger_zakat_deduction, ZakatDecision,
    ZakatOutcome, ZakatReport, ZakatSkip,
};

const COIN: i64 = 100_000_000;
const NOW: i64 = 1_700_000_000;
const MASTER_KEY: [u8; 32] = [9u8; 32];

const PRIME_A: [&str; 4] = [
    "d7677b9e5090355382329b81f6a45afeeb9dd7f0bf7d2e5f646d1dbd14afbdc8",
    "f3af550522ef15f4eaa0bc4759ad38069dc53c2aca39d63fa70326b0055ff41a",
    "10d9c039fe1eada36affb08e79a05008ffaaf98eb46fed239bfc46e5aba4efb8",
    "03eeb144278b177cfec606168b1381b4d39e28d25773f70f5f95cff38ea4c447",
];
const PRIME_B: [&str; 4] = [
    "babfd103732cbf0bc595174c45c5e05e75bd81dd467ebabeca9103fc1a73768e",
    "bed1ce542287019a94c3189c807eafed632d9df6570028167a134207e20ca52b",
    "0683373dbff005ce4fdaa62ba582088ab93461cae082087c91e7074a1c2fe861",
    "b5480bf3a568b9ff678d153f4ef3b53d0d10a437e25d6b40b2a2ccb85bdcb001",
];
const PRIME_C: [&str; 4] = [
    "dd44a815407e4fe28d21e686174bf18d024fd64ab276550eb260525f8953af44",
    "7ffc97c97e4109789ba34ca4a478af5dd945a7292c5f80e81ee6d6ddc1a98794",
    "ab544681608549ceff0c659d0af6417422010efd44b59f23ce931c9f03d0c679",
    "779bf8112d2535be138620667eaa4987db8791b67f2e38c3e40a2f935669955f",
];
const PRIME_D: [&str; 4] = [
    "d46fe3d7193389df1b862517233a82c280d11f2fb0a7dd857190130c29b498ca",
    "12cd50f5bba0649dfadae350c7e5a803088875252e647f5fe44f3044862d0bc6",
    "5d555c2600bc5d76f8ce88383213efcf08fde793962ddff3aeb1a7bb7019da1c",
    "99a96b6c02338dda7e994fe99ee836160a4aa29f5352b2c3793c8445334fc34d",
];

fn number(parts: &[&str]) -> rsa::BigUint {
    rsa::BigUint::parse_bytes(parts.concat().as_bytes(), 16).unwrap()
}

fn keypair_from(p: &[&str], q: &[&str]) -> (rsa::RsaPrivateKey, rsa::RsaPublicKey) {
    let private_key =
        rsa::RsaPrivateKey::from_p_q(number(p), number(q), rsa::BigUint::from(65537u32)).unwrap();
    let public_key = rsa::RsaPublicKey::from(&private_key);
    (private_key, public_key)
}

/// A key pair of 2048 bits that is the same on every run.
fn stored_keypair() -> (rsa::RsaPrivateKey, rsa::RsaPublicKey) {
    keypair_from(&PRIME_A, &PRIME_B)
}

/// Another key pair of 2048 bits.
fn other_keypair() -> (rsa::RsaPrivateKey, rsa::RsaPublicKey) {
    keypair_from(&PRIME_C, &PRIME_D)
}

fn config() -> Config {
    let mut config = Config::new(String::new(), String::new(), MASTER_KEY.to_vec());
    config.mining_difficulty = 1;
    config
}

/// A store with a user `1` who owns the wallet of the stored key pair and has 100 coins,
/// and a wallet `bob` without a user.
fn store_with_a_user() -> (Ledger, String) {
    let (private_key, public_key) = stored_keypair();
    let public_pem = export_public_key_pem(&public_key).unwrap();
    let private_pem = export_private_key_pem(&private_key).unwrap();
    let wallet_id = wallet_id_of_pem(&public_pem);
    let mut ledger = Ledger::new();
    ledger.next_id = 100;
    ledger.users.push(User {
        id: 1,
        email: "alice@example.org".to_string(),
        full_name: "Alice".to_string(),
        cnic: "1".to_string(),
        wallet_id: wallet_id.clone(),
        public_key: public_pem,
        encrypted_private_key: encrypt_private_key(&private_pem, &MASTER_KEY).unwrap(),
        is_verified: true,
        created_at: NOW,
        updated_at: NOW,
    });
    create_wallet(&mut ledger, &wallet_id, Some(1), NOW);
    create_wallet(&mut ledger, "bob", None, NOW);
    create_utxo(&mut ledger, &wallet_id, 100 * COIN, "funding", 0, NOW);
    (ledger, wallet_id)
}

fn request(sender: &str, receiver: &str, amount: i64) -> CreateTransactionRequest {
    CreateTransactionRequest {
        sender_wallet_id: sender.to_string(),
        receiver_wallet_id: receiver.to_string(),
        amount,
        note: Some("rent".to_string()),
    }
}

fn wallet(balance: i128, last_zakat_date: Option<i64>) -> Wallet {
    wallet_of(Value::whole(balance), last_zakat_date)
}

fn wallet_of(balance: Value, last_zakat_date: Option<i64>) -> Wallet {
    Wallet {
        wallet_id: "w".to_string(),
        user_id: None,
        balance,
        last_zakat_date,
        created_at: NOW,
        updated_at: NOW,
    }
}

#[test]
fn a_transfer_enters_the_pool() {
    let (mut ledger, alice) = store_with_a_user();
    let tx = create_transaction_at(
        &mut ledger,
        request(&alice, "bob", 30 * COIN),
        &MASTER_KEY,
        &config(),
        77,
        NOW + 5,
    )
    .unwrap();
    assert_eq!(tx.id, 77);
    assert_eq!(tx.sender_wallet_id, alice);
    assert_eq!(tx.receiver_wallet_id, "bob");
    assert_eq!(tx.amount, 30 * COIN);
    assert_eq!(tx.fee, COIN / 10);
    assert_eq!(tx.note, Some("rent".to_string()));
    assert_eq!(tx.timestamp, NOW + 5);
    assert_eq!(tx.created_at, NOW + 5);

    // the signature is the sender's over the payload
    let payload = format!("{}|bob|30|{}|rent", alice, NOW + 5);
    assert_eq!(
        create_transaction_payload(&alice, "bob", 30 * COIN, NOW + 5, &Some("rent".to_string())),
        payload
    );
    let public_key = import_public_key_pem(&ledger.users[0].public_key).unwrap();
    assert!(verify_signature(&public_key, &payload, &tx.signature).unwrap());
    // the content hash is the hash of payload and signature
    assert_eq!(
        tx.transaction_hash,
        sha256_hash(format!("{}{}", payload, tx.signature).as_bytes())
    );

    // the pool holds it
    assert_eq!(ledger.pending_transactions.len(), 1);
    assert_eq!(ledger.pending_transactions[0].transaction_hash, tx.transaction_hash);
    assert_eq!(get_pending_count(&ledger), 1);
    // the sender's balance is less by the amount, not by the fee
    assert_eq!(get_wallet(&ledger, &alice).unwrap().balance, Value::whole(70 * COIN as i128));
    assert_eq!(calculate_wallet_balance(&ledger, &alice), Value::whole(70 * COIN as i128));
    assert_eq!(get_wallet(&ledger, "bob").unwrap().balance, Value::whole(0));
    // both logs have their line
    assert_eq!(ledger.transaction_logs.len(), 2);
    assert_eq!(ledger.transaction_logs[0].wallet_id, alice);
    assert_eq!(ledger.transaction_logs[0].action, "sent");
    assert_eq!(ledger.transaction_logs[1].wallet_id, "bob");
    assert_eq!(ledger.transaction_logs[1].action, "received");
    for log in &ledger.transaction_logs {
        assert_eq!(log.transaction_hash, Some(tx.transaction_hash.clone()));
        assert_eq!(log.block_hash, None);
        assert_eq!(log.status, "pending");
        assert_eq!(log.note, Some("rent".to_string()));
        assert_eq!(log.created_at, NOW + 5);
    }
    assert_eq!(ledger.transaction_logs[0].id, 101);
    assert_eq!(ledger.transaction_logs[1].id, 102);
    // no output has moved yet
    assert_eq!(ledger.utxos.len(), 1);
    assert!(!ledger.utxos[0].is_spent);
    assert!(ledger.is_valid());
}

#[test]
fn a_transfer_is_settled_by_the_next_block() {
    let (mut ledger, alice) = store_with_a_user();
    create_wallet(&mut ledger, "miner", None, NOW);
    assert!(initialize_blockchain_at(&mut ledger, &config(), NOW));
    let tx = create_transaction_at(
        &mut ledger,
        request(&alice, "bob", 30 * COIN),
        &MASTER_KEY,
        &config(),
        77,
        NOW + 5,
    )
    .unwrap();
    let block = mine_block_at(&mut ledger, "miner", &config(), NOW + 60).unwrap();
    assert_eq!(block.transactions.len(), 1);
    assert_eq!(block.transactions[0].transaction_hash, tx.transaction_hash);
    assert!(ledger.pending_transactions.is_empty());
    assert_eq!(calculate_wallet_balance(&ledger, &alice), Value::whole(6_990_000_000));
    assert_eq!(calculate_wallet_balance(&ledger, "bob"), Value::whole(30 * COIN as i128));
    assert_eq!(calculate_wallet_balance(&ledger, "miner"), Value::whole(5_010_000_000));
}

#[test]
fn a_transfer_is_turned_away() {
    let (mut ledger, alice) = store_with_a_user();
    let before = format!("{:?}", ledger);
    let settings = config();

    for amount in [0, -1, i64::MIN] {
        match create_transaction_at(&mut ledger, request(&alice, "bob", amount), &MASTER_KEY, &settings, 1, NOW) {
            Err(TransactionError::InvalidAmount) => {}
            other => panic!("unexpected: {:?}", other),
        }
    }
    match create_transaction_at(&mut ledger, request("nobody", "bob", COIN), &MASTER_KEY, &settings, 1, NOW) {
        Err(TransactionError::InvalidWallet(msg)) => assert_eq!(msg, "Sender wallet not found"),
        other => panic!("unexpected: {:?}", other),
    }
    match create_transaction_at(&mut ledger, request(&alice, "nobody", COIN), &MASTER_KEY, &settings, 1, NOW) {
        Err(TransactionError::InvalidWallet(msg)) => assert_eq!(msg, "Receiver wallet not found"),
        other => panic!("unexpected: {:?}", other),
    }
    // 100 cover 99.9 and the fee of 0.1, and not a unit more
    match create_transaction_at(&mut ledger, request(&alice, "bob", 99 * COIN + 90_000_001), &MASTER_KEY, &settings, 1, NOW) {
        Err(TransactionError::InsufficientBalance) => {}
        other => panic!("unexpected: {:?}", other),
    }
    match create_transaction_at(&mut ledger, request(&alice, "bob", i64::MAX), &MASTER_KEY, &settings, 1, NOW) {
        Err(TransactionError::InsufficientBalance) => {}
        other => panic!("unexpected: {:?}", other),
    }
    // a wallet without a user cannot sign
    create_utxo(&mut ledger, "bob", 5 * COIN, "funding", 0, NOW);
    let with_funds = format!("{:?}", ledger);
    match create_transaction_at(&mut ledger, request("bob", &alice, COIN), &MASTER_KEY, &settings, 1, NOW) {
        Err(TransactionError::InvalidWallet(msg)) => assert_eq!(msg, "Sender user not found"),
        other => panic!("unexpected: {:?}", other),
    }
    assert_eq!(format!("{:?}", ledger), with_funds);
    ledger.utxos.pop();
    ledger.next_id = 101;
    assert_eq!(format!("{:?}", ledger), before);

    // a master key that does not open the private key
    match create_transaction_at(&mut ledger, request(&alice, "bob", COIN), &[1u8; 32], &settings, 1, NOW) {
        Err(TransactionError::CryptoError(msg)) => assert!(msg.starts_with("Decryption error: ")),
        other => panic!("unexpected: {:?}", other),
    }
    match create_transaction_at(&mut ledger, request(&alice, "bob", COIN), &[1u8; 5], &settings, 1, NOW) {
        Err(TransactionError::CryptoError(msg)) => {
            assert_eq!(msg, "Decryption error: AES key must be 32 bytes")
        }
        other => panic!("unexpected: {:?}", other),
    }
    // a public key that is not the sender's
    let (_, other_public_key) = other_keypair();
    ledger.users[0].public_key = export_public_key_pem(&other_public_key).unwrap();
    match create_transaction_at(&mut ledger, request(&alice, "bob", COIN), &MASTER_KEY, &settings, 1, NOW) {
        Err(TransactionError::InvalidSignature) => {}
        other => panic!("unexpected: {:?}", other),
    }
    ledger.users[0].public_key = "no key".to_string();
    match create_transaction_at(&mut ledger, request(&alice, "bob", COIN), &MASTER_KEY, &settings, 1, NOW) {
        Err(TransactionError::CryptoError(msg)) => assert!(msg.starts_with("Encoding error: ")),
        other => panic!("unexpected: {:?}", other),
    }
    assert!(ledger.pending_transactions.is_empty());
    assert!(ledger.transaction_logs.is_empty());
}

#[test]
fn the_whole_balance_can_be_sent() {
    let (mut ledger, alice) = store_with_a_user();
    let tx = create_transaction_at(
        &mut ledger,
        request(&alice, "bob", 99 * COIN + 90_000_000),
        &MASTER_KEY,
        &config(),
        1,
        NOW,
    )
    .unwrap();
    assert_eq!(tx.amount, 9_990_000_000);
    // what is pending is held back: a second transfer finds nothing
    match create_transaction_at(&mut ledger, request(&alice, "bob", 1), &MASTER_KEY, &config(), 2, NOW) {
        Err(TransactionError::InsufficientBalance) => {}
        other => panic!("unexpected: {:?}", other),
    }
}

#[test]
fn a_transfer_of_now() {
    let (mut ledger, alice) = store_with_a_user();
    let before = now();
    let first = create_transaction(&mut ledger, request(&alice, "bob", COIN), &MASTER_KEY, &config()).unwrap();
    let second = create_transaction(&mut ledger, request(&alice, "bob", COIN), &MASTER_KEY, &config()).unwrap();
    assert!(first.timestamp >= before);
    assert_eq!(first.timestamp, first.created_at);
    assert_ne!(first.id, second.id);
    assert_eq!(ledger.pending_transactions.len(), 2);
}

#[test]
fn the_steps_of_a_transfer_one_by_one() {
    let (mut ledger, alice) = store_with_a_user();
    let user = check_transfer(&ledger, &request(&alice, "bob", COIN), COIN).unwrap();
    assert_eq!(user.id, 1);
    assert_eq!(user.email, "alice@example.org");
    assert!(matches!(
        check_transfer(&ledger, &request(&alice, "bob", COIN), 99 * COIN + 1),
        Err(TransactionError::InsufficientBalance)
    ));

    let signature = sign_transfer(&user, "payload", &MASTER_KEY).unwrap();
    assert_eq!(signature.len(), 512);
    let public_key = import_public_key_pem(&user.public_key).unwrap();
    assert!(verify_signature(&public_key, "payload", &signature).unwrap());
    assert!(matches!(
        sign_transfer(&user, "payload", &[0u8; 32]),
        Err(TransactionError::CryptoError(_))
    ));

    let tx = PendingTransaction {
        id: 5,
        transaction_hash: "h".to_string(),
        sender_wallet_id: alice.clone(),
        receiver_wallet_id: "bob".to_string(),
        amount: 40 * COIN,
        fee: 1,
        note: None,
        signature,
        timestamp: NOW,
        created_at: NOW + 1,
    };
    admit_transfer(&mut ledger, &tx);
    assert_eq!(ledger.pending_transactions.len(), 1);
    assert_eq!(get_wallet(&ledger, &alice).unwrap().balance, Value::whole(60 * COIN as i128));
    assert_eq!(get_wallet(&ledger, &alice).unwrap().updated_at, NOW + 1);
    assert_eq!(ledger.transaction_logs.len(), 2);
    assert_eq!(ledger.transaction_logs[0].note, None);
}

#[test]
fn transaction_errors_in_words() {
    assert_eq!(TransactionError::InvalidWallet("x".to_string()).to_string(), "Invalid wallet: x");
    assert_eq!(TransactionError::InsufficientBalance.to_string(), "Insufficient balance");
    assert_eq!(TransactionError::InvalidSignature.to_string(), "Invalid signature");
    assert_eq!(TransactionError::InvalidAmount.to_string(), "Invalid amount");
    assert_eq!(TransactionError::DatabaseError("x".to_string()).to_string(), "Database error: x");
    assert_eq!(TransactionError::CryptoError("x".to_string()).to_string(), "Crypto error: x");
}

#[test]
fn the_balance_of_a_wallet_with_its_outputs() {
    let (mut ledger, alice) = store_with_a_user();
    create_utxo(&mut ledger, &alice, 5 * COIN, "more", 0, NOW);
    create_utxo(&mut ledger, "bob", 7 * COIN, "more", 0, NOW);
    let report = get_wallet_balance(&mut ledger, &alice, NOW + 3).unwrap();
    assert_eq!(report.wallet_id, alice);
    assert_eq!(report.balance, Value::whole(105 * COIN as i128));
    assert_eq!(report.utxo_count, 2);
    assert_eq!(get_wallet(&ledger, &alice).unwrap().balance, Value::whole(105 * COIN as i128));
    assert_eq!(get_wallet(&ledger, &alice).unwrap().updated_at, NOW + 3);

    let before = format!("{:?}", ledger);
    match get_wallet_balance(&mut ledger, "nobody", NOW) {
        Err(WalletError::WalletNotFound) => {}
        other => panic!("unexpected: {:?}", other),
    }
    assert_eq!(format!("{:?}", ledger), before);
    assert!(wallet_exists(&ledger, &alice));
    assert!(wallet_exists(&ledger, "bob"));
    assert!(!wallet_exists(&ledger, "nobody"));
}

#[test]
fn the_keys_of_a_wallet() {
    let (private_key, public_key) = stored_keypair();
    let nonce = new_nonce();
    assert_eq!(nonce.len(), 12);
    let keys = wallet_keypair_of(&private_key, &public_key, &MASTER_KEY, &nonce).unwrap();
    assert_eq!(keys.public_key, export_public_key_pem(&public_key).unwrap());
    assert_eq!(keys.wallet_id, sha256_hash(keys.public_key.as_bytes()));
    assert_eq!(keys.wallet_id.len(), 64);
    // the public key reads as a key, and the sealed private key opens to the key it belongs to
    let read = import_public_key_pem(&keys.public_key).unwrap();
    let opened = decrypt_private_key(&keys.private_key, &MASTER_KEY).unwrap();
    assert_eq!(opened, export_private_key_pem(&private_key).unwrap());
    assert_ne!(keys.private_key, opened);
    let signature = sign_data(&import_private_key_pem(&opened).unwrap(), "data").unwrap();
    assert!(verify_signature(&read, "data", &signature).unwrap());
    // the same nonce seals to the same text
    let again = wallet_keypair_of(&private_key, &public_key, &MASTER_KEY, &nonce).unwrap();
    assert_eq!(again.private_key, keys.private_key);

    match wallet_keypair_of(&private_key, &public_key, &[0u8; 16], &nonce) {
        Err(WalletError::EncryptionError(msg)) => {
            assert_eq!(msg, "Encryption error: AES key must be 32 bytes")
        }
        other => panic!("unexpected: {:?}", other),
    }
}

#[test]
fn wallet_errors_in_words() {
    assert_eq!(WalletError::KeyGenerationError("x".to_string()).to_string(), "Key generation error: x");
    assert_eq!(WalletError::EncryptionError("x".to_string()).to_string(), "Encryption error: x");
    assert_eq!(WalletError::DatabaseError("x".to_string()).to_string(), "Database error: x");
    assert_eq!(WalletError::WalletNotFound.to_string(), "Wallet not found");
}

#[test]
fn the_levy_on_a_balance() {
    let settings = config();
    assert_eq!(calculate_zakat(Value::whole(100 * COIN as i128), &settings), 250_000_000);
    assert_eq!(calculate_zakat(Value::whole(0), &settings), 0);
    assert_eq!(calculate_zakat(Value::whole(39), &settings), 0);
    assert_eq!(calculate_zakat(Value::whole(40), &settings), 1);
    assert_eq!(calculate_zakat(Value::whole(12_345_678_901), &settings), 308_641_972);
    assert_eq!(calculate_zakat(Value::whole(i128::MAX), &settings), i128::MAX / 40);
    let mut all = config();
    all.zakat_percentage = 10_000;
    assert_eq!(calculate_zakat(Value::whole(i128::MAX), &all), i128::MAX);
    all.zakat_percentage = 0;
    assert_eq!(calculate_zakat(Value::whole(i128::MAX), &all), 0);
    all.zakat_percentage = 1;
    assert_eq!(calculate_zakat(Value::whole(19_999), &all), 1);
    // the dust of a balance counts: 39 base units and all but one dust owe
    // nothing, one dust more owes one base unit
    assert_eq!(calculate_zakat(Value { units: 39, dust: DUST_PER_UNIT - 1 }, &settings), 0);
    assert_eq!(calculate_zakat(Value { units: 9_999, dust: DUST_PER_UNIT / 2 }, &all), 0);
    assert_eq!(calculate_zakat(Value { units: 9_999, dust: DUST_PER_UNIT - 1 }, &all), 0);
    all.zakat_percentage = 5_000;
    assert_eq!(calculate_zakat(Value { units: 1, dust: DUST_PER_UNIT - 1 }, &all), 0);
    assert_eq!(calculate_zakat(Value { units: 3, dust: DUST_PER_UNIT - 1 }, &all), 1);
    assert_eq!(calculate_zakat(Value { units: 0, dust: 5 }, &all), 0);
}

#[test]
fn who_owes_the_levy() {
    let settings = config();
    use_decisions(&settings);
}

fn use_decisions(settings: &Config) {
    let skip = |reason| ZakatDecision::Skip(reason);
    assert_eq!(decide_zakat(&wallet(0, None), settings, NOW), skip(ZakatSkip::NoBalance));
    assert_eq!(decide_zakat(&wallet(-5, None), settings, NOW), skip(ZakatSkip::NoBalance));
    // dust alone is a balance, if a small one
    assert_eq!(
        decide_zakat(&wallet_of(Value { units: 0, dust: 1 }, None), settings, NOW),
        skip(ZakatSkip::BelowThreshold)
    );
    assert_eq!(
        decide_zakat(&wallet_of(Value { units: -1, dust: DUST_PER_UNIT - 1 }, None), settings, NOW),
        skip(ZakatSkip::NoBalance)
    );
    assert_eq!(
        decide_zakat(
            &wallet_of(Value { units: 100 * COIN as i128 - 1, dust: DUST_PER_UNIT - 1 }, None),
            settings,
            NOW
        ),
        skip(ZakatSkip::BelowThreshold)
    );
    assert_eq!(
        decide_zakat(&wallet(100 * COIN as i128 - 1, None), settings, NOW),
        skip(ZakatSkip::BelowThreshold)
    );
    assert_eq!(
        decide_zakat(&wallet(100 * COIN as i128, None), settings, NOW),
        ZakatDecision::Levy(250_000_000)
    );
    // within the period of thirty days
    assert_eq!(
        decide_zakat(&wallet(100 * COIN as i128, Some(NOW - 2_591_999)), settings, NOW),
        skip(ZakatSkip::AlreadyPaid)
    );
    assert_eq!(
        decide_zakat(&wallet(100 * COIN as i128, Some(NOW - 2_592_000)), settings, NOW),
        ZakatDecision::Levy(250_000_000)
    );
    assert_eq!(
        decide_zakat(&wallet(100 * COIN as i128, Some(NOW + 50)), settings, NOW),
        skip(ZakatSkip::AlreadyPaid)
    );
    assert_eq!(
        decide_zakat(&wallet(100 * COIN as i128, Some(i64::MIN)), settings, i64::MAX),
        ZakatDecision::Levy(250_000_000)
    );
    // a levy below a hundredth of a coin is not collected
    let mut low = Config::new(String::new(), String::new(), vec![]);
    low.zakat_threshold = 0;
    assert_eq!(decide_zakat(&wallet(39_999_999, None), &low, NOW), skip(ZakatSkip::Negligible));
    assert_eq!(decide_zakat(&wallet(40_000_000, None), &low, NOW), ZakatDecision::Levy(1_000_000));
    assert_eq!(
        decide_zakat(&wallet(i128::MAX, None), settings, NOW),
        ZakatDecision::Levy(i128::MAX / 40)
    );
}

#[test]
fn a_levy_enters_the_pool() {
    let mut ledger = Ledger::new();
    ledger.next_id = 50;
    create_wallet(&mut ledger, "alice", None, NOW);
    create_wallet(&mut ledger, "ZAKAT_POOL", None, NOW);
    create_utxo(&mut ledger, "alice", 200 * COIN, "funding", 0, NOW);
    // the levy goes by the cached balance
    assert_eq!(
        process_wallet_zakat_at(&mut ledger, "alice", "ZAKAT_POOL", &config(), 7, NOW + 1),
        Ok(ZakatOutcome::Skipped(ZakatSkip::NoBalance))
    );
    get_wallet_balance(&mut ledger, "alice", NOW).unwrap();
    let outcome = process_wallet_zakat_at(&mut ledger, "alice", "ZAKAT_POOL", &config(), 7, NOW + 1);
    assert_eq!(outcome, Ok(ZakatOutcome::Levied(5 * COIN)));

    assert_eq!(ledger.pending_transactions.len(), 1);
    let tx = &ledger.pending_transactions[0];
    assert_eq!(tx.id, 7);
    assert_eq!(tx.sender_wallet_id, "alice");
    assert_eq!(tx.receiver_wallet_id, "ZAKAT_POOL");
    assert_eq!(tx.amount, 5 * COIN);
    assert_eq!(tx.fee, 0);
    assert_eq!(tx.note, Some("Monthly Zakat Deduction (2.5%)".to_string()));
    assert_eq!(tx.timestamp, NOW + 1);
    assert_eq!(tx.created_at, NOW + 1);
    let payload = format!("alice|ZAKAT_POOL|5|{}|Monthly Zakat Deduction (2.5%)", NOW + 1);
    let signature = sha256_hash(format!("SYSTEM_ZAKAT_{}", payload).as_bytes());
    assert_eq!(tx.signature, signature);
    assert_eq!(tx.transaction_hash, sha256_hash(format!("{}{}", payload, signature).as_bytes()));

    let alice = get_wallet(&ledger, "alice").unwrap();
    assert_eq!(alice.balance, Value::whole(195 * COIN as i128));
    assert_eq!(alice.last_zakat_date, Some(NOW + 1));
    assert_eq!(get_wallet(&ledger, "ZAKAT_POOL").unwrap().last_zakat_date, None);

    assert_eq!(ledger.zakat_records.len(), 1);
    let record = &ledger.zakat_records[0];
    assert_eq!(record.id, 51);
    assert_eq!(record.wallet_id, "alice");
    assert_eq!(record.amount, 5 * COIN);
    assert_eq!(record.transaction_hash, Some(tx.transaction_hash.clone()));
    assert_eq!(record.deduction_date, NOW + 1);

    assert_eq!(ledger.transaction_logs.len(), 1);
    let log = &ledger.transaction_logs[0];
    assert_eq!(log.id, 52);
    assert_eq!(log.wallet_id, "alice");
    assert_eq!(log.action, "zakat_deducted");
    assert_eq!(log.status, "pending");
    assert_eq!(log.transaction_hash, Some(tx.transaction_hash.clone()));
    assert_eq!(log.note, Some("Monthly Zakat Deduction (2.5%)".to_string()));
    assert_eq!(ledger.next_id, 53);
    assert!(ledger.is_valid());

    // within the period nothing more is owed
    let before = format!("{:?}", ledger);
    assert_eq!(
        process_wallet_zakat_at(&mut ledger, "alice", "ZAKAT_POOL", &config(), 8, NOW + 1000),
        Ok(ZakatOutcome::Skipped(ZakatSkip::AlreadyPaid))
    );
    assert_eq!(
        process_wallet_zakat_at(&mut ledger, "nobody", "ZAKAT_POOL", &config(), 8, NOW + 1000),
        Ok(ZakatOutcome::Skipped(ZakatSkip::NoWallet))
    );
    assert_eq!(format!("{:?}", ledger), before);

    // the levy is settled like any transfer
    create_wallet(&mut ledger, "miner", None, NOW);
    assert!(initialize_blockchain_at(&mut ledger, &config(), NOW));
    mine_block_at(&mut ledger, "miner", &config(), NOW + 60).unwrap();
    assert!(ledger.pending_transactions.is_empty());
    assert_eq!(calculate_wallet_balance(&ledger, "alice"), Value::whole(195 * COIN as i128));
    assert_eq!(calculate_wallet_balance(&ledger, "ZAKAT_POOL"), Value::whole(5 * COIN as i128));
    assert_eq!(calculate_wallet_balance(&ledger, "miner"), Value::whole(50 * COIN as i128));
}

#[test]
fn a_levy_that_no_transaction_can_hold_is_an_error() {
    let mut ledger = Ledger::new();
    create_wallet(&mut ledger, "alice", None, NOW);
    ledger.wallets[0].balance = Value::whole(i128::MAX);
    let before = format!("{:?}", ledger);
    let outcome = process_wallet_zakat_at(&mut ledger, "alice", "ZAKAT_POOL", &config(), 7, NOW);
    assert!(outcome.is_err());
    assert_eq!(format!("{:?}", ledger), before);
}

#[test]
fn a_round_of_the_levy() {
    let mut ledger = Ledger::new();
    for (name, coins) in [("alice", 200), ("bob", 50), ("carol", 1000)] {
        create_wallet(&mut ledger, name, None, NOW);
        create_utxo(&mut ledger, name, coins * COIN, "funding", 0, NOW);
        get_wallet_balance(&mut ledger, name, NOW).unwrap();
    }
    create_wallet(&mut ledger, "dave", None, NOW);
    ledger.wallets[3].balance = Value::whole(i128::MAX);

    let report = process_monthly_zakat_at(&mut ledger, &config(), NOW + 1);
    assert_eq!(report, ZakatReport { processed: 3, errors: 1 });
    // the pool wallet was made, and pays no levy
    assert_eq!(ledger.wallets.len(), 5);
    assert_eq!(ledger.wallets[4].wallet_id, "ZAKAT_POOL");
    assert_eq!(ledger.wallets[4].created_at, NOW + 1);
    let levies: Vec<(&str, i64)> = ledger
        .pending_transactions
        .iter()
        .map(|p| (p.sender_wallet_id.as_str(), p.amount))
        .collect();
    assert_eq!(levies, vec![("alice", 5 * COIN), ("carol", 25 * COIN)]);
    assert!(ledger.pending_transactions.iter().all(|p| p.receiver_wallet_id == "ZAKAT_POOL"));
    assert_ne!(ledger.pending_transactions[0].id, ledger.pending_transactions[1].id);
    assert_eq!(ledger.zakat_records.len(), 2);

    // a second round finds the levies paid and the pool in place
    ledger.wallets[3].balance = Value::whole(0);
    let report = process_monthly_zakat_at(&mut ledger, &config(), NOW + 2);
    assert_eq!(report, ZakatReport { processed: 4, errors: 0 });
    assert_eq!(ledger.wallets.len(), 5);
    assert_eq!(ledger.pending_transactions.len(), 2);

    // a round after the period levies the balances as they are cached
    let report = process_monthly_zakat_at(&mut ledger, &config(), NOW + 1 + 2_592_000);
    assert_eq!(report, ZakatReport { processed: 4, errors: 0 });
    let levies: Vec<i64> = ledger.pending_transactions.iter().map(|p| p.amount).collect();
    assert_eq!(levies, vec![5 * COIN, 25 * COIN, 487_500_000, 2_437_500_000]);
}

#[test]
fn the_levy_of_now() {
    let mut ledger = Ledger::new();
    create_wallet(&mut ledger, "alice", None, NOW);
    create_utxo(&mut ledger, "alice", 200 * COIN, "funding", 0, NOW);
    get_wallet_balance(&mut ledger, "alice", NOW).unwrap();
    let before = now();
    assert_eq!(
        process_wallet_zakat(&mut ledger, "alice", "pool", &config()),
        Ok(ZakatOutcome::Levied(5 * COIN))
    );
    assert!(ledger.pending_transactions[0].timestamp >= before);
    assert_eq!(process_monthly_zakat(&mut ledger, &config()), ZakatReport { processed: 1, errors: 0 });
    assert_eq!(trigger_zakat_deduction(&mut ledger, &config()), ZakatReport { processed: 1, errors: 0 });
    assert_eq!(ledger.pending_transactions.len(), 1);
    assert!(wallet_exists(&ledger, "ZAKAT_POOL"));
}

#[test]
fn an_address_signs_up_once() {
    let (mut ledger, _) = store_with_a_user();
    assert!(email_taken(&ledger, "alice@example.org"));
    assert!(!email_taken(&ledger, "bob@example.org"));
    let before = format!("{:?}", ledger);
    let req = RegisterRequest {
        email: "alice@example.org".to_string(),
        full_name: "Another Alice".to_string(),
        cnic: "2".to_string(),
        password: "secret".to_string(),
    };
    match register_user(&mut ledger, req, &MASTER_KEY, NOW) {
        Err(AuthError::UserAlreadyExists) => {}
        other => panic!("unexpected: {:?}", other),
    }
    assert_eq!(format!("{:?}", ledger), before);
}

#[test]
fn the_claims_of_a_token() {
    let claims = token_claims("user-1", "alice@example.org", NOW);
    assert_eq!(claims.sub, "user-1");
    assert_eq!(claims.email, "alice@example.org");
    assert_eq!(claims.exp, NOW + 86_400);
    assert_eq!(AuthError::UserAlreadyExists.to_string(), "User already exists");
    assert_eq!(AuthError::InvalidCredentials.to_string(), "Invalid credentials");
    assert_eq!(AuthError::TokenError("x".to_string()).to_string(), "Token error: x");
    assert_eq!(AuthError::DatabaseError("x".to_string()).to_string(), "Database error: x");
    assert_eq!(AuthError::WalletError("x".to_string()).to_string(), "Wallet error: x");
}

#[test]
fn one_time_codes() {
    for _ in 0..100 {
        let otp = generate_otp();
        assert_eq!(otp.len(), 6);
        let code: u32 = otp.parse().unwrap();
        assert!((100_000..=999_999).contains(&code));
    }
    assert_eq!(otp_text(123), "000123");
    assert_eq!(otp_text(999_999), "999999");
    assert_eq!(otp_text(1_234_567), "234567");
    assert_eq!(otp_expiry(NOW), Some(NOW + 600));
    assert_eq!(otp_expiry(i64::MAX - 600), Some(i64::MAX));
    assert_eq!(otp_expiry(i64::MAX - 599), None);
    assert_eq!(OtpError::DatabaseError("x".to_string()).to_string(), "Database error: x");
    assert_eq!(OtpError::InvalidOtp.to_string(), "Invalid or already used OTP");
    assert_eq!(OtpError::ExpiredOtp.to_string(), "OTP has expired");
    assert_eq!(OtpError::SendError("x".to_string()).to_string(), "Failed to send OTP: x");
}
