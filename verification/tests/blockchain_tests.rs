use blockwallet::blockchain::{
    calculate_block_hash, calculate_block_hash_in, calculate_block_hash_legacy,
    calculate_block_reward, calculate_merkle_root, clamped_reward, collect_hashes, issued_over,
    create_genesis_block, create_genesis_block_at, current_transactions_data,
    hash_meets_difficulty, machine_strides, next_start, now, proof_of_work, search_nonces,
    validate_block,
    validate_blockchain, worker_strides, HashMode, Stride,
};
use blockwallet::config::Config;
use blockwallet::crypto::sha256_hash;
use blockwallet::models::{Block, Transaction};
use blockwallet::value::{Value, DUST_PER_UNIT};

fn config() -> Config {
    Config::new(String::new(), String::new(), vec![0u8; 32])
}

fn tx(hash: &str) -> Transaction {
    Transaction {
        id: 1,
        transaction_hash: hash.to_string(),
        sender_wallet_id: "alice".to_string(),
        receiver_wallet_id: "bob".to_string(),
        amount: 1_000_000_000,
        note: None,
        signature: "sig".to_string(),
        block_index: Some(1),
        transaction_type: "transfer".to_string(),
        timestamp: 1_700_000_000,
        created_at: 1_700_000_001,
    }
}

fn candidate(index: i64, previous_hash: &str, transactions: Vec<Transaction>) -> Block {
    let merkle_root = calculate_merkle_root(&transactions);
    Block {
        index,
        timestamp: 1_700_000_000,
        transactions,
        previous_hash: previous_hash.to_string(),
        hash: String::new(),
        nonce: 0,
        merkle_root: Some(merkle_root),
    }
}

fn mined(index: i64, previous_hash: &str, transactions: Vec<Transaction>, difficulty: usize) -> Block {
    let mut block = candidate(index, previous_hash, transactions);
    proof_of_work(&mut block, difficulty).unwrap();
    block
}

#[test]
fn test_genesis_block_creation() {
    let mut settings = config();
    settings.mining_difficulty = 3;
    let genesis = create_genesis_block(&settings).unwrap();
    assert_eq!(genesis.index, 0);
    assert_eq!(genesis.previous_hash, "0");
    assert!(!genesis.hash.is_empty());
}

#[test]
fn test_merkle_root_empty() {
    let root = calculate_merkle_root(&vec![]);
    assert!(!root.is_empty());
}

#[test]
fn test_block_hash_calculation() {
    let block = Block {
        index: 1,
        timestamp: 1234567890,
        transactions: vec![],
        previous_hash: "previous".to_string(),
        hash: String::new(),
        nonce: 0,
        merkle_root: None,
    };

    let hash = calculate_block_hash(&block);
    assert_eq!(hash.len(), 64); // SHA-256 produces 64 hex characters
}

#[test]
fn the_genesis_block_in_full() {
    let genesis = create_genesis_block_at(1_700_000_004, 5).unwrap();
    assert_eq!(genesis.timestamp, 1_700_000_004);
    assert!(genesis.transactions.is_empty());
    assert_eq!(genesis.merkle_root, Some(sha256_hash(b"empty")));
    assert_eq!(genesis.nonce, 58012);
    assert!(genesis.hash.starts_with("00000"));
    assert_eq!(genesis.hash, calculate_block_hash(&genesis));
    assert!(validate_block(&genesis, None, None, 5));
}

#[test]
fn the_genesis_block_of_now() {
    let mut settings = config();
    settings.mining_difficulty = 1;
    let before = now();
    let genesis = create_genesis_block(&settings).unwrap();
    assert_eq!(genesis.index, 0);
    assert_eq!(genesis.previous_hash, "0");
    assert!(genesis.timestamp >= before);
    assert!(genesis.timestamp > 1_600_000_000);
    assert!(genesis.hash.starts_with('0'));
    assert!(validate_block(&genesis, None, None, 1));
}

#[test]
fn the_clock_shows_a_time_after_the_epoch() {
    let seconds = now();
    assert!(seconds >= 0);
    assert!(seconds / 86_400 <= i32::MAX as i64);
    // this was written after the year 2020
    assert!(seconds > 1_600_000_000);
}

#[test]
fn the_reward_halves_every_interval() {
    let settings = config();
    assert_eq!(calculate_block_reward(0, &settings), Value::whole(5_000_000_000));
    assert_eq!(calculate_block_reward(209, &settings), Value::whole(5_000_000_000));
    assert_eq!(calculate_block_reward(210, &settings), Value::whole(2_500_000_000));
    assert_eq!(calculate_block_reward(419, &settings), Value::whole(2_500_000_000));
    assert_eq!(calculate_block_reward(420, &settings), Value::whole(1_250_000_000));
    // fifty coins halved 32 times are one base unit and a fraction
    assert_eq!(
        calculate_block_reward(210 * 32, &settings),
        Value { units: 1, dust: 1_514_046_203_145_224_192 }
    );
    assert_eq!(
        calculate_block_reward(210 * 33, &settings),
        Value { units: 0, dust: 5_368_709_120_000_000_000 }
    );
    // after 63 halvings something is left, after 64 nothing
    assert_eq!(
        calculate_block_reward(210 * 63, &settings),
        Value { units: 0, dust: 5_000_000_000 }
    );
    assert_eq!(
        calculate_block_reward(210 * 64 - 1, &settings),
        Value { units: 0, dust: 5_000_000_000 }
    );
    assert_eq!(calculate_block_reward(210 * 64, &settings), Value::zero());
    assert_eq!(calculate_block_reward(i64::MAX, &settings), Value::zero());
}

#[test]
fn every_halving_is_exact() {
    let settings = config();
    let dust_in = |value: Value| value.units * (DUST_PER_UNIT as i128) + value.dust as i128;
    for halvings in 0..63i64 {
        let now = calculate_block_reward(210 * halvings, &settings);
        let next = calculate_block_reward(210 * (halvings + 1), &settings);
        assert!(now.is_valid() && next.is_valid());
        assert_eq!(dust_in(now), 2 * dust_in(next));
        assert!(next.is_positive());
    }
}

#[test]
fn the_reward_of_other_settings() {
    let mut settings = config();
    settings.block_reward = i64::MAX;
    settings.halving_interval = 1;
    assert_eq!(calculate_block_reward(0, &settings), Value::whole(i64::MAX as i128));
    assert_eq!(
        calculate_block_reward(1, &settings),
        Value { units: 4_611_686_018_427_387_903, dust: 4_611_686_018_427_387_904 }
    );
    assert_eq!(
        calculate_block_reward(62, &settings),
        Value { units: 1, dust: 9_223_372_036_854_775_806 }
    );
    assert_eq!(
        calculate_block_reward(63, &settings),
        Value { units: 0, dust: 9_223_372_036_854_775_807 }
    );
    assert_eq!(calculate_block_reward(64, &settings), Value::zero());
    settings.block_reward = 0;
    assert_eq!(calculate_block_reward(0, &settings), Value::zero());
    assert_eq!(calculate_block_reward(63, &settings), Value::zero());
}

#[test]
fn the_clamped_reward_keeps_issuance_under_the_cap() {
    let settings = config();
    let cap = settings.max_coin_supply as i128;
    let whole = Value::whole;
    assert_eq!(clamped_reward(0, whole(0), &settings), whole(5_000_000_000));
    assert_eq!(clamped_reward(0, whole(cap - 5_000_000_000), &settings), whole(5_000_000_000));
    assert_eq!(clamped_reward(0, whole(cap - 4_999_999_999), &settings), whole(4_999_999_999));
    assert_eq!(clamped_reward(0, whole(cap - 1), &settings), whole(1));
    assert_eq!(clamped_reward(0, whole(cap), &settings), whole(0));
    assert_eq!(clamped_reward(0, whole(cap + 7), &settings), whole(0));
    assert_eq!(clamped_reward(210, whole(cap - 3_000_000_000), &settings), whole(2_500_000_000));
    assert_eq!(clamped_reward(210 * 64, whole(0), &settings), whole(0));
    assert_eq!(clamped_reward(5, whole(i128::MAX), &settings), whole(0));
    assert_eq!(clamped_reward(5, whole(i128::MIN), &settings), whole(5_000_000_000));
    // what is left of the cap, to the dust
    assert_eq!(
        clamped_reward(0, Value { units: cap - 1, dust: 1 }, &settings),
        Value { units: 0, dust: DUST_PER_UNIT - 1 }
    );
    assert_eq!(
        clamped_reward(0, Value { units: cap - 3, dust: DUST_PER_UNIT - 1 }, &settings),
        Value { units: 2, dust: 1 }
    );
    // a reward of dust fits under the cap where a base unit is left
    assert_eq!(
        clamped_reward(210 * 63, whole(cap - 1), &settings),
        Value { units: 0, dust: 5_000_000_000 }
    );
    assert_eq!(
        clamped_reward(210 * 63, Value { units: cap - 1, dust: DUST_PER_UNIT - 7 }, &settings),
        Value { units: 0, dust: 7 }
    );

    // whatever the heights, issuance stays under the cap
    let mut issued = whole(cap - 12_000_000_000);
    for height in [0i64, 1, 500, 2, 210, 3, 4, 5] {
        let due = clamped_reward(height, issued, &settings);
        issued = issued.plus(due.units, due.dust);
        assert!(!issued.is_above(cap));
    }
    assert_eq!(issued, whole(cap));
}

#[test]
fn issuance_over_the_heights_of_a_chain() {
    let settings = config();
    assert_eq!(issued_over(&vec![], &settings), Value::zero());
    // the block at height zero earns nothing
    assert_eq!(issued_over(&vec![0], &settings), Value::zero());
    assert_eq!(issued_over(&vec![0, 1, 2], &settings), Value::whole(10_000_000_000));
    assert_eq!(issued_over(&vec![0, 1, 210, -4, 0], &settings), Value::whole(7_500_000_000));
    assert_eq!(
        issued_over(&vec![1, 210 * 33, 210 * 63, 210 * 64], &settings),
        Value { units: 5_000_000_000, dust: 5_368_709_125_000_000_000 }
    );
    let mut small = config();
    small.max_coin_supply = 12_000_000_000;
    assert_eq!(issued_over(&vec![0, 1, 2, 3, 4], &small), Value::whole(12_000_000_000));
    small.max_coin_supply = 0;
    assert_eq!(issued_over(&vec![1, 2], &small), Value::zero());
}

#[test]
fn the_merkle_root_of_some_transactions() {
    assert_eq!(calculate_merkle_root(&vec![]), sha256_hash(b"empty"));
    assert_eq!(calculate_merkle_root(&vec![tx("h1")]), "h1");
    assert_eq!(calculate_merkle_root(&vec![tx("h1"), tx("h2")]), sha256_hash(b"h1h2"));
    let left = sha256_hash(b"h1h2");
    let right = sha256_hash(b"h3h3");
    assert_eq!(
        calculate_merkle_root(&vec![tx("h1"), tx("h2"), tx("h3")]),
        sha256_hash(format!("{}{}", left, right).as_bytes())
    );
    let right = sha256_hash(b"h3h4");
    assert_eq!(
        calculate_merkle_root(&vec![tx("h1"), tx("h2"), tx("h3"), tx("h4")]),
        sha256_hash(format!("{}{}", left, right).as_bytes())
    );
    let l1 = sha256_hash(b"h1h2");
    let l2 = sha256_hash(b"h3h4");
    let l3 = sha256_hash(b"h5h5");
    let top_left = sha256_hash(format!("{}{}", l1, l2).as_bytes());
    let top_right = sha256_hash(format!("{}{}", l3, l3).as_bytes());
    assert_eq!(
        calculate_merkle_root(&vec![tx("h1"), tx("h2"), tx("h3"), tx("h4"), tx("h5")]),
        sha256_hash(format!("{}{}", top_left, top_right).as_bytes())
    );
}

#[test]
fn the_merkle_root_is_the_same_on_every_call() {
    let transactions = vec![tx("a"), tx("b"), tx("c")];
    let first = calculate_merkle_root(&transactions);
    assert_eq!(first, calculate_merkle_root(&transactions));
    // only the content hashes count
    let mut others = vec![tx("a"), tx("b"), tx("c")];
    others[1].amount = 5;
    others[2].created_at = 0;
    assert_eq!(first, calculate_merkle_root(&others));
    // and their order
    assert_ne!(first, calculate_merkle_root(&vec![tx("b"), tx("a"), tx("c")]));
}

#[test]
fn the_hash_of_a_block_in_full() {
    let block = Block {
        index: 1,
        timestamp: 1234567890,
        transactions: vec![],
        previous_hash: "previous".to_string(),
        hash: String::new(),
        nonce: 0,
        merkle_root: None,
    };
    assert_eq!(calculate_block_hash(&block), sha256_hash(b"11234567890[]previous0"));

    let block = Block {
        index: 2,
        timestamp: 5,
        transactions: vec![tx("aa"), tx("bb")],
        previous_hash: "prev".to_string(),
        hash: "ignored".to_string(),
        nonce: -7,
        merkle_root: Some("root".to_string()),
    };
    assert_eq!(calculate_block_hash(&block), sha256_hash(b"25[\"aa\",\"bb\"]prev-7root"));
    assert_eq!(current_transactions_data(&block.transactions), "[\"aa\",\"bb\"]");
    assert_eq!(collect_hashes(&block.transactions), vec!["aa".to_string(), "bb".to_string()]);
}

#[test]
fn content_hashes_are_written_as_json_strings() {
    let hashes = vec!["a\"b".to_string(), "c\\d\n".to_string(), "\u{e9}".to_string()];
    let transactions: Vec<Transaction> = hashes.iter().map(|h| tx(h)).collect();
    assert_eq!(
        current_transactions_data(&transactions),
        serde_json::to_string(&hashes).unwrap()
    );
    assert_eq!(current_transactions_data(&transactions), "[\"a\\\"b\",\"c\\\\d\\n\",\"\u{e9}\"]");
}

#[test]
fn the_legacy_hash_of_a_block() {
    let block = Block {
        index: 3,
        timestamp: 9,
        transactions: vec![tx("aa")],
        previous_hash: "p".to_string(),
        hash: String::new(),
        nonce: 4,
        merkle_root: Some("m".to_string()),
    };
    let json = "[{\"id\":\"x\"}]";
    assert_eq!(
        calculate_block_hash_legacy(&block, json),
        sha256_hash(b"39[{\"id\":\"x\"}]p4m")
    );
    assert_eq!(
        calculate_block_hash_in(&block, HashMode::Legacy, json),
        calculate_block_hash_legacy(&block, json)
    );
    assert_eq!(
        calculate_block_hash_in(&block, HashMode::Current, json),
        calculate_block_hash(&block)
    );
    assert_ne!(calculate_block_hash(&block), calculate_block_hash_legacy(&block, json));
}

#[test]
fn the_difficulty_counts_leading_zeros() {
    assert!(hash_meets_difficulty("000abc", 3));
    assert!(hash_meets_difficulty("000abc", 0));
    assert!(!hash_meets_difficulty("000abc", 4));
    assert!(!hash_meets_difficulty("00", 3));
    assert!(!hash_meets_difficulty("a000", 1));
    assert!(hash_meets_difficulty("", 0));
}

#[test]
fn proof_of_work_finds_the_least_nonce() {
    let mut block = candidate(1, "prev", vec![tx("h1"), tx("h2")]);
    let nonce = proof_of_work(&mut block, 2).unwrap();
    assert_eq!(block.nonce, nonce);
    assert!(nonce >= 0);
    assert!(block.hash.starts_with("00"));
    assert_eq!(block.hash, calculate_block_hash(&block));
    assert_eq!(block.index, 1);
    assert_eq!(block.previous_hash, "prev");
    assert_eq!(block.transactions.len(), 2);
    let mut probe = candidate(1, "prev", vec![tx("h1"), tx("h2")]);
    for earlier in 0..nonce {
        probe.nonce = earlier;
        assert!(!calculate_block_hash(&probe).starts_with("00"));
    }
}

#[test]
fn proof_of_work_at_no_difficulty_takes_the_first_nonce() {
    let mut block = candidate(1, "prev", vec![]);
    assert_eq!(proof_of_work(&mut block, 0), Some(0));
    assert_eq!(block.nonce, 0);
    assert_eq!(block.hash, calculate_block_hash(&block));
}

#[test]
fn proof_of_work_ends_where_no_hash_can_do() {
    // no hash has more than 64 zeros
    let mut block = candidate(1, "prev", vec![]);
    assert_eq!(search_nonces(&block, 65, 0, 1, 1000), None);
    assert_eq!(search_nonces(&block, 65, i64::MAX - 2, 1, 1000), None);
    assert_eq!(search_nonces(&block, 0, i64::MAX, 1, 1000), Some(i64::MAX));
    block.hash = "kept".to_string();
    block.nonce = 3;
    assert_eq!(search_nonces(&block, 0, 5, 1, 0), None);
    assert_eq!(block.hash, "kept");
    assert_eq!(block.nonce, 3);
}

#[test]
fn a_worker_searches_its_own_stride() {
    let block = candidate(1, "prev", vec![tx("h1")]);
    let all = search_nonces(&block, 1, 0, 1, 1_000_000).unwrap();
    let evens = search_nonces(&block, 1, 0, 2, 1_000_000).unwrap();
    let odds = search_nonces(&block, 1, 1, 2, 1_000_000).unwrap();
    assert_eq!(evens % 2, 0);
    assert_eq!(odds % 2, 1);
    assert_eq!(all, evens.min(odds));
    // the search does not go beyond its attempts
    assert_eq!(search_nonces(&block, 1, 0, 1, all as u64), None);
    assert_eq!(search_nonces(&block, 1, 0, 1, all as u64 + 1), Some(all));
}

#[test]
fn a_search_goes_on_where_it_ended() {
    assert_eq!(next_start(3, 4, 10), Some(43));
    assert_eq!(next_start(0, 1, 0), Some(0));
    assert_eq!(next_start(i64::MAX - 10, 5, 2), Some(i64::MAX));
    assert_eq!(next_start(i64::MAX - 10, 5, 3), None);
    assert_eq!(next_start(i64::MAX, i64::MAX, u64::MAX), None);
    // two searches in a row find what one long search finds
    let block = candidate(1, "prev", vec![tx("h1")]);
    let whole = search_nonces(&block, 2, 1, 3, 100_000).unwrap();
    let mut start = 1;
    let found = loop {
        match search_nonces(&block, 2, start, 3, 7) {
            Some(nonce) => break nonce,
            None => start = next_start(start, 3, 7).unwrap(),
        }
    };
    assert_eq!(found, whole);
}

#[test]
fn the_workers_share_the_nonces() {
    assert_eq!(
        worker_strides(3),
        vec![
            Stride { start: 0, step: 3 },
            Stride { start: 1, step: 3 },
            Stride { start: 2, step: 3 }
        ]
    );
    assert_eq!(worker_strides(1), vec![Stride { start: 0, step: 1 }]);
    let strides = machine_strides();
    assert!(!strides.is_empty());
    for (i, stride) in strides.iter().enumerate() {
        assert_eq!(stride.start, i as i64);
        assert_eq!(stride.step, strides.len() as i64);
    }
    // every nonce is the attempt of exactly one worker
    for nonce in 0..50i64 {
        let owners = worker_strides(4)
            .iter()
            .filter(|s| nonce >= s.start && (nonce - s.start) % s.step == 0)
            .count();
        assert_eq!(owners, 1);
    }
}

#[test]
fn a_mined_block_is_valid_and_an_altered_one_is_not() {
    let genesis = mined(0, "0", vec![], 2);
    let block = mined(1, &genesis.hash, vec![tx("h1"), tx("h2")], 2);
    assert!(validate_block(&genesis, None, None, 2));
    assert!(validate_block(&block, Some(&genesis), None, 2));
    assert!(validate_block(&block, None, None, 2));

    let mut altered = mined(1, &genesis.hash, vec![tx("h1"), tx("h2")], 2);
    altered.nonce += 1;
    assert!(!validate_block(&altered, Some(&genesis), None, 2));

    let mut altered = mined(1, &genesis.hash, vec![tx("h1"), tx("h2")], 2);
    altered.previous_hash = "1".to_string();
    assert!(!validate_block(&altered, None, None, 2));

    let mut altered = mined(1, &genesis.hash, vec![tx("h1"), tx("h2")], 2);
    altered.transactions.pop();
    assert!(!validate_block(&altered, Some(&genesis), None, 2));

    let mut altered = mined(1, &genesis.hash, vec![tx("h1"), tx("h2")], 2);
    altered.transactions[0].transaction_hash = "h9".to_string();
    assert!(!validate_block(&altered, Some(&genesis), None, 2));

    let mut altered = mined(1, &genesis.hash, vec![tx("h1"), tx("h2")], 2);
    altered.timestamp += 1;
    assert!(!validate_block(&altered, Some(&genesis), None, 2));

    let mut altered = mined(1, &genesis.hash, vec![tx("h1"), tx("h2")], 2);
    altered.hash = "00".to_string();
    assert!(!validate_block(&altered, Some(&genesis), None, 2));
}

#[test]
fn a_block_must_follow_the_one_before_it() {
    let genesis = mined(0, "0", vec![], 1);
    let block = mined(1, &genesis.hash, vec![], 1);
    assert!(validate_block(&block, Some(&genesis), None, 1));

    let skipped = mined(2, &genesis.hash, vec![], 1);
    assert!(validate_block(&skipped, None, None, 1));
    assert!(!validate_block(&skipped, Some(&genesis), None, 1));

    let unlinked = mined(1, "elsewhere", vec![], 1);
    assert!(validate_block(&unlinked, None, None, 1));
    assert!(!validate_block(&unlinked, Some(&genesis), None, 1));

    let last = mined(i64::MAX, "0", vec![], 1);
    let wrapped = mined(i64::MIN, &last.hash, vec![], 1);
    assert!(!validate_block(&wrapped, Some(&last), None, 1));
}

#[test]
fn a_block_must_meet_the_difficulty_and_its_merkle_root() {
    let block = mined(1, "prev", vec![tx("h1")], 1);
    assert!(validate_block(&block, None, None, 1));
    assert!(validate_block(&block, None, None, 0));
    assert!(!validate_block(&block, None, None, 64));

    let mut wrong_root = candidate(1, "prev", vec![tx("h1")]);
    wrong_root.merkle_root = Some("h2".to_string());
    proof_of_work(&mut wrong_root, 1).unwrap();
    assert!(!validate_block(&wrong_root, None, None, 1));

    let mut no_root = candidate(1, "prev", vec![tx("h1")]);
    no_root.merkle_root = None;
    proof_of_work(&mut no_root, 1).unwrap();
    assert!(validate_block(&no_root, None, None, 1));
}

#[test]
fn a_block_hashed_in_the_legacy_mode_is_accepted() {
    let json = "[{\"transaction_hash\":\"h1\"}]";
    let mut block = candidate(1, "prev", vec![tx("h1")]);
    block.hash = calculate_block_hash_legacy(&block, json);
    assert!(validate_block(&block, None, Some(json), 0));
    assert!(!validate_block(&block, None, None, 0));
    assert!(!validate_block(&block, None, Some("[]"), 0));
}

#[test]
fn a_chain_is_valid_block_by_block() {
    let genesis = mined(0, "0", vec![], 1);
    let first = mined(1, &genesis.hash, vec![tx("h1")], 1);
    let second = mined(2, &first.hash, vec![tx("h2"), tx("h3")], 1);
    let legacy: Vec<String> = vec![];
    assert!(validate_blockchain(&vec![], &legacy, 1));
    let chain = vec![genesis, first, second];
    assert!(validate_blockchain(&chain, &legacy, 1));
    assert!(!validate_blockchain(&chain, &legacy, 64));

    let genesis = mined(0, "0", vec![], 1);
    let first = mined(1, &genesis.hash, vec![tx("h1")], 1);
    let second = mined(2, &first.hash, vec![tx("h2"), tx("h3")], 1);
    assert!(!validate_blockchain(&vec![genesis, second, first], &legacy, 1));

    let genesis = mined(0, "0", vec![], 1);
    let first = mined(1, &genesis.hash, vec![tx("h1")], 1);
    let mut second = mined(2, &first.hash, vec![tx("h2"), tx("h3")], 1);
    second.transactions[1].transaction_hash = "h4".to_string();
    assert!(!validate_blockchain(&vec![genesis, first, second], &legacy, 1));
}

#[test]
fn a_chain_with_a_legacy_block() {
    let json = "[]".to_string();
    let mut genesis = candidate(0, "0", vec![]);
    genesis.hash = calculate_block_hash_legacy(&genesis, "[]");
    // in both modes no transactions are written as an empty list
    assert_eq!(genesis.hash, calculate_block_hash(&genesis));
    let json_of_first = "[{\"transaction_hash\":\"h1\"}]".to_string();
    let mut first = candidate(1, &genesis.hash, vec![tx("h1")]);
    first.hash = calculate_block_hash_legacy(&first, &json_of_first);
    let chain = vec![genesis, first];
    assert!(validate_blockchain(&chain, &vec![json.clone(), json_of_first], 0));
    assert!(!validate_blockchain(&chain, &vec![json.clone()], 0));
    assert!(!validate_blockchain(&chain, &vec![json.clone(), json], 0));
}
