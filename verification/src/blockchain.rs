//! Blocks: their hashes, the proof of work that seals them, the schedule of
//! their rewards, and the rules by which a block and a chain are valid.

use crate::config::Config;
use crate::crypto::{sha256_hash, sha256_hex};
use crate::models::{text_view, views, Block, BlockView, Transaction, TransactionView};
use crate::text::{decimal, leads_with, push_decimal, starts_with_run, str_eq};
use crate::value::{in_dust, Value, DUST_PER_UNIT};
use vstd::arithmetic::div_mod::lemma_div_pos_is_pos;
use vstd::arithmetic::power2::{lemma2_to64_rest, lemma_pow2_pos, lemma_pow2_unfold, pow2};
use vstd::prelude::*;
use vstd::string::*;
use vstd::utf8::encode_utf8;

pub use crate::ledger::{calculate_wallet_balance, get_total_mined_coins};
pub use crate::mining::{initialize_blockchain, mine_block};

verus! {

/// After this many halvings the reward is zero.
pub const MAX_HALVINGS: i64 = 64;

/// How often the reward has halved at `height`.
pub open spec fn halving_count(height: int, halving_interval: int) -> int {
    height / halving_interval
}

/// The reward of the block at `height`, in dust: the initial reward of
/// `initial_reward` base units halved once for each full interval below the
/// height, and nothing from the 64th halving on. One base unit is 2^63 dust,
/// so up to the 63rd halving no halving loses anything.
pub open spec fn reward(height: int, initial_reward: int, halving_interval: int) -> int {
    let halvings = halving_count(height, halving_interval);
    if halvings >= 64 {
        0
    } else {
        initial_reward * pow2((63 - halvings) as nat)
    }
}

/// The reward that keeps issuance within the cap: the whole reward where it
/// fits under `max_supply`, else what is left of the cap, and never less than
/// nothing. All three are counted in dust.
pub open spec fn clamped(full_reward: int, total_issued: int, max_supply: int) -> int {
    if total_issued + full_reward > max_supply {
        if max_supply - total_issued > 0 {
            max_supply - total_issued
        } else {
            0
        }
    } else {
        full_reward
    }
}

/// The block reward at `block_height`: the initial reward halved exactly
/// once for each full interval, and nothing from the 64th halving on.
pub fn calculate_block_reward(block_height: i64, config: &Config) -> (amount: Value)
    requires
        config.wf(),
        block_height >= 0,
    ensures
        amount.wf(),
        amount.dust_total() == reward(
            block_height as int,
            config.block_reward as int,
            config.halving_interval as int,
        ),
        0 <= amount.dust_total() <= in_dust(config.block_reward as int, 0),
        0 <= amount.units <= config.block_reward,
{
    let halvings = block_height / config.halving_interval;
    proof {
        lemma_div_pos_is_pos(block_height as int, config.halving_interval as int);
        lemma2_to64_rest();
    }
    if halvings >= MAX_HALVINGS {
        return Value::zero();
    }
    let mut amount = Value::whole(config.block_reward as i128);
    let mut done: i64 = 0;
    while done < halvings
        invariant
            0 <= done <= halvings < 64,
            config.block_reward >= 0,
            amount.wf(),
            0 <= amount.units <= config.block_reward,
            0 <= amount.dust_total() <= in_dust(config.block_reward as int, 0),
            amount.dust_total() == config.block_reward * pow2((63 - done) as nat),
        decreases halvings - done,
    {
        proof {
            let rest = pow2((62 - done) as nat) as int;
            lemma_pow2_unfold((63 - done) as nat);
            assert(amount.dust_total() == 2 * (config.block_reward * rest)) by (nonlinear_arith)
                requires
                    amount.dust_total() == config.block_reward * pow2((63 - done) as nat),
                    pow2((63 - done) as nat) == 2 * rest,
            ;
        }
        amount = amount.halved();
        done = done + 1;
    }
    amount
}

/// The reward at `block_height` after the cap on issuance: see `clamped`.
pub fn clamped_reward(block_height: i64, total_issued: Value, config: &Config) -> (amount: Value)
    requires
        config.wf(),
        block_height >= 0,
        total_issued.wf(),
    ensures
        amount.wf(),
        amount.dust_total() == clamped(
            reward(block_height as int, config.block_reward as int, config.halving_interval as int),
            total_issued.dust_total(),
            in_dust(config.max_coin_supply as int, 0),
        ),
        0 <= amount.dust_total() <= in_dust(config.block_reward as int, 0),
        0 <= amount.units <= config.block_reward,
        total_issued.dust_total() <= in_dust(config.max_coin_supply as int, 0)
            ==> total_issued.dust_total() + amount.dust_total() <= in_dust(
            config.max_coin_supply as int,
            0,
        ),
{
    let block_reward = calculate_block_reward(block_height, config);
    let max_supply = config.max_coin_supply as i128;
    if total_issued.units >= max_supply {
        return Value::zero();
    }
    let issued = total_issued.plus(block_reward.units, block_reward.dust);
    if issued.is_above(max_supply) {
        if total_issued.dust > 0 {
            Value {
                units: max_supply - total_issued.units - 1,
                dust: DUST_PER_UNIT - total_issued.dust,
            }
        } else {
            Value { units: max_supply - total_issued.units, dust: 0 }
        }
    } else {
        block_reward
    }
}

/// The reward halves exactly with every interval: up to the 63rd halving the
/// reward now is twice the reward one interval later, to the dust. After
/// that no reward follows.
pub proof fn lemma_reward_halves(height: int, initial_reward: int, halving_interval: int)
    requires
        height >= 0,
        halving_interval > 0,
    ensures
        halving_count(height, halving_interval) < 63 ==> reward(
            height,
            initial_reward,
            halving_interval,
        ) == 2 * reward(height + halving_interval, initial_reward, halving_interval),
        halving_count(height, halving_interval) >= 63 ==> reward(
            height + halving_interval,
            initial_reward,
            halving_interval,
        ) == 0,
{
    let k = halving_count(height, halving_interval);
    lemma_div_pos_is_pos(height, halving_interval);
    assert(halving_count(height + halving_interval, halving_interval) == k + 1) by {
        vstd::arithmetic::div_mod::lemma_div_plus_one(height, halving_interval);
    }
    if k < 63 {
        let rest = pow2((62 - k) as nat) as int;
        lemma_pow2_unfold((63 - k) as nat);
        assert(initial_reward * (2 * rest) == 2 * (initial_reward * rest)) by (nonlinear_arith);
    }
}

/// Before the 64th halving the reward is the initial reward divided by two
/// as often as it has halved, without loss: that many doublings of it give
/// the initial reward again. So a reward of something is never nothing
/// before the 64th halving.
pub proof fn lemma_reward_is_exact(height: int, initial_reward: int, halving_interval: int)
    requires
        height >= 0,
        halving_interval > 0,
        halving_count(height, halving_interval) < 64,
    ensures
        reward(height, initial_reward, halving_interval) * pow2(
            halving_count(height, halving_interval) as nat,
        ) == in_dust(initial_reward, 0),
        initial_reward > 0 ==> reward(height, initial_reward, halving_interval) > 0,
{
    let k = halving_count(height, halving_interval);
    lemma_div_pos_is_pos(height, halving_interval);
    lemma2_to64_rest();
    vstd::arithmetic::power2::lemma_pow2_adds((63 - k) as nat, k as nat);
    lemma_pow2_pos((63 - k) as nat);
    let low = pow2(k as nat) as int;
    let high = pow2((63 - k) as nat) as int;
    assert(initial_reward * high * low == initial_reward * 0x8000_0000_0000_0000)
        by (nonlinear_arith)
        requires
            high * low == 0x8000_0000_0000_0000,
    ;
    if initial_reward > 0 {
        assert(initial_reward * high > 0) by (nonlinear_arith)
            requires
                initial_reward > 0,
                high > 0,
        ;
    }
}

/// From the 64th halving on there is no reward.
pub proof fn lemma_reward_ends(height: int, initial_reward: int, halving_interval: int)
    requires
        halving_interval > 0,
        height >= 64 * halving_interval,
    ensures
        reward(height, initial_reward, halving_interval) == 0,
{
    vstd::arithmetic::div_mod::lemma_div_is_ordered(64 * halving_interval, height, halving_interval);
    vstd::arithmetic::div_mod::lemma_div_multiples_vanish(64, halving_interval);
    assert(64 * halving_interval == halving_interval * 64) by (nonlinear_arith);
}

/// What has been issued, in dust, after the blocks at `heights` were
/// rewarded in turn, each with its clamped reward, starting from
/// `total_issued` dust under a cap of `max_supply` dust.
pub open spec fn issued_after(
    total_issued: int,
    heights: Seq<int>,
    initial_reward: int,
    halving_interval: int,
    max_supply: int,
) -> int
    decreases heights.len(),
{
    if heights.len() == 0 {
        total_issued
    } else {
        let before = issued_after(
            total_issued,
            heights.drop_last(),
            initial_reward,
            halving_interval,
            max_supply,
        );
        before + clamped(
            reward(heights.last(), initial_reward, halving_interval),
            before,
            max_supply,
        )
    }
}

/// Clamped rewards never carry issuance over the cap, whatever the heights
/// and their order.
pub proof fn lemma_issuance_capped(
    total_issued: int,
    heights: Seq<int>,
    initial_reward: int,
    halving_interval: int,
    max_supply: int,
)
    requires
        total_issued <= max_supply,
    ensures
        issued_after(total_issued, heights, initial_reward, halving_interval, max_supply)
            <= max_supply,
    decreases heights.len(),
{
    if heights.len() > 0 {
        lemma_issuance_capped(
            total_issued,
            heights.drop_last(),
            initial_reward,
            halving_interval,
            max_supply,
        );
    }
}

/// The heights of a list that earn a reward: those above zero, in their
/// order. The block at height zero opens the chain and earns none.
pub open spec fn rewarded_heights(heights: Seq<i64>) -> Seq<int>
    decreases heights.len(),
{
    if heights.len() == 0 {
        Seq::empty()
    } else if heights.last() > 0 {
        rewarded_heights(heights.drop_last()).push(heights.last() as int)
    } else {
        rewarded_heights(heights.drop_last())
    }
}

/// The rewards issued over the blocks at `heights`, from nothing: each
/// height above zero adds its clamped reward, in the order of the list.
pub fn issued_over(heights: &Vec<i64>, config: &Config) -> (total: Value)
    requires
        config.wf(),
    ensures
        total.wf(),
        total.dust_total() == issued_after(
            0,
            rewarded_heights(heights@),
            config.block_reward as int,
            config.halving_interval as int,
            in_dust(config.max_coin_supply as int, 0),
        ),
        0 <= total.dust_total() <= in_dust(config.max_coin_supply as int, 0),
{
    let mut total = Value::zero();
    let mut i: usize = 0;
    proof {
        assert(heights@.subrange(0, 0) =~= Seq::empty());
    }
    while i < heights.len()
        invariant
            i <= heights.len(),
            config.wf(),
            total.wf(),
            0 <= total.dust_total() <= in_dust(config.max_coin_supply as int, 0),
            total.dust_total() == issued_after(
                0,
                rewarded_heights(heights@.subrange(0, i as int)),
                config.block_reward as int,
                config.halving_interval as int,
                in_dust(config.max_coin_supply as int, 0),
            ),
        decreases heights.len() - i,
    {
        let height = heights[i];
        proof {
            let next = heights@.subrange(0, i + 1);
            assert(next.drop_last() =~= heights@.subrange(0, i as int));
            assert(next.last() == height);
            if height > 0 {
                let earning = rewarded_heights(next);
                assert(earning.drop_last() =~= rewarded_heights(next.drop_last()));
                assert(earning.last() == height as int);
            }
        }
        if height > 0 {
            let due = clamped_reward(height, total, config);
            total = total.plus(due.units, due.dust);
        }
        i += 1;
    }
    proof {
        assert(heights@.subrange(0, i as int) =~= heights@);
    }
    total
}

/// The error of `serde_json`, carried through.
#[verifier::external_type_specification]
#[verifier::external_body]
pub struct ExJsonError(serde_json::Error);

/// The JSON array of the given texts as `serde_json` writes it, each text a
/// JSON string; nothing where the serializer fails.
pub uninterp spec fn json_string_array(texts: Seq<Seq<char>>) -> Option<Seq<char>>;

/// The characters of each text of a list.
pub open spec fn texts(list: Seq<String>) -> Seq<Seq<char>> {
    Seq::new(list.len(), |i: int| list[i]@)
}

/// The content hashes of a list of transactions, in its order.
pub open spec fn tx_hashes(transactions: Seq<TransactionView>) -> Seq<Seq<char>> {
    Seq::new(transactions.len(), |i: int| transactions[i].transaction_hash)
}

/// `serde_json::to_string` on a list of texts.
#[verifier::external_body]
fn json_of_texts(list: &Vec<String>) -> (json: Result<String, serde_json::Error>)
    ensures
        json is Ok <==> json_string_array(texts(list@)) is Some,
        json is Ok ==> json_string_array(texts(list@)) == Some(json->Ok_0@),
{
    serde_json::to_string(list)
}

/// The hash that stands for one pair of hashes in the level above.
pub open spec fn merkle_parent(left: Seq<char>, right: Seq<char>) -> Seq<char> {
    sha256_hex(encode_utf8(left + right))
}

/// The level above `hashes`: one parent for each two neighbours, the last
/// hash paired with itself where their number is odd.
pub open spec fn merkle_level(hashes: Seq<Seq<char>>) -> Seq<Seq<char>> {
    Seq::new(
        ((hashes.len() + 1) / 2) as nat,
        |i: int|
            merkle_parent(
                hashes[2 * i],
                if 2 * i + 1 < hashes.len() {
                    hashes[2 * i + 1]
                } else {
                    hashes[2 * i]
                },
            ),
    )
}

/// The top of the tree over `hashes`, which are not empty.
pub open spec fn merkle_top(hashes: Seq<Seq<char>>) -> Seq<char>
    decreases hashes.len(),
{
    if hashes.len() <= 1 {
        hashes[0]
    } else {
        merkle_top(merkle_level(hashes))
    }
}

/// The merkle root over content hashes: the top of their tree, and the hash
/// of the word `empty` where there are none.
pub open spec fn merkle_root(hashes: Seq<Seq<char>>) -> Seq<char> {
    if hashes.len() == 0 {
        sha256_hex(encode_utf8("empty"@))
    } else {
        merkle_top(hashes)
    }
}

/// The content hashes of `transactions`, copied.
pub fn collect_hashes(transactions: &Vec<Transaction>) -> (hashes: Vec<String>)
    ensures
        texts(hashes@) == tx_hashes(views(transactions@)),
{
    let mut hashes: Vec<String> = Vec::new();
    let mut i: usize = 0;
    while i < transactions.len()
        invariant
            i <= transactions.len(),
            hashes.len() == i,
            forall|j: int| 0 <= j < i ==> hashes@[j]@ == transactions@[j].transaction_hash@,
        decreases transactions.len() - i,
    {
        hashes.push(transactions[i].transaction_hash.clone());
        i += 1;
    }
    proof {
        assert(texts(hashes@) =~= tx_hashes(views(transactions@)));
    }
    hashes
}

/// The level above `hashes` in the merkle tree.
fn merkle_level_up(hashes: &Vec<String>) -> (level: Vec<String>)
    ensures
        texts(level@) == merkle_level(texts(hashes@)),
{
    let n = hashes.len();
    let mut level: Vec<String> = Vec::new();
    let mut i: usize = 0;
    while i < n
        invariant
            n == hashes.len(),
            i <= n,
            i % 2 == 0 || i == n,
            level.len() == (i + 1) / 2,
            forall|j: int|
                0 <= j < level.len() ==> level@[j]@ == #[trigger] merkle_level(texts(hashes@))[j],
        decreases n - i,
    {
        let left = &hashes[i];
        let right = if n - i >= 2 {
            &hashes[i + 1]
        } else {
            left
        };
        let mut combined = left.clone();
        combined.append(right.as_str());
        let parent = sha256_hash(combined.as_str().as_bytes());
        proof {
            let above = merkle_level(texts(hashes@));
            assert(i / 2 < above.len());
            assert(parent@ == above[i as int / 2]);
        }
        level.push(parent);
        i = if n - i >= 2 {
            i + 2
        } else {
            n
        };
    }
    proof {
        assert(texts(level@) =~= merkle_level(texts(hashes@)));
    }
    level
}

/// The merkle root of a block's transactions: their content hashes combined
/// pairwise, level by level, until one is left.
pub fn calculate_merkle_root(transactions: &Vec<Transaction>) -> (root: String)
    ensures
        root@ == merkle_root(tx_hashes(views(transactions@))),
        transactions@.len() == 0 ==> root@.len() == 64,
{
    if transactions.len() == 0 {
        let root = sha256_hash("empty".as_bytes());
        return root;
    }
    let mut hashes = collect_hashes(transactions);
    proof {
        assert(texts(hashes@).len() == hashes@.len());
        assert(tx_hashes(views(transactions@)).len() == transactions@.len());
    }
    while hashes.len() > 1
        invariant
            hashes.len() >= 1,
            merkle_top(texts(hashes@)) == merkle_top(tx_hashes(views(transactions@))),
        decreases hashes.len(),
    {
        let ghost below = texts(hashes@);
        let level = merkle_level_up(&hashes);
        proof {
            assert(below.len() == hashes@.len());
            assert(texts(level@).len() == level@.len());
            assert(merkle_level(below).len() == (below.len() + 1) / 2);
        }
        hashes = level;
    }
    proof {
        assert(texts(hashes@).len() == 1);
        assert(texts(hashes@)[0] == hashes@[0]@);
    }
    hashes[0].clone()
}

/// The same content hashes in the same order give the same merkle root,
/// whatever else the transactions hold.
pub proof fn lemma_merkle_root_deterministic(a: Seq<TransactionView>, b: Seq<TransactionView>)
    requires
        tx_hashes(a) == tx_hashes(b),
    ensures
        merkle_root(tx_hashes(a)) == merkle_root(tx_hashes(b)),
{
}

/// The merkle root of no transactions is the hash of the word `empty`, a
/// digest in hexadecimal and so never the empty text.
pub proof fn lemma_merkle_root_of_nothing(transactions: Seq<TransactionView>)
    requires
        transactions.len() == 0,
    ensures
        merkle_root(tx_hashes(transactions)) == sha256_hex(encode_utf8("empty"@)),
        merkle_root(tx_hashes(transactions)).len() == 2 * crate::crypto::sha256(
            encode_utf8("empty"@),
        ).len(),
{
}

/// How a block's transactions enter its hash.
#[derive(Debug, Clone, Copy, PartialEq, Eq, Structural)]
pub enum HashMode {
    /// The JSON array of the content hashes alone.
    Current,
    /// The JSON of the full transaction records, as older blocks were hashed.
    Legacy,
}

/// The text of a stored merkle root, empty where none is stored.
pub open spec fn merkle_text(merkle_root: Option<Seq<char>>) -> Seq<char> {
    match merkle_root {
        Some(root) => root,
        None => Seq::empty(),
    }
}

/// The text in front of the nonce in what is hashed for a block: height,
/// timestamp, the transactions' data and the previous hash.
pub open spec fn hash_prefix(block: BlockView, transactions_data: Seq<char>) -> Seq<char> {
    decimal(block.index as int) + decimal(block.timestamp as int) + transactions_data
        + block.previous_hash
}

/// The hash of a block under a nonce: the hash of height, timestamp,
/// transactions' data, previous hash, nonce and merkle root, written one
/// after the other.
pub open spec fn hash_under(block: BlockView, transactions_data: Seq<char>, nonce: int) -> Seq<
    char,
> {
    sha256_hex(
        encode_utf8(
            hash_prefix(block, transactions_data) + decimal(nonce) + merkle_text(block.merkle_root),
        ),
    )
}

/// The transactions' data of the current mode: the JSON array of the content
/// hashes, and the empty text where it cannot be written.
pub open spec fn current_data(transactions: Seq<TransactionView>) -> Seq<char> {
    match json_string_array(tx_hashes(transactions)) {
        Some(json) => json,
        None => Seq::empty(),
    }
}

/// The hash of a block in the current mode.
pub open spec fn block_hash(block: BlockView) -> Seq<char> {
    hash_under(block, current_data(block.transactions), block.nonce as int)
}

/// The hash of a block in the legacy mode, given the JSON of its full
/// transaction records.
pub open spec fn legacy_block_hash(block: BlockView, transactions_json: Seq<char>) -> Seq<char> {
    hash_under(block, transactions_json, block.nonce as int)
}

/// The transactions' data of the current mode, written out.
pub fn current_transactions_data(transactions: &Vec<Transaction>) -> (data: String)
    ensures
        data@ == current_data(views(transactions@)),
{
    let hashes = collect_hashes(transactions);
    match json_of_texts(&hashes) {
        Ok(json) => json,
        Err(_) => String::new(),
    }
}

/// The text in front of the nonce in what is hashed for `block`.
fn hash_prefix_text(block: &Block, transactions_data: &str) -> (prefix: String)
    ensures
        prefix@ == hash_prefix(block@, transactions_data@),
{
    let mut prefix = String::new();
    push_decimal(&mut prefix, block.index);
    push_decimal(&mut prefix, block.timestamp);
    prefix.append(transactions_data);
    prefix.append(block.previous_hash.as_str());
    proof {
        assert(prefix@ =~= hash_prefix(block@, transactions_data@));
    }
    prefix
}

/// The text of a stored merkle root, empty where none is stored.
fn merkle_text_of(merkle_root: &Option<String>) -> (text: String)
    ensures
        text@ == merkle_text(text_view(*merkle_root)),
{
    match merkle_root {
        Some(root) => root.clone(),
        None => String::new(),
    }
}

/// The hash of what `prefix`, `nonce` and `suffix` spell one after the other.
fn hash_parts(prefix: &str, nonce: i64, suffix: &str) -> (hash: String)
    ensures
        hash@ == sha256_hex(encode_utf8(prefix@ + decimal(nonce as int) + suffix@)),
        hash@.len() == 64,
{
    let mut data = prefix.to_owned();
    push_decimal(&mut data, nonce);
    data.append(suffix);
    sha256_hash(data.as_str().as_bytes())
}

/// The hash of `block` with the given transactions' data.
fn hash_with_data(block: &Block, transactions_data: &str) -> (hash: String)
    ensures
        hash@ == hash_under(block@, transactions_data@, block.nonce as int),
        hash@.len() == 64,
{
    let prefix = hash_prefix_text(block, transactions_data);
    let suffix = merkle_text_of(&block.merkle_root);
    hash_parts(prefix.as_str(), block.nonce, suffix.as_str())
}

/// The hash of a block: over its height, timestamp, the content hashes of its
/// transactions, the previous hash, its nonce and its merkle root.
pub fn calculate_block_hash(block: &Block) -> (hash: String)
    ensures
        hash@ == block_hash(block@),
        hash@.len() == 64,
{
    let data = current_transactions_data(&block.transactions);
    hash_with_data(block, data.as_str())
}

/// The hash of a block as older blocks were hashed: over the JSON of the full
/// transaction records in place of the content hashes.
pub fn calculate_block_hash_legacy(block: &Block, transactions_json: &str) -> (hash: String)
    ensures
        hash@ == legacy_block_hash(block@, transactions_json@),
        hash@.len() == 64,
{
    hash_with_data(block, transactions_json)
}

/// The hash of a block in the given mode. The legacy mode needs the JSON of
/// the full transaction records; the current mode does not read it.
pub fn calculate_block_hash_in(block: &Block, mode: HashMode, transactions_json: &str) -> (hash:
    String)
    ensures
        hash@ == match mode {
            HashMode::Current => block_hash(block@),
            HashMode::Legacy => legacy_block_hash(block@, transactions_json@),
        },
{
    match mode {
        HashMode::Current => calculate_block_hash(block),
        HashMode::Legacy => calculate_block_hash_legacy(block, transactions_json),
    }
}

/// Whether a hash starts with `difficulty` zeros.
pub open spec fn meets_difficulty(hash: Seq<char>, difficulty: nat) -> bool {
    leads_with(hash, '0', difficulty)
}

/// Tests `meets_difficulty`.
pub fn hash_meets_difficulty(hash: &str, difficulty: usize) -> (meets: bool)
    ensures
        meets == meets_difficulty(hash@, difficulty as nat),
{
    starts_with_run(hash, '0', difficulty)
}

/// Whether `nonce` seals `block` at `difficulty`: the hash of the block under
/// that nonce, in the current mode, starts with that many zeros.
pub open spec fn seals(block: BlockView, nonce: int, difficulty: nat) -> bool {
    meets_difficulty(hash_under(block, current_data(block.transactions), nonce), difficulty)
}

/// The nonce of a worker's attempt number `k`, counted from zero.
pub open spec fn stride_nonce(start: int, step: int, k: int) -> int {
    start + k * step
}

/// Whether a worker's attempt number `k` is a nonce that seals the block.
pub open spec fn attempt_seals(block: BlockView, difficulty: nat, start: int, step: int, k: int)
    -> bool {
    seals(block, stride_nonce(start, step, k), difficulty)
}

/// One worker's search: tries `start`, `start + step`, `start + 2 * step`, ...
/// for at most `attempts` nonces and as far as nonces reach, and stops at the
/// first that seals the block.
pub fn search_nonces(block: &Block, difficulty: usize, start: i64, step: i64, attempts: u64) -> (found:
    Option<i64>)
    requires
        start >= 0,
        step >= 1,
    ensures
        match found {
            Some(nonce) => exists|k: int|
                {
                    &&& 0 <= k < attempts
                    &&& nonce == stride_nonce(start as int, step as int, k)
                    &&& #[trigger] attempt_seals(
                        block@,
                        difficulty as nat,
                        start as int,
                        step as int,
                        k,
                    )
                    &&& forall|j: int|
                        0 <= j < k ==> !#[trigger] attempt_seals(
                            block@,
                            difficulty as nat,
                            start as int,
                            step as int,
                            j,
                        )
                },
            None => forall|k: int|
                0 <= k < attempts && stride_nonce(start as int, step as int, k) <= i64::MAX
                    ==> !#[trigger] attempt_seals(
                    block@,
                    difficulty as nat,
                    start as int,
                    step as int,
                    k,
                ),
        },
{
    let data = current_transactions_data(&block.transactions);
    let prefix = hash_prefix_text(block, data.as_str());
    let suffix = merkle_text_of(&block.merkle_root);
    let mut nonce = start;
    let mut k: u64 = 0;
    while k < attempts
        invariant
            0 <= k <= attempts,
            step >= 1,
            start >= 0,
            nonce >= 0,
            nonce == stride_nonce(start as int, step as int, k as int),
            prefix@ == hash_prefix(block@, current_data(views(block.transactions@))),
            suffix@ == merkle_text(text_view(block.merkle_root)),
            forall|j: int|
                0 <= j < k ==> !#[trigger] attempt_seals(
                    block@,
                    difficulty as nat,
                    start as int,
                    step as int,
                    j,
                ),
        decreases attempts - k,
    {
        let hash = hash_parts(prefix.as_str(), nonce, suffix.as_str());
        if hash_meets_difficulty(hash.as_str(), difficulty) {
            proof {
                assert(attempt_seals(
                    block@,
                    difficulty as nat,
                    start as int,
                    step as int,
                    k as int,
                ));
            }
            return Some(nonce);
        }
        if nonce > i64::MAX - step {
            proof {
                assert forall|m: int|
                    0 <= m < attempts && stride_nonce(start as int, step as int, m)
                        <= i64::MAX implies !#[trigger] attempt_seals(
                    block@,
                    difficulty as nat,
                    start as int,
                    step as int,
                    m,
                ) by {
                    if m > k {
                        assert(m * step >= (k + 1) * step) by (nonlinear_arith)
                            requires
                                m >= k + 1,
                                step >= 1,
                        ;
                        assert((k + 1) * step == k * step + step) by (nonlinear_arith);
                    }
                }
            }
            return None;
        }
        proof {
            assert((k + 1) * step == k * step + step) by (nonlinear_arith);
        }
        nonce = nonce + step;
        k = k + 1;
    }
    None
}

/// Whether `nonce` is the least nonce that seals `candidate`.
pub open spec fn is_least_nonce(candidate: BlockView, difficulty: nat, nonce: int) -> bool {
    &&& 0 <= nonce <= i64::MAX
    &&& seals(candidate, nonce, difficulty)
    &&& forall|m: int| 0 <= m < nonce ==> !#[trigger] seals(candidate, m, difficulty)
}

/// Whether some nonce seals `candidate`.
pub open spec fn can_seal(candidate: BlockView, difficulty: nat) -> bool {
    exists|nonce: int| is_least_nonce(candidate, difficulty, nonce)
}

/// The least nonce that seals `candidate`, where one does.
pub open spec fn least_nonce(candidate: BlockView, difficulty: nat) -> int {
    choose|nonce: int| is_least_nonce(candidate, difficulty, nonce)
}

/// The least sealing nonce is one number.
pub proof fn lemma_least_nonce_unique(candidate: BlockView, difficulty: nat, nonce: int)
    requires
        is_least_nonce(candidate, difficulty, nonce),
    ensures
        can_seal(candidate, difficulty),
        least_nonce(candidate, difficulty) == nonce,
{
    let other = least_nonce(candidate, difficulty);
    assert(is_least_nonce(candidate, difficulty, other));
    if other < nonce {
        assert(!seals(candidate, other, difficulty));
    } else if nonce < other {
        assert(!seals(candidate, nonce, difficulty));
    }
}

/// The candidate once it is sealed: with the least nonce that seals it and
/// the hash that this nonce gives.
pub open spec fn sealed_block(candidate: BlockView, difficulty: nat) -> BlockView {
    let nonce = least_nonce(candidate, difficulty) as i64;
    let sealed = BlockView { nonce, ..candidate };
    BlockView { hash: block_hash(sealed), ..sealed }
}

/// Where a worker goes on after `attempts` attempts from `start` without a
/// find: at the nonce of its next attempt, or nowhere where that is beyond
/// the greatest nonce.
pub fn next_start(start: i64, step: i64, attempts: u64) -> (next: Option<i64>)
    requires
        start >= 0,
        step >= 1,
    ensures
        next == if stride_nonce(start as int, step as int, attempts as int) <= i64::MAX {
            Some(stride_nonce(start as int, step as int, attempts as int) as i64)
        } else {
            None
        },
{
    proof {
        assert(0 <= attempts * step <= 0xffff_ffff_ffff_ffff * 0x7fff_ffff_ffff_ffff)
            by (nonlinear_arith)
            requires
                0 <= attempts <= 0xffff_ffff_ffff_ffff,
                1 <= step <= 0x7fff_ffff_ffff_ffff,
        ;
    }
    let span: i128 = attempts as i128 * step as i128;
    let next: i128 = start as i128 + span;
    if next <= i64::MAX as i128 {
        Some(next as i64)
    } else {
        None
    }
}

/// A search that goes on where another ended goes on with the same stride:
/// its attempt `j` is attempt `attempts + j` of the search before it.
pub proof fn lemma_search_continues(start: int, step: int, attempts: int, j: int)
    ensures
        stride_nonce(stride_nonce(start, step, attempts), step, j) == stride_nonce(
            start,
            step,
            attempts + j,
        ),
{
    assert((attempts + j) * step == attempts * step + j * step) by (nonlinear_arith);
}

/// Proof of work: looks for the least nonce from zero up that seals `block`
/// at `difficulty`, and writes it and the hash it gives into the block. Where
/// no nonce seals the block, the block stays as it was.
pub fn proof_of_work(block: &mut Block, difficulty: usize) -> (found: Option<i64>)
    ensures
        found is Some <==> can_seal(old(block)@, difficulty as nat),
        found is Some ==> found->0 == least_nonce(old(block)@, difficulty as nat) && final(block)@
            == sealed_block(old(block)@, difficulty as nat),
        match found {
            Some(nonce) => {
                &&& nonce >= 0
                &&& seals(old(block)@, nonce as int, difficulty as nat)
                &&& forall|m: int| 0 <= m < nonce ==> !#[trigger] seals(old(block)@, m, difficulty as nat)
                &&& final(block).nonce == nonce
                &&& final(block).hash@ == block_hash(final(block)@)
                &&& final(block).hash@.len() == 64
                &&& meets_difficulty(final(block).hash@, difficulty as nat)
                &&& final(block)@ == (BlockView {
                    nonce,
                    hash: final(block).hash@,
                    ..old(block)@
                })
                &&& final(block).transactions == old(block).transactions
            },
            None => {
                &&& *final(block) == *old(block)
                &&& forall|m: int| 0 <= m <= i64::MAX ==> !#[trigger] seals(old(block)@, m, difficulty as nat)
            },
        },
{
    let found = search_nonces(block, difficulty, 0, 1, u64::MAX);
    match found {
        Some(nonce) => {
            proof {
                let k = choose|k: int|
                    {
                        &&& 0 <= k < u64::MAX
                        &&& nonce == stride_nonce(0, 1, k)
                        &&& #[trigger] attempt_seals(block@, difficulty as nat, 0, 1, k)
                        &&& forall|j: int|
                            0 <= j < k ==> !#[trigger] attempt_seals(
                                block@,
                                difficulty as nat,
                                0,
                                1,
                                j,
                            )
                    };
                assert forall|m: int| 0 <= m < nonce implies !#[trigger] seals(
                    block@,
                    m,
                    difficulty as nat,
                ) by {
                    assert(!attempt_seals(block@, difficulty as nat, 0, 1, m));
                }
                assert(is_least_nonce(block@, difficulty as nat, nonce as int));
                lemma_least_nonce_unique(block@, difficulty as nat, nonce as int);
            }
            let ghost candidate = block@;
            block.nonce = nonce;
            let hash = calculate_block_hash(block);
            block.hash = hash;
            proof {
                assert(block_hash(block@) == block_hash(BlockView { nonce, ..candidate }));
                assert(block@ == sealed_block(candidate, difficulty as nat));
            }
            Some(nonce)
        },
        None => {
            proof {
                assert forall|m: int| 0 <= m <= i64::MAX implies !#[trigger] seals(
                    block@,
                    m,
                    difficulty as nat,
                ) by {
                    assert(stride_nonce(0, 1, m) == m);
                    assert(!attempt_seals(block@, difficulty as nat, 0, 1, m));
                }
                if can_seal(block@, difficulty as nat) {
                    let n = choose|n: int| is_least_nonce(block@, difficulty as nat, n);
                    assert(seals(block@, n, difficulty as nat));
                }
            }
            None
        },
    }
}

/// `num_cpus::get`: the number of logical cores at hand, at least one.
#[verifier::external_body]
fn logical_cores() -> (cores: usize)
    ensures
        cores >= 1,
{
    num_cpus::get()
}

/// Where one worker of a parallel search starts and how far it steps.
#[derive(Debug, Clone, Copy, PartialEq, Eq, Structural)]
pub struct Stride {
    pub start: i64,
    pub step: i64,
}

/// The strides of `workers` workers that share the nonces: worker `i` starts
/// at `i` and steps by `workers`.
pub fn worker_strides(workers: usize) -> (strides: Vec<Stride>)
    requires
        1 <= workers <= i64::MAX,
    ensures
        strides@.len() == workers,
        forall|i: int|
            0 <= i < workers ==> strides@[i] == (Stride { start: i as i64, step: workers as i64 }),
{
    let mut strides: Vec<Stride> = Vec::new();
    let mut i: usize = 0;
    while i < workers
        invariant
            i <= workers <= i64::MAX,
            strides@.len() == i,
            forall|j: int|
                0 <= j < i ==> strides@[j] == (Stride { start: j as i64, step: workers as i64 }),
        decreases workers - i,
    {
        strides.push(Stride { start: i as i64, step: workers as i64 });
        i += 1;
    }
    strides
}

/// The strides of one worker for each logical core of this machine.
pub fn machine_strides() -> (strides: Vec<Stride>)
    ensures
        strides@.len() >= 1,
        forall|i: int|
            0 <= i < strides@.len() ==> strides@[i] == (Stride {
                start: i as i64,
                step: strides@.len() as i64,
            }),
{
    let cores = logical_cores();
    let workers = if cores > 0x7fff_ffff {
        0x7fff_ffff
    } else {
        cores
    };
    worker_strides(workers)
}

/// The workers' strides share the nonces between them: every nonce from zero
/// up is the attempt of exactly one worker.
pub proof fn lemma_strides_partition(workers: int, nonce: int)
    requires
        workers >= 1,
        nonce >= 0,
    ensures
        0 <= nonce % workers < workers,
        nonce == stride_nonce(nonce % workers, workers, nonce / workers),
        forall|i: int, k: int|
            0 <= i < workers && k >= 0 && nonce == #[trigger] stride_nonce(i, workers, k) ==> i
                == nonce % workers && k == nonce / workers,
{
    vstd::arithmetic::div_mod::lemma_fundamental_div_mod(nonce, workers);
    vstd::arithmetic::div_mod::lemma_mod_bound(nonce, workers);
    assert(workers * (nonce / workers) == (nonce / workers) * workers) by (nonlinear_arith);
    assert forall|i: int, k: int|
        0 <= i < workers && k >= 0 && nonce == #[trigger] stride_nonce(i, workers, k) implies i
        == nonce % workers && k == nonce / workers by {
        vstd::arithmetic::div_mod::lemma_fundamental_div_mod_converse(nonce, workers, k, i);
        assert(workers * k == k * workers) by (nonlinear_arith);
    }
}

/// Whether `block` follows `previous` in the chain: it names the hash of
/// `previous` and stands one higher.
pub open spec fn links_to(block: BlockView, previous: BlockView) -> bool {
    block.previous_hash == previous.hash && block.index == previous.index + 1
}

/// Whether the stored hash of `block` is its hash in one of the two modes,
/// the current one first. The legacy mode counts only where the JSON of the
/// full transaction records is given.
pub open spec fn hash_is_authentic(block: BlockView, legacy_transactions_json: Option<Seq<char>>)
    -> bool {
    block.hash == block_hash(block) || (legacy_transactions_json is Some && block.hash
        == legacy_block_hash(block, legacy_transactions_json->0))
}

/// The block that an optional reference points to.
pub open spec fn block_of(block: Option<&Block>) -> Option<BlockView> {
    match block {
        Some(b) => Some(b@),
        None => None,
    }
}

/// The characters of an optional text.
pub open spec fn text_of(text: Option<&str>) -> Option<Seq<char>> {
    match text {
        Some(t) => Some(t@),
        None => None,
    }
}

/// Whether the stored merkle root of `block`, where there is one, is the root
/// of its transactions.
pub open spec fn merkle_is_consistent(block: BlockView) -> bool {
    block.merkle_root is Some ==> block.merkle_root->0 == merkle_root(tx_hashes(block.transactions))
}

/// The rule of a valid block: an authentic hash, continuity with the block
/// before it where one is given, a consistent merkle root, and a hash that
/// meets the difficulty.
pub open spec fn valid_block(
    block: BlockView,
    previous_block: Option<BlockView>,
    legacy_transactions_json: Option<Seq<char>>,
    difficulty: nat,
) -> bool {
    &&& hash_is_authentic(block, legacy_transactions_json)
    &&& previous_block is Some ==> links_to(block, previous_block->0)
    &&& merkle_is_consistent(block)
    &&& meets_difficulty(block.hash, difficulty)
}

/// Validates one block against the block before it, if there is one. The
/// JSON of the block's full transaction records, where it is given, lets a
/// block pass that was hashed in the legacy mode.
pub fn validate_block(
    block: &Block,
    previous_block: Option<&Block>,
    legacy_transactions_json: Option<&str>,
    difficulty: usize,
) -> (valid: bool)
    ensures
        valid == valid_block(
            block@,
            block_of(previous_block),
            text_of(legacy_transactions_json),
            difficulty as nat,
        ),
{
    let calculated_hash_new = calculate_block_hash(block);
    let mut authentic = str_eq(calculated_hash_new.as_str(), block.hash.as_str());
    if !authentic {
        match legacy_transactions_json {
            Some(json) => {
                let calculated_hash_old = calculate_block_hash_legacy(block, json);
                authentic = str_eq(calculated_hash_old.as_str(), block.hash.as_str());
            },
            None => {},
        }
    }
    if !authentic {
        return false;
    }
    match previous_block {
        Some(prev) => {
            if !str_eq(block.previous_hash.as_str(), prev.hash.as_str()) {
                return false;
            }
            if prev.index == i64::MAX || block.index != prev.index + 1 {
                return false;
            }
        },
        None => {},
    }
    match &block.merkle_root {
        Some(merkle) => {
            let calculated_merkle = calculate_merkle_root(&block.transactions);
            if !str_eq(merkle.as_str(), calculated_merkle.as_str()) {
                return false;
            }
        },
        None => {},
    }
    hash_meets_difficulty(block.hash.as_str(), difficulty)
}

/// The block before position `i` of a chain, if there is one.
pub open spec fn predecessor(chain: Seq<BlockView>, i: int) -> Option<BlockView> {
    if i > 0 {
        Some(chain[i - 1])
    } else {
        None
    }
}

/// The legacy JSON for position `i` of a chain, if it is given.
pub open spec fn legacy_json_at(legacy: Seq<String>, i: int) -> Option<Seq<char>> {
    if 0 <= i < legacy.len() {
        Some(legacy[i]@)
    } else {
        None
    }
}

/// Whether the block at position `i` of a chain is valid after the block
/// before it; the first block has none before it.
pub open spec fn valid_at(chain: Seq<BlockView>, legacy: Seq<String>, difficulty: nat, i: int)
    -> bool {
    valid_block(chain[i], predecessor(chain, i), legacy_json_at(legacy, i), difficulty)
}

/// The rule of a valid chain: every block is valid after the one before it.
pub open spec fn valid_chain(chain: Seq<BlockView>, legacy: Seq<String>, difficulty: nat) -> bool {
    forall|i: int| 0 <= i < chain.len() ==> #[trigger] valid_at(chain, legacy, difficulty, i)
}

/// Validates a whole chain, given in ascending height: each block against the
/// one before it, and the first on its own. `legacy_transactions_json[i]`,
/// where it is given, is the JSON of the full transaction records of block
/// `i`. Stops at the first block that fails.
pub fn validate_blockchain(
    chain: &Vec<Block>,
    legacy_transactions_json: &Vec<String>,
    difficulty: usize,
) -> (valid: bool)
    ensures
        valid == valid_chain(views(chain@), legacy_transactions_json@, difficulty as nat),
{
    let mut i: usize = 0;
    while i < chain.len()
        invariant
            i <= chain.len(),
            forall|j: int|
                0 <= j < i ==> #[trigger] valid_at(
                    views(chain@),
                    legacy_transactions_json@,
                    difficulty as nat,
                    j,
                ),
        decreases chain.len() - i,
    {
        let previous = if i > 0 {
            Some(&chain[i - 1])
        } else {
            None
        };
        let legacy = if i < legacy_transactions_json.len() {
            Some(legacy_transactions_json[i].as_str())
        } else {
            None
        };
        if !validate_block(&chain[i], previous, legacy, difficulty) {
            proof {
                assert(!valid_at(views(chain@), legacy_transactions_json@, difficulty as nat, i as int));
            }
            return false;
        }
        i += 1;
    }
    true
}

/// A block that proof of work has sealed is valid at the same difficulty,
/// once it links to the block before it and its merkle root is the root of
/// its transactions: its hash is its hash in the current mode and meets the
/// difficulty.
pub proof fn lemma_sealed_block_is_valid(
    block: BlockView,
    previous_block: Option<BlockView>,
    legacy_transactions_json: Option<Seq<char>>,
    difficulty: nat,
)
    requires
        block.hash == block_hash(block),
        meets_difficulty(block.hash, difficulty),
        merkle_is_consistent(block),
        previous_block is Some ==> links_to(block, previous_block->0),
    ensures
        valid_block(block, previous_block, legacy_transactions_json, difficulty),
{
}

/// A block whose nonce, previous hash or transactions were altered after it
/// was sealed is not valid, unless its stored hash is still its hash in one
/// of the two modes: validity needs an authentic hash.
pub proof fn lemma_altered_block_is_invalid(
    block: BlockView,
    previous_block: Option<BlockView>,
    legacy_transactions_json: Option<Seq<char>>,
    difficulty: nat,
)
    requires
        block.hash != block_hash(block),
        legacy_transactions_json is Some ==> block.hash != legacy_block_hash(
            block,
            legacy_transactions_json->0,
        ),
    ensures
        !valid_block(block, previous_block, legacy_transactions_json, difficulty),
{
}

/// A block whose previous hash was altered is not valid after the block it
/// stood behind: it no longer names that block's hash.
pub proof fn lemma_relinked_block_is_invalid(
    block: BlockView,
    previous_block: BlockView,
    legacy_transactions_json: Option<Seq<char>>,
    difficulty: nat,
)
    requires
        block.previous_hash != previous_block.hash,
    ensures
        !valid_block(block, Some(previous_block), legacy_transactions_json, difficulty),
{
}

/// Whether `seconds` can be the time of a clock in seconds since the Unix
/// epoch: it is not before the epoch, and the number of its day fits in 32
/// bits.
pub open spec fn is_clock_time(seconds: i64) -> bool {
    0 <= seconds && seconds / 86_400 <= i32::MAX
}

/// `chrono::Utc::now` and `DateTime::timestamp`: the time of the call in
/// seconds since the Unix epoch. It is not before the epoch, and it lies in
/// a day that a date can hold. Which time it is, is not known.
#[verifier::external_body]
fn current_timestamp() -> (now: i64)
    ensures
        is_clock_time(now),
{
    chrono::Utc::now().timestamp()
}

/// The time of the call in seconds since the Unix epoch: a time that a clock
/// can show.
pub fn now() -> (seconds: i64)
    ensures
        is_clock_time(seconds),
{
    current_timestamp()
}

/// What a genesis candidate holds before it is sealed: height 0, no
/// transactions, the previous hash `0`, the merkle root of nothing.
pub open spec fn genesis_candidate(timestamp: i64) -> BlockView {
    BlockView {
        index: 0,
        timestamp,
        transactions: Seq::empty(),
        previous_hash: "0"@,
        hash: Seq::empty(),
        nonce: 0,
        merkle_root: Some(merkle_root(Seq::empty())),
    }
}

/// The genesis block made at `timestamp`: the genesis candidate, sealed by
/// proof of work at `difficulty` with the least nonce that does. Nothing
/// where no nonce seals it.
pub fn create_genesis_block_at(timestamp: i64, difficulty: usize) -> (genesis: Option<Block>)
    ensures
        match genesis {
            Some(block) => {
                &&& can_seal(genesis_candidate(timestamp), difficulty as nat)
                &&& block@ == sealed_block(genesis_candidate(timestamp), difficulty as nat)
                &&& block.hash@.len() == 64
                &&& valid_block(block@, None, None, difficulty as nat)
            },
            None => !can_seal(genesis_candidate(timestamp), difficulty as nat),
        },
{
    let transactions: Vec<Transaction> = Vec::new();
    let root = calculate_merkle_root(&transactions);
    let mut block = Block {
        index: 0,
        timestamp,
        transactions,
        previous_hash: "0".to_owned(),
        hash: String::new(),
        nonce: 0,
        merkle_root: Some(root),
    };
    proof {
        assert(views(block.transactions@) =~= Seq::empty());
        assert(tx_hashes(Seq::<TransactionView>::empty()) =~= Seq::empty());
        assert(block@ == genesis_candidate(timestamp));
    }
    match proof_of_work(&mut block, difficulty) {
        Some(_) => Some(block),
        None => None,
    }
}

/// Whether `genesis` is what making the genesis block at the time `at`
/// gives: the genesis candidate of that time, sealed with the least nonce
/// that seals it at `difficulty`, and nothing where no nonce does.
pub open spec fn genesis_made(at: i64, difficulty: nat, genesis: Option<Block>) -> bool {
    match genesis {
        Some(block) => {
            &&& can_seal(genesis_candidate(at), difficulty)
            &&& block@ == sealed_block(genesis_candidate(at), difficulty)
            &&& block.hash@.len() == 64
            &&& valid_block(block@, None, None, difficulty)
        },
        None => !can_seal(genesis_candidate(at), difficulty),
    }
}

/// The genesis block made now at the configured difficulty: what
/// `create_genesis_block_at` gives at the time of the call.
pub fn create_genesis_block(config: &Config) -> (genesis: Option<Block>)
    ensures
        exists|at: i64|
            is_clock_time(at) && #[trigger] genesis_made(
                at,
                config.mining_difficulty as nat,
                genesis,
            ),
{
    let timestamp = current_timestamp();
    let genesis = create_genesis_block_at(timestamp, config.mining_difficulty);
    proof {
        assert(genesis_made(timestamp, config.mining_difficulty as nat, genesis));
    }
    genesis
}

} // verus!
