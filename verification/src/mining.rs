//! The assembly of a block: the settlement of the pending pool, the block over
//! the transactions that were settled, its seal, the reward of its miner
//! under the cap on issuance, and the cached balances afterwards.

use crate::blockchain::{
    block_hash, calculate_block_hash, calculate_block_reward, calculate_merkle_root, can_seal,
    clamped, clamped_reward, create_genesis_block_at, genesis_candidate, hash_meets_difficulty,
    is_clock_time, is_least_nonce, least_nonce, meets_difficulty, merkle_root, now, proof_of_work, reward,
    sealed_block, seals, tx_hashes, valid_block,
};
use crate::config::Config;
use crate::crypto::{sha256_hash, sha256_hex};
use crate::database::queries::{
    confirmed, create_block, create_transaction, delete_pending_transaction,
    get_latest_block, get_pending_transactions, is_latest_block, new_output, create_output,
    update_wallet_balance,
    without_pending,
};
use crate::database::{next_id_after, Ledger, LedgerView};
use crate::ledger::{
    cached_right, calculate_wallet_balance, can_settle, get_total_mined_coins,
    lemma_refreshed_caches, refreshed, release_reserved_utxos_internal, settled,
    update_utxos_for_transaction,
};
use crate::models::{
    clone_text, lemma_views_push, views, Block, BlockView, MiningStats, PendingTransaction, PendingView,
    Transaction, TransactionView,
};
use crate::text::{decimal, push_decimal};
use crate::value::{
    dust_of, in_dust, lemma_value_of, units_of, value_of, Value, DUST_PER_UNIT,
};
use vstd::prelude::*;
use vstd::string::*;
use vstd::utf8::encode_utf8;

verus! {

/// Why no block was mined.
#[derive(Debug, Clone, Copy, PartialEq, Eq, Structural)]
pub enum MiningError {
    /// The chain has no block to build on.
    NoBlocks,
    /// The height after the latest block is no height: it is negative or
    /// beyond the greatest number.
    InvalidHeight,
    /// No nonce seals the block at the difficulty.
    NoNonce,
    /// Reward and fees together are more than one output can hold.
    RewardOutOfRange,
}

impl MiningError {
    /// The error in words.
    pub fn to_string(&self) -> (text: String)
        ensures
            text@ == match *self {
                MiningError::NoBlocks => "No blocks found"@,
                MiningError::InvalidHeight => "Invalid block height"@,
                MiningError::NoNonce => "No nonce found"@,
                MiningError::RewardOutOfRange => "Reward out of range"@,
            },
    {
        match self {
            MiningError::NoBlocks => "No blocks found".to_owned(),
            MiningError::InvalidHeight => "Invalid block height".to_owned(),
            MiningError::NoNonce => "No nonce found".to_owned(),
            MiningError::RewardOutOfRange => "Reward out of range".to_owned(),
        }
    }
}

/// The latest block of a chain that has blocks: the first of the blocks of
/// the greatest height.
pub open spec fn latest_block(blocks: Seq<BlockView>) -> BlockView {
    blocks[choose|i: int| is_latest_block(blocks, i)]
}

/// Only one place holds the latest block.
pub proof fn lemma_latest_block_unique(blocks: Seq<BlockView>, i: int)
    requires
        is_latest_block(blocks, i),
    ensures
        latest_block(blocks) == blocks[i],
{
    let j = choose|j: int| is_latest_block(blocks, j);
    if j < i {
        assert(blocks[j].index < blocks[i].index);
        assert(blocks[i].index <= blocks[j].index);
    } else if i < j {
        assert(blocks[i].index < blocks[j].index);
        assert(blocks[j].index <= blocks[i].index);
    }
}

/// The transaction that a pending one becomes in a candidate block.
pub open spec fn candidate_transaction(tx: PendingView, block_index: i64) -> TransactionView {
    TransactionView {
        id: tx.id,
        transaction_hash: tx.transaction_hash,
        sender_wallet_id: tx.sender_wallet_id,
        receiver_wallet_id: tx.receiver_wallet_id,
        amount: tx.amount,
        note: tx.note,
        signature: tx.signature,
        block_index: Some(block_index),
        transaction_type: "transfer"@,
        timestamp: tx.timestamp,
        created_at: tx.created_at,
    }
}

/// The transactions of the candidate block over a pending pool.
pub open spec fn candidate_transactions(pending: Seq<PendingView>, block_index: i64) -> Seq<
    TransactionView,
> {
    Seq::new(pending.len(), |i: int| candidate_transaction(pending[i], block_index))
}

/// The candidate block over a pending pool, after `latest`, before it is
/// sealed.
pub open spec fn candidate_block(latest: BlockView, pending: Seq<PendingView>, now: i64)
    -> BlockView {
    let index = (latest.index + 1) as i64;
    BlockView {
        index,
        timestamp: now,
        transactions: candidate_transactions(pending, index),
        previous_hash: latest.hash,
        hash: Seq::empty(),
        nonce: 0,
        merkle_root: Some(merkle_root(tx_hashes(candidate_transactions(pending, index)))),
    }
}

/// Builds the candidate block over the pending pool.
pub fn build_candidate(latest: &Block, pending: &Vec<PendingTransaction>, now: i64) -> (block: Block)
    requires
        latest.index < i64::MAX,
    ensures
        block@ == candidate_block(latest@, views(pending@), now),
{
    let index = latest.index + 1;
    let mut transactions: Vec<Transaction> = Vec::new();
    let mut i: usize = 0;
    while i < pending.len()
        invariant
            i <= pending.len(),
            transactions.len() == i,
            forall|j: int|
                0 <= j < i ==> (#[trigger] transactions@[j])@ == candidate_transaction(
                    pending@[j]@,
                    index,
                ),
        decreases pending.len() - i,
    {
        let pt = &pending[i];
        transactions.push(
            Transaction {
                id: pt.id,
                transaction_hash: pt.transaction_hash.clone(),
                sender_wallet_id: pt.sender_wallet_id.clone(),
                receiver_wallet_id: pt.receiver_wallet_id.clone(),
                amount: pt.amount,
                note: clone_text(&pt.note),
                signature: pt.signature.clone(),
                block_index: Some(index),
                transaction_type: "transfer".to_owned(),
                timestamp: pt.timestamp,
                created_at: pt.created_at,
            },
        );
        i += 1;
    }
    proof {
        assert(views(transactions@) =~= candidate_transactions(views(pending@), index));
    }
    let root = calculate_merkle_root(&transactions);
    Block {
        index,
        timestamp: now,
        transactions,
        previous_hash: latest.hash.clone(),
        hash: String::new(),
        nonce: 0,
        merkle_root: Some(root),
    }
}

/// The store after a pending transaction was recorded as confirmed in the
/// block at `block_index`.
pub open spec fn promoted(ledger: LedgerView, tx: PendingView, block_index: i64, now: i64)
    -> LedgerView {
    LedgerView {
        transactions: ledger.transactions.push(
            confirmed(ledger.next_id, tx, block_index, "transfer"@, now),
        ),
        next_id: next_id_after(ledger.next_id),
        ..ledger
    }
}

/// One step of a block's settlement. Where the sender's outputs cover the
/// transaction, it is settled, recorded as confirmed in the block, and leaves
/// the pool, and its fee is collected. Where they do not, only the sender's
/// cached balance is recomputed: the transaction stays in the pool for the
/// next block, in no block, and nothing is collected. Gives the store, the
/// fee, and whether the transaction was settled.
pub open spec fn settle_step(ledger: LedgerView, tx: PendingView, block_index: i64, now: i64) -> (
    LedgerView,
    int,
    bool,
) {
    if can_settle(ledger.utxos, tx) {
        let recorded = promoted(settled(ledger, tx, now), tx, block_index, now);
        (
            LedgerView {
                pending_transactions: without_pending(recorded.pending_transactions, tx.id),
                ..recorded
            },
            tx.fee as int,
            true,
        )
    } else {
        (refreshed(ledger, tx.sender_wallet_id, now), 0, false)
    }
}

/// What a block's settlement gives: the store, the fees collected, and the
/// transactions that were settled, in the order of the pool.
pub struct Settlement {
    pub ledger: LedgerView,
    pub fees: int,
    pub settled: Seq<PendingView>,
}

/// A block's settlement: one step for each transaction of the pool as it was
/// when the block was assembled, the oldest first. A step that fails does
/// not stop the others.
pub open spec fn settle_all(ledger: LedgerView, pending: Seq<PendingView>, block_index: i64, now: i64)
    -> Settlement
    decreases pending.len(),
{
    if pending.len() == 0 {
        Settlement { ledger, fees: 0, settled: Seq::empty() }
    } else {
        let before = settle_all(ledger, pending.drop_last(), block_index, now);
        let (after, fee, done) = settle_step(before.ledger, pending.last(), block_index, now);
        Settlement {
            ledger: after,
            fees: before.fees + fee,
            settled: if done {
                before.settled.push(pending.last())
            } else {
                before.settled
            },
        }
    }
}

/// Whether no transaction of a list holds a negative amount or fee.
pub open spec fn all_payable(pending: Seq<PendingView>) -> bool {
    forall|i: int|
        0 <= i < pending.len() ==> (#[trigger] pending[i]).amount >= 0 && pending[i].fee >= 0
}

/// What is left of a pool after a deletion was in the pool before.
pub proof fn lemma_without_pending_payable(pending: Seq<PendingView>, id: u128)
    requires
        all_payable(pending),
    ensures
        all_payable(without_pending(pending, id)),
    decreases pending.len(),
{
    if pending.len() > 0 {
        assert forall|i: int| 0 <= i < pending.drop_last().len() implies (
        #[trigger] pending.drop_last()[i]).amount >= 0 && pending.drop_last()[i].fee >= 0 by {
            assert(pending.drop_last()[i] == pending[i]);
        }
        lemma_without_pending_payable(pending.drop_last(), id);
        assert(pending.last() == pending[pending.len() - 1]);
    }
}

/// Settles the transactions of `pending` one by one, as `settle_all` says,
/// and returns the fees collected and the transactions that were settled.
pub fn settle_pending(
    ledger: &mut Ledger,
    pending: &Vec<PendingTransaction>,
    block_index: i64,
    now: i64,
) -> (outcome: (i128, Vec<PendingTransaction>))
    requires
        old(ledger).wf(),
        all_payable(views(pending@)),
    ensures
        final(ledger).wf(),
        final(ledger)@ == settle_all(old(ledger)@, views(pending@), block_index, now).ledger,
        outcome.0 == settle_all(old(ledger)@, views(pending@), block_index, now).fees,
        views(outcome.1@) == settle_all(
            old(ledger)@,
            views(pending@),
            block_index,
            now,
        ).settled,
        0 <= outcome.0 <= pending@.len() * 0x7fff_ffff_ffff_ffff,
        final(ledger).total_issued == old(ledger).total_issued,
        final(ledger)@.blocks == old(ledger)@.blocks,
{
    let mut total_fees: i128 = 0;
    let mut settled: Vec<PendingTransaction> = Vec::new();
    let mut i: usize = 0;
    proof {
        assert(views(pending@).subrange(0, 0) =~= Seq::empty());
        assert(views(settled@) =~= Seq::empty());
    }
    while i < pending.len()
        invariant
            i <= pending.len(),
            ledger.wf(),
            all_payable(views(pending@)),
            ledger@ == settle_all(
                old(ledger)@,
                views(pending@).subrange(0, i as int),
                block_index,
                now,
            ).ledger,
            total_fees == settle_all(
                old(ledger)@,
                views(pending@).subrange(0, i as int),
                block_index,
                now,
            ).fees,
            views(settled@) == settle_all(
                old(ledger)@,
                views(pending@).subrange(0, i as int),
                block_index,
                now,
            ).settled,
            0 <= total_fees <= i * 0x7fff_ffff_ffff_ffff,
            ledger.total_issued == old(ledger).total_issued,
            ledger@.blocks == old(ledger)@.blocks,
        decreases pending.len() - i,
    {
        let pending_tx = &pending[i];
        proof {
            let next = views(pending@).subrange(0, i + 1);
            assert(next.drop_last() =~= views(pending@).subrange(0, i as int));
            assert(next.last() == pending_tx@);
            assert(views(pending@)[i as int] == pending_tx@);
        }
        match update_utxos_for_transaction(ledger, pending_tx, now) {
            Ok(fee) => {
                total_fees = total_fees + fee as i128;
                create_transaction(ledger, pending_tx, block_index, "transfer", now);
                proof {
                    lemma_without_pending_payable(ledger@.pending_transactions, pending_tx.id);
                    lemma_views_push(settled@, *pending_tx);
                }
                delete_pending_transaction(ledger, pending_tx.id);
                settled.push(pending_tx.clone());
            },
            Err(_) => {
                release_reserved_utxos_internal(
                    ledger,
                    pending_tx.sender_wallet_id.as_str(),
                    now,
                );
            },
        }
        i += 1;
    }
    proof {
        assert(views(pending@).subrange(0, i as int) =~= views(pending@));
    }
    (total_fees, settled)
}

/// The name of the transaction that pays the reward of the block at
/// `block_index` to `miner`: the hash of `coinbase_`, the height, `_` and
/// the miner's wallet.
pub open spec fn coinbase_hash(block_index: i64, miner: Seq<char>) -> Seq<char> {
    sha256_hex(encode_utf8("coinbase_"@ + decimal(block_index as int) + "_"@ + miner))
}

/// The reward of the block at `block_index` after the cap on issuance, in
/// dust: the reward at that height, clamped by the rewards that the store
/// has issued so far.
pub open spec fn block_reward_due(ledger: LedgerView, block_index: i64, config: Config) -> int {
    clamped(
        reward(block_index as int, config.block_reward as int, config.halving_interval as int),
        ledger.total_issued.dust_total(),
        in_dust(config.max_coin_supply as int, 0),
    )
}

/// What the miner of the block at `block_index` is due, in dust: the clamped
/// reward and the fees collected, which the cap does not touch. The fees
/// are whole base units.
pub open spec fn reward_due(ledger: LedgerView, block_index: i64, config: Config, fees: int) -> int {
    block_reward_due(ledger, block_index, config) + in_dust(fees, 0)
}

/// Whether what the miner is due is more than one output can hold.
pub open spec fn reward_too_large(ledger: LedgerView, block_index: i64, config: Config, fees: int)
    -> bool {
    units_of(reward_due(ledger, block_index, config, fees)) > i64::MAX
}

/// The store after the miner of the block at `block_index` was paid: one new
/// output of the clamped reward and the fees, where that is more than
/// nothing; the rewards issued raised by the clamped reward; and the miner's
/// cached balance recomputed.
pub open spec fn rewarded(
    ledger: LedgerView,
    miner: Seq<char>,
    block_index: i64,
    config: Config,
    fees: int,
    now: i64,
) -> LedgerView {
    let due = reward_due(ledger, block_index, config, fees);
    let paid = if due > 0 {
        LedgerView {
            utxos: ledger.utxos.push(
                new_output(
                    ledger.next_id,
                    miner,
                    units_of(due) as i64,
                    dust_of(due) as u64,
                    coinbase_hash(block_index, miner),
                    0,
                    now,
                ),
            ),
            next_id: next_id_after(ledger.next_id),
            ..ledger
        }
    } else {
        ledger
    };
    refreshed(
        LedgerView {
            total_issued: value_of(
                ledger.total_issued.dust_total() + block_reward_due(ledger, block_index, config),
            ),
            ..paid
        },
        miner,
        now,
    )
}

/// Pays the miner of the block at `block_index`, as `rewarded` says. Where
/// reward and fees together are more than an output can hold, nothing is
/// paid and nothing changes. Issuance that was within the cap stays within
/// it.
pub fn pay_reward(
    ledger: &mut Ledger,
    miner_wallet_id: &str,
    block_index: i64,
    total_fees: i128,
    config: &Config,
    now: i64,
) -> (paid: Result<Value, MiningError>)
    requires
        old(ledger).wf(),
        config.wf(),
        block_index >= 0,
        0 <= total_fees <= 0x7fff_ffff_ffff_fffe_8000_0000_0000_0001,
    ensures
        final(ledger).wf(),
        match paid {
            Ok(total_reward) => {
                &&& !reward_too_large(old(ledger)@, block_index, *config, total_fees as int)
                &&& total_reward.wf()
                &&& total_reward.dust_total() == reward_due(
                    old(ledger)@,
                    block_index,
                    *config,
                    total_fees as int,
                )
                &&& final(ledger)@ == rewarded(
                    old(ledger)@,
                    miner_wallet_id@,
                    block_index,
                    *config,
                    total_fees as int,
                    now,
                )
                &&& final(ledger).total_issued.dust_total() == old(
                    ledger,
                ).total_issued.dust_total() + block_reward_due(old(ledger)@, block_index, *config)
                &&& cached_right(final(ledger)@, miner_wallet_id@)
                &&& forall|other: Seq<char>|
                    cached_right(old(ledger)@, other) && other != miner_wallet_id@
                        ==> #[trigger] cached_right(final(ledger)@, other)
            },
            Err(e) => {
                &&& e == MiningError::RewardOutOfRange
                &&& reward_too_large(old(ledger)@, block_index, *config, total_fees as int)
                &&& final(ledger)@ == old(ledger)@
            },
        },
        old(ledger).total_issued.dust_total() <= in_dust(config.max_coin_supply as int, 0)
            ==> final(ledger).total_issued.dust_total() <= in_dust(
            config.max_coin_supply as int,
            0,
        ),
        final(ledger).total_issued.dust_total() >= old(ledger).total_issued.dust_total(),
{
    let total_mined = get_total_mined_coins(ledger);
    let actual_reward = clamped_reward(block_index, total_mined, config);
    let total_reward = actual_reward.plus(total_fees, 0);
    proof {
        lemma_value_of(total_reward);
        lemma_value_of(ledger.total_issued);
    }
    if total_reward.units > i64::MAX as i128 {
        return Err(MiningError::RewardOutOfRange);
    }
    if total_reward.is_positive() {
        let mut name = "coinbase_".to_owned();
        push_decimal(&mut name, block_index);
        name.append("_");
        name.append(miner_wallet_id);
        let hash = sha256_hash(name.as_str().as_bytes());
        proof {
            assert(name@ =~= "coinbase_"@ + decimal(block_index as int) + "_"@ + miner_wallet_id@);
        }
        create_output(
            ledger,
            miner_wallet_id,
            total_reward.units as i64,
            total_reward.dust,
            hash.as_str(),
            0,
            now,
        );
        proof {
            assert forall|i: int| 0 <= i < ledger@.utxos.len() implies (
            #[trigger] ledger@.utxos[i]).wf() by {
                if i < old(ledger)@.utxos.len() {
                    assert(old(ledger)@.utxos[i].wf());
                }
            }
        }
    }
    if actual_reward.is_positive() {
        let issued = ledger.total_issued.plus(actual_reward.units, actual_reward.dust);
        proof {
            lemma_value_of(issued);
        }
        ledger.total_issued = issued;
    }
    let ghost before = ledger@;
    let miner_balance = calculate_wallet_balance(ledger, miner_wallet_id);
    update_wallet_balance(ledger, miner_wallet_id, miner_balance, now);
    proof {
        lemma_refreshed_caches(before, miner_wallet_id@, now, miner_wallet_id@);
        assert forall|other: Seq<char>|
            cached_right(old(ledger)@, other) && other != miner_wallet_id@ implies #[trigger] cached_right(
                ledger@,
                other,
            ) by {
            if total_reward.dust_total() > 0 {
                assert(before.utxos.drop_last() =~= old(ledger)@.utxos);
            }
            lemma_new_output_keeps_caches(
                old(ledger)@,
                before,
                miner_wallet_id@,
                other,
            );
            lemma_refreshed_caches(before, miner_wallet_id@, now, other);
        }
    }
    Ok(total_reward)
}

/// A store that differs from another in outputs of one wallet alone keeps
/// right what was right of every other wallet.
pub proof fn lemma_new_output_keeps_caches(
    before: LedgerView,
    after: LedgerView,
    owner: Seq<char>,
    other: Seq<char>,
)
    requires
        other != owner,
        after.wallets == before.wallets,
        after.pending_transactions == before.pending_transactions,
        after.utxos == before.utxos || (after.utxos.len() == before.utxos.len() + 1
            && after.utxos.drop_last() == before.utxos && after.utxos.last().wallet_id == owner),
        cached_right(before, other),
    ensures
        cached_right(after, other),
{
    assert(after.balance_of(other) == before.balance_of(other));
    assert forall|i: int|
        0 <= i < after.wallets.len() && (#[trigger] after.wallets[i]).wallet_id == other implies {
        &&& after.wallets[i].balance.wf()
        &&& after.wallets[i].balance.dust_total() == after.balance_of(other)
    } by {
        assert(before.wallets[i].wallet_id == other);
    }
}

/// The store after the cached balances of the sender and the receiver of
/// every transaction of `pool` were recomputed, in the order of the pool.
pub open spec fn refreshed_parties(ledger: LedgerView, pool: Seq<PendingView>, now: i64)
    -> LedgerView
    decreases pool.len(),
{
    if pool.len() == 0 {
        ledger
    } else {
        refreshed(
            refreshed(
                refreshed_parties(ledger, pool.drop_last(), now),
                pool.last().sender_wallet_id,
                now,
            ),
            pool.last().receiver_wallet_id,
            now,
        )
    }
}

/// Whether the cached balances of the sender and the receiver of each of
/// the first `n` transactions of `pool` are their balances.
pub open spec fn parties_right(ledger: LedgerView, pool: Seq<PendingView>, n: int) -> bool {
    forall|k: int|
        0 <= k < n ==> cached_right(ledger, (#[trigger] pool[k]).sender_wallet_id) && cached_right(
            ledger,
            pool[k].receiver_wallet_id,
        )
}

/// Recomputes the cached balances of the sender and the receiver of every
/// transaction of `pool`, as `refreshed_parties` says. Afterwards each of
/// them is the wallet's balance, and what was right of another wallet stays
/// right.
pub fn refresh_parties(ledger: &mut Ledger, pool: &Vec<PendingTransaction>, now: i64)
    requires
        old(ledger).wf(),
    ensures
        final(ledger).wf(),
        final(ledger)@ == refreshed_parties(old(ledger)@, views(pool@), now),
        parties_right(final(ledger)@, views(pool@), pool@.len() as int),
        forall|other: Seq<char>|
            cached_right(old(ledger)@, other) ==> #[trigger] cached_right(final(ledger)@, other),
        final(ledger).total_issued == old(ledger).total_issued,
        final(ledger)@.blocks == old(ledger)@.blocks,
        final(ledger)@.utxos == old(ledger)@.utxos,
        final(ledger)@.pending_transactions == old(ledger)@.pending_transactions,
{
    let mut i: usize = 0;
    proof {
        assert(views(pool@).subrange(0, 0) =~= Seq::empty());
    }
    while i < pool.len()
        invariant
            i <= pool.len(),
            ledger.wf(),
            ledger@ == refreshed_parties(old(ledger)@, views(pool@).subrange(0, i as int), now),
            parties_right(ledger@, views(pool@), i as int),
            forall|other: Seq<char>|
                cached_right(old(ledger)@, other) ==> #[trigger] cached_right(ledger@, other),
            ledger.total_issued == old(ledger).total_issued,
            ledger@.blocks == old(ledger)@.blocks,
            ledger@.utxos == old(ledger)@.utxos,
            ledger@.pending_transactions == old(ledger)@.pending_transactions,
        decreases pool.len() - i,
    {
        let tx = &pool[i];
        let ghost before = ledger@;
        proof {
            let next = views(pool@).subrange(0, i + 1);
            assert(next.drop_last() =~= views(pool@).subrange(0, i as int));
            assert(next.last() == tx@);
            assert(views(pool@)[i as int] == tx@);
        }
        release_reserved_utxos_internal(ledger, tx.sender_wallet_id.as_str(), now);
        release_reserved_utxos_internal(ledger, tx.receiver_wallet_id.as_str(), now);
        proof {
            assert forall|k: int| 0 <= k < i + 1 implies cached_right(
                ledger@,
                (#[trigger] views(pool@)[k]).sender_wallet_id,
            ) && cached_right(ledger@, views(pool@)[k].receiver_wallet_id) by {
                if k < i {
                    assert(cached_right(before, views(pool@)[k].sender_wallet_id));
                    assert(cached_right(before, views(pool@)[k].receiver_wallet_id));
                }
            }
        }
        i += 1;
    }
    proof {
        assert(views(pool@).subrange(0, i as int) =~= views(pool@));
    }
}

/// Whether a block can follow a block of the height `latest_index`.
pub open spec fn height_follows(latest_index: i64) -> bool {
    -1 <= latest_index < i64::MAX
}

/// The store after a sealed block was stored, its miner paid the clamped
/// reward and the fees that its settlement collected, and the cached
/// balances of all parties of the pool recomputed; and whether the miner was
/// paid. Where the payment is more than an output can hold, nothing is
/// stored and nothing changes.
pub open spec fn committed(
    ledger: LedgerView,
    miner: Seq<char>,
    config: Config,
    block: BlockView,
    fees: int,
    pool: Seq<PendingView>,
    now: i64,
) -> (LedgerView, Result<(), MiningError>) {
    if reward_too_large(ledger, block.index, config, fees) {
        (ledger, Err(MiningError::RewardOutOfRange))
    } else {
        (
            refreshed_parties(
                rewarded(
                    LedgerView { blocks: ledger.blocks.push(block), ..ledger },
                    miner,
                    block.index,
                    config,
                    fees,
                    now,
                ),
                pool,
                now,
            ),
            Ok(()),
        )
    }
}

/// What mining a block at the time `now` gives: the store afterwards and the
/// block, or the reason why there is none.
///
/// The pending pool is settled first, transaction by transaction. The block
/// holds the transactions that were settled, in the order of the pool, and
/// no other; its merkle root and its hash are computed over them. It is
/// sealed with the least nonce that seals it, stored, and its miner is paid.
/// A store without blocks, a latest block whose height no block can follow,
/// a block that no nonce seals and a payment that no output can hold each
/// give their error and leave the store as it was.
pub open spec fn mined(ledger: LedgerView, miner: Seq<char>, config: Config, now: i64) -> (
    LedgerView,
    Result<BlockView, MiningError>,
) {
    if ledger.blocks.len() == 0 {
        (ledger, Err(MiningError::NoBlocks))
    } else if !height_follows(latest_block(ledger.blocks).index) {
        (ledger, Err(MiningError::InvalidHeight))
    } else {
        let latest = latest_block(ledger.blocks);
        let difficulty = config.mining_difficulty as nat;
        let settlement = settle_all(
            ledger,
            ledger.pending_transactions,
            (latest.index + 1) as i64,
            now,
        );
        let candidate = candidate_block(latest, settlement.settled, now);
        if !can_seal(candidate, difficulty) {
            (ledger, Err(MiningError::NoNonce))
        } else {
            let block = sealed_block(candidate, difficulty);
            let (after, paid) = committed(
                settlement.ledger,
                miner,
                config,
                block,
                settlement.fees,
                ledger.pending_transactions,
                now,
            );
            match paid {
                Ok(_) => (after, Ok(block)),
                Err(e) => (ledger, Err(e)),
            }
        }
    }
}

/// A block that mining gives is valid after the latest block at the
/// configured difficulty, in the current mode of hashing and whatever is
/// given for the legacy mode.
pub proof fn lemma_mined_block_is_valid(
    ledger: LedgerView,
    miner: Seq<char>,
    config: Config,
    now: i64,
    legacy_transactions_json: Option<Seq<char>>,
)
    requires
        mined(ledger, miner, config, now).1 is Ok,
    ensures
        valid_block(
            mined(ledger, miner, config, now).1->Ok_0,
            Some(latest_block(ledger.blocks)),
            legacy_transactions_json,
            config.mining_difficulty as nat,
        ),
{
    let difficulty = config.mining_difficulty as nat;
    let latest = latest_block(ledger.blocks);
    let settlement = settle_all(
        ledger,
        ledger.pending_transactions,
        (latest.index + 1) as i64,
        now,
    );
    let candidate = candidate_block(latest, settlement.settled, now);
    let nonce = least_nonce(candidate, difficulty);
    assert(is_least_nonce(candidate, difficulty, nonce));
    let block = sealed_block(candidate, difficulty);
    assert(block.hash == block_hash(block));
    crate::blockchain::lemma_sealed_block_is_valid(
        block,
        Some(latest),
        legacy_transactions_json,
        difficulty,
    );
}

/// What a block or an error holds.
pub open spec fn mined_view(outcome: Result<Block, MiningError>) -> Result<BlockView, MiningError> {
    match outcome {
        Ok(block) => Ok(block@),
        Err(e) => Err(e),
    }
}

/// The greatest sum of fees that a pool can collect.
pub open spec fn fee_limit() -> int {
    0x7fff_ffff_ffff_fffe_8000_0000_0000_0001
}

/// The first step of mining: settles the pending pool as it is now, and
/// builds the candidate block over the transactions that were settled, after
/// the latest block. Gives the candidate, the fees collected, and the pool
/// as it was. A store without blocks, and a latest block whose height no
/// block can follow, give their error and leave the store as it was.
pub fn prepare_block(ledger: &mut Ledger, now: i64) -> (prepared: Result<
    (Block, i128, Vec<PendingTransaction>),
    MiningError,
>)
    requires
        old(ledger).wf(),
    ensures
        final(ledger).wf(),
        match prepared {
            Ok((candidate, fees, pool)) => {
                let latest = latest_block(old(ledger)@.blocks);
                let settlement = settle_all(
                    old(ledger)@,
                    old(ledger)@.pending_transactions,
                    (latest.index + 1) as i64,
                    now,
                );
                &&& old(ledger)@.blocks.len() > 0
                &&& height_follows(latest.index)
                &&& views(pool@) == old(ledger)@.pending_transactions
                &&& final(ledger)@ == settlement.ledger
                &&& fees == settlement.fees
                &&& 0 <= fees <= fee_limit()
                &&& candidate@ == candidate_block(latest, settlement.settled, now)
                &&& final(ledger).total_issued == old(ledger).total_issued
            },
            Err(e) => {
                &&& final(ledger)@ == old(ledger)@
                &&& if old(ledger)@.blocks.len() == 0 {
                    e == MiningError::NoBlocks
                } else {
                    e == MiningError::InvalidHeight && !height_follows(
                        latest_block(old(ledger)@.blocks).index,
                    )
                }
            },
        },
{
    let latest_block = match get_latest_block(ledger) {
        Some(block) => block,
        None => {
            return Err(MiningError::NoBlocks);
        },
    };
    proof {
        let i = choose|i: int|
            #[trigger] is_latest_block(ledger@.blocks, i) && latest_block@ == ledger@.blocks[i];
        lemma_latest_block_unique(ledger@.blocks, i);
    }
    if latest_block.index < -1 || latest_block.index == i64::MAX {
        return Err(MiningError::InvalidHeight);
    }
    let pending_transactions = get_pending_transactions(ledger);
    proof {
        assert forall|i: int| 0 <= i < pending_transactions@.len() implies (#[trigger] views(
            pending_transactions@,
        )[i]).amount >= 0 && views(pending_transactions@)[i].fee >= 0 by {
            assert(views(pending_transactions@)[i] == old(ledger)@.pending_transactions[i]);
        }
        let n = pending_transactions.len() as int;
        assert(n == pending_transactions@.len());
        assert(n <= usize::MAX);
        assert(usize::MAX <= 0xffff_ffff_ffff_ffff);
        assert(n * 0x7fff_ffff_ffff_ffff <= 0x7fff_ffff_ffff_fffe_8000_0000_0000_0001)
            by (nonlinear_arith)
            requires
                n <= 0xffff_ffff_ffff_ffff,
        ;
    }
    let (total_fees, settled) = settle_pending(
        ledger,
        &pending_transactions,
        latest_block.index + 1,
        now,
    );
    let candidate = build_candidate(&latest_block, &settled, now);
    Ok((candidate, total_fees, pending_transactions))
}

/// Takes a nonce that a search has found: where it seals the block at
/// `difficulty`, it is written into the block with the hash it gives; where
/// it does not, the block stays as it was.
pub fn accept_nonce(block: &mut Block, nonce: i64, difficulty: usize) -> (accepted: bool)
    ensures
        accepted == seals(old(block)@, nonce as int, difficulty as nat),
        accepted ==> {
            &&& final(block)@ == (BlockView { nonce, hash: final(block).hash@, ..old(block)@ })
            &&& final(block).hash@ == block_hash(final(block)@)
            &&& meets_difficulty(final(block).hash@, difficulty as nat)
            &&& final(block).transactions == old(block).transactions
        },
        !accepted ==> *final(block) == *old(block),
{
    let before = block.nonce;
    block.nonce = nonce;
    let hash = calculate_block_hash(block);
    if hash_meets_difficulty(hash.as_str(), difficulty) {
        block.hash = hash;
        true
    } else {
        block.nonce = before;
        false
    }
}

/// The last step of mining: stores the sealed block, pays its miner, and
/// recomputes the cached balances of the parties of the pool, as `committed`
/// says. Afterwards the cached balance of the miner and of the sender and
/// the receiver of every transaction of the pool is the wallet's balance.
/// Issuance that was within the cap stays within it.
pub fn commit_block(
    ledger: &mut Ledger,
    miner_wallet_id: &str,
    config: &Config,
    block: &Block,
    total_fees: i128,
    pool: &Vec<PendingTransaction>,
    now: i64,
) -> (paid: Result<(), MiningError>)
    requires
        old(ledger).wf(),
        config.wf(),
        block.index >= 0,
        0 <= total_fees <= fee_limit(),
    ensures
        final(ledger).wf(),
        (final(ledger)@, paid) == committed(
            old(ledger)@,
            miner_wallet_id@,
            *config,
            block@,
            total_fees as int,
            views(pool@),
            now,
        ),
        paid is Ok ==> cached_right(final(ledger)@, miner_wallet_id@) && parties_right(
            final(ledger)@,
            views(pool@),
            pool@.len() as int,
        ),
        paid is Ok ==> final(ledger).total_issued.dust_total() == old(
            ledger,
        ).total_issued.dust_total() + block_reward_due(old(ledger)@, block.index, *config),
        old(ledger).total_issued.dust_total() <= in_dust(config.max_coin_supply as int, 0)
            ==> final(ledger).total_issued.dust_total() <= in_dust(
            config.max_coin_supply as int,
            0,
        ),
        final(ledger).total_issued.dust_total() >= old(ledger).total_issued.dust_total(),
{
    let actual_reward = clamped_reward(block.index, get_total_mined_coins(ledger), config);
    let total_reward = actual_reward.plus(total_fees, 0);
    proof {
        lemma_value_of(total_reward);
    }
    if total_reward.units > i64::MAX as i128 {
        return Err(MiningError::RewardOutOfRange);
    }
    create_block(ledger, block);
    match pay_reward(ledger, miner_wallet_id, block.index, total_fees, config, now) {
        Ok(_) => {},
        Err(e) => {
            return Err(e);
        },
    }
    refresh_parties(ledger, pool, now);
    Ok(())
}

/// Mines the pending pool into a new block at the time `now`, as `mined`
/// says, and pays `miner_wallet_id`. After a block was mined, the cached
/// balance of the miner and of the sender and the receiver of every
/// transaction that was in the pool is the wallet's balance, and issuance
/// that was within the cap is within it still.
pub fn mine_block_at(ledger: &mut Ledger, miner_wallet_id: &str, config: &Config, now: i64) -> (outcome:
    Result<Block, MiningError>)
    requires
        old(ledger).wf(),
        config.wf(),
    ensures
        final(ledger).wf(),
        (final(ledger)@, mined_view(outcome)) == mined(old(ledger)@, miner_wallet_id@, *config, now),
        outcome is Ok ==> {
            &&& outcome->Ok_0.hash@.len() == 64
            &&& meets_difficulty(outcome->Ok_0.hash@, config.mining_difficulty as nat)
            &&& cached_right(final(ledger)@, miner_wallet_id@)
            &&& parties_right(
                final(ledger)@,
                old(ledger)@.pending_transactions,
                old(ledger)@.pending_transactions.len() as int,
            )
        },
        outcome is Err ==> final(ledger)@ == old(ledger)@,
        old(ledger).total_issued.dust_total() <= in_dust(config.max_coin_supply as int, 0)
            ==> final(ledger).total_issued.dust_total() <= in_dust(
            config.max_coin_supply as int,
            0,
        ),
        final(ledger).total_issued.dust_total() >= old(ledger).total_issued.dust_total(),
{
    let backup = ledger.clone();
    let (mut new_block, total_fees, pending_transactions) = match prepare_block(ledger, now) {
        Ok(prepared) => prepared,
        Err(e) => {
            return Err(e);
        },
    };
    match proof_of_work(&mut new_block, config.mining_difficulty) {
        Some(_) => {},
        None => {
            *ledger = backup;
            return Err(MiningError::NoNonce);
        },
    }
    match commit_block(
        ledger,
        miner_wallet_id,
        config,
        &new_block,
        total_fees,
        &pending_transactions,
        now,
    ) {
        Ok(_) => Ok(new_block),
        Err(e) => {
            *ledger = backup;
            Err(e)
        },
    }
}

/// Mines the pending pool into a new block now. What it gives is what
/// `mine_block_at` gives at the time of the call.
pub fn mine_block(ledger: &mut Ledger, miner_wallet_id: &str, config: &Config) -> (outcome: Result<
    Block,
    MiningError,
>)
    requires
        old(ledger).wf(),
        config.wf(),
    ensures
        final(ledger).wf(),
        exists|at: i64|
            is_clock_time(at) && (final(ledger)@, mined_view(outcome)) == #[trigger] mined(
                old(ledger)@,
                miner_wallet_id@,
                *config,
                at,
            ),
        outcome is Ok ==> cached_right(final(ledger)@, miner_wallet_id@) && parties_right(
            final(ledger)@,
            old(ledger)@.pending_transactions,
            old(ledger)@.pending_transactions.len() as int,
        ),
        outcome is Err ==> final(ledger)@ == old(ledger)@,
        old(ledger).total_issued.dust_total() <= in_dust(config.max_coin_supply as int, 0)
            ==> final(ledger).total_issued.dust_total() <= in_dust(
            config.max_coin_supply as int,
            0,
        ),
{
    let at = now();
    mine_block_at(ledger, miner_wallet_id, config, at)
}

/// Whether a chain holds a block of height zero.
pub open spec fn has_genesis(blocks: Seq<BlockView>) -> bool {
    exists|i: int| 0 <= i < blocks.len() && (#[trigger] blocks[i]).index == 0
}

/// What starting a chain at the time `now` gives: the store afterwards, and
/// whether it holds a genesis block. A store with a block of height zero
/// stays as it is. One without gets the genesis candidate of `now`, sealed
/// with the least nonce that seals it; where no nonce does, it stays as it
/// is, without a genesis block.
pub open spec fn started(ledger: LedgerView, difficulty: nat, now: i64) -> (LedgerView, bool) {
    if has_genesis(ledger.blocks) {
        (ledger, true)
    } else if can_seal(genesis_candidate(now), difficulty) {
        (
            LedgerView {
                blocks: ledger.blocks.push(sealed_block(genesis_candidate(now), difficulty)),
                ..ledger
            },
            true,
        )
    } else {
        (ledger, false)
    }
}

/// Starts a chain at the time `now`, as `started` says.
pub fn initialize_blockchain_at(ledger: &mut Ledger, config: &Config, now: i64) -> (ready: bool)
    ensures
        (final(ledger)@, ready) == started(old(ledger)@, config.mining_difficulty as nat, now),
        ready == has_genesis(final(ledger)@.blocks),
{
    let ghost difficulty = config.mining_difficulty as nat;
    match crate::database::queries::get_block_by_index(ledger, 0) {
        Some(_) => {
            proof {
                let i = choose|i: int|
                    #[trigger] crate::database::queries::is_first_block_at(ledger@.blocks, 0, i);
                assert(ledger@.blocks[i].index == 0);
            }
            true
        },
        None => {
            match create_genesis_block_at(now, config.mining_difficulty) {
                Some(genesis) => {
                    create_block(ledger, &genesis);
                    proof {
                        let last = ledger@.blocks.len() - 1;
                        assert(ledger@.blocks[last].index == 0);
                    }
                    true
                },
                None => false,
            }
        },
    }
}

/// Starts a chain now: see `initialize_blockchain_at`.
pub fn initialize_blockchain(ledger: &mut Ledger, config: &Config) -> (ready: bool)
    ensures
        exists|at: i64|
            is_clock_time(at) && (final(ledger)@, ready) == #[trigger] started(
                old(ledger)@,
                config.mining_difficulty as nat,
                at,
            ),
        ready == has_genesis(final(ledger)@.blocks),
{
    let at = now();
    initialize_blockchain_at(ledger, config, at)
}

/// The height at which the reward halves next after `height`.
pub open spec fn next_halving(height: int, halving_interval: int) -> int {
    (height / halving_interval + 1) * halving_interval
}

/// The share of the cap that is mined, in hundredths of a percent, rounded
/// down, and at most the whole. Both amounts are counted in dust.
pub open spec fn mined_share(total_mined: int, max_supply: int) -> int {
    if max_supply == 0 || total_mined >= max_supply {
        10_000
    } else {
        total_mined * 10_000 / max_supply
    }
}

/// What is left of the cap, in dust: nothing where all of it is mined.
pub open spec fn remaining_supply(total_mined: int, max_supply: int) -> int {
    if max_supply - total_mined > 0 {
        max_supply - total_mined
    } else {
        0
    }
}

/// Where issuance stands at the height `current_height` with `total_mined`
/// mined so far.
pub fn mining_stats(current_height: i64, total_mined: Value, config: &Config) -> (stats:
    MiningStats)
    requires
        config.wf(),
        current_height >= 0,
        current_height + config.halving_interval <= i64::MAX,
        total_mined.wf(),
        total_mined.units >= 0,
    ensures
        stats.current_block_height == current_height,
        stats.current_block_reward.wf(),
        stats.current_block_reward.dust_total() == reward(
            current_height as int,
            config.block_reward as int,
            config.halving_interval as int,
        ),
        stats.next_halving_block == next_halving(
            current_height as int,
            config.halving_interval as int,
        ),
        stats.blocks_until_halving == stats.next_halving_block - current_height,
        0 < stats.blocks_until_halving <= config.halving_interval,
        stats.total_mined_coins == total_mined,
        stats.max_coin_supply == config.max_coin_supply,
        stats.remaining_coins.wf(),
        stats.remaining_coins.dust_total() == remaining_supply(
            total_mined.dust_total(),
            in_dust(config.max_coin_supply as int, 0),
        ),
        stats.halving_interval == config.halving_interval,
        stats.percentage_mined == mined_share(
            total_mined.dust_total(),
            in_dust(config.max_coin_supply as int, 0),
        ),
{
    let interval = config.halving_interval;
    let max_supply = config.max_coin_supply as i128;
    let current_reward = calculate_block_reward(current_height, config);
    let into_interval = current_height % interval;
    proof {
        let h = current_height as int;
        let i = interval as int;
        vstd::arithmetic::div_mod::lemma_fundamental_div_mod(h, i);
        assert((h / i + 1) * i == i * (h / i) + i) by (nonlinear_arith);
    }
    let next_halving_block = current_height - into_interval + interval;
    let remaining = if total_mined.units >= max_supply {
        Value::zero()
    } else if total_mined.dust > 0 {
        Value { units: max_supply - total_mined.units - 1, dust: DUST_PER_UNIT - total_mined.dust }
    } else {
        Value { units: max_supply - total_mined.units, dust: 0 }
    };
    let percentage_mined: i64 = if max_supply == 0 || total_mined.units >= max_supply {
        10_000
    } else {
        let carried: i128 = ((total_mined.dust as u128 * 10_000) / (DUST_PER_UNIT as u128)) as i128;
        let parts: i128 = total_mined.units * 10_000 + carried;
        proof {
            let u = total_mined.units as int;
            let d = total_mined.dust as int;
            let m = max_supply as int;
            let f = 0x8000_0000_0000_0000int;
            let x = total_mined.dust_total() * 10_000;
            assert(x == d * 10_000 + (u * 10_000) * f) by (nonlinear_arith)
                requires
                    x == (u * f + d) * 10_000,
            ;
            vstd::arithmetic::div_mod::lemma_hoist_over_denominator(d * 10_000, u * 10_000, f as nat);
            assert(x / f == parts);
            vstd::arithmetic::div_mod::lemma_div_denominator(x, f, m);
            assert(f * m == m * f) by (nonlinear_arith);
            assert(f * m == in_dust(m, 0));
            assert(x / in_dust(m, 0) == parts as int / m);
            assert(carried < 10_000);
            assert(parts < m * 10_000);
            assert(0 <= parts as int / m <= 10_000) by {
                vstd::arithmetic::div_mod::lemma_div_pos_is_pos(parts as int, m);
                vstd::arithmetic::div_mod::lemma_div_is_ordered(parts as int, m * 10_000, m);
                vstd::arithmetic::div_mod::lemma_div_multiples_vanish(10_000, m);
            }
        }
        (parts / max_supply) as i64
    };
    MiningStats {
        current_block_height: current_height,
        current_block_reward: current_reward,
        next_halving_block,
        blocks_until_halving: next_halving_block - current_height,
        total_mined_coins: total_mined,
        max_coin_supply: config.max_coin_supply,
        remaining_coins: remaining,
        halving_interval: interval,
        percentage_mined,
    }
}

} // verus!
