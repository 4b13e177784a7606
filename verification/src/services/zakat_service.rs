//! The periodic levy: which wallets owe it, how much, and the transfers to
//! the pool that it puts into the pending pool.

use crate::blockchain::{is_clock_time, now, texts};
use crate::config::Config;
use crate::crypto::{create_transaction_payload, sha256_hash, sha256_hex, transaction_payload};
use crate::database::queries::{
    allocate_id, create_pending_transaction, create_transaction_log, create_wallet, get_wallet,
    has_wallet, is_first_wallet, new_wallet, update_last_zakat_date, with_zakat_date,
};
use crate::database::{next_id_after, Ledger, LedgerView};
use crate::ledger::{refreshed, release_reserved_utxos_internal};
use crate::models::{
    is_random_id, lemma_views_push, new_id, PendingTransaction, PendingView, TransactionLogView, Wallet,
    WalletView, ZakatRecord, ZakatRecordView,
};
use crate::services::transaction_service::{
    first_wallet, lemma_first_wallet_unique, transfer_hash,
};
use crate::text::str_eq;
use crate::value::{in_dust, Value, DUST_PER_UNIT};
use vstd::prelude::*;
use vstd::string::*;
use vstd::utf8::encode_utf8;

verus! {

/// The least levy that is collected: a hundredth of a coin.
pub const MIN_ZAKAT: i64 = 1_000_000;

/// Why a wallet owes no levy now.
#[derive(Debug, Clone, Copy, PartialEq, Eq, Structural)]
pub enum ZakatSkip {
    /// The store has no such wallet.
    NoWallet,
    /// The cached balance is nothing or less.
    NoBalance,
    /// The cached balance is below the threshold.
    BelowThreshold,
    /// The last levy lies within the period.
    AlreadyPaid,
    /// The levy would be less than the least that is collected.
    Negligible,
}

/// What is decided for a wallet: no levy, or a levy of an amount.
#[derive(Debug, Clone, Copy, PartialEq, Eq, Structural)]
pub enum ZakatDecision {
    Skip(ZakatSkip),
    Levy(i128),
}

/// Why a levy that is owed could not be made.
#[derive(Debug, Clone, Copy, PartialEq, Eq, Structural)]
pub enum ZakatError {
    /// The levy is more than one transaction can hold.
    AmountOutOfRange,
}

/// The levy on a balance of `balance` dust, in whole base units:
/// `percentage` hundredths of a percent of it, rounded down to the base
/// unit, which is the least that a transfer can move.
pub open spec fn zakat_of(balance: int, percentage: int) -> int {
    balance * percentage / 92_233_720_368_547_758_080_000
}

/// The levy on a balance at the configured rate.
pub fn calculate_zakat(balance: Value, config: &Config) -> (zakat: i128)
    requires
        config.wf(),
        balance.wf(),
        balance.units >= 0,
    ensures
        zakat == zakat_of(balance.dust_total(), config.zakat_percentage as int),
        0 <= zakat <= balance.units,
{
    let rate = config.zakat_percentage as i128;
    let whole = balance.units / 10_000;
    let rest = balance.units % 10_000;
    proof {
        let d = balance.dust as int;
        let p = rate as int;
        assert(0 <= d * p <= d * 10_000) by (nonlinear_arith)
            requires
                0 <= d,
                0 <= p <= 10_000,
        ;
    }
    let carried: i128 = ((balance.dust as u128 * rate as u128) / (DUST_PER_UNIT as u128)) as i128;
    proof {
        let b = balance.units as int;
        let d = balance.dust as int;
        let p = rate as int;
        let f = 0x8000_0000_0000_0000int;
        let x = balance.dust_total() * p;
        vstd::arithmetic::div_mod::lemma_div_is_ordered(d * p, d * 10_000, f);
        assert(0 <= carried <= d * 10_000 / f);
        assert(b == 10_000 * (b / 10_000) + b % 10_000);
        assert(b * p == 10_000 * ((b / 10_000) * p) + (b % 10_000) * p) by (nonlinear_arith)
            requires
                b == 10_000 * (b / 10_000) + b % 10_000,
        ;
        assert(0 <= (b % 10_000) * p <= (b % 10_000) * 10_000) by (nonlinear_arith)
            requires
                0 <= b % 10_000 <= 9_999,
                0 <= p <= 10_000,
        ;
        assert(0 <= (b / 10_000) * p <= (b / 10_000) * 10_000) by (nonlinear_arith)
            requires
                0 <= p <= 10_000,
                b / 10_000 >= 0,
        ;
        assert(x == d * p + (b * p) * f && x >= 0) by (nonlinear_arith)
            requires
                x == (b * f + d) * p,
                b >= 0,
                d >= 0,
                p >= 0,
                f > 0,
        ;
        vstd::arithmetic::div_mod::lemma_hoist_over_denominator(d * p, b * p, f as nat);
        assert(x / f == b * p + carried);
        vstd::arithmetic::div_mod::lemma_div_denominator(x, f, 10_000);
        assert(f * 10_000 == 92_233_720_368_547_758_080_000);
        let q = (b / 10_000) * p;
        let r = (b % 10_000) * p + carried;
        assert((10_000 * q + r) / 10_000 == q + r / 10_000) by {
            vstd::arithmetic::div_mod::lemma_hoist_over_denominator(r, q, 10_000);
            assert(q * 10_000 == 10_000 * q);
        }
        assert(carried < 10_000);
    }
    whole * rate + (rest * rate + carried) / 10_000
}

/// What is decided for a wallet at the time `now`: in this order, no levy
/// on a balance of nothing or less, none below the threshold, none within
/// the period after the last levy, and none that would be negligible; else
/// the levy on the cached balance.
pub open spec fn zakat_decision(wallet: WalletView, config: Config, now: i64) -> ZakatDecision {
    if wallet.balance.dust_total() <= 0 {
        ZakatDecision::Skip(ZakatSkip::NoBalance)
    } else if wallet.balance.dust_total() < in_dust(config.zakat_threshold as int, 0) {
        ZakatDecision::Skip(ZakatSkip::BelowThreshold)
    } else if wallet.last_zakat_date is Some && now - wallet.last_zakat_date->0
        < config.zakat_period {
        ZakatDecision::Skip(ZakatSkip::AlreadyPaid)
    } else if zakat_of(wallet.balance.dust_total(), config.zakat_percentage as int) < MIN_ZAKAT {
        ZakatDecision::Skip(ZakatSkip::Negligible)
    } else {
        ZakatDecision::Levy(
            zakat_of(wallet.balance.dust_total(), config.zakat_percentage as int) as i128,
        )
    }
}

/// Decides whether a wallet owes the levy at the time `now`, and how much.
pub fn decide_zakat(wallet: &Wallet, config: &Config, now: i64) -> (decision: ZakatDecision)
    requires
        config.wf(),
        wallet.balance.wf(),
    ensures
        decision == zakat_decision(wallet@, *config, now),
        decision matches ZakatDecision::Levy(amount) ==> MIN_ZAKAT <= amount
            <= wallet.balance.units && amount == zakat_of(
            wallet.balance.dust_total(),
            config.zakat_percentage as int,
        ),
{
    let balance = wallet.balance;
    if !balance.is_positive() {
        return ZakatDecision::Skip(ZakatSkip::NoBalance);
    }
    if balance.is_below(config.zakat_threshold as i128) {
        return ZakatDecision::Skip(ZakatSkip::BelowThreshold);
    }
    match wallet.last_zakat_date {
        Some(last_zakat_date) => {
            let time_since_last_zakat: i128 = now as i128 - last_zakat_date as i128;
            if time_since_last_zakat < config.zakat_period as i128 {
                return ZakatDecision::Skip(ZakatSkip::AlreadyPaid);
            }
        },
        None => {},
    }
    let zakat_amount = calculate_zakat(balance, config);
    if zakat_amount < MIN_ZAKAT as i128 {
        return ZakatDecision::Skip(ZakatSkip::Negligible);
    }
    ZakatDecision::Levy(zakat_amount)
}

/// What became of the levy on one wallet.
#[derive(Debug, Clone, Copy, PartialEq, Eq, Structural)]
pub enum ZakatOutcome {
    /// No levy was owed.
    Skipped(ZakatSkip),
    /// A transfer of this amount to the pool entered the pending pool.
    Levied(i64),
}

/// The note of every levy.
pub open spec fn zakat_note() -> Seq<char> {
    "Monthly Zakat Deduction (2.5%)"@
}

/// What stands for a signature on a levy: the hash of the marker
/// `SYSTEM_ZAKAT_` and the payload. No key signs a levy.
pub open spec fn zakat_signature(payload: Seq<char>) -> Seq<char> {
    sha256_hex(encode_utf8("SYSTEM_ZAKAT_"@ + payload))
}

/// The pending transaction of a levy of `amount` on `wallet` at the time
/// `now`: a transfer to the pool without a fee.
pub open spec fn zakat_transfer(
    id: u128,
    wallet: Seq<char>,
    pool: Seq<char>,
    amount: i64,
    now: i64,
) -> PendingView {
    let payload = transaction_payload(wallet, pool, amount as int, now as int, Some(zakat_note()));
    PendingView {
        id,
        transaction_hash: transfer_hash(payload, zakat_signature(payload)),
        sender_wallet_id: wallet,
        receiver_wallet_id: pool,
        amount,
        fee: 0,
        note: Some(zakat_note()),
        signature: zakat_signature(payload),
        timestamp: now,
        created_at: now,
    }
}

/// The store after the levy `tx` was made: the pending pool holds it, the
/// wallet's cached balance is recomputed, the audit holds a record of it,
/// the wallet is marked as levied now, and its log holds one line.
pub open spec fn levied(ledger: LedgerView, tx: PendingView) -> LedgerView {
    let pooled = LedgerView {
        pending_transactions: ledger.pending_transactions.push(tx),
        ..ledger
    };
    let balanced = refreshed(pooled, tx.sender_wallet_id, tx.created_at);
    LedgerView {
        zakat_records: balanced.zakat_records.push(
            ZakatRecordView {
                id: balanced.next_id,
                wallet_id: tx.sender_wallet_id,
                amount: tx.amount,
                transaction_hash: Some(tx.transaction_hash),
                deduction_date: tx.created_at,
                created_at: tx.created_at,
            },
        ),
        wallets: with_zakat_date(balanced.wallets, tx.sender_wallet_id, tx.created_at),
        transaction_logs: balanced.transaction_logs.push(
            TransactionLogView {
                id: next_id_after(balanced.next_id),
                wallet_id: tx.sender_wallet_id,
                action: "zakat_deducted"@,
                transaction_hash: Some(tx.transaction_hash),
                block_hash: None,
                status: "pending"@,
                ip_address: None,
                user_agent: None,
                note: Some(zakat_note()),
                created_at: tx.created_at,
            },
        ),
        next_id: next_id_after(next_id_after(balanced.next_id)),
        ..balanced
    }
}

/// The levy on one wallet at the time `now`: the store afterwards, and what
/// became of the levy. A wallet that the store does not hold, and one that
/// owes nothing, leave the store as it was; so does a levy that is more
/// than one transaction can hold, which is an error.
pub open spec fn zakat_step(
    ledger: LedgerView,
    wallet: Seq<char>,
    pool: Seq<char>,
    config: Config,
    id: u128,
    now: i64,
) -> (LedgerView, Result<ZakatOutcome, ZakatError>) {
    if !has_wallet(ledger.wallets, wallet) {
        (ledger, Ok(ZakatOutcome::Skipped(ZakatSkip::NoWallet)))
    } else {
        match zakat_decision(first_wallet(ledger.wallets, wallet), config, now) {
            ZakatDecision::Skip(reason) => (ledger, Ok(ZakatOutcome::Skipped(reason))),
            ZakatDecision::Levy(amount) => if amount > i64::MAX {
                (ledger, Err(ZakatError::AmountOutOfRange))
            } else {
                (
                    levied(ledger, zakat_transfer(id, wallet, pool, amount as i64, now)),
                    Ok(ZakatOutcome::Levied(amount as i64)),
                )
            },
        }
    }
}

/// Makes the levy on one wallet at the time `now`, as `zakat_step` says; a
/// levy enters the pending pool under the identifier `id`.
pub fn process_wallet_zakat_at(
    ledger: &mut Ledger,
    wallet_id: &str,
    zakat_pool_wallet_id: &str,
    config: &Config,
    id: u128,
    now: i64,
) -> (outcome: Result<ZakatOutcome, ZakatError>)
    requires
        old(ledger).wf(),
        config.wf(),
    ensures
        final(ledger).wf(),
        (final(ledger)@, outcome) == zakat_step(
            old(ledger)@,
            wallet_id@,
            zakat_pool_wallet_id@,
            *config,
            id,
            now,
        ),
{
    let wallet = match get_wallet(ledger, wallet_id) {
        Some(wallet) => wallet,
        None => {
            return Ok(ZakatOutcome::Skipped(ZakatSkip::NoWallet));
        },
    };
    proof {
        let i = choose|i: int|
            #[trigger] is_first_wallet(ledger@.wallets, wallet_id@, i) && wallet@
                == ledger@.wallets[i];
        lemma_first_wallet_unique(ledger@.wallets, wallet_id@, i);
    }
    let zakat_amount = match decide_zakat(&wallet, config, now) {
        ZakatDecision::Skip(reason) => {
            return Ok(ZakatOutcome::Skipped(reason));
        },
        ZakatDecision::Levy(amount) => amount,
    };
    if zakat_amount > i64::MAX as i128 {
        return Err(ZakatError::AmountOutOfRange);
    }
    let amount = zakat_amount as i64;
    let note = Some("Monthly Zakat Deduction (2.5%)".to_owned());
    let payload = create_transaction_payload(wallet_id, zakat_pool_wallet_id, amount, now, &note);
    let mut marked = "SYSTEM_ZAKAT_".to_owned();
    marked.append(payload.as_str());
    let signature = sha256_hash(marked.as_str().as_bytes());
    let mut signed = payload;
    signed.append(signature.as_str());
    let transaction_hash = sha256_hash(signed.as_str().as_bytes());
    let pending_tx = PendingTransaction {
        id,
        transaction_hash,
        sender_wallet_id: wallet_id.to_owned(),
        receiver_wallet_id: zakat_pool_wallet_id.to_owned(),
        amount,
        fee: 0,
        note,
        signature,
        timestamp: now,
        created_at: now,
    };
    proof {
        assert(pending_tx@ == zakat_transfer(id, wallet_id@, zakat_pool_wallet_id@, amount, now));
    }
    create_pending_transaction(ledger, &pending_tx);
    proof {
        assert forall|i: int| 0 <= i < ledger@.pending_transactions.len() implies {
            &&& (#[trigger] ledger@.pending_transactions[i]).amount >= 0
            &&& ledger@.pending_transactions[i].fee >= 0
        } by {
            if i < old(ledger)@.pending_transactions.len() {
                assert(old(ledger)@.pending_transactions[i].amount >= 0);
            }
        }
    }
    release_reserved_utxos_internal(ledger, wallet_id, now);
    let record_id = allocate_id(ledger);
    let record = ZakatRecord {
        id: record_id,
        wallet_id: wallet_id.to_owned(),
        amount,
        transaction_hash: Some(pending_tx.transaction_hash.clone()),
        deduction_date: now,
        created_at: now,
    };
    proof {
        lemma_views_push(ledger.zakat_records@, record);
    }
    ledger.zakat_records.push(record);
    update_last_zakat_date(ledger, wallet_id, now);
    create_transaction_log(
        ledger,
        wallet_id,
        "zakat_deducted",
        Some(pending_tx.transaction_hash.clone()),
        None,
        "pending",
        None,
        None,
        Some("Monthly Zakat Deduction (2.5%)".to_owned()),
        now,
    );
    Ok(ZakatOutcome::Levied(amount))
}

/// Makes the levy on one wallet now, under a fresh identifier: see
/// `process_wallet_zakat_at`.
pub fn process_wallet_zakat(
    ledger: &mut Ledger,
    wallet_id: &str,
    zakat_pool_wallet_id: &str,
    config: &Config,
) -> (outcome: Result<ZakatOutcome, ZakatError>)
    requires
        old(ledger).wf(),
        config.wf(),
    ensures
        final(ledger).wf(),
        exists|id: u128, at: i64|
            is_random_id(id) && is_clock_time(at) && (final(ledger)@, outcome)
                == #[trigger] zakat_step(
                old(ledger)@,
                wallet_id@,
                zakat_pool_wallet_id@,
                *config,
                id,
                at,
            ),
{
    let at = now();
    let id = new_id();
    process_wallet_zakat_at(ledger, wallet_id, zakat_pool_wallet_id, config, id, at)
}

/// The identifiers of the wallets other than the pool, in the order of the
/// store.
pub open spec fn other_wallets(wallets: Seq<WalletView>, pool: Seq<char>) -> Seq<Seq<char>>
    decreases wallets.len(),
{
    if wallets.len() == 0 {
        Seq::empty()
    } else if wallets.last().wallet_id == pool {
        other_wallets(wallets.drop_last(), pool)
    } else {
        other_wallets(wallets.drop_last(), pool).push(wallets.last().wallet_id)
    }
}

/// The store with the pool wallet: a store without it gets an empty one.
pub open spec fn with_pool_wallet(ledger: LedgerView, pool: Seq<char>, now: i64) -> LedgerView {
    if has_wallet(ledger.wallets, pool) {
        ledger
    } else {
        LedgerView { wallets: ledger.wallets.push(new_wallet(pool, None, now)), ..ledger }
    }
}

/// How a round of the levy ended.
#[derive(Debug, Clone, Copy, PartialEq, Eq, Structural)]
pub struct ZakatReport {
    /// The wallets that were looked at without an error.
    pub processed: usize,
    /// The wallets on which the levy failed.
    pub errors: usize,
}

/// A round of the levy over `wallets`, one step for each in turn, the
/// levy on wallet `i` under the identifier `ids[i]`: the store afterwards,
/// the number of steps without an error, and the number of errors. An error
/// on one wallet does not stop the round.
pub open spec fn zakat_round(
    ledger: LedgerView,
    wallets: Seq<Seq<char>>,
    pool: Seq<char>,
    config: Config,
    ids: Seq<u128>,
    now: i64,
) -> (LedgerView, int, int)
    decreases wallets.len(),
{
    if wallets.len() == 0 {
        (ledger, 0, 0)
    } else {
        let (before, processed, errors) = zakat_round(
            ledger,
            wallets.drop_last(),
            pool,
            config,
            ids,
            now,
        );
        let (after, outcome) = zakat_step(
            before,
            wallets.last(),
            pool,
            config,
            ids[wallets.len() - 1],
            now,
        );
        if outcome is Ok {
            (after, processed + 1, errors)
        } else {
            (after, processed, errors + 1)
        }
    }
}

/// A round of the levy over a whole store at the time `now`: the pool wallet
/// is made where the store has none, and then every other wallet of the
/// store is looked at in turn.
pub open spec fn monthly_round(ledger: LedgerView, config: Config, ids: Seq<u128>, now: i64) -> (
    LedgerView,
    int,
    int,
) {
    let pool = config.zakat_pool_wallet_id@;
    let start = with_pool_wallet(ledger, pool, now);
    zakat_round(start, other_wallets(start.wallets, pool), pool, config, ids, now)
}

/// Whether every identifier of a list has the form of a random identifier.
pub open spec fn all_random(ids: Seq<u128>) -> bool {
    forall|i: int| 0 <= i < ids.len() ==> is_random_id(#[trigger] ids[i])
}

/// A round depends on the identifiers of its own wallets only.
pub proof fn lemma_zakat_round_ids(
    ledger: LedgerView,
    wallets: Seq<Seq<char>>,
    pool: Seq<char>,
    config: Config,
    ids: Seq<u128>,
    more: Seq<u128>,
    now: i64,
)
    requires
        forall|i: int| 0 <= i < wallets.len() ==> ids[i] == more[i],
    ensures
        zakat_round(ledger, wallets, pool, config, ids, now) == zakat_round(
            ledger,
            wallets,
            pool,
            config,
            more,
            now,
        ),
    decreases wallets.len(),
{
    if wallets.len() > 0 {
        lemma_zakat_round_ids(ledger, wallets.drop_last(), pool, config, ids, more, now);
    }
}

/// The identifiers of the wallets other than the pool.
fn collect_other_wallets(ledger: &Ledger, pool: &str) -> (ids: Vec<String>)
    ensures
        texts(ids@) == other_wallets(ledger@.wallets, pool@),
{
    let mut ids: Vec<String> = Vec::new();
    let mut i: usize = 0;
    proof {
        assert(ledger@.wallets.subrange(0, 0) =~= Seq::empty());
        assert(texts(ids@) =~= Seq::empty());
    }
    while i < ledger.wallets.len()
        invariant
            i <= ledger.wallets.len(),
            texts(ids@) == other_wallets(ledger@.wallets.subrange(0, i as int), pool@),
        decreases ledger.wallets.len() - i,
    {
        let wallet = &ledger.wallets[i];
        proof {
            let next = ledger@.wallets.subrange(0, i + 1);
            assert(next.drop_last() =~= ledger@.wallets.subrange(0, i as int));
            assert(next.last() == wallet@);
        }
        if !str_eq(wallet.wallet_id.as_str(), pool) {
            let ghost before = ids@;
            ids.push(wallet.wallet_id.clone());
            proof {
                assert(texts(ids@) =~= texts(before).push(wallet.wallet_id@));
            }
        }
        i += 1;
    }
    proof {
        assert(ledger@.wallets.subrange(0, i as int) =~= ledger@.wallets);
    }
    ids
}

/// A round of the levy at the time `now`. The pool wallet is made where the
/// store has none. Then every other wallet that the store holds at that
/// moment is looked at in turn, as `zakat_round` says, each levy under a
/// fresh identifier.
pub fn process_monthly_zakat_at(ledger: &mut Ledger, config: &Config, now: i64) -> (report:
    ZakatReport)
    requires
        old(ledger).wf(),
        config.wf(),
    ensures
        final(ledger).wf(),
        exists|ids: Seq<u128>|
            all_random(ids) && (final(ledger)@, report.processed as int, report.errors as int)
                == #[trigger] monthly_round(old(ledger)@, *config, ids, now),
{
    let pool = config.zakat_pool_wallet_id.as_str();
    if get_wallet(ledger, pool).is_none() {
        create_wallet(ledger, pool, None, now);
    }
    let ghost start = ledger@;
    proof {
        assert(start == with_pool_wallet(old(ledger)@, pool@, now));
    }
    let wallet_ids = collect_other_wallets(ledger, pool);
    let ghost wallets = texts(wallet_ids@);
    let ghost mut ids: Seq<u128> = Seq::empty();
    let mut processed_count: usize = 0;
    let mut error_count: usize = 0;
    let mut i: usize = 0;
    proof {
        assert(wallets.len() == wallet_ids@.len());
        assert(wallets.subrange(0, 0) =~= Seq::empty());
    }
    while i < wallet_ids.len()
        invariant
            i <= wallet_ids.len(),
            ledger.wf(),
            config.wf(),
            pool@ == config.zakat_pool_wallet_id@,
            wallets == texts(wallet_ids@),
            wallets.len() == wallet_ids@.len(),
            ids.len() == i,
            all_random(ids),
            processed_count + error_count == i,
            (ledger@, processed_count as int, error_count as int) == zakat_round(
                start,
                wallets.subrange(0, i as int),
                pool@,
                *config,
                ids,
                now,
            ),
        decreases wallet_ids.len() - i,
    {
        let id = new_id();
        proof {
            let next = wallets.subrange(0, i + 1);
            assert(next.drop_last() =~= wallets.subrange(0, i as int));
            assert(next.last() == wallet_ids@[i as int]@);
            lemma_zakat_round_ids(
                start,
                wallets.subrange(0, i as int),
                pool@,
                *config,
                ids,
                ids.push(id),
                now,
            );
            ids = ids.push(id);
        }
        match process_wallet_zakat_at(ledger, wallet_ids[i].as_str(), pool, config, id, now) {
            Ok(_) => {
                processed_count += 1;
            },
            Err(_) => {
                error_count += 1;
            },
        }
        i += 1;
    }
    proof {
        assert(wallets.subrange(0, i as int) =~= wallets);
        assert((ledger@, processed_count as int, error_count as int) == monthly_round(
            old(ledger)@,
            *config,
            ids,
            now,
        ));
    }
    ZakatReport { processed: processed_count, errors: error_count }
}

/// A round of the levy now: see `process_monthly_zakat_at`.
pub fn process_monthly_zakat(ledger: &mut Ledger, config: &Config) -> (report: ZakatReport)
    requires
        old(ledger).wf(),
        config.wf(),
    ensures
        final(ledger).wf(),
        exists|ids: Seq<u128>, at: i64|
            all_random(ids) && is_clock_time(at) && (
                final(ledger)@,
                report.processed as int,
                report.errors as int,
            ) == #[trigger] monthly_round(old(ledger)@, *config, ids, at),
{
    let at = now();
    process_monthly_zakat_at(ledger, config, at)
}

/// A round of the levy at the request of an administrator: the same as the
/// scheduled one.
pub fn trigger_zakat_deduction(ledger: &mut Ledger, config: &Config) -> (report: ZakatReport)
    requires
        old(ledger).wf(),
        config.wf(),
    ensures
        final(ledger).wf(),
        exists|ids: Seq<u128>, at: i64|
            all_random(ids) && is_clock_time(at) && (
                final(ledger)@,
                report.processed as int,
                report.errors as int,
            ) == #[trigger] monthly_round(old(ledger)@, *config, ids, at),
{
    process_monthly_zakat(ledger, config)
}

} // verus!
