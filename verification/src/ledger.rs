//! The unspent-output engine: balances, the greedy choice of outputs to
//! spend, and the settlement of one transaction.

use crate::database::queries::{
    create_output, create_utxo, new_output, new_utxo, spent, update_wallet_balance, with_balance,
};
use crate::database::{
    circulating, lemma_pending_total_bounds, lemma_unspent_total_bounds, next_id_after,
    pending_total, spendable, unspent_total, Ledger, LedgerView,
};
use crate::models::{lemma_views_update, PendingTransaction, PendingView, UtxoView};
use crate::text::str_eq;
use crate::value::{
    dust_of, in_dust, lemma_value_holds, lemma_value_of, units_of, value_of, Value,
};
use vstd::prelude::*;

verus! {

/// The balance of a wallet: the sum of its unspent outputs less the amounts
/// that it sends in the pending pool, exactly. It is computed afresh on
/// every call.
pub fn calculate_wallet_balance(ledger: &Ledger, wallet_id: &str) -> (balance: Value)
    requires
        ledger.wf(),
    ensures
        balance.wf(),
        balance.dust_total() == ledger@.balance_of(wallet_id@),
        balance == value_of(ledger@.balance_of(wallet_id@)),
{
    let mut total = Value::zero();
    let mut i: usize = 0;
    proof {
        assert(ledger@.utxos.subrange(0, 0) =~= Seq::empty());
    }
    while i < ledger.utxos.len()
        invariant
            i <= ledger.utxos.len(),
            ledger.wf(),
            total.wf(),
            total.dust_total() == unspent_total(ledger@.utxos.subrange(0, i as int), wallet_id@),
            0 <= total.units <= i * 0x8000_0000_0000_0000,
        decreases ledger.utxos.len() - i,
    {
        let utxo = &ledger.utxos[i];
        proof {
            let next = ledger@.utxos.subrange(0, i + 1);
            assert(next.drop_last() =~= ledger@.utxos.subrange(0, i as int));
            assert(next.last() == utxo@);
            assert(ledger@.utxos[i as int].wf());
        }
        if !utxo.is_spent && str_eq(utxo.wallet_id.as_str(), wallet_id) {
            total = total.plus(utxo.amount as i128, utxo.dust);
        }
        i += 1;
    }
    let mut pending_amount: i128 = 0;
    let mut k: usize = 0;
    proof {
        assert(ledger@.utxos.subrange(0, i as int) =~= ledger@.utxos);
        assert(ledger@.pending_transactions.subrange(0, 0) =~= Seq::empty());
    }
    while k < ledger.pending_transactions.len()
        invariant
            k <= ledger.pending_transactions.len(),
            ledger.wf(),
            pending_amount == pending_total(
                ledger@.pending_transactions.subrange(0, k as int),
                wallet_id@,
            ),
            0 <= pending_amount <= k * 0x7fff_ffff_ffff_ffff,
        decreases ledger.pending_transactions.len() - k,
    {
        let tx = &ledger.pending_transactions[k];
        proof {
            let next = ledger@.pending_transactions.subrange(0, k + 1);
            assert(next.drop_last() =~= ledger@.pending_transactions.subrange(0, k as int));
            assert(next.last() == tx@);
            assert(ledger@.pending_transactions[k as int].amount >= 0);
        }
        if str_eq(tx.sender_wallet_id.as_str(), wallet_id) {
            pending_amount = pending_amount + tx.amount as i128;
        }
        k += 1;
    }
    proof {
        assert(ledger@.pending_transactions.subrange(0, k as int) =~= ledger@.pending_transactions);
    }
    let balance = total.less(pending_amount);
    proof {
        lemma_value_of(balance);
    }
    balance
}

/// The block rewards issued so far, as the store keeps them: every reward
/// that was paid raised the total by its amount, without the fees.
pub fn get_total_mined_coins(ledger: &Ledger) -> (total: Value)
    ensures
        total == ledger@.total_issued,
{
    ledger.total_issued
}

/// Why a transaction could not be settled.
#[derive(Debug, Clone, Copy, PartialEq, Eq, Structural)]
pub enum SettlementError {
    /// The sender's unspent outputs do not cover the amount and the fee.
    InsufficientUtxos,
}

impl SettlementError {
    /// The error in words.
    pub fn to_string(&self) -> (text: String)
        ensures
            text@ == "Insufficient UTXOs to cover transaction amount + fee"@,
    {
        "Insufficient UTXOs to cover transaction amount + fee".to_owned()
    }
}

/// What the greedy walk has gathered after the first `n` outputs, in dust:
/// it takes each spendable output of `wallet`, the oldest first, as long as
/// what it has is less than `required` dust.
pub open spec fn gathered(utxos: Seq<UtxoView>, wallet: Seq<char>, required: int, n: int) -> int
    decreases n,
{
    if n <= 0 {
        0
    } else {
        let before = gathered(utxos, wallet, required, n - 1);
        if before < required && spendable(utxos[n - 1], wallet) {
            before + utxos[n - 1].value()
        } else {
            before
        }
    }
}

/// Whether the greedy walk takes the output at place `i`.
pub open spec fn taken(utxos: Seq<UtxoView>, wallet: Seq<char>, required: int, i: int) -> bool {
    spendable(utxos[i], wallet) && gathered(utxos, wallet, required, i) < required
}

/// What a transaction needs from its sender, in dust: the amount and the
/// fee.
pub open spec fn required_for(tx: PendingView) -> int {
    in_dust(tx.amount + tx.fee, 0)
}

/// What the greedy walk gathers for `tx` over all outputs.
pub open spec fn selected_total(utxos: Seq<UtxoView>, tx: PendingView) -> int {
    gathered(utxos, tx.sender_wallet_id, required_for(tx), utxos.len() as int)
}

/// Whether the sender's unspent outputs cover the amount and the fee.
pub open spec fn can_settle(utxos: Seq<UtxoView>, tx: PendingView) -> bool {
    selected_total(utxos, tx) >= required_for(tx)
}

/// What goes back to the sender, in dust: what was gathered beyond the
/// amount and the fee.
pub open spec fn change_for(utxos: Seq<UtxoView>, tx: PendingView) -> int {
    selected_total(utxos, tx) - required_for(tx)
}

/// The outputs with every taken output spent at the time `now`.
pub open spec fn with_taken_spent(
    utxos: Seq<UtxoView>,
    wallet: Seq<char>,
    required: int,
    now: i64,
) -> Seq<UtxoView> {
    Seq::new(
        utxos.len(),
        |i: int|
            if taken(utxos, wallet, required, i) {
                spent(utxos[i], now)
            } else {
                utxos[i]
            },
    )
}

/// The outputs after `tx` was settled: the taken outputs spent, one new
/// output of the amount for the receiver, and, where something is left
/// beyond amount and fee, one of the change for the sender. The fee becomes
/// no output.
pub open spec fn settled_utxos(utxos: Seq<UtxoView>, tx: PendingView, first_id: u128, now: i64)
    -> Seq<UtxoView> {
    let paid = with_taken_spent(utxos, tx.sender_wallet_id, required_for(tx), now).push(
        new_utxo(first_id, tx.receiver_wallet_id, tx.amount, tx.transaction_hash, 0, now),
    );
    if change_for(utxos, tx) > 0 {
        paid.push(
            new_output(
                next_id_after(first_id),
                tx.sender_wallet_id,
                units_of(change_for(utxos, tx)) as i64,
                dust_of(change_for(utxos, tx)) as u64,
                tx.transaction_hash,
                1,
                now,
            ),
        )
    } else {
        paid
    }
}

/// The store after `tx` was settled: the outputs moved, and the cached
/// balances of sender and receiver set to their balances after the move.
pub open spec fn settled(ledger: LedgerView, tx: PendingView, now: i64) -> LedgerView {
    let moved = LedgerView {
        utxos: settled_utxos(ledger.utxos, tx, ledger.next_id, now),
        next_id: if change_for(ledger.utxos, tx) > 0 {
            next_id_after(next_id_after(ledger.next_id))
        } else {
            next_id_after(ledger.next_id)
        },
        ..ledger
    };
    LedgerView {
        wallets: with_balance(
            with_balance(
                moved.wallets,
                tx.sender_wallet_id,
                value_of(moved.balance_of(tx.sender_wallet_id)),
                now,
            ),
            tx.receiver_wallet_id,
            value_of(moved.balance_of(tx.receiver_wallet_id)),
            now,
        ),
        ..moved
    }
}

/// The greedy walk never gathers less than nothing from outputs that hold
/// no negative amount, and stops within one output beyond what is required.
pub proof fn lemma_gathered_bounds(utxos: Seq<UtxoView>, wallet: Seq<char>, required: int, n: int)
    requires
        0 <= n <= utxos.len(),
        required >= 0,
        forall|i: int| 0 <= i < utxos.len() ==> (#[trigger] utxos[i]).wf(),
    ensures
        0 <= gathered(utxos, wallet, required, n),
        gathered(utxos, wallet, required, n) - required < in_dust(0x8000_0000_0000_0000, 0),
        gathered(utxos, wallet, required, n) <= in_dust(n * 0x8000_0000_0000_0000, 0),
    decreases n,
{
    if n > 0 {
        lemma_gathered_bounds(utxos, wallet, required, n - 1);
        assert(utxos[n - 1].wf());
        assert(n * 0x8000_0000_0000_0000 == (n - 1) * 0x8000_0000_0000_0000
            + 0x8000_0000_0000_0000);
    }
}

/// Spending the taken outputs takes their sum out of circulation.
pub proof fn lemma_taken_leave_circulation(
    utxos: Seq<UtxoView>,
    wallet: Seq<char>,
    required: int,
    now: i64,
    n: int,
)
    requires
        0 <= n <= utxos.len(),
    ensures
        circulating(with_taken_spent(utxos, wallet, required, now).subrange(0, n)) == circulating(
            utxos.subrange(0, n),
        ) - gathered(utxos, wallet, required, n),
    decreases n,
{
    let marked = with_taken_spent(utxos, wallet, required, now);
    if n == 0 {
        assert(marked.subrange(0, 0) =~= Seq::empty());
        assert(utxos.subrange(0, 0) =~= Seq::empty());
    } else {
        lemma_taken_leave_circulation(utxos, wallet, required, now, n - 1);
        assert(marked.subrange(0, n).drop_last() =~= marked.subrange(0, n - 1));
        assert(utxos.subrange(0, n).drop_last() =~= utxos.subrange(0, n - 1));
        assert(marked.subrange(0, n).last() == marked[n - 1]);
        assert(utxos.subrange(0, n).last() == utxos[n - 1]);
    }
}

/// Settlement conserves value: what the spent outputs held is the amount,
/// the change and the fee, and of these only the fee leaves circulation.
pub proof fn lemma_settlement_conserves(
    utxos: Seq<UtxoView>,
    tx: PendingView,
    first_id: u128,
    now: i64,
)
    requires
        can_settle(utxos, tx),
        tx.amount >= 0,
        tx.fee >= 0,
        forall|i: int| 0 <= i < utxos.len() ==> (#[trigger] utxos[i]).wf(),
    ensures
        selected_total(utxos, tx) == in_dust(tx.amount as int, 0) + change_for(utxos, tx)
            + in_dust(tx.fee as int, 0),
        0 <= change_for(utxos, tx) < in_dust(0x8000_0000_0000_0000, 0),
        0 <= units_of(change_for(utxos, tx)) <= i64::MAX,
        circulating(settled_utxos(utxos, tx, first_id, now)) == circulating(utxos) - in_dust(
            tx.fee as int,
            0,
        ),
{
    let wallet = tx.sender_wallet_id;
    let required = required_for(tx);
    let marked = with_taken_spent(utxos, wallet, required, now);
    lemma_gathered_bounds(utxos, wallet, required, utxos.len() as int);
    lemma_taken_leave_circulation(utxos, wallet, required, now, utxos.len() as int);
    assert(marked.subrange(0, utxos.len() as int) =~= marked);
    assert(utxos.subrange(0, utxos.len() as int) =~= utxos);
    let receiver_output = new_utxo(
        first_id,
        tx.receiver_wallet_id,
        tx.amount,
        tx.transaction_hash,
        0,
        now,
    );
    let paid = marked.push(receiver_output);
    assert(paid.drop_last() =~= marked);
    assert(paid.last() == receiver_output);
    assert(circulating(paid) == circulating(marked) + in_dust(tx.amount as int, 0));
    if change_for(utxos, tx) > 0 {
        let change_output = new_output(
            next_id_after(first_id),
            tx.sender_wallet_id,
            units_of(change_for(utxos, tx)) as i64,
            dust_of(change_for(utxos, tx)) as u64,
            tx.transaction_hash,
            1,
            now,
        );
        let all = paid.push(change_output);
        assert(all.drop_last() =~= paid);
        assert(all.last() == change_output);
        assert(change_output.value() == change_for(utxos, tx));
        assert(circulating(all) == circulating(paid) + change_for(utxos, tx));
    }
}

/// An output that is spent is never spent again: a settlement leaves every
/// spent output as it was, spends only unspent outputs of the sender, and
/// keeps every output in its place.
pub proof fn lemma_spent_stay_spent(
    utxos: Seq<UtxoView>,
    tx: PendingView,
    first_id: u128,
    now: i64,
    i: int,
)
    requires
        0 <= i < utxos.len(),
    ensures
        settled_utxos(utxos, tx, first_id, now).len() >= utxos.len(),
        utxos[i].is_spent ==> settled_utxos(utxos, tx, first_id, now)[i] == utxos[i],
        settled_utxos(utxos, tx, first_id, now)[i] == utxos[i] || {
            &&& !utxos[i].is_spent
            &&& utxos[i].wallet_id == tx.sender_wallet_id
            &&& settled_utxos(utxos, tx, first_id, now)[i] == spent(utxos[i], now)
        },
{
}

/// The outputs after a settlement hold no negative amount where those
/// before held none.
pub proof fn lemma_settled_outputs_wf(utxos: Seq<UtxoView>, tx: PendingView, first_id: u128, now: i64)
    requires
        can_settle(utxos, tx),
        tx.amount >= 0,
        tx.fee >= 0,
        forall|i: int| 0 <= i < utxos.len() ==> (#[trigger] utxos[i]).wf(),
    ensures
        forall|i: int|
            0 <= i < settled_utxos(utxos, tx, first_id, now).len() ==> (#[trigger] settled_utxos(
                utxos,
                tx,
                first_id,
                now,
            )[i]).wf(),
{
    let moved = settled_utxos(utxos, tx, first_id, now);
    lemma_settlement_conserves(utxos, tx, first_id, now);
    assert forall|j: int| 0 <= j < moved.len() implies (#[trigger] moved[j]).wf() by {
        if j < utxos.len() {
            assert(utxos[j].wf());
        }
    }
}

/// After a settlement the cached balances of sender and receiver are their
/// balances: the sum of their unspent outputs less the amounts they send in
/// the pending pool. The store is one that fits in memory.
pub proof fn lemma_settlement_keeps_balances(ledger: LedgerView, tx: PendingView, now: i64, i: int)
    requires
        ledger.wf(),
        tx.amount >= 0,
        tx.fee >= 0,
        can_settle(ledger.utxos, tx),
        ledger.utxos.len() + 2 <= 0xffff_ffff_ffff_ffff,
        ledger.pending_transactions.len() <= 0xffff_ffff_ffff_ffff,
        0 <= i < ledger.wallets.len(),
        ledger.wallets[i].wallet_id == tx.sender_wallet_id || ledger.wallets[i].wallet_id
            == tx.receiver_wallet_id,
    ensures
        settled(ledger, tx, now).wallets[i].balance.wf(),
        settled(ledger, tx, now).wallets[i].balance.dust_total() == settled(
            ledger,
            tx,
            now,
        ).balance_of(ledger.wallets[i].wallet_id),
        settled(ledger, tx, now).balance_of(ledger.wallets[i].wallet_id) == unspent_total(
            settled_utxos(ledger.utxos, tx, ledger.next_id, now),
            ledger.wallets[i].wallet_id,
        ) - in_dust(pending_total(ledger.pending_transactions, ledger.wallets[i].wallet_id), 0),
{
    let wallet = ledger.wallets[i].wallet_id;
    let moved = settled_utxos(ledger.utxos, tx, ledger.next_id, now);
    lemma_settled_outputs_wf(ledger.utxos, tx, ledger.next_id, now);
    assert forall|j: int| 0 <= j < ledger.pending_transactions.len() implies (
    #[trigger] ledger.pending_transactions[j]).amount >= 0 by {}
    lemma_unspent_total_bounds(moved, wallet);
    lemma_pending_total_bounds(ledger.pending_transactions, wallet);
    assert(ledger.pending_transactions.len() * 0x7fff_ffff_ffff_ffff
        <= 0x7fff_ffff_ffff_fffe_8000_0000_0000_0001) by (nonlinear_arith)
        requires
            ledger.pending_transactions.len() <= 0xffff_ffff_ffff_ffff,
    ;
    let after = LedgerView { utxos: moved, ..settled(ledger, tx, now) };
    lemma_value_holds(after.balance_of(wallet));
}

/// The store after the cached balance of `wallet` was set to its balance.
pub open spec fn refreshed(ledger: LedgerView, wallet: Seq<char>, now: i64) -> LedgerView {
    LedgerView {
        wallets: with_balance(ledger.wallets, wallet, value_of(ledger.balance_of(wallet)), now),
        ..ledger
    }
}

/// Whether the cached balance of every wallet of the name `wallet` is its
/// balance: the sum of its unspent outputs less the amounts it sends in the
/// pending pool, to the dust.
pub open spec fn cached_right(ledger: LedgerView, wallet: Seq<char>) -> bool {
    forall|i: int|
        0 <= i < ledger.wallets.len() && (#[trigger] ledger.wallets[i]).wallet_id == wallet ==> {
            &&& ledger.wallets[i].balance.wf()
            &&& ledger.wallets[i].balance.dust_total() == ledger.balance_of(wallet)
        }
}

/// Refreshing a wallet sets its cached balance right and leaves right what
/// was right of any other wallet.
pub proof fn lemma_refreshed_caches(ledger: LedgerView, wallet: Seq<char>, now: i64, other: Seq<
    char,
>)
    requires
        i128::MIN <= units_of(ledger.balance_of(wallet)) <= i128::MAX,
    ensures
        cached_right(refreshed(ledger, wallet, now), wallet),
        cached_right(ledger, other) ==> cached_right(refreshed(ledger, wallet, now), other),
{
    let after = refreshed(ledger, wallet, now);
    lemma_value_holds(ledger.balance_of(wallet));
    assert(after.balance_of(wallet) == ledger.balance_of(wallet));
    assert(after.balance_of(other) == ledger.balance_of(other));
    assert forall|i: int|
        0 <= i < after.wallets.len() && (#[trigger] after.wallets[i]).wallet_id == wallet implies {
        &&& after.wallets[i].balance.wf()
        &&& after.wallets[i].balance.dust_total() == after.balance_of(wallet)
    } by {
        assert(ledger.wallets[i].wallet_id == wallet);
    }
    if cached_right(ledger, other) && other != wallet {
        assert forall|i: int|
            0 <= i < after.wallets.len() && (#[trigger] after.wallets[i]).wallet_id
                == other implies {
            &&& after.wallets[i].balance.wf()
            &&& after.wallets[i].balance.dust_total() == after.balance_of(other)
        } by {
            assert(ledger.wallets[i].wallet_id == other);
            assert(after.wallets[i] == ledger.wallets[i]);
        }
    }
}

/// Recomputes the balance of a wallet and stores it as its cached balance.
/// This is what remains to be done for a sender whose transaction failed to
/// settle.
pub fn release_reserved_utxos_internal(ledger: &mut Ledger, wallet_id: &str, now: i64) -> (balance:
    Value)
    requires
        old(ledger).wf(),
    ensures
        balance.wf(),
        balance.dust_total() == old(ledger)@.balance_of(wallet_id@),
        final(ledger)@ == refreshed(old(ledger)@, wallet_id@, now),
        final(ledger).wf(),
        cached_right(final(ledger)@, wallet_id@),
        forall|other: Seq<char>|
            cached_right(old(ledger)@, other) ==> #[trigger] cached_right(final(ledger)@, other),
{
    let updated_balance = calculate_wallet_balance(ledger, wallet_id);
    update_wallet_balance(ledger, wallet_id, updated_balance, now);
    proof {
        assert(units_of(old(ledger)@.balance_of(wallet_id@)) == updated_balance.units);
        lemma_refreshed_caches(old(ledger)@, wallet_id@, now, wallet_id@);
        assert forall|other: Seq<char>| cached_right(old(ledger)@, other) implies #[trigger] cached_right(
            ledger@,
            other,
        ) by {
            lemma_refreshed_caches(old(ledger)@, wallet_id@, now, other);
        }
    }
    updated_balance
}

/// What the sender's spendable outputs hold for `transaction`, as the greedy
/// walk gathers it.
fn gather_for(ledger: &Ledger, transaction: &PendingTransaction) -> (total: Value)
    requires
        ledger.wf(),
        transaction.amount >= 0,
        transaction.fee >= 0,
    ensures
        total.wf(),
        total.dust_total() == selected_total(ledger@.utxos, transaction@),
{
    let required: i128 = transaction.amount as i128 + transaction.fee as i128;
    let mut total = Value::zero();
    let mut i: usize = 0;
    while i < ledger.utxos.len()
        invariant
            i <= ledger.utxos.len(),
            ledger.wf(),
            in_dust(required as int, 0) == required_for(transaction@),
            required >= 0,
            total.wf(),
            0 <= total.units <= i * 0x8000_0000_0000_0000,
            total.dust_total() == gathered(
                ledger@.utxos,
                transaction@.sender_wallet_id,
                required_for(transaction@),
                i as int,
            ),
        decreases ledger.utxos.len() - i,
    {
        let utxo = &ledger.utxos[i];
        proof {
            assert(ledger@.utxos[i as int] == utxo@);
            assert(ledger@.utxos[i as int].wf());
        }
        if total.is_below(required) && !utxo.is_spent && str_eq(
            utxo.wallet_id.as_str(),
            transaction.sender_wallet_id.as_str(),
        ) {
            total = total.plus(utxo.amount as i128, utxo.dust);
        }
        i += 1;
    }
    total
}

/// Spends the outputs that the greedy walk takes for `transaction`.
fn spend_taken(ledger: &mut Ledger, transaction: &PendingTransaction, now: i64)
    requires
        old(ledger).wf(),
        transaction.amount >= 0,
        transaction.fee >= 0,
    ensures
        final(ledger)@ == (LedgerView {
            utxos: with_taken_spent(
                old(ledger)@.utxos,
                transaction@.sender_wallet_id,
                required_for(transaction@),
                now,
            ),
            ..old(ledger)@
        }),
{
    let ghost before = ledger@.utxos;
    let ghost wallet = transaction@.sender_wallet_id;
    let required: i128 = transaction.amount as i128 + transaction.fee as i128;
    let ghost needed = required_for(transaction@);
    let mut running = Value::zero();
    let mut i: usize = 0;
    while i < ledger.utxos.len()
        invariant
            i <= ledger.utxos.len(),
            ledger.utxos.len() == before.len(),
            before == old(ledger)@.utxos,
            old(ledger).wf(),
            wallet == transaction@.sender_wallet_id,
            needed == required_for(transaction@),
            needed == in_dust(required as int, 0),
            required >= 0,
            running.wf(),
            0 <= running.units <= i * 0x8000_0000_0000_0000,
            running.dust_total() == gathered(before, wallet, needed, i as int),
            ledger@ == (LedgerView { utxos: ledger@.utxos, ..old(ledger)@ }),
            forall|j: int|
                0 <= j < i ==> #[trigger] ledger@.utxos[j] == with_taken_spent(
                    before,
                    wallet,
                    needed,
                    now,
                )[j],
            forall|j: int| i <= j < before.len() ==> #[trigger] ledger@.utxos[j] == before[j],
        decreases ledger.utxos.len() - i,
    {
        proof {
            assert(ledger@.utxos[i as int] == ledger.utxos@[i as int]@);
            assert(ledger@.utxos[i as int] == before[i as int]);
            assert(before[i as int].wf());
        }
        if running.is_below(required) && !ledger.utxos[i].is_spent && str_eq(
            ledger.utxos[i].wallet_id.as_str(),
            transaction.sender_wallet_id.as_str(),
        ) {
            let mut utxo = ledger.utxos[i].clone();
            running = running.plus(utxo.amount as i128, utxo.dust);
            utxo.is_spent = true;
            utxo.spent_at = Some(now);
            proof {
                lemma_views_update(ledger.utxos@, i as int, utxo);
            }
            ledger.utxos.set(i, utxo);
        }
        i += 1;
    }
    proof {
        assert(ledger@.utxos =~= with_taken_spent(before, wallet, needed, now));
    }
}

/// Settles one transaction on the outputs. The sender's unspent outputs are
/// taken, the oldest first, until they cover the amount and the fee. Where
/// they do not, nothing changes. Where they do, the taken outputs are spent,
/// the receiver gets an output of the amount, the sender one of the change
/// if any is left, and the cached balances of both are recomputed. Returns
/// the fee, which is owed to whoever assembles the block.
pub fn update_utxos_for_transaction(ledger: &mut Ledger, transaction: &PendingTransaction, now: i64)
    -> (fee: Result<i64, SettlementError>)
    requires
        old(ledger).wf(),
        transaction.amount >= 0,
        transaction.fee >= 0,
    ensures
        final(ledger).wf(),
        match fee {
            Ok(paid) => {
                &&& can_settle(old(ledger)@.utxos, transaction@)
                &&& paid == transaction.fee
                &&& final(ledger)@ == settled(old(ledger)@, transaction@, now)
                &&& circulating(final(ledger)@.utxos) == circulating(old(ledger)@.utxos) - in_dust(
                    paid as int,
                    0,
                )
            },
            Err(_) => {
                &&& !can_settle(old(ledger)@.utxos, transaction@)
                &&& final(ledger)@ == old(ledger)@
            },
        },
{
    let total_required: i128 = transaction.amount as i128 + transaction.fee as i128;
    let total = gather_for(ledger, transaction);
    if total.is_below(total_required) {
        return Err(SettlementError::InsufficientUtxos);
    }
    proof {
        lemma_settlement_conserves(ledger@.utxos, transaction@, ledger.next_id, now);
        lemma_settled_outputs_wf(ledger@.utxos, transaction@, ledger.next_id, now);
    }
    let change = total.less(total_required);
    proof {
        lemma_value_of(change);
    }
    spend_taken(ledger, transaction, now);
    create_utxo(
        ledger,
        transaction.receiver_wallet_id.as_str(),
        transaction.amount,
        transaction.transaction_hash.as_str(),
        0,
        now,
    );
    if change.is_positive() {
        create_output(
            ledger,
            transaction.sender_wallet_id.as_str(),
            change.units as i64,
            change.dust,
            transaction.transaction_hash.as_str(),
            1,
            now,
        );
    }
    proof {
        assert(ledger@.utxos =~= settled_utxos(
            old(ledger)@.utxos,
            transaction@,
            old(ledger).next_id,
            now,
        ));
    }
    let sender_balance = calculate_wallet_balance(ledger, transaction.sender_wallet_id.as_str());
    let receiver_balance = calculate_wallet_balance(
        ledger,
        transaction.receiver_wallet_id.as_str(),
    );
    update_wallet_balance(ledger, transaction.sender_wallet_id.as_str(), sender_balance, now);
    update_wallet_balance(ledger, transaction.receiver_wallet_id.as_str(), receiver_balance, now);
    Ok(transaction.fee)
}

} // verus!
