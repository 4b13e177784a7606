//! The operations of the store: what the ledger reads and writes.

use crate::database::{next_id_after, spendable, Ledger, LedgerView};
use crate::models::{
    clone_text, lemma_views_push, lemma_views_update, text_view, views, Block, BlockView,
    PendingTransaction, PendingView, Transaction, TransactionLog, TransactionLogView,
    TransactionView, User, UserView, UtxoView, Wallet, WalletView, UTXO,
};
use crate::text::str_eq;
use crate::value::Value;
use vstd::prelude::*;

verus! {

/// Takes the next identifier of the store.
pub fn allocate_id(ledger: &mut Ledger) -> (id: u128)
    ensures
        id == old(ledger).next_id,
        final(ledger)@ == (LedgerView { next_id: next_id_after(id), ..old(ledger)@ }),
        final(ledger).users == old(ledger).users,
        final(ledger).wallets == old(ledger).wallets,
        final(ledger).utxos == old(ledger).utxos,
        final(ledger).blocks == old(ledger).blocks,
        final(ledger).pending_transactions == old(ledger).pending_transactions,
        final(ledger).transactions == old(ledger).transactions,
        final(ledger).zakat_records == old(ledger).zakat_records,
        final(ledger).transaction_logs == old(ledger).transaction_logs,
{
    let id = ledger.next_id;
    ledger.next_id = if id == u128::MAX {
        0
    } else {
        id + 1
    };
    id
}

/// Whether `i` is the place of the first user with the identifier `id`.
pub open spec fn is_first_user(users: Seq<UserView>, id: u128, i: int) -> bool {
    &&& 0 <= i < users.len()
    &&& users[i].id == id
    &&& forall|j: int| 0 <= j < i ==> (#[trigger] users[j]).id != id
}

/// The first user with the identifier `user_id`, if there is one.
pub fn find_user_by_id(ledger: &Ledger, user_id: u128) -> (user: Option<User>)
    ensures
        match user {
            Some(u) => exists|i: int|
                #[trigger] is_first_user(ledger@.users, user_id, i) && u@ == ledger@.users[i],
            None => forall|i: int|
                0 <= i < ledger@.users.len() ==> (#[trigger] ledger@.users[i]).id != user_id,
        },
{
    let mut i: usize = 0;
    while i < ledger.users.len()
        invariant
            i <= ledger.users.len(),
            forall|j: int| 0 <= j < i ==> (#[trigger] ledger@.users[j]).id != user_id,
        decreases ledger.users.len() - i,
    {
        if ledger.users[i].id == user_id {
            let user = ledger.users[i].clone();
            proof {
                assert(is_first_user(ledger@.users, user_id, i as int));
            }
            return Some(user);
        }
        i += 1;
    }
    None
}

/// The wallet that `create_wallet` makes: empty, never levied.
pub open spec fn new_wallet(wallet_id: Seq<char>, user_id: Option<u128>, now: i64) -> WalletView {
    WalletView {
        wallet_id,
        user_id,
        balance: Value { units: 0, dust: 0 },
        last_zakat_date: None,
        created_at: now,
        updated_at: now,
    }
}

/// Adds an empty wallet to the store.
pub fn create_wallet(ledger: &mut Ledger, wallet_id: &str, user_id: Option<u128>, now: i64) -> (wallet:
    Wallet)
    ensures
        wallet@ == new_wallet(wallet_id@, user_id, now),
        final(ledger)@ == (LedgerView {
            wallets: old(ledger)@.wallets.push(wallet@),
            ..old(ledger)@
        }),
{
    let wallet = Wallet {
        wallet_id: wallet_id.to_owned(),
        user_id,
        balance: Value { units: 0, dust: 0 },
        last_zakat_date: None,
        created_at: now,
        updated_at: now,
    };
    proof {
        lemma_views_push(ledger.wallets@, wallet);
    }
    ledger.wallets.push(wallet.clone());
    wallet
}

/// Whether `i` is the place of the first wallet with the identifier `id`.
pub open spec fn is_first_wallet(wallets: Seq<WalletView>, id: Seq<char>, i: int) -> bool {
    &&& 0 <= i < wallets.len()
    &&& wallets[i].wallet_id == id
    &&& forall|j: int| 0 <= j < i ==> (#[trigger] wallets[j]).wallet_id != id
}

/// Whether the store holds a wallet with the identifier `id`.
pub open spec fn has_wallet(wallets: Seq<WalletView>, id: Seq<char>) -> bool {
    exists|i: int| 0 <= i < wallets.len() && (#[trigger] wallets[i]).wallet_id == id
}

/// The first wallet with the identifier `wallet_id`, if there is one.
pub fn get_wallet(ledger: &Ledger, wallet_id: &str) -> (wallet: Option<Wallet>)
    ensures
        wallet is Some <==> has_wallet(ledger@.wallets, wallet_id@),
        wallet is Some ==> exists|i: int|
            #[trigger] is_first_wallet(ledger@.wallets, wallet_id@, i) && wallet->0@
                == ledger@.wallets[i],
{
    let mut i: usize = 0;
    while i < ledger.wallets.len()
        invariant
            i <= ledger.wallets.len(),
            forall|j: int| 0 <= j < i ==> (#[trigger] ledger@.wallets[j]).wallet_id != wallet_id@,
        decreases ledger.wallets.len() - i,
    {
        if str_eq(ledger.wallets[i].wallet_id.as_str(), wallet_id) {
            let wallet = ledger.wallets[i].clone();
            proof {
                assert(ledger@.wallets[i as int].wallet_id == wallet_id@);
                assert(is_first_wallet(ledger@.wallets, wallet_id@, i as int));
            }
            return Some(wallet);
        }
        i += 1;
    }
    None
}

/// The wallets after the balance of every wallet with the identifier `id`
/// was set to `balance` at the time `now`.
pub open spec fn with_balance(wallets: Seq<WalletView>, id: Seq<char>, balance: Value, now: i64)
    -> Seq<WalletView> {
    Seq::new(
        wallets.len(),
        |i: int|
            if wallets[i].wallet_id == id {
                WalletView { balance, updated_at: now, ..wallets[i] }
            } else {
                wallets[i]
            },
    )
}

/// Sets the cached balance of the wallet `wallet_id`. A store without that
/// wallet stays as it is.
pub fn update_wallet_balance(ledger: &mut Ledger, wallet_id: &str, new_balance: Value, now: i64)
    ensures
        final(ledger)@ == (LedgerView {
            wallets: with_balance(old(ledger)@.wallets, wallet_id@, new_balance, now),
            ..old(ledger)@
        }),
{
    let ghost before = ledger@.wallets;
    let mut i: usize = 0;
    while i < ledger.wallets.len()
        invariant
            i <= ledger.wallets.len(),
            ledger.wallets.len() == before.len(),
            ledger@ == (LedgerView { wallets: ledger@.wallets, ..old(ledger)@ }),
            forall|j: int|
                0 <= j < i ==> #[trigger] ledger@.wallets[j] == with_balance(
                    before,
                    wallet_id@,
                    new_balance,
                    now,
                )[j],
            forall|j: int| i <= j < before.len() ==> #[trigger] ledger@.wallets[j] == before[j],
        decreases ledger.wallets.len() - i,
    {
        proof {
            assert(ledger@.wallets[i as int] == ledger.wallets@[i as int]@);
            assert(ledger@.wallets[i as int] == before[i as int]);
        }
        if str_eq(ledger.wallets[i].wallet_id.as_str(), wallet_id) {
            let mut wallet = ledger.wallets[i].clone();
            wallet.balance = new_balance;
            wallet.updated_at = now;
            proof {
                lemma_views_update(ledger.wallets@, i as int, wallet);
            }
            ledger.wallets.set(i, wallet);
        }
        i += 1;
    }
    proof {
        assert(ledger@.wallets =~= with_balance(before, wallet_id@, new_balance, now));
    }
}

/// The wallets after every wallet with the identifier `id` was marked as
/// levied at the time `now`.
pub open spec fn with_zakat_date(wallets: Seq<WalletView>, id: Seq<char>, now: i64) -> Seq<
    WalletView,
> {
    Seq::new(
        wallets.len(),
        |i: int|
            if wallets[i].wallet_id == id {
                WalletView { last_zakat_date: Some(now), ..wallets[i] }
            } else {
                wallets[i]
            },
    )
}

/// Marks the wallet `wallet_id` as levied at the time `now`.
pub fn update_last_zakat_date(ledger: &mut Ledger, wallet_id: &str, now: i64)
    ensures
        final(ledger)@ == (LedgerView {
            wallets: with_zakat_date(old(ledger)@.wallets, wallet_id@, now),
            ..old(ledger)@
        }),
{
    let ghost before = ledger@.wallets;
    let mut i: usize = 0;
    while i < ledger.wallets.len()
        invariant
            i <= ledger.wallets.len(),
            ledger.wallets.len() == before.len(),
            ledger@ == (LedgerView { wallets: ledger@.wallets, ..old(ledger)@ }),
            forall|j: int|
                0 <= j < i ==> #[trigger] ledger@.wallets[j] == with_zakat_date(
                    before,
                    wallet_id@,
                    now,
                )[j],
            forall|j: int| i <= j < before.len() ==> #[trigger] ledger@.wallets[j] == before[j],
        decreases ledger.wallets.len() - i,
    {
        proof {
            assert(ledger@.wallets[i as int] == ledger.wallets@[i as int]@);
            assert(ledger@.wallets[i as int] == before[i as int]);
        }
        if str_eq(ledger.wallets[i].wallet_id.as_str(), wallet_id) {
            let mut wallet = ledger.wallets[i].clone();
            wallet.last_zakat_date = Some(now);
            proof {
                lemma_views_update(ledger.wallets@, i as int, wallet);
            }
            ledger.wallets.set(i, wallet);
        }
        i += 1;
    }
    proof {
        assert(ledger@.wallets =~= with_zakat_date(before, wallet_id@, now));
    }
}

/// The output that `create_output` makes: unspent, made at `now`.
pub open spec fn new_output(
    id: u128,
    wallet_id: Seq<char>,
    amount: i64,
    dust: u64,
    transaction_hash: Seq<char>,
    output_index: i32,
    now: i64,
) -> UtxoView {
    UtxoView {
        id,
        wallet_id,
        amount,
        dust,
        transaction_hash,
        output_index,
        is_spent: false,
        created_at: now,
        spent_at: None,
    }
}

/// The output that `create_utxo` makes: one of whole base units.
pub open spec fn new_utxo(
    id: u128,
    wallet_id: Seq<char>,
    amount: i64,
    transaction_hash: Seq<char>,
    output_index: i32,
    now: i64,
) -> UtxoView {
    new_output(id, wallet_id, amount, 0, transaction_hash, output_index, now)
}

/// Adds an unspent output of `amount` base units and `dust` dust to the
/// store, under the store's next identifier.
pub fn create_output(
    ledger: &mut Ledger,
    wallet_id: &str,
    amount: i64,
    dust: u64,
    transaction_hash: &str,
    output_index: i32,
    now: i64,
) -> (utxo: UTXO)
    ensures
        utxo@ == new_output(
            old(ledger).next_id,
            wallet_id@,
            amount,
            dust,
            transaction_hash@,
            output_index,
            now,
        ),
        final(ledger)@ == (LedgerView {
            utxos: old(ledger)@.utxos.push(utxo@),
            next_id: next_id_after(old(ledger).next_id),
            ..old(ledger)@
        }),
{
    let id = allocate_id(ledger);
    let utxo = UTXO {
        id,
        wallet_id: wallet_id.to_owned(),
        amount,
        dust,
        transaction_hash: transaction_hash.to_owned(),
        output_index,
        is_spent: false,
        created_at: now,
        spent_at: None,
    };
    proof {
        lemma_views_push(ledger.utxos@, utxo);
    }
    ledger.utxos.push(utxo.clone());
    utxo
}

/// Adds an unspent output of whole base units to the store, under the
/// store's next identifier.
pub fn create_utxo(
    ledger: &mut Ledger,
    wallet_id: &str,
    amount: i64,
    transaction_hash: &str,
    output_index: i32,
    now: i64,
) -> (utxo: UTXO)
    ensures
        utxo@ == new_utxo(
            old(ledger).next_id,
            wallet_id@,
            amount,
            transaction_hash@,
            output_index,
            now,
        ),
        final(ledger)@ == (LedgerView {
            utxos: old(ledger)@.utxos.push(utxo@),
            next_id: next_id_after(old(ledger).next_id),
            ..old(ledger)@
        }),
{
    create_output(ledger, wallet_id, amount, 0, transaction_hash, output_index, now)
}

/// The unspent outputs of `wallet` among `utxos`, in their order.
pub open spec fn unspent_of(utxos: Seq<UtxoView>, wallet: Seq<char>) -> Seq<UtxoView>
    decreases utxos.len(),
{
    if utxos.len() == 0 {
        Seq::empty()
    } else if spendable(utxos.last(), wallet) {
        unspent_of(utxos.drop_last(), wallet).push(utxos.last())
    } else {
        unspent_of(utxos.drop_last(), wallet)
    }
}

/// The unspent outputs of the wallet `wallet_id`, the oldest first.
pub fn get_unspent_utxos(ledger: &Ledger, wallet_id: &str) -> (utxos: Vec<UTXO>)
    ensures
        views(utxos@) == unspent_of(ledger@.utxos, wallet_id@),
{
    let mut found: Vec<UTXO> = Vec::new();
    let mut i: usize = 0;
    proof {
        assert(ledger@.utxos.subrange(0, 0) =~= Seq::empty());
        assert(views(found@) =~= Seq::empty());
    }
    while i < ledger.utxos.len()
        invariant
            i <= ledger.utxos.len(),
            views(found@) == unspent_of(ledger@.utxos.subrange(0, i as int), wallet_id@),
        decreases ledger.utxos.len() - i,
    {
        let utxo = &ledger.utxos[i];
        proof {
            let next = ledger@.utxos.subrange(0, i + 1);
            assert(next.drop_last() =~= ledger@.utxos.subrange(0, i as int));
            assert(next.last() == utxo@);
        }
        if !utxo.is_spent && str_eq(utxo.wallet_id.as_str(), wallet_id) {
            proof {
                lemma_views_push(found@, *utxo);
            }
            found.push(utxo.clone());
        }
        i += 1;
    }
    proof {
        assert(ledger@.utxos.subrange(0, i as int) =~= ledger@.utxos);
    }
    found
}

/// An output once it is spent at the time `now`.
pub open spec fn spent(utxo: UtxoView, now: i64) -> UtxoView {
    UtxoView { is_spent: true, spent_at: Some(now), ..utxo }
}

/// The outputs after every output with the identifier `id` was spent.
pub open spec fn with_spent(utxos: Seq<UtxoView>, id: u128, now: i64) -> Seq<UtxoView> {
    Seq::new(
        utxos.len(),
        |i: int|
            if utxos[i].id == id {
                spent(utxos[i], now)
            } else {
                utxos[i]
            },
    )
}

/// Marks the output `utxo_id` as spent at the time `now`.
pub fn mark_utxo_spent(ledger: &mut Ledger, utxo_id: u128, now: i64)
    ensures
        final(ledger)@ == (LedgerView {
            utxos: with_spent(old(ledger)@.utxos, utxo_id, now),
            ..old(ledger)@
        }),
{
    let ghost before = ledger@.utxos;
    let mut i: usize = 0;
    while i < ledger.utxos.len()
        invariant
            i <= ledger.utxos.len(),
            ledger.utxos.len() == before.len(),
            ledger@ == (LedgerView { utxos: ledger@.utxos, ..old(ledger)@ }),
            forall|j: int|
                0 <= j < i ==> #[trigger] ledger@.utxos[j] == with_spent(before, utxo_id, now)[j],
            forall|j: int| i <= j < before.len() ==> #[trigger] ledger@.utxos[j] == before[j],
        decreases ledger.utxos.len() - i,
    {
        proof {
            assert(ledger@.utxos[i as int] == ledger.utxos@[i as int]@);
            assert(ledger@.utxos[i as int] == before[i as int]);
        }
        if ledger.utxos[i].id == utxo_id {
            let mut utxo = ledger.utxos[i].clone();
            utxo.is_spent = true;
            utxo.spent_at = Some(now);
            proof {
                lemma_views_update(ledger.utxos@, i as int, utxo);
            }
            ledger.utxos.set(i, utxo);
        }
        i += 1;
    }
    proof {
        assert(ledger@.utxos =~= with_spent(before, utxo_id, now));
    }
}

/// Adds a block to the store.
pub fn create_block(ledger: &mut Ledger, block: &Block)
    ensures
        final(ledger)@ == (LedgerView { blocks: old(ledger)@.blocks.push(block@), ..old(ledger)@ }),
{
    let copy = block.clone();
    proof {
        lemma_views_push(ledger.blocks@, copy);
    }
    ledger.blocks.push(copy);
}

/// Whether `i` is the place of the latest block: the first of the blocks of
/// the greatest height.
pub open spec fn is_latest_block(blocks: Seq<BlockView>, i: int) -> bool {
    &&& 0 <= i < blocks.len()
    &&& forall|j: int| 0 <= j < blocks.len() ==> (#[trigger] blocks[j]).index <= blocks[i].index
    &&& forall|j: int| 0 <= j < i ==> (#[trigger] blocks[j]).index < blocks[i].index
}

/// The block of the greatest height; nothing in a store without blocks.
pub fn get_latest_block(ledger: &Ledger) -> (block: Option<Block>)
    ensures
        block is Some <==> ledger@.blocks.len() > 0,
        block is Some ==> exists|i: int|
            #[trigger] is_latest_block(ledger@.blocks, i) && block->0@ == ledger@.blocks[i],
{
    if ledger.blocks.len() == 0 {
        return None;
    }
    let mut best: usize = 0;
    let mut i: usize = 1;
    while i < ledger.blocks.len()
        invariant
            1 <= i <= ledger.blocks.len(),
            best < i,
            forall|j: int|
                0 <= j < i ==> (#[trigger] ledger@.blocks[j]).index <= ledger@.blocks[best as int].index,
            forall|j: int|
                0 <= j < best ==> (#[trigger] ledger@.blocks[j]).index < ledger@.blocks[best as int].index,
        decreases ledger.blocks.len() - i,
    {
        if ledger.blocks[i].index > ledger.blocks[best].index {
            best = i;
        }
        i += 1;
    }
    let block = ledger.blocks[best].clone();
    proof {
        assert(is_latest_block(ledger@.blocks, best as int));
    }
    Some(block)
}

/// Whether `i` is the place of the first block of the height `index`.
pub open spec fn is_first_block_at(blocks: Seq<BlockView>, index: i64, i: int) -> bool {
    &&& 0 <= i < blocks.len()
    &&& blocks[i].index == index
    &&& forall|j: int| 0 <= j < i ==> (#[trigger] blocks[j]).index != index
}

/// The first block of the height `block_index`, if there is one.
pub fn get_block_by_index(ledger: &Ledger, block_index: i64) -> (block: Option<Block>)
    ensures
        match block {
            Some(b) => exists|i: int|
                #[trigger] is_first_block_at(ledger@.blocks, block_index, i) && b@
                    == ledger@.blocks[i],
            None => forall|i: int|
                0 <= i < ledger@.blocks.len() ==> (#[trigger] ledger@.blocks[i]).index
                    != block_index,
        },
{
    let mut i: usize = 0;
    while i < ledger.blocks.len()
        invariant
            i <= ledger.blocks.len(),
            forall|j: int| 0 <= j < i ==> (#[trigger] ledger@.blocks[j]).index != block_index,
        decreases ledger.blocks.len() - i,
    {
        if ledger.blocks[i].index == block_index {
            let block = ledger.blocks[i].clone();
            proof {
                assert(is_first_block_at(ledger@.blocks, block_index, i as int));
            }
            return Some(block);
        }
        i += 1;
    }
    None
}

/// Adds a transaction to the pending pool.
pub fn create_pending_transaction(ledger: &mut Ledger, tx: &PendingTransaction)
    ensures
        final(ledger)@ == (LedgerView {
            pending_transactions: old(ledger)@.pending_transactions.push(tx@),
            ..old(ledger)@
        }),
{
    let copy = tx.clone();
    proof {
        lemma_views_push(ledger.pending_transactions@, copy);
    }
    ledger.pending_transactions.push(copy);
}

/// The pending pool, the oldest transaction first.
pub fn get_pending_transactions(ledger: &Ledger) -> (pending: Vec<PendingTransaction>)
    ensures
        views(pending@) == ledger@.pending_transactions,
{
    let pending = ledger.pending_transactions.clone();
    proof {
        assert(pending@ =~= ledger.pending_transactions@);
    }
    pending
}

/// The pool without the transactions that have the identifier `id`.
pub open spec fn without_pending(pending: Seq<PendingView>, id: u128) -> Seq<PendingView>
    decreases pending.len(),
{
    if pending.len() == 0 {
        Seq::empty()
    } else if pending.last().id == id {
        without_pending(pending.drop_last(), id)
    } else {
        without_pending(pending.drop_last(), id).push(pending.last())
    }
}

/// Takes the transaction `tx_id` out of the pending pool.
pub fn delete_pending_transaction(ledger: &mut Ledger, tx_id: u128)
    ensures
        final(ledger)@ == (LedgerView {
            pending_transactions: without_pending(old(ledger)@.pending_transactions, tx_id),
            ..old(ledger)@
        }),
{
    let mut kept: Vec<PendingTransaction> = Vec::new();
    let mut i: usize = 0;
    proof {
        assert(ledger@.pending_transactions.subrange(0, 0) =~= Seq::empty());
        assert(views(kept@) =~= Seq::empty());
    }
    while i < ledger.pending_transactions.len()
        invariant
            i <= ledger.pending_transactions.len(),
            *ledger == *old(ledger),
            views(kept@) == without_pending(
                ledger@.pending_transactions.subrange(0, i as int),
                tx_id,
            ),
        decreases ledger.pending_transactions.len() - i,
    {
        let tx = &ledger.pending_transactions[i];
        proof {
            let next = ledger@.pending_transactions.subrange(0, i + 1);
            assert(next.drop_last() =~= ledger@.pending_transactions.subrange(0, i as int));
            assert(next.last() == tx@);
        }
        if tx.id != tx_id {
            proof {
                lemma_views_push(kept@, *tx);
            }
            kept.push(tx.clone());
        }
        i += 1;
    }
    proof {
        assert(ledger@.pending_transactions.subrange(0, i as int) =~= ledger@.pending_transactions);
    }
    ledger.pending_transactions = kept;
}

/// The confirmed transaction that a pending one becomes in the block at
/// `block_index`.
pub open spec fn confirmed(
    id: u128,
    tx: PendingView,
    block_index: i64,
    transaction_type: Seq<char>,
    now: i64,
) -> TransactionView {
    TransactionView {
        id,
        transaction_hash: tx.transaction_hash,
        sender_wallet_id: tx.sender_wallet_id,
        receiver_wallet_id: tx.receiver_wallet_id,
        amount: tx.amount,
        note: tx.note,
        signature: tx.signature,
        block_index: Some(block_index),
        transaction_type,
        timestamp: tx.timestamp,
        created_at: now,
    }
}

/// Records a pending transaction as confirmed in the block at `block_index`,
/// under the store's next identifier.
pub fn create_transaction(
    ledger: &mut Ledger,
    tx: &PendingTransaction,
    block_index: i64,
    transaction_type: &str,
    now: i64,
) -> (transaction: Transaction)
    ensures
        transaction@ == confirmed(old(ledger).next_id, tx@, block_index, transaction_type@, now),
        final(ledger)@ == (LedgerView {
            transactions: old(ledger)@.transactions.push(transaction@),
            next_id: next_id_after(old(ledger).next_id),
            ..old(ledger)@
        }),
{
    let id = allocate_id(ledger);
    let transaction = Transaction {
        id,
        transaction_hash: tx.transaction_hash.clone(),
        sender_wallet_id: tx.sender_wallet_id.clone(),
        receiver_wallet_id: tx.receiver_wallet_id.clone(),
        amount: tx.amount,
        note: clone_text(&tx.note),
        signature: tx.signature.clone(),
        block_index: Some(block_index),
        transaction_type: transaction_type.to_owned(),
        timestamp: tx.timestamp,
        created_at: now,
    };
    proof {
        lemma_views_push(ledger.transactions@, transaction);
    }
    ledger.transactions.push(transaction.clone());
    transaction
}

/// Adds a line to the transaction log of a wallet, under the store's next
/// identifier.
pub fn create_transaction_log(
    ledger: &mut Ledger,
    wallet_id: &str,
    action: &str,
    transaction_hash: Option<String>,
    block_hash: Option<String>,
    status: &str,
    ip_address: Option<String>,
    user_agent: Option<String>,
    note: Option<String>,
    now: i64,
)
    ensures
        final(ledger)@ == (LedgerView {
            transaction_logs: old(ledger)@.transaction_logs.push(
                TransactionLogView {
                    id: old(ledger).next_id,
                    wallet_id: wallet_id@,
                    action: action@,
                    transaction_hash: text_view(transaction_hash),
                    block_hash: text_view(block_hash),
                    status: status@,
                    ip_address: text_view(ip_address),
                    user_agent: text_view(user_agent),
                    note: text_view(note),
                    created_at: now,
                },
            ),
            next_id: next_id_after(old(ledger).next_id),
            ..old(ledger)@
        }),
{
    let id = allocate_id(ledger);
    let log = TransactionLog {
        id,
        wallet_id: wallet_id.to_owned(),
        action: action.to_owned(),
        transaction_hash,
        block_hash,
        status: status.to_owned(),
        ip_address,
        user_agent,
        note,
        created_at: now,
    };
    proof {
        lemma_views_push(ledger.transaction_logs@, log);
    }
    ledger.transaction_logs.push(log);
}

} // verus!
