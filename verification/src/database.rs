//! The store of the ledger: wallets, outputs, blocks, the pending pool and the
//! confirmed transactions, held in memory in the order in which they were
//! made, the oldest first.

use crate::models::{
    views, Block, BlockView, PendingTransaction, PendingView, Transaction, TransactionLog,
    TransactionLogView, TransactionView, User, UserView, UtxoView, Wallet, WalletView, ZakatRecord,
    ZakatRecordView, UTXO,
};
use crate::value::{in_dust, Value, DUST_PER_UNIT};
use vstd::prelude::*;

pub mod queries;

verus! {

/// Everything the ledger keeps. Each list is in the order of creation.
#[derive(Debug)]
pub struct Ledger {
    pub users: Vec<User>,
    pub wallets: Vec<Wallet>,
    pub utxos: Vec<UTXO>,
    pub blocks: Vec<Block>,
    pub pending_transactions: Vec<PendingTransaction>,
    pub transactions: Vec<Transaction>,
    pub zakat_records: Vec<ZakatRecord>,
    pub transaction_logs: Vec<TransactionLog>,
    /// The identifier of the next record that the store makes.
    pub next_id: u128,
    /// The block rewards issued so far, without the fees that were paid out
    /// with them.
    pub total_issued: Value,
}

/// What a `Ledger` holds.
pub struct LedgerView {
    pub users: Seq<UserView>,
    pub wallets: Seq<WalletView>,
    pub utxos: Seq<UtxoView>,
    pub blocks: Seq<BlockView>,
    pub pending_transactions: Seq<PendingView>,
    pub transactions: Seq<TransactionView>,
    pub zakat_records: Seq<ZakatRecordView>,
    pub transaction_logs: Seq<TransactionLogView>,
    pub next_id: u128,
    pub total_issued: Value,
}

impl View for Ledger {
    type V = LedgerView;

    open spec fn view(&self) -> LedgerView {
        LedgerView {
            users: views(self.users@),
            wallets: views(self.wallets@),
            utxos: views(self.utxos@),
            blocks: views(self.blocks@),
            pending_transactions: views(self.pending_transactions@),
            transactions: views(self.transactions@),
            zakat_records: views(self.zakat_records@),
            transaction_logs: views(self.transaction_logs@),
            next_id: self.next_id,
            total_issued: self.total_issued,
        }
    }
}

impl Clone for Ledger {
    fn clone(&self) -> (copy: Self)
        ensures
            copy@ == self@,
    {
        let users = self.users.clone();
        let wallets = self.wallets.clone();
        let utxos = self.utxos.clone();
        let blocks = self.blocks.clone();
        let pending_transactions = self.pending_transactions.clone();
        let transactions = self.transactions.clone();
        let zakat_records = self.zakat_records.clone();
        let transaction_logs = self.transaction_logs.clone();
        proof {
            assert(users@ =~= self.users@);
            assert(wallets@ =~= self.wallets@);
            assert(utxos@ =~= self.utxos@);
            assert(pending_transactions@ =~= self.pending_transactions@);
            assert(transactions@ =~= self.transactions@);
            assert(zakat_records@ =~= self.zakat_records@);
            assert(transaction_logs@ =~= self.transaction_logs@);
            assert(views(blocks@) =~= views(self.blocks@));
        }
        Ledger {
            users,
            wallets,
            utxos,
            blocks,
            pending_transactions,
            transactions,
            zakat_records,
            transaction_logs,
            next_id: self.next_id,
            total_issued: self.total_issued,
        }
    }
}

/// The identifier that follows `id`; after the greatest comes zero.
pub open spec fn next_id_after(id: u128) -> u128 {
    if id == u128::MAX {
        0
    } else {
        (id + 1) as u128
    }
}

/// Whether an output can be spent by `wallet`: it belongs to it and is not
/// spent.
pub open spec fn spendable(utxo: UtxoView, wallet: Seq<char>) -> bool {
    utxo.wallet_id == wallet && !utxo.is_spent
}

/// The sum of the unspent outputs of `wallet`, in dust.
pub open spec fn unspent_total(utxos: Seq<UtxoView>, wallet: Seq<char>) -> int
    decreases utxos.len(),
{
    if utxos.len() == 0 {
        0
    } else {
        unspent_total(utxos.drop_last(), wallet) + if spendable(utxos.last(), wallet) {
            utxos.last().value()
        } else {
            0
        }
    }
}

/// The sum of the amounts of the pending transactions that `wallet` sends,
/// in base units.
pub open spec fn pending_total(pending: Seq<PendingView>, wallet: Seq<char>) -> int
    decreases pending.len(),
{
    if pending.len() == 0 {
        0
    } else {
        pending_total(pending.drop_last(), wallet) + if pending.last().sender_wallet_id == wallet {
            pending.last().amount as int
        } else {
            0
        }
    }
}

/// The sum of all unspent outputs, whoever owns them: the value in
/// circulation, in dust.
pub open spec fn circulating(utxos: Seq<UtxoView>) -> int
    decreases utxos.len(),
{
    if utxos.len() == 0 {
        0
    } else {
        circulating(utxos.drop_last()) + if !utxos.last().is_spent {
            utxos.last().value()
        } else {
            0
        }
    }
}

impl LedgerView {
    /// The balance of `wallet`, in dust: its unspent outputs less what it
    /// sends in the pending pool.
    pub open spec fn balance_of(self, wallet: Seq<char>) -> int {
        unspent_total(self.utxos, wallet) - in_dust(
            pending_total(self.pending_transactions, wallet),
            0,
        )
    }

    /// Whether no output and no pending transaction holds a negative amount,
    /// and every output, every cached balance and the rewards issued dust
    /// of less than one base unit.
    pub open spec fn wf(self) -> bool {
        &&& self.total_issued.wf()
        &&& forall|i: int| 0 <= i < self.wallets.len() ==> (#[trigger] self.wallets[i]).balance.wf()
        &&& forall|i: int| 0 <= i < self.utxos.len() ==> (#[trigger] self.utxos[i]).wf()
        &&& forall|i: int|
            0 <= i < self.pending_transactions.len() ==> {
                &&& (#[trigger] self.pending_transactions[i]).amount >= 0
                &&& self.pending_transactions[i].fee >= 0
            }
    }
}

impl Ledger {
    /// Whether no output and no pending transaction holds a negative amount,
    /// and every output, every cached balance and the rewards issued dust
    /// of less than one base unit.
    pub open spec fn wf(self) -> bool {
        self@.wf()
    }

    /// A store with nothing in it.
    pub fn new() -> (ledger: Ledger)
        ensures
            ledger.wf(),
            ledger@.users.len() == 0,
            ledger@.wallets.len() == 0,
            ledger@.utxos.len() == 0,
            ledger@.blocks.len() == 0,
            ledger@.pending_transactions.len() == 0,
            ledger@.transactions.len() == 0,
            ledger@.zakat_records.len() == 0,
            ledger@.transaction_logs.len() == 0,
            ledger@.next_id == 1,
            ledger@.total_issued == (Value { units: 0, dust: 0 }),
    {
        Ledger {
            users: Vec::new(),
            wallets: Vec::new(),
            utxos: Vec::new(),
            blocks: Vec::new(),
            pending_transactions: Vec::new(),
            transactions: Vec::new(),
            zakat_records: Vec::new(),
            transaction_logs: Vec::new(),
            next_id: 1,
            total_issued: Value::zero(),
        }
    }

    /// Tests `wf`.
    pub fn is_valid(&self) -> (valid: bool)
        ensures
            valid == self.wf(),
    {
        if !self.total_issued.is_valid() {
            return false;
        }
        let mut w: usize = 0;
        while w < self.wallets.len()
            invariant
                w <= self.wallets.len(),
                forall|j: int| 0 <= j < w ==> (#[trigger] self@.wallets[j]).balance.wf(),
            decreases self.wallets.len() - w,
        {
            if !self.wallets[w].balance.is_valid() {
                proof {
                    assert(!self@.wallets[w as int].balance.wf());
                }
                return false;
            }
            w += 1;
        }
        let mut i: usize = 0;
        while i < self.utxos.len()
            invariant
                i <= self.utxos.len(),
                self.total_issued.wf(),
                forall|j: int| 0 <= j < self@.wallets.len() ==> (#[trigger] self@.wallets[j]).balance.wf(),
                forall|j: int| 0 <= j < i ==> (#[trigger] self@.utxos[j]).wf(),
            decreases self.utxos.len() - i,
        {
            if self.utxos[i].amount < 0 || self.utxos[i].dust >= DUST_PER_UNIT {
                proof {
                    assert(!self@.utxos[i as int].wf());
                }
                return false;
            }
            i += 1;
        }
        let mut k: usize = 0;
        while k < self.pending_transactions.len()
            invariant
                k <= self.pending_transactions.len(),
                self.total_issued.wf(),
                forall|j: int| 0 <= j < self@.wallets.len() ==> (#[trigger] self@.wallets[j]).balance.wf(),
                forall|j: int| 0 <= j < self@.utxos.len() ==> (#[trigger] self@.utxos[j]).wf(),
                forall|j: int|
                    0 <= j < k ==> {
                        &&& (#[trigger] self@.pending_transactions[j]).amount >= 0
                        &&& self@.pending_transactions[j].fee >= 0
                    },
            decreases self.pending_transactions.len() - k,
        {
            if self.pending_transactions[k].amount < 0 || self.pending_transactions[k].fee < 0 {
                proof {
                    let p = self@.pending_transactions[k as int];
                    assert(p.amount < 0 || p.fee < 0);
                }
                return false;
            }
            k += 1;
        }
        true
    }
}

/// A sum of `n` outputs that hold no negative amount is not negative and
/// less than `n` times 2^63 base units.
pub proof fn lemma_unspent_total_bounds(utxos: Seq<UtxoView>, wallet: Seq<char>)
    requires
        forall|i: int| 0 <= i < utxos.len() ==> (#[trigger] utxos[i]).wf(),
    ensures
        0 <= unspent_total(utxos, wallet) <= in_dust(utxos.len() as int * 0x8000_0000_0000_0000, 0),
    decreases utxos.len(),
{
    if utxos.len() > 0 {
        assert forall|i: int| 0 <= i < utxos.drop_last().len() implies (
        #[trigger] utxos.drop_last()[i]).wf() by {
            assert(utxos.drop_last()[i] == utxos[i]);
        }
        lemma_unspent_total_bounds(utxos.drop_last(), wallet);
        assert(utxos.last() == utxos[utxos.len() - 1]);
        assert(utxos.last().wf());
        assert(utxos.len() * 0x8000_0000_0000_0000 == utxos.drop_last().len()
            * 0x8000_0000_0000_0000 + 0x8000_0000_0000_0000);
    }
}

/// A sum of `n` pending amounts lies within `n` times the range of an amount.
pub proof fn lemma_pending_total_bounds(pending: Seq<PendingView>, wallet: Seq<char>)
    ensures
        -(pending.len() * 0x8000_0000_0000_0000) <= pending_total(pending, wallet) <= pending.len()
            * 0x7fff_ffff_ffff_ffff,
        (forall|i: int| 0 <= i < pending.len() ==> (#[trigger] pending[i]).amount >= 0)
            ==> pending_total(pending, wallet) >= 0,
    decreases pending.len(),
{
    if pending.len() > 0 {
        lemma_pending_total_bounds(pending.drop_last(), wallet);
        if forall|i: int| 0 <= i < pending.len() ==> (#[trigger] pending[i]).amount >= 0 {
            assert forall|i: int| 0 <= i < pending.drop_last().len() implies (
            #[trigger] pending.drop_last()[i]).amount >= 0 by {
                assert(pending.drop_last()[i] == pending[i]);
            }
            assert(pending.last() == pending[pending.len() - 1]);
        }
    }
}

} // verus!
