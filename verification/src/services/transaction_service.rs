//! Transfers: what is checked before one enters the pending pool, how it is
//! authorised by the sender's key, and what the pool and the logs hold
//! afterwards.

use crate::blockchain::now;
use crate::config::Config;
use crate::blockchain::is_clock_time;
use crate::crypto::{
    create_transaction_payload, decrypt_private_key, import_private_key_pem,
    import_public_key_pem, lemma_hex_round_trip, opened_private_key, private_key_read,
    public_key_read, rsa_signed, sha256, sha256_hash, sha256_hex, sign_data, signature_verifies,
    signed_text, transaction_payload, verify_signature,
};
use crate::database::queries::{
    create_pending_transaction, create_transaction_log, find_user_by_id, get_wallet, has_wallet,
    is_first_user, is_first_wallet,
};
use crate::database::{next_id_after, Ledger, LedgerView};
use crate::ledger::{calculate_wallet_balance, refreshed, release_reserved_utxos_internal};
use crate::models::{
    clone_text, is_random_id, new_id, text_view, CreateTransactionRequest, PendingTransaction, PendingView,
    TransactionLogView, User, UserView, WalletView,
};
use crate::value::in_dust;
use vstd::prelude::*;
use vstd::string::*;
use vstd::utf8::encode_utf8;

verus! {

/// Why a transfer was not accepted.
#[derive(Debug)]
pub enum TransactionError {
    InvalidWallet(String),
    InsufficientBalance,
    InvalidSignature,
    InvalidAmount,
    DatabaseError(String),
    CryptoError(String),
}

/// What a `TransactionError` holds.
pub enum TransactionErrorView {
    InvalidWallet(Seq<char>),
    InsufficientBalance,
    InvalidSignature,
    InvalidAmount,
    DatabaseError(Seq<char>),
    CryptoError(Seq<char>),
}

impl View for TransactionError {
    type V = TransactionErrorView;

    open spec fn view(&self) -> TransactionErrorView {
        match self {
            TransactionError::InvalidWallet(msg) => TransactionErrorView::InvalidWallet(msg@),
            TransactionError::InsufficientBalance => TransactionErrorView::InsufficientBalance,
            TransactionError::InvalidSignature => TransactionErrorView::InvalidSignature,
            TransactionError::InvalidAmount => TransactionErrorView::InvalidAmount,
            TransactionError::DatabaseError(msg) => TransactionErrorView::DatabaseError(msg@),
            TransactionError::CryptoError(msg) => TransactionErrorView::CryptoError(msg@),
        }
    }
}

impl TransactionErrorView {
    /// The error as one line of text.
    pub open spec fn text(self) -> Seq<char> {
        match self {
            TransactionErrorView::InvalidWallet(msg) => "Invalid wallet: "@ + msg,
            TransactionErrorView::InsufficientBalance => "Insufficient balance"@,
            TransactionErrorView::InvalidSignature => "Invalid signature"@,
            TransactionErrorView::InvalidAmount => "Invalid amount"@,
            TransactionErrorView::DatabaseError(msg) => "Database error: "@ + msg,
            TransactionErrorView::CryptoError(msg) => "Crypto error: "@ + msg,
        }
    }
}

impl TransactionError {
    /// The error as one line of text.
    pub fn to_string(&self) -> (text: String)
        ensures
            text@ == self@.text(),
    {
        let (label, msg) = match self {
            TransactionError::InvalidWallet(msg) => ("Invalid wallet: ", msg.as_str()),
            TransactionError::InsufficientBalance => ("Insufficient balance", ""),
            TransactionError::InvalidSignature => ("Invalid signature", ""),
            TransactionError::InvalidAmount => ("Invalid amount", ""),
            TransactionError::DatabaseError(msg) => ("Database error: ", msg.as_str()),
            TransactionError::CryptoError(msg) => ("Crypto error: ", msg.as_str()),
        };
        let mut text = label.to_owned();
        text.append(msg);
        proof {
            reveal_strlit("");
            assert(text@ =~= self@.text());
        }
        text
    }
}

/// The first wallet with the identifier `id`, where there is one.
pub open spec fn first_wallet(wallets: Seq<WalletView>, id: Seq<char>) -> WalletView {
    wallets[choose|i: int| is_first_wallet(wallets, id, i)]
}

/// Only one place holds the first wallet with an identifier.
pub proof fn lemma_first_wallet_unique(wallets: Seq<WalletView>, id: Seq<char>, i: int)
    requires
        is_first_wallet(wallets, id, i),
    ensures
        first_wallet(wallets, id) == wallets[i],
{
    let j = choose|j: int| is_first_wallet(wallets, id, j);
    if j < i {
        assert(wallets[j].wallet_id != id);
    } else if i < j {
        assert(wallets[i].wallet_id != id);
    }
}

/// Whether the store holds a user with the identifier `id`.
pub open spec fn has_user(users: Seq<UserView>, id: u128) -> bool {
    exists|i: int| 0 <= i < users.len() && (#[trigger] users[i]).id == id
}

/// The first user with the identifier `id`, where there is one.
pub open spec fn first_user(users: Seq<UserView>, id: u128) -> UserView {
    users[choose|i: int| is_first_user(users, id, i)]
}

/// Only one place holds the first user with an identifier.
pub proof fn lemma_first_user_unique(users: Seq<UserView>, id: u128, i: int)
    requires
        is_first_user(users, id, i),
    ensures
        first_user(users, id) == users[i],
{
    let j = choose|j: int| is_first_user(users, id, j);
    if j < i {
        assert(users[j].id != id);
    } else if i < j {
        assert(users[i].id != id);
    }
}

/// Whether the wallet `sender` belongs to a user that the store holds.
pub open spec fn has_sender_user(ledger: LedgerView, sender: Seq<char>) -> bool {
    first_wallet(ledger.wallets, sender).user_id is Some && has_user(
        ledger.users,
        first_wallet(ledger.wallets, sender).user_id->0,
    )
}

/// Why a transfer is turned away before anything is signed, if it is; the
/// checks are made in this order:
/// the amount must be more than nothing; the sender's wallet and then the
/// receiver's must exist; the sender's balance must cover amount and fee;
/// and the sender's wallet must belong to a user.
pub open spec fn transfer_rejection(
    ledger: LedgerView,
    sender: Seq<char>,
    receiver: Seq<char>,
    amount: i64,
    fee: i64,
) -> Option<TransactionErrorView> {
    if amount <= 0 {
        Some(TransactionErrorView::InvalidAmount)
    } else if !has_wallet(ledger.wallets, sender) {
        Some(TransactionErrorView::InvalidWallet("Sender wallet not found"@))
    } else if !has_wallet(ledger.wallets, receiver) {
        Some(TransactionErrorView::InvalidWallet("Receiver wallet not found"@))
    } else if ledger.balance_of(sender) < in_dust(amount + fee, 0) {
        Some(TransactionErrorView::InsufficientBalance)
    } else if !has_sender_user(ledger, sender) {
        Some(TransactionErrorView::InvalidWallet("Sender user not found"@))
    } else {
        None
    }
}

/// Checks a transfer before anything is signed, as `transfer_rejection`
/// says, and gives the user who sends it.
pub fn check_transfer(ledger: &Ledger, req: &CreateTransactionRequest, fee: i64) -> (sender: Result<
    User,
    TransactionError,
>)
    requires
        ledger.wf(),
    ensures
        match transfer_rejection(
            ledger@,
            req.sender_wallet_id@,
            req.receiver_wallet_id@,
            req.amount,
            fee,
        ) {
            Some(rejection) => sender is Err && sender->Err_0@ == rejection,
            None => sender is Ok && sender->Ok_0@ == first_user(
                ledger@.users,
                first_wallet(ledger@.wallets, req.sender_wallet_id@).user_id->0,
            ),
        },
{
    if req.amount <= 0 {
        return Err(TransactionError::InvalidAmount);
    }
    let sender_wallet = match get_wallet(ledger, req.sender_wallet_id.as_str()) {
        Some(wallet) => wallet,
        None => {
            return Err(TransactionError::InvalidWallet("Sender wallet not found".to_owned()));
        },
    };
    proof {
        let i = choose|i: int|
            #[trigger] is_first_wallet(ledger@.wallets, req.sender_wallet_id@, i) && sender_wallet@
                == ledger@.wallets[i];
        lemma_first_wallet_unique(ledger@.wallets, req.sender_wallet_id@, i);
    }
    if get_wallet(ledger, req.receiver_wallet_id.as_str()).is_none() {
        return Err(TransactionError::InvalidWallet("Receiver wallet not found".to_owned()));
    }
    let sender_balance = calculate_wallet_balance(ledger, req.sender_wallet_id.as_str());
    let total_required: i128 = req.amount as i128 + fee as i128;
    if sender_balance.is_below(total_required) {
        return Err(TransactionError::InsufficientBalance);
    }
    let user_id = match sender_wallet.user_id {
        Some(id) => id,
        None => {
            return Err(TransactionError::InvalidWallet("Sender user not found".to_owned()));
        },
    };
    match find_user_by_id(ledger, user_id) {
        Some(user) => {
            proof {
                let i = choose|i: int|
                    #[trigger] is_first_user(ledger@.users, user_id, i) && user@
                        == ledger@.users[i];
                lemma_first_user_unique(ledger@.users, user_id, i);
                assert(ledger@.users[i].id == user_id);
            }
            Ok(user)
        },
        None => Err(TransactionError::InvalidWallet("Sender user not found".to_owned())),
    }
}

/// How the signing of a transfer ends.
pub enum Signing {
    /// The sender's key signed, and the sender's public key confirms it.
    Signed(Seq<char>),
    /// A key could not be opened, read or used.
    CryptoFault,
    /// The sender's public key does not confirm the signature.
    InvalidSignature,
}

/// How the signing of `payload` for a user ends, step by step: the user's
/// private key is opened with the master key and read, it signs the payload,
/// the user's public key is read, and it verifies the signature. A step that
/// cannot be made is a fault of the crypto layer; a signature that the public
/// key does not confirm is an invalid signature.
pub open spec fn transfer_signing(user: UserView, payload: Seq<char>, aes_key: Seq<u8>) -> Signing {
    match opened_private_key(user.encrypted_private_key, aes_key) {
        None => Signing::CryptoFault,
        Some(pem) => match private_key_read(pem) {
            None => Signing::CryptoFault,
            Some(private_key) => match signed_text(private_key, payload) {
                None => Signing::CryptoFault,
                Some(signature) => match public_key_read(user.public_key) {
                    None => Signing::CryptoFault,
                    Some(public_key) => if signature_verifies(public_key, payload, signature) {
                        Signing::Signed(signature)
                    } else {
                        Signing::InvalidSignature
                    },
                },
            },
        },
    }
}

/// Signs `payload` with the sender's private key, which is opened with the
/// master key, and checks the signature against the sender's public key, as
/// `transfer_signing` says.
pub fn sign_transfer(sender_user: &User, payload: &str, aes_key: &[u8]) -> (signature: Result<
    String,
    TransactionError,
>)
    ensures
        match transfer_signing(sender_user@, payload@, aes_key@) {
            Signing::Signed(text) => signature is Ok && signature->Ok_0@ == text,
            Signing::CryptoFault => signature is Err && signature->Err_0 is CryptoError,
            Signing::InvalidSignature => signature is Err && signature->Err_0 is InvalidSignature,
        },
{
    let decrypted_private_key = match decrypt_private_key(
        sender_user.encrypted_private_key.as_str(),
        aes_key,
    ) {
        Ok(pem) => pem,
        Err(e) => {
            return Err(TransactionError::CryptoError(e.to_string()));
        },
    };
    let private_key = match import_private_key_pem(decrypted_private_key.as_str()) {
        Ok(key) => key,
        Err(e) => {
            return Err(TransactionError::CryptoError(e.to_string()));
        },
    };
    let signature = match sign_data(&private_key, payload) {
        Ok(signature) => signature,
        Err(e) => {
            return Err(TransactionError::CryptoError(e.to_string()));
        },
    };
    proof {
        lemma_hex_round_trip(rsa_signed(private_key, sha256(encode_utf8(payload@)))->0);
    }
    let public_key = match import_public_key_pem(sender_user.public_key.as_str()) {
        Ok(key) => key,
        Err(e) => {
            return Err(TransactionError::CryptoError(e.to_string()));
        },
    };
    let is_valid = match verify_signature(&public_key, payload, signature.as_str()) {
        Ok(valid) => valid,
        Err(e) => {
            return Err(TransactionError::CryptoError(e.to_string()));
        },
    };
    if !is_valid {
        return Err(TransactionError::InvalidSignature);
    }
    Ok(signature)
}

/// The content hash of a transfer: the hash of its payload followed by its
/// signature.
pub open spec fn transfer_hash(payload: Seq<char>, signature: Seq<char>) -> Seq<char> {
    sha256_hex(encode_utf8(payload + signature))
}

/// The pending transaction that a signed transfer becomes.
pub open spec fn pending_transfer(
    id: u128,
    sender: Seq<char>,
    receiver: Seq<char>,
    amount: i64,
    fee: i64,
    note: Option<Seq<char>>,
    signature: Seq<char>,
    now: i64,
) -> PendingView {
    PendingView {
        id,
        transaction_hash: transfer_hash(
            transaction_payload(sender, receiver, amount as int, now as int, note),
            signature,
        ),
        sender_wallet_id: sender,
        receiver_wallet_id: receiver,
        amount,
        fee,
        note,
        signature,
        timestamp: now,
        created_at: now,
    }
}

/// One line of the log of a pending transfer.
pub open spec fn pending_log(id: u128, wallet: Seq<char>, action: Seq<char>, tx: PendingView)
    -> TransactionLogView {
    TransactionLogView {
        id,
        wallet_id: wallet,
        action,
        transaction_hash: Some(tx.transaction_hash),
        block_hash: None,
        status: "pending"@,
        ip_address: None,
        user_agent: None,
        note: tx.note,
        created_at: tx.created_at,
    }
}

/// The store after `tx` entered the pending pool: the pool holds it, the
/// sender's cached balance is recomputed, and the logs of sender and
/// receiver hold one line each.
pub open spec fn admitted(ledger: LedgerView, tx: PendingView) -> LedgerView {
    let pooled = LedgerView {
        pending_transactions: ledger.pending_transactions.push(tx),
        ..ledger
    };
    let balanced = refreshed(pooled, tx.sender_wallet_id, tx.created_at);
    LedgerView {
        transaction_logs: balanced.transaction_logs.push(
            pending_log(balanced.next_id, tx.sender_wallet_id, "sent"@, tx),
        ).push(
            pending_log(next_id_after(balanced.next_id), tx.receiver_wallet_id, "received"@, tx),
        ),
        next_id: next_id_after(next_id_after(balanced.next_id)),
        ..balanced
    }
}

/// Puts a pending transaction into the pool, recomputes the sender's cached
/// balance and writes the two lines of the log.
pub fn admit_transfer(ledger: &mut Ledger, tx: &PendingTransaction)
    requires
        old(ledger).wf(),
        tx.amount >= 0,
        tx.fee >= 0,
    ensures
        final(ledger).wf(),
        final(ledger)@ == admitted(old(ledger)@, tx@),
{
    create_pending_transaction(ledger, tx);
    proof {
        assert forall|i: int| 0 <= i < ledger@.pending_transactions.len() implies {
            &&& (#[trigger] ledger@.pending_transactions[i]).amount >= 0
            &&& ledger@.pending_transactions[i].fee >= 0
        } by {
            if i < old(ledger)@.pending_transactions.len() {
                assert(old(ledger)@.pending_transactions[i].amount >= 0);
            }
        }
    }
    release_reserved_utxos_internal(ledger, tx.sender_wallet_id.as_str(), tx.created_at);
    create_transaction_log(
        ledger,
        tx.sender_wallet_id.as_str(),
        "sent",
        Some(tx.transaction_hash.clone()),
        None,
        "pending",
        None,
        None,
        clone_text(&tx.note),
        tx.created_at,
    );
    create_transaction_log(
        ledger,
        tx.receiver_wallet_id.as_str(),
        "received",
        Some(tx.transaction_hash.clone()),
        None,
        "pending",
        None,
        None,
        clone_text(&tx.note),
        tx.created_at,
    );
}

/// Whether `after` and `outcome` are what creating a transfer at the time
/// `now` under the identifier `id` gives on the store `before`.
///
/// A transfer that `transfer_rejection` turns away gives that rejection.
/// Else the payload of the transfer at `now` is signed for the user of the
/// sender's wallet, as `transfer_signing` says. A signed transfer enters the
/// pending pool with its signature and its content hash, and is returned. A
/// fault of the crypto layer and an invalid signature give their errors.
/// Every error leaves the store as it was.
pub open spec fn transfer_created(
    before: LedgerView,
    sender: Seq<char>,
    receiver: Seq<char>,
    amount: i64,
    note: Option<Seq<char>>,
    aes_key: Seq<u8>,
    fee: i64,
    id: u128,
    now: i64,
    after: LedgerView,
    outcome: Result<PendingTransaction, TransactionError>,
) -> bool {
    match transfer_rejection(before, sender, receiver, amount, fee) {
        Some(rejection) => {
            &&& outcome is Err
            &&& outcome->Err_0@ == rejection
            &&& after == before
        },
        None => match transfer_signing(
            first_user(before.users, first_wallet(before.wallets, sender).user_id->0),
            transaction_payload(sender, receiver, amount as int, now as int, note),
            aes_key,
        ) {
            Signing::Signed(signature) => {
                &&& outcome is Ok
                &&& outcome->Ok_0@ == pending_transfer(
                    id,
                    sender,
                    receiver,
                    amount,
                    fee,
                    note,
                    signature,
                    now,
                )
                &&& after == admitted(before, outcome->Ok_0@)
            },
            Signing::CryptoFault => {
                &&& outcome is Err
                &&& outcome->Err_0 is CryptoError
                &&& after == before
            },
            Signing::InvalidSignature => {
                &&& outcome is Err
                &&& outcome->Err_0 is InvalidSignature
                &&& after == before
            },
        },
    }
}

/// Creates a transfer at the time `now` under the identifier `id`: checks
/// it, signs it with the sender's key, and puts it into the pending pool, as
/// `transfer_created` says.
pub fn create_transaction_at(
    ledger: &mut Ledger,
    req: CreateTransactionRequest,
    aes_key: &[u8],
    config: &Config,
    id: u128,
    now: i64,
) -> (outcome: Result<PendingTransaction, TransactionError>)
    requires
        old(ledger).wf(),
        config.wf(),
    ensures
        final(ledger).wf(),
        transfer_created(
            old(ledger)@,
            req.sender_wallet_id@,
            req.receiver_wallet_id@,
            req.amount,
            text_view(req.note),
            aes_key@,
            config.transaction_fee,
            id,
            now,
            final(ledger)@,
            outcome,
        ),
{
    let transaction_fee = config.transaction_fee;
    let sender_user = match check_transfer(ledger, &req, transaction_fee) {
        Ok(user) => user,
        Err(e) => {
            return Err(e);
        },
    };
    let payload = create_transaction_payload(
        req.sender_wallet_id.as_str(),
        req.receiver_wallet_id.as_str(),
        req.amount,
        now,
        &req.note,
    );
    let signature = match sign_transfer(&sender_user, payload.as_str(), aes_key) {
        Ok(signature) => signature,
        Err(e) => {
            return Err(e);
        },
    };
    let mut signed = payload;
    signed.append(signature.as_str());
    let transaction_hash = sha256_hash(signed.as_str().as_bytes());
    let pending_tx = PendingTransaction {
        id,
        transaction_hash,
        sender_wallet_id: req.sender_wallet_id,
        receiver_wallet_id: req.receiver_wallet_id,
        amount: req.amount,
        fee: transaction_fee,
        note: req.note,
        signature,
        timestamp: now,
        created_at: now,
    };
    admit_transfer(ledger, &pending_tx);
    Ok(pending_tx)
}

/// Creates a transfer now, under a fresh random identifier: what
/// `create_transaction_at` gives at the time of the call under the
/// identifier that was drawn.
pub fn create_transaction(
    ledger: &mut Ledger,
    req: CreateTransactionRequest,
    aes_key: &[u8],
    config: &Config,
) -> (outcome: Result<PendingTransaction, TransactionError>)
    requires
        old(ledger).wf(),
        config.wf(),
    ensures
        final(ledger).wf(),
        exists|id: u128, at: i64|
            is_random_id(id) && is_clock_time(at) && #[trigger] transfer_created(
                old(ledger)@,
                req.sender_wallet_id@,
                req.receiver_wallet_id@,
                req.amount,
                text_view(req.note),
                aes_key@,
                config.transaction_fee,
                id,
                at,
                final(ledger)@,
                outcome,
            ),
{
    let at = now();
    let id = new_id();
    create_transaction_at(ledger, req, aes_key, config, id, at)
}

/// How many transactions wait in the pending pool; a count beyond the
/// greatest 32-bit number is given as that number.
pub fn get_pending_count(ledger: &Ledger) -> (count: i32)
    ensures
        count == if ledger@.pending_transactions.len() > i32::MAX {
            i32::MAX as int
        } else {
            ledger@.pending_transactions.len() as int
        },
{
    let n = ledger.pending_transactions.len();
    if n > 0x7fff_ffff {
        0x7fff_ffff
    } else {
        n as i32
    }
}

} // verus!
