//! The records of the ledger and the values that requests carry.
//!
//! A transfer's amount and fee are whole numbers of base units, a hundred
//! million to the coin. An output holds base units and dust, and a balance is
//! an exact `Value`: see the module `value`.
//! Times are seconds since the Unix epoch. Identifiers are 128-bit numbers.
//! The view of a record holds the characters of each of its texts.

use crate::value::{in_dust, Value};
use vstd::prelude::*;

verus! {

/// The characters of an optional text.
pub open spec fn text_view(text: Option<String>) -> Option<Seq<char>> {
    match text {
        Some(s) => Some(s@),
        None => None,
    }
}

/// The views of the records of a list, in its order.
pub open spec fn views<T: View>(records: Seq<T>) -> Seq<T::V> {
    Seq::new(records.len(), |i: int| records[i]@)
}

/// The views of a list with one more record are the views of the list with
/// the view of that record.
pub proof fn lemma_views_push<T: View>(records: Seq<T>, record: T)
    ensures
        views(records.push(record)) == views(records).push(record@),
{
    assert(views(records.push(record)) =~= views(records).push(record@));
}

/// The views of a list in which one record was replaced.
pub proof fn lemma_views_update<T: View>(records: Seq<T>, i: int, record: T)
    requires
        0 <= i < records.len(),
    ensures
        views(records.update(i, record)) == views(records).update(i, record@),
{
    assert(views(records.update(i, record)) =~= views(records).update(i, record@));
}

/// Whether `id` has the form of a random identifier: of its 128 bits the
/// four of the version say 4 and the two of the variant say `10`. The other
/// 122 bits are free.
pub open spec fn is_random_id(id: u128) -> bool {
    id & 0x0000_0000_0000_f000_c000_0000_0000_0000 == 0x0000_0000_0000_4000_8000_0000_0000_0000
}

/// `uuid::Uuid::new_v4` and `Uuid::as_u128`: a random identifier of version
/// 4 as a number, the first byte in front. Of its random bits nothing is
/// known.
#[verifier::external_body]
fn random_uuid() -> (id: u128)
    ensures
        is_random_id(id),
{
    uuid::Uuid::new_v4().as_u128()
}

/// A fresh random identifier: 122 random bits in the form of a version-4
/// identifier.
pub fn new_id() -> (id: u128)
    ensures
        is_random_id(id),
{
    random_uuid()
}

/// A copy of an optional text.
pub fn clone_text(text: &Option<String>) -> (copy: Option<String>)
    ensures
        copy == *text,
{
    match text {
        Some(s) => Some(s.clone()),
        None => None,
    }
}

/// A registered person with the wallet and the keys that belong to them.
#[derive(Debug)]
pub struct User {
    pub id: u128,
    pub email: String,
    pub full_name: String,
    pub cnic: String,
    pub wallet_id: String,
    pub public_key: String,
    pub encrypted_private_key: String,
    pub is_verified: bool,
    pub created_at: i64,
    pub updated_at: i64,
}

/// What a `User` holds.
pub struct UserView {
    pub id: u128,
    pub email: Seq<char>,
    pub full_name: Seq<char>,
    pub cnic: Seq<char>,
    pub wallet_id: Seq<char>,
    pub public_key: Seq<char>,
    pub encrypted_private_key: Seq<char>,
    pub is_verified: bool,
    pub created_at: i64,
    pub updated_at: i64,
}

impl View for User {
    type V = UserView;

    open spec fn view(&self) -> UserView {
        UserView {
            id: self.id,
            email: self.email@,
            full_name: self.full_name@,
            cnic: self.cnic@,
            wallet_id: self.wallet_id@,
            public_key: self.public_key@,
            encrypted_private_key: self.encrypted_private_key@,
            is_verified: self.is_verified,
            created_at: self.created_at,
            updated_at: self.updated_at,
        }
    }
}

impl Clone for User {
    fn clone(&self) -> (copy: Self)
        ensures
            copy == *self,
    {
        User {
            id: self.id,
            email: self.email.clone(),
            full_name: self.full_name.clone(),
            cnic: self.cnic.clone(),
            wallet_id: self.wallet_id.clone(),
            public_key: self.public_key.clone(),
            encrypted_private_key: self.encrypted_private_key.clone(),
            is_verified: self.is_verified,
            created_at: self.created_at,
            updated_at: self.updated_at,
        }
    }
}

/// A wallet with its cached balance, which is derived from the
/// outputs and the pending pool and never a source of truth.
#[derive(Debug)]
pub struct Wallet {
    pub wallet_id: String,
    pub user_id: Option<u128>,
    pub balance: Value,
    pub last_zakat_date: Option<i64>,
    pub created_at: i64,
    pub updated_at: i64,
}

/// What a `Wallet` holds.
pub struct WalletView {
    pub wallet_id: Seq<char>,
    pub user_id: Option<u128>,
    pub balance: Value,
    pub last_zakat_date: Option<i64>,
    pub created_at: i64,
    pub updated_at: i64,
}

impl View for Wallet {
    type V = WalletView;

    open spec fn view(&self) -> WalletView {
        WalletView {
            wallet_id: self.wallet_id@,
            user_id: self.user_id,
            balance: self.balance,
            last_zakat_date: self.last_zakat_date,
            created_at: self.created_at,
            updated_at: self.updated_at,
        }
    }
}

impl Clone for Wallet {
    fn clone(&self) -> (copy: Self)
        ensures
            copy == *self,
    {
        Wallet {
            wallet_id: self.wallet_id.clone(),
            user_id: self.user_id,
            balance: self.balance,
            last_zakat_date: self.last_zakat_date,
            created_at: self.created_at,
            updated_at: self.updated_at,
        }
    }
}

/// A transaction output: the unit of spendable value. Once spent it is never
/// spent again. `output_index` is 0 for the output to the receiver and 1 for
/// the change.
#[derive(Debug)]
pub struct UTXO {
    pub id: u128,
    pub wallet_id: String,
    pub amount: i64,
    /// Dust beyond the base units of `amount`: less than one base unit.
    pub dust: u64,
    pub transaction_hash: String,
    pub output_index: i32,
    pub is_spent: bool,
    pub created_at: i64,
    pub spent_at: Option<i64>,
}

/// What a `UTXO` holds.
pub struct UtxoView {
    pub id: u128,
    pub wallet_id: Seq<char>,
    pub amount: i64,
    pub dust: u64,
    pub transaction_hash: Seq<char>,
    pub output_index: i32,
    pub is_spent: bool,
    pub created_at: i64,
    pub spent_at: Option<i64>,
}

impl UtxoView {
    /// What the output holds, in dust.
    pub open spec fn value(self) -> int {
        in_dust(self.amount as int, self.dust as int)
    }

    /// Whether the output holds no negative amount, and dust of less than
    /// one base unit.
    pub open spec fn wf(self) -> bool {
        self.amount >= 0 && self.dust < 0x8000_0000_0000_0000
    }
}

impl View for UTXO {
    type V = UtxoView;

    open spec fn view(&self) -> UtxoView {
        UtxoView {
            id: self.id,
            wallet_id: self.wallet_id@,
            amount: self.amount,
            dust: self.dust,
            transaction_hash: self.transaction_hash@,
            output_index: self.output_index,
            is_spent: self.is_spent,
            created_at: self.created_at,
            spent_at: self.spent_at,
        }
    }
}

impl Clone for UTXO {
    fn clone(&self) -> (copy: Self)
        ensures
            copy == *self,
    {
        UTXO {
            id: self.id,
            wallet_id: self.wallet_id.clone(),
            amount: self.amount,
            dust: self.dust,
            transaction_hash: self.transaction_hash.clone(),
            output_index: self.output_index,
            is_spent: self.is_spent,
            created_at: self.created_at,
            spent_at: self.spent_at,
        }
    }
}

/// A confirmed transaction, owned by the block at `block_index`.
#[derive(Debug)]
pub struct Transaction {
    pub id: u128,
    pub transaction_hash: String,
    pub sender_wallet_id: String,
    pub receiver_wallet_id: String,
    pub amount: i64,
    pub note: Option<String>,
    pub signature: String,
    pub block_index: Option<i64>,
    pub transaction_type: String,
    pub timestamp: i64,
    pub created_at: i64,
}

/// What a `Transaction` holds.
pub struct TransactionView {
    pub id: u128,
    pub transaction_hash: Seq<char>,
    pub sender_wallet_id: Seq<char>,
    pub receiver_wallet_id: Seq<char>,
    pub amount: i64,
    pub note: Option<Seq<char>>,
    pub signature: Seq<char>,
    pub block_index: Option<i64>,
    pub transaction_type: Seq<char>,
    pub timestamp: i64,
    pub created_at: i64,
}

impl View for Transaction {
    type V = TransactionView;

    open spec fn view(&self) -> TransactionView {
        TransactionView {
            id: self.id,
            transaction_hash: self.transaction_hash@,
            sender_wallet_id: self.sender_wallet_id@,
            receiver_wallet_id: self.receiver_wallet_id@,
            amount: self.amount,
            note: text_view(self.note),
            signature: self.signature@,
            block_index: self.block_index,
            transaction_type: self.transaction_type@,
            timestamp: self.timestamp,
            created_at: self.created_at,
        }
    }
}

impl Clone for Transaction {
    fn clone(&self) -> (copy: Self)
        ensures
            copy == *self,
    {
        Transaction {
            id: self.id,
            transaction_hash: self.transaction_hash.clone(),
            sender_wallet_id: self.sender_wallet_id.clone(),
            receiver_wallet_id: self.receiver_wallet_id.clone(),
            amount: self.amount,
            note: clone_text(&self.note),
            signature: self.signature.clone(),
            block_index: self.block_index,
            transaction_type: self.transaction_type.clone(),
            timestamp: self.timestamp,
            created_at: self.created_at,
        }
    }
}

/// A transaction that waits in the pool for the next block.
#[derive(Debug)]
pub struct PendingTransaction {
    pub id: u128,
    pub transaction_hash: String,
    pub sender_wallet_id: String,
    pub receiver_wallet_id: String,
    pub amount: i64,
    pub fee: i64,
    pub note: Option<String>,
    pub signature: String,
    pub timestamp: i64,
    pub created_at: i64,
}

/// What a `PendingTransaction` holds.
pub struct PendingView {
    pub id: u128,
    pub transaction_hash: Seq<char>,
    pub sender_wallet_id: Seq<char>,
    pub receiver_wallet_id: Seq<char>,
    pub amount: i64,
    pub fee: i64,
    pub note: Option<Seq<char>>,
    pub signature: Seq<char>,
    pub timestamp: i64,
    pub created_at: i64,
}

impl View for PendingTransaction {
    type V = PendingView;

    open spec fn view(&self) -> PendingView {
        PendingView {
            id: self.id,
            transaction_hash: self.transaction_hash@,
            sender_wallet_id: self.sender_wallet_id@,
            receiver_wallet_id: self.receiver_wallet_id@,
            amount: self.amount,
            fee: self.fee,
            note: text_view(self.note),
            signature: self.signature@,
            timestamp: self.timestamp,
            created_at: self.created_at,
        }
    }
}

impl Clone for PendingTransaction {
    fn clone(&self) -> (copy: Self)
        ensures
            copy == *self,
    {
        PendingTransaction {
            id: self.id,
            transaction_hash: self.transaction_hash.clone(),
            sender_wallet_id: self.sender_wallet_id.clone(),
            receiver_wallet_id: self.receiver_wallet_id.clone(),
            amount: self.amount,
            fee: self.fee,
            note: clone_text(&self.note),
            signature: self.signature.clone(),
            timestamp: self.timestamp,
            created_at: self.created_at,
        }
    }
}

/// A wallet that a user keeps at hand under a nickname.
#[derive(Debug)]
pub struct Beneficiary {
    pub id: u128,
    pub user_id: u128,
    pub beneficiary_wallet_id: String,
    pub nickname: Option<String>,
    pub created_at: i64,
}

impl Clone for Beneficiary {
    fn clone(&self) -> (copy: Self)
        ensures
            copy == *self,
    {
        Beneficiary {
            id: self.id,
            user_id: self.user_id,
            beneficiary_wallet_id: self.beneficiary_wallet_id.clone(),
            nickname: clone_text(&self.nickname),
            created_at: self.created_at,
        }
    }
}

/// The audit record of one levy.
#[derive(Debug)]
pub struct ZakatRecord {
    pub id: u128,
    pub wallet_id: String,
    pub amount: i64,
    pub transaction_hash: Option<String>,
    pub deduction_date: i64,
    pub created_at: i64,
}

/// What a `ZakatRecord` holds.
pub struct ZakatRecordView {
    pub id: u128,
    pub wallet_id: Seq<char>,
    pub amount: i64,
    pub transaction_hash: Option<Seq<char>>,
    pub deduction_date: i64,
    pub created_at: i64,
}

impl View for ZakatRecord {
    type V = ZakatRecordView;

    open spec fn view(&self) -> ZakatRecordView {
        ZakatRecordView {
            id: self.id,
            wallet_id: self.wallet_id@,
            amount: self.amount,
            transaction_hash: text_view(self.transaction_hash),
            deduction_date: self.deduction_date,
            created_at: self.created_at,
        }
    }
}

impl Clone for ZakatRecord {
    fn clone(&self) -> (copy: Self)
        ensures
            copy == *self,
    {
        ZakatRecord {
            id: self.id,
            wallet_id: self.wallet_id.clone(),
            amount: self.amount,
            transaction_hash: clone_text(&self.transaction_hash),
            deduction_date: self.deduction_date,
            created_at: self.created_at,
        }
    }
}

/// One line of a wallet's transaction log.
#[derive(Debug)]
pub struct TransactionLog {
    pub id: u128,
    pub wallet_id: String,
    pub action: String,
    pub transaction_hash: Option<String>,
    pub block_hash: Option<String>,
    pub status: String,
    pub ip_address: Option<String>,
    pub user_agent: Option<String>,
    pub note: Option<String>,
    pub created_at: i64,
}

/// What a `TransactionLog` holds.
pub struct TransactionLogView {
    pub id: u128,
    pub wallet_id: Seq<char>,
    pub action: Seq<char>,
    pub transaction_hash: Option<Seq<char>>,
    pub block_hash: Option<Seq<char>>,
    pub status: Seq<char>,
    pub ip_address: Option<Seq<char>>,
    pub user_agent: Option<Seq<char>>,
    pub note: Option<Seq<char>>,
    pub created_at: i64,
}

impl View for TransactionLog {
    type V = TransactionLogView;

    open spec fn view(&self) -> TransactionLogView {
        TransactionLogView {
            id: self.id,
            wallet_id: self.wallet_id@,
            action: self.action@,
            transaction_hash: text_view(self.transaction_hash),
            block_hash: text_view(self.block_hash),
            status: self.status@,
            ip_address: text_view(self.ip_address),
            user_agent: text_view(self.user_agent),
            note: text_view(self.note),
            created_at: self.created_at,
        }
    }
}

impl Clone for TransactionLog {
    fn clone(&self) -> (copy: Self)
        ensures
            copy == *self,
    {
        TransactionLog {
            id: self.id,
            wallet_id: self.wallet_id.clone(),
            action: self.action.clone(),
            transaction_hash: clone_text(&self.transaction_hash),
            block_hash: clone_text(&self.block_hash),
            status: self.status.clone(),
            ip_address: clone_text(&self.ip_address),
            user_agent: clone_text(&self.user_agent),
            note: clone_text(&self.note),
            created_at: self.created_at,
        }
    }
}

/// One line of the system log; `metadata` is JSON text.
#[derive(Debug)]
pub struct SystemLog {
    pub id: u128,
    pub log_type: String,
    pub user_id: Option<u128>,
    pub message: String,
    pub ip_address: Option<String>,
    pub metadata: Option<String>,
    pub created_at: i64,
}

impl Clone for SystemLog {
    fn clone(&self) -> (copy: Self)
        ensures
            copy == *self,
    {
        SystemLog {
            id: self.id,
            log_type: self.log_type.clone(),
            user_id: self.user_id,
            message: self.message.clone(),
            ip_address: clone_text(&self.ip_address),
            metadata: clone_text(&self.metadata),
            created_at: self.created_at,
        }
    }
}

/// What a person sends to register.
#[derive(Debug)]
pub struct RegisterRequest {
    pub email: String,
    pub full_name: String,
    pub cnic: String,
    pub password: String,
}

/// What a person sends to log in.
#[derive(Debug)]
pub struct LoginRequest {
    pub email: String,
    pub password: String,
}

/// A one-time code sent to an address.
#[derive(Debug)]
pub struct EmailOtp {
    pub id: u128,
    pub email: String,
    pub otp: String,
    pub is_verified: bool,
    pub expires_at: i64,
    pub created_at: i64,
}

impl Clone for EmailOtp {
    fn clone(&self) -> (copy: Self)
        ensures
            copy == *self,
    {
        EmailOtp {
            id: self.id,
            email: self.email.clone(),
            otp: self.otp.clone(),
            is_verified: self.is_verified,
            expires_at: self.expires_at,
            created_at: self.created_at,
        }
    }
}

/// A one-time code with the address it was sent to.
#[derive(Debug)]
pub struct VerifyOtpRequest {
    pub email: String,
    pub otp: String,
}

/// The address to send a one-time code to.
#[derive(Debug)]
pub struct SendOtpRequest {
    pub email: String,
}

/// A transfer that a client asks for.
#[derive(Debug)]
pub struct CreateTransactionRequest {
    pub sender_wallet_id: String,
    pub receiver_wallet_id: String,
    pub amount: i64,
    pub note: Option<String>,
}

/// A wallet to keep at hand, with an optional nickname.
#[derive(Debug)]
pub struct AddBeneficiaryRequest {
    pub beneficiary_wallet_id: String,
    pub nickname: Option<String>,
}

/// The fields of a profile to change.
#[derive(Debug)]
pub struct UpdateProfileRequest {
    pub full_name: Option<String>,
    pub email: Option<String>,
}

/// A wallet's balance with the number of its unspent outputs.
#[derive(Debug)]
pub struct WalletBalance {
    pub wallet_id: String,
    pub balance: Value,
    pub utxo_count: i32,
}

/// Where issuance stands. `percentage_mined` is in hundredths of a percent.
#[derive(Debug)]
pub struct MiningStats {
    pub current_block_height: i64,
    pub current_block_reward: Value,
    pub next_halving_block: i64,
    pub blocks_until_halving: i64,
    pub total_mined_coins: Value,
    pub max_coin_supply: i64,
    pub remaining_coins: Value,
    pub halving_interval: i64,
    pub percentage_mined: i64,
}

/// A new wallet's keys as text: the public key in PEM, the private key
/// sealed under the master key, and the wallet identifier.
#[derive(Debug)]
pub struct KeyPair {
    pub public_key: String,
    pub private_key: String,
    pub wallet_id: String,
}

/// A block: its height, the confirmed transactions it holds, the hash of the
/// block before it, its own hash and the nonce that gave it.
#[derive(Debug)]
pub struct Block {
    pub index: i64,
    pub timestamp: i64,
    pub transactions: Vec<Transaction>,
    pub previous_hash: String,
    pub hash: String,
    pub nonce: i64,
    pub merkle_root: Option<String>,
}

/// What a `Block` holds.
pub struct BlockView {
    pub index: i64,
    pub timestamp: i64,
    pub transactions: Seq<TransactionView>,
    pub previous_hash: Seq<char>,
    pub hash: Seq<char>,
    pub nonce: i64,
    pub merkle_root: Option<Seq<char>>,
}

impl View for Block {
    type V = BlockView;

    open spec fn view(&self) -> BlockView {
        BlockView {
            index: self.index,
            timestamp: self.timestamp,
            transactions: views(self.transactions@),
            previous_hash: self.previous_hash@,
            hash: self.hash@,
            nonce: self.nonce,
            merkle_root: text_view(self.merkle_root),
        }
    }
}

impl Clone for Block {
    fn clone(&self) -> (copy: Self)
        ensures
            copy@ == self@,
    {
        let transactions = self.transactions.clone();
        proof {
            assert(transactions@ =~= self.transactions@);
        }
        Block {
            index: self.index,
            timestamp: self.timestamp,
            transactions,
            previous_hash: self.previous_hash.clone(),
            hash: self.hash.clone(),
            nonce: self.nonce,
            merkle_root: clone_text(&self.merkle_root),
        }
    }
}

/// The envelope of every answer to a request.
#[derive(Debug)]
pub struct ApiResponse<T> {
    pub success: bool,
    pub data: Option<T>,
    pub message: Option<String>,
}

/// The chain at a glance. Amounts are in base units.
#[derive(Debug)]
pub struct BlockchainInfo {
    pub total_blocks: i64,
    pub latest_block: Option<Block>,
    pub pending_transactions: i32,
    pub total_transactions: i64,
    pub total_wallets: i64,
    pub mining_difficulty: i32,
    pub current_block_reward: Value,
    pub transaction_fee: i64,
}

} // verus!
