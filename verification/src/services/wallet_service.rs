//! New wallets and their balances.

use crate::crypto::{
    encrypt_private_key_with_nonce, export_private_key_pem, export_public_key_pem,
    generate_keypair, is_pem_framed, modulus_bits, new_nonce, opened_private_key,
    private_key_label, private_key_pem, public_half, public_key_label, public_key_pem,
    sealed_private_key, sha256_hex, wallet_id_of_pem, KEY_SIZE, NONCE_SIZE,
};
use crate::database::queries::{get_wallet, has_wallet, update_wallet_balance};
use crate::database::{spendable, Ledger};
use crate::ledger::{calculate_wallet_balance, refreshed};
use crate::models::{KeyPair, UtxoView, WalletBalance};
use crate::text::str_eq;
use vstd::prelude::*;
use vstd::string::*;
use vstd::utf8::encode_utf8;

verus! {

/// What can go wrong with a wallet.
#[derive(Debug)]
pub enum WalletError {
    KeyGenerationError(String),
    EncryptionError(String),
    DatabaseError(String),
    WalletNotFound,
}

impl WalletError {
    /// The error as one line of text.
    pub open spec fn text(self) -> Seq<char> {
        match self {
            WalletError::KeyGenerationError(msg) => "Key generation error: "@ + msg@,
            WalletError::EncryptionError(msg) => "Encryption error: "@ + msg@,
            WalletError::DatabaseError(msg) => "Database error: "@ + msg@,
            WalletError::WalletNotFound => "Wallet not found"@,
        }
    }

    /// The error as one line of text.
    pub fn to_string(&self) -> (text: String)
        ensures
            text@ == self.text(),
    {
        let (label, msg) = match self {
            WalletError::KeyGenerationError(msg) => ("Key generation error: ", msg.as_str()),
            WalletError::EncryptionError(msg) => ("Encryption error: ", msg.as_str()),
            WalletError::DatabaseError(msg) => ("Database error: ", msg.as_str()),
            WalletError::WalletNotFound => ("Wallet not found", ""),
        };
        let mut text = label.to_owned();
        text.append(msg);
        proof {
            reveal_strlit("");
            assert(text@ =~= self.text());
        }
        text
    }
}

/// Whether a private key in PEM is too long to be sealed: the sealed form
/// would have a length that does not fit.
pub open spec fn too_long_to_seal(private_key_pem: Seq<char>) -> bool {
    encode_utf8(private_key_pem).len() > usize::MAX / 2 - 28
}

/// What the keys of a wallet hold as text.
pub struct WalletKeys {
    pub public_key: Seq<char>,
    pub private_key: Seq<char>,
    pub wallet_id: Seq<char>,
}

/// The keys of a wallet made from a key pair: the public key in PEM, the
/// wallet identifier, which is the hash of that text, and the private key in
/// PEM sealed under `aes_key` with `nonce`. Nothing where a key cannot be
/// encoded or the private key cannot be sealed.
pub open spec fn wallet_keys(
    private_key: rsa::RsaPrivateKey,
    public_key: rsa::RsaPublicKey,
    aes_key: Seq<u8>,
    nonce: Seq<u8>,
) -> Option<WalletKeys> {
    if public_key_pem(public_key) is None || private_key_pem(private_key) is None
        || too_long_to_seal(private_key_pem(private_key)->0) {
        None
    } else {
        match sealed_private_key(private_key_pem(private_key)->0, aes_key, nonce) {
            Some(sealed) => Some(
                WalletKeys {
                    public_key: public_key_pem(public_key)->0,
                    private_key: sealed,
                    wallet_id: sha256_hex(encode_utf8(public_key_pem(public_key)->0)),
                },
            ),
            None => None,
        }
    }
}

/// The words of the error for a master key that has not 32 bytes.
pub open spec fn bad_master_key_reason() -> Seq<char> {
    "Encryption error: "@ + "AES key must be 32 bytes"@
}

/// Makes the keys of a wallet from a key pair, as `wallet_keys` says. A key
/// that cannot be encoded is a key-generation error; a private key that
/// cannot be sealed is an encryption error, and for a master key that has
/// not 32 bytes it says so. The sealed private key opens again under the
/// master key to the private key in PEM.
pub fn wallet_keypair_of(
    private_key: &rsa::RsaPrivateKey,
    public_key: &rsa::RsaPublicKey,
    aes_key: &[u8],
    nonce: &[u8],
) -> (keys: Result<KeyPair, WalletError>)
    requires
        nonce@.len() == NONCE_SIZE,
    ensures
        match wallet_keys(*private_key, *public_key, aes_key@, nonce@) {
            Some(made) => {
                &&& keys is Ok
                &&& keys->Ok_0.public_key@ == made.public_key
                &&& keys->Ok_0.private_key@ == made.private_key
                &&& keys->Ok_0.wallet_id@ == made.wallet_id
            },
            None => keys is Err,
        },
        keys is Ok ==> {
            &&& is_pem_framed(keys->Ok_0.public_key@, public_key_label())
            &&& keys->Ok_0.wallet_id@.len() == 64
            &&& opened_private_key(keys->Ok_0.private_key@, aes_key@) == private_key_pem(
                *private_key,
            )
            &&& is_pem_framed(private_key_pem(*private_key)->0, private_key_label())
        },
        keys is Err ==> if public_key_pem(*public_key) is None || private_key_pem(*private_key)
            is None {
            keys->Err_0 is KeyGenerationError
        } else {
            keys->Err_0 is EncryptionError
        },
        keys is Err && public_key_pem(*public_key) is Some && private_key_pem(*private_key)
            is Some && !too_long_to_seal(private_key_pem(*private_key)->0) && aes_key@.len() != 32
            ==> keys->Err_0->EncryptionError_0@ == bad_master_key_reason(),
        public_key_pem(*public_key) is Some && private_key_pem(*private_key) is Some
            && too_long_to_seal(private_key_pem(*private_key)->0)
            ==> keys->Err_0->EncryptionError_0@ == "Private key too long"@,
{
    let public_key_pem = match export_public_key_pem(public_key) {
        Ok(pem) => pem,
        Err(e) => {
            return Err(WalletError::KeyGenerationError(e.to_string()));
        },
    };
    let private_key_pem = match export_private_key_pem(private_key) {
        Ok(pem) => pem,
        Err(e) => {
            return Err(WalletError::KeyGenerationError(e.to_string()));
        },
    };
    let wallet_id = wallet_id_of_pem(public_key_pem.as_str());
    if private_key_pem.as_str().as_bytes().len() > usize::MAX / 2 - 28 {
        return Err(WalletError::EncryptionError("Private key too long".to_owned()));
    }
    let encrypted_private_key = match encrypt_private_key_with_nonce(
        private_key_pem.as_str(),
        aes_key,
        nonce,
    ) {
        Ok(blob) => blob,
        Err(e) => {
            return Err(WalletError::EncryptionError(e.to_string()));
        },
    };
    Ok(KeyPair { public_key: public_key_pem, private_key: encrypted_private_key, wallet_id })
}

/// Makes the keys of a new wallet: an RSA key pair of `KEY_SIZE` bits, and
/// from it, with a nonce drawn for this call, what `wallet_keypair_of`
/// makes. A failure of the generation is a key-generation error. A master
/// key that has not 32 bytes gives an error.
pub fn generate_wallet_keypair(aes_key: &[u8]) -> (keys: Result<KeyPair, WalletError>)
    ensures
        aes_key@.len() != 32 ==> keys is Err && (keys->Err_0 is KeyGenerationError || (
        keys->Err_0 is EncryptionError && (keys->Err_0->EncryptionError_0@
            == bad_master_key_reason() || keys->Err_0->EncryptionError_0@
            == "Private key too long"@))),
        keys is Ok ==> exists|
            private_key: rsa::RsaPrivateKey,
            public_key: rsa::RsaPublicKey,
            nonce: Seq<u8>,
        |
            {
                &&& modulus_bits(private_key) == KEY_SIZE
                &&& public_key == public_half(private_key)
                &&& nonce.len() == NONCE_SIZE
                &&& #[trigger] wallet_keys(private_key, public_key, aes_key@, nonce) == Some(
                    WalletKeys {
                        public_key: keys->Ok_0.public_key@,
                        private_key: keys->Ok_0.private_key@,
                        wallet_id: keys->Ok_0.wallet_id@,
                    },
                )
                &&& opened_private_key(keys->Ok_0.private_key@, aes_key@) == private_key_pem(
                    private_key,
                )
                &&& is_pem_framed(private_key_pem(private_key)->0, private_key_label())
            },
        keys is Ok ==> {
            &&& is_pem_framed(keys->Ok_0.public_key@, public_key_label())
            &&& keys->Ok_0.wallet_id@ == sha256_hex(encode_utf8(keys->Ok_0.public_key@))
            &&& keys->Ok_0.wallet_id@.len() == 64
        },
        keys is Err ==> keys->Err_0 is KeyGenerationError || keys->Err_0 is EncryptionError,
{
    let (private_key, public_key) = match generate_keypair() {
        Ok(pair) => pair,
        Err(e) => {
            return Err(WalletError::KeyGenerationError(e.to_string()));
        },
    };
    let nonce = new_nonce();
    wallet_keypair_of(&private_key, &public_key, aes_key, nonce.as_slice())
}

/// How many unspent outputs `wallet` has.
pub open spec fn unspent_count(utxos: Seq<UtxoView>, wallet: Seq<char>) -> int
    decreases utxos.len(),
{
    if utxos.len() == 0 {
        0
    } else {
        unspent_count(utxos.drop_last(), wallet) + if spendable(utxos.last(), wallet) {
            1int
        } else {
            0
        }
    }
}

/// The balance of a wallet with the number of its unspent outputs, computed
/// afresh; the cached balance is set to it. A count beyond the greatest
/// 32-bit number is given as that number.
pub fn get_wallet_balance(ledger: &mut Ledger, wallet_id: &str, now: i64) -> (report: Result<
    WalletBalance,
    WalletError,
>)
    requires
        old(ledger).wf(),
    ensures
        final(ledger).wf(),
        match report {
            Ok(found) => {
                &&& has_wallet(old(ledger)@.wallets, wallet_id@)
                &&& found.wallet_id@ == wallet_id@
                &&& found.balance.wf()
                &&& found.balance.dust_total() == old(ledger)@.balance_of(wallet_id@)
                &&& found.utxo_count == if unspent_count(old(ledger)@.utxos, wallet_id@)
                    > i32::MAX {
                    i32::MAX as int
                } else {
                    unspent_count(old(ledger)@.utxos, wallet_id@)
                }
                &&& final(ledger)@ == refreshed(old(ledger)@, wallet_id@, now)
            },
            Err(e) => {
                &&& !has_wallet(old(ledger)@.wallets, wallet_id@)
                &&& e is WalletNotFound
                &&& final(ledger)@ == old(ledger)@
            },
        },
{
    if get_wallet(ledger, wallet_id).is_none() {
        return Err(WalletError::WalletNotFound);
    }
    let mut count: usize = 0;
    let mut i: usize = 0;
    proof {
        assert(ledger@.utxos.subrange(0, 0) =~= Seq::empty());
    }
    while i < ledger.utxos.len()
        invariant
            i <= ledger.utxos.len(),
            count <= i,
            count == unspent_count(ledger@.utxos.subrange(0, i as int), wallet_id@),
        decreases ledger.utxos.len() - i,
    {
        let utxo = &ledger.utxos[i];
        proof {
            let next = ledger@.utxos.subrange(0, i + 1);
            assert(next.drop_last() =~= ledger@.utxos.subrange(0, i as int));
            assert(next.last() == utxo@);
        }
        if !utxo.is_spent && str_eq(utxo.wallet_id.as_str(), wallet_id) {
            count += 1;
        }
        i += 1;
    }
    proof {
        assert(ledger@.utxos.subrange(0, i as int) =~= ledger@.utxos);
    }
    let balance = calculate_wallet_balance(ledger, wallet_id);
    let utxo_count: i32 = if count > 0x7fff_ffff {
        0x7fff_ffff
    } else {
        count as i32
    };
    update_wallet_balance(ledger, wallet_id, balance, now);
    Ok(WalletBalance { wallet_id: wallet_id.to_owned(), balance, utxo_count })
}

/// Whether the store holds the wallet `wallet_id`.
pub fn wallet_exists(ledger: &Ledger, wallet_id: &str) -> (exists: bool)
    ensures
        exists == has_wallet(ledger@.wallets, wallet_id@),
{
    get_wallet(ledger, wallet_id).is_some()
}

} // verus!
