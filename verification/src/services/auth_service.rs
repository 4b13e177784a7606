//! Sign-up: a new user with a wallet of their own, and the claims of the
//! token that lets them in.

use crate::crypto::{
    is_pem_framed, opened_private_key, private_key_label, public_key_label, sha256_hex,
};
use crate::database::queries::{allocate_id, create_wallet, new_wallet};
use crate::database::{next_id_after, Ledger, LedgerView};
use crate::models::{lemma_views_push, RegisterRequest, User, UserView};
use crate::services::wallet_service::generate_wallet_keypair;
use crate::text::str_eq;
use vstd::prelude::*;
use vstd::string::*;
use vstd::utf8::encode_utf8;

verus! {

/// What a token says of its holder: the user's identifier, the address, and
/// the time at which the token stops being good.
#[derive(Debug)]
pub struct Claims {
    pub sub: String,
    pub email: String,
    pub exp: i64,
}

/// What can go wrong at sign-up and sign-in.
#[derive(Debug)]
pub enum AuthError {
    UserAlreadyExists,
    InvalidCredentials,
    TokenError(String),
    DatabaseError(String),
    WalletError(String),
}

impl AuthError {
    /// The error as one line of text.
    pub open spec fn text(self) -> Seq<char> {
        match self {
            AuthError::UserAlreadyExists => "User already exists"@,
            AuthError::InvalidCredentials => "Invalid credentials"@,
            AuthError::TokenError(msg) => "Token error: "@ + msg@,
            AuthError::DatabaseError(msg) => "Database error: "@ + msg@,
            AuthError::WalletError(msg) => "Wallet error: "@ + msg@,
        }
    }

    /// The error as one line of text.
    pub fn to_string(&self) -> (text: String)
        ensures
            text@ == self.text(),
    {
        let (label, msg) = match self {
            AuthError::UserAlreadyExists => ("User already exists", ""),
            AuthError::InvalidCredentials => ("Invalid credentials", ""),
            AuthError::TokenError(msg) => ("Token error: ", msg.as_str()),
            AuthError::DatabaseError(msg) => ("Database error: ", msg.as_str()),
            AuthError::WalletError(msg) => ("Wallet error: ", msg.as_str()),
        };
        let mut text = label.to_owned();
        text.append(msg);
        proof {
            reveal_strlit("");
            assert(text@ =~= self.text());
        }
        text
    }
}

/// For how many seconds a token is good: a day.
pub const TOKEN_LIFETIME: i64 = 86_400;

/// The claims of a token made at `now` for a user: good for a day.
pub fn token_claims(user_id: &str, email: &str, now: i64) -> (claims: Claims)
    requires
        now + TOKEN_LIFETIME <= i64::MAX,
    ensures
        claims.sub@ == user_id@,
        claims.email@ == email@,
        claims.exp == now + TOKEN_LIFETIME,
{
    Claims { sub: user_id.to_owned(), email: email.to_owned(), exp: now + TOKEN_LIFETIME }
}

/// Whether the store holds a user with the address `email`.
pub open spec fn has_email(users: Seq<UserView>, email: Seq<char>) -> bool {
    exists|i: int| 0 <= i < users.len() && (#[trigger] users[i]).email == email
}

/// Tests `has_email`.
pub fn email_taken(ledger: &Ledger, email: &str) -> (taken: bool)
    ensures
        taken == has_email(ledger@.users, email@),
{
    let mut i: usize = 0;
    while i < ledger.users.len()
        invariant
            i <= ledger.users.len(),
            forall|j: int| 0 <= j < i ==> (#[trigger] ledger@.users[j]).email != email@,
        decreases ledger.users.len() - i,
    {
        if str_eq(ledger.users[i].email.as_str(), email) {
            proof {
                assert(ledger@.users[i as int].email == email@);
            }
            return true;
        }
        i += 1;
    }
    false
}

/// The store after `user` signed up at the time `now`: it holds the user
/// and an empty wallet of theirs.
pub open spec fn registered(ledger: LedgerView, user: UserView, now: i64) -> LedgerView {
    LedgerView {
        users: ledger.users.push(user),
        wallets: ledger.wallets.push(new_wallet(user.wallet_id, Some(user.id), now)),
        next_id: next_id_after(ledger.next_id),
        ..ledger
    }
}

/// Signs a new user up at the time `now`: makes the keys of a wallet, and
/// stores the user, not yet verified, with an empty wallet. The user's
/// public key is PEM text, the wallet's name its hash, and the sealed
/// private key opens under the master key to PEM text of a private key. An
/// address that is taken is refused as taken, and no other address is.
/// An address that is taken, and keys that cannot be made, leave the store
/// as it was.
pub fn register_user(ledger: &mut Ledger, req: RegisterRequest, aes_key: &[u8], now: i64) -> (user:
    Result<User, AuthError>)
    ensures
        has_email(old(ledger)@.users, req.email@) <==> user is Err && user->Err_0
            is UserAlreadyExists,
        old(ledger).wf() ==> final(ledger).wf(),
        aes_key@.len() != 32 ==> user is Err,
        match user {
            Ok(new_user) => {
                &&& !has_email(old(ledger)@.users, req.email@)
                &&& new_user.id == old(ledger).next_id
                &&& new_user.email == req.email
                &&& new_user.full_name == req.full_name
                &&& new_user.cnic == req.cnic
                &&& new_user.wallet_id@ == sha256_hex(encode_utf8(new_user.public_key@))
                &&& is_pem_framed(new_user.public_key@, public_key_label())
                &&& opened_private_key(new_user.encrypted_private_key@, aes_key@) is Some
                &&& is_pem_framed(
                    opened_private_key(new_user.encrypted_private_key@, aes_key@)->0,
                    private_key_label(),
                )
                &&& !new_user.is_verified
                &&& new_user.created_at == now
                &&& new_user.updated_at == now
                &&& final(ledger)@ == registered(old(ledger)@, new_user@, now)
            },
            Err(e) => {
                &&& e is UserAlreadyExists || e is WalletError
                &&& final(ledger)@ == old(ledger)@
            },
        },
{
    if email_taken(ledger, req.email.as_str()) {
        return Err(AuthError::UserAlreadyExists);
    }
    let keypair = match generate_wallet_keypair(aes_key) {
        Ok(keypair) => keypair,
        Err(e) => {
            return Err(AuthError::WalletError(e.to_string()));
        },
    };
    let id = allocate_id(ledger);
    let user = User {
        id,
        email: req.email,
        full_name: req.full_name,
        cnic: req.cnic,
        wallet_id: keypair.wallet_id,
        public_key: keypair.public_key,
        encrypted_private_key: keypair.private_key,
        is_verified: false,
        created_at: now,
        updated_at: now,
    };
    proof {
        lemma_views_push(ledger.users@, user);
    }
    ledger.users.push(user.clone());
    create_wallet(ledger, user.wallet_id.as_str(), Some(user.id), now);
    Ok(user)
}

} // verus!
