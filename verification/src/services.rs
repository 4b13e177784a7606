//! What the ledger offers to those who use it: wallets, transfers, the
//! periodic levy, and the small pieces of sign-up.

pub mod auth_service;
pub mod otp_service;
pub mod transaction_service;
pub mod wallet_service;
pub mod zakat_service;
