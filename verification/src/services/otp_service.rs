//! One-time codes.

use crate::text::{padded_digits, push_padded_digits};
use rand::Rng;
use vstd::prelude::*;
use vstd::string::*;

verus! {

/// What can go wrong with a one-time code.
#[derive(Debug)]
pub enum OtpError {
    DatabaseError(String),
    InvalidOtp,
    ExpiredOtp,
    SendError(String),
}

impl OtpError {
    /// The error as one line of text.
    pub open spec fn text(self) -> Seq<char> {
        match self {
            OtpError::DatabaseError(msg) => "Database error: "@ + msg@,
            OtpError::InvalidOtp => "Invalid or already used OTP"@,
            OtpError::ExpiredOtp => "OTP has expired"@,
            OtpError::SendError(msg) => "Failed to send OTP: "@ + msg@,
        }
    }

    /// The error as one line of text.
    pub fn to_string(&self) -> (text: String)
        ensures
            text@ == self.text(),
    {
        let (label, msg) = match self {
            OtpError::DatabaseError(msg) => ("Database error: ", msg.as_str()),
            OtpError::InvalidOtp => ("Invalid or already used OTP", ""),
            OtpError::ExpiredOtp => ("OTP has expired", ""),
            OtpError::SendError(msg) => ("Failed to send OTP: ", msg.as_str()),
        };
        let mut text = label.to_owned();
        text.append(msg);
        proof {
            reveal_strlit("");
            assert(text@ =~= self.text());
        }
        text
    }
}

/// The least one-time code.
pub const OTP_MIN: u32 = 100_000;

/// The greatest one-time code.
pub const OTP_MAX: u32 = 999_999;

/// For how many seconds a one-time code is good.
pub const OTP_LIFETIME: i64 = 600;

/// `Rng::gen_range` on `rand::thread_rng` with an inclusive range: a random
/// number from `low` to `high`.
#[verifier::external_body]
fn random_between(low: u32, high: u32) -> (n: u32)
    requires
        low <= high,
    ensures
        low <= n <= high,
{
    rand::thread_rng().gen_range(low..=high)
}

/// A one-time code as text: its six digits.
pub fn otp_text(code: u32) -> (text: String)
    ensures
        text@ == padded_digits(code as nat, 6),
        text@.len() == 6,
{
    let mut text = String::new();
    push_padded_digits(&mut text, code as u64, 6);
    proof {
        reveal_with_fuel(padded_digits, 7);
        assert(text@ =~= padded_digits(code as nat, 6));
    }
    text
}

/// Draws a one-time code of six digits, the first of which is not zero.
pub fn generate_otp() -> (otp: String)
    ensures
        otp@.len() == 6,
        exists|code: nat| OTP_MIN <= code <= OTP_MAX && otp@ == padded_digits(code, 6),
{
    let code = random_between(OTP_MIN, OTP_MAX);
    otp_text(code)
}

/// When a one-time code made at `now` stops being good; nothing where that
/// time is beyond the greatest number.
pub fn otp_expiry(now: i64) -> (expires_at: Option<i64>)
    ensures
        expires_at == if now + OTP_LIFETIME <= i64::MAX {
            Some((now + OTP_LIFETIME) as i64)
        } else {
            None
        },
{
    now.checked_add(OTP_LIFETIME)
}

} // verus!
