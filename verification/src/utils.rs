use crate::text::{currency_string, currency_text};
use vstd::prelude::*;
use vstd::string::*;
use vstd::utf8::*;

verus! {

/// An amount of base units in coins, with all eight decimals: `123.45678900`.
pub fn format_currency(amount: i64) -> (text: String)
    ensures
        text@ == currency_text(amount as int),
{
    currency_string(amount)
}

/// Whether `truncate_hash` can cut `hash` down to `length` bytes: either it is
/// short enough to stay whole, or both cuts fall between characters.
pub open spec fn can_truncate(hash: &str, length: usize) -> bool {
    let bytes = hash.spec_bytes();
    let half = (length / 2) as int;
    bytes.len() <= length || (is_char_boundary(bytes, half) && is_char_boundary(
        bytes,
        bytes.len() - half,
    ))
}

/// What `truncate_hash` shows of `hash`: all of it when it has at most `length`
/// bytes, else its first and its last `length / 2` bytes around three dots.
pub open spec fn truncated(hash: &str, length: usize) -> Seq<char> {
    let bytes = hash.spec_bytes();
    let half = (length / 2) as int;
    if bytes.len() <= length {
        hash@
    } else {
        decode_utf8(bytes.subrange(0, half)) + "..."@ + decode_utf8(
            bytes.subrange(bytes.len() - half, bytes.len() as int),
        )
    }
}

/// Shortens a hash for display, keeping its two ends.
pub fn truncate_hash(hash: &str, length: usize) -> (out: String)
    requires
        can_truncate(hash, length),
    ensures
        out@ == truncated(hash, length),
{
    let n = hash.as_bytes().len();
    if n <= length {
        hash.to_owned()
    } else {
        let half = length / 2;
        let (head, _) = hash.split_at(half);
        let (_, tail) = hash.split_at(n - half);
        proof {
            encode_utf8_decode_utf8(head@);
            encode_utf8_decode_utf8(tail@);
        }
        let mut out = head.to_owned();
        out.append("...");
        out.append(tail);
        out
    }
}

} // verus!
