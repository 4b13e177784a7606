//! Text as the ledger writes it: decimal integers, amounts in coins, and
//! comparisons of strings by their characters.

use vstd::prelude::*;
use vstd::string::*;
use vstd::utf8::*;

verus! {

/// Base units in one coin. What a transfer moves is a whole number of base
/// units.
pub const UNITS_PER_COIN: i64 = 100_000_000;

/// The character of one decimal digit.
pub open spec fn digit_char(d: int) -> char {
    if d == 0 {
        '0'
    } else if d == 1 {
        '1'
    } else if d == 2 {
        '2'
    } else if d == 3 {
        '3'
    } else if d == 4 {
        '4'
    } else if d == 5 {
        '5'
    } else if d == 6 {
        '6'
    } else if d == 7 {
        '7'
    } else if d == 8 {
        '8'
    } else {
        '9'
    }
}

/// The decimal digits of a natural number, most significant first, without
/// leading zeros; `0` is one digit.
pub open spec fn digits(n: nat) -> Seq<char>
    decreases n,
{
    if n < 10 {
        seq![digit_char(n as int)]
    } else {
        digits(n / 10).push(digit_char((n % 10) as int))
    }
}

/// An integer in decimal, with a minus sign in front when it is negative.
pub open spec fn decimal(v: int) -> Seq<char> {
    if v < 0 {
        seq!['-'] + digits((-v) as nat)
    } else {
        digits(v as nat)
    }
}

/// `width` decimal digits of `n`, padded with zeros on the left: the last
/// `width` digits where `n` has more.
pub open spec fn padded_digits(n: nat, width: nat) -> Seq<char>
    decreases width,
{
    if width == 0 {
        Seq::empty()
    } else {
        padded_digits(n / 10, (width - 1) as nat).push(digit_char((n % 10) as int))
    }
}

/// `s` without the zeros at its end.
pub open spec fn trim_zeros(s: Seq<char>) -> Seq<char>
    decreases s.len(),
{
    if s.len() > 0 && s.last() == '0' {
        trim_zeros(s.drop_last())
    } else {
        s
    }
}

/// An amount of base units in coins with eight decimals, as in `123.45678900`.
pub open spec fn currency_text(units: int) -> Seq<char> {
    let magnitude = if units < 0 {
        -units
    } else {
        units
    };
    let sign = if units < 0 {
        seq!['-']
    } else {
        Seq::<char>::empty()
    };
    sign + digits((magnitude / 100_000_000) as nat) + seq!['.'] + padded_digits(
        (magnitude % 100_000_000) as nat,
        8,
    )
}

/// An amount of base units in coins, in the shortest form: no decimal point
/// for whole coins, no zeros at the end of the decimals (`10`, `12.5`, `0.1`).
pub open spec fn amount_text(units: int) -> Seq<char> {
    let magnitude = if units < 0 {
        -units
    } else {
        units
    };
    let sign = if units < 0 {
        seq!['-']
    } else {
        Seq::<char>::empty()
    };
    let whole = digits((magnitude / 100_000_000) as nat);
    let fraction = (magnitude % 100_000_000) as nat;
    if fraction == 0 {
        sign + whole
    } else {
        sign + whole + seq!['.'] + trim_zeros(padded_digits(fraction, 8))
    }
}

/// Whether the first `n` characters of `s` are all `c`.
pub open spec fn leads_with(s: Seq<char>, c: char, n: nat) -> bool {
    n <= s.len() && forall|i: int| 0 <= i < n ==> s[i] == c
}

/// One decimal digit as text.
fn digit_str(d: u64) -> (s: &'static str)
    requires
        d < 10,
    ensures
        s@ == seq![digit_char(d as int)],
{
    let s = if d == 0 {
        "0"
    } else if d == 1 {
        "1"
    } else if d == 2 {
        "2"
    } else if d == 3 {
        "3"
    } else if d == 4 {
        "4"
    } else if d == 5 {
        "5"
    } else if d == 6 {
        "6"
    } else if d == 7 {
        "7"
    } else if d == 8 {
        "8"
    } else {
        "9"
    };
    proof {
        reveal_strlit("0");
        reveal_strlit("1");
        reveal_strlit("2");
        reveal_strlit("3");
        reveal_strlit("4");
        reveal_strlit("5");
        reveal_strlit("6");
        reveal_strlit("7");
        reveal_strlit("8");
        reveal_strlit("9");
        assert(s@ =~= seq![digit_char(d as int)]);
    }
    s
}

/// Appends the decimal digits of `n` to `out`.
pub fn push_digits(out: &mut String, n: u64)
    ensures
        final(out)@ == old(out)@ + digits(n as nat),
    decreases n,
{
    if n >= 10 {
        push_digits(out, n / 10);
    }
    out.append(digit_str(n % 10));
    proof {
        assert(final(out)@ =~= old(out)@ + digits(n as nat));
    }
}

/// Appends `width` digits of `n`, zero-padded on the left, to `out`.
pub fn push_padded_digits(out: &mut String, n: u64, width: u8)
    ensures
        final(out)@ == old(out)@ + padded_digits(n as nat, width as nat),
    decreases width,
{
    if width > 0 {
        push_padded_digits(out, n / 10, width - 1);
        out.append(digit_str(n % 10));
    }
    proof {
        assert(final(out)@ =~= old(out)@ + padded_digits(n as nat, width as nat));
    }
}

/// The absolute value of `v`.
pub fn magnitude(v: i64) -> (m: u64)
    ensures
        m == if v < 0 {
            -(v as int)
        } else {
            v as int
        },
{
    if v >= 0 {
        v as u64
    } else if v == i64::MIN {
        9_223_372_036_854_775_808u64
    } else {
        (-v) as u64
    }
}

/// Appends `v` in decimal to `out`.
pub fn push_decimal(out: &mut String, v: i64)
    ensures
        final(out)@ == old(out)@ + decimal(v as int),
{
    if v < 0 {
        out.append("-");
        push_digits(out, magnitude(v));
        proof {
            reveal_strlit("-");
            assert(final(out)@ =~= old(out)@ + decimal(v as int));
        }
    } else {
        push_digits(out, v as u64);
    }
}

/// `v` in decimal.
pub fn decimal_string(v: i64) -> (out: String)
    ensures
        out@ == decimal(v as int),
{
    let mut out = String::new();
    push_decimal(&mut out, v);
    proof {
        assert(out@ =~= decimal(v as int));
    }
    out
}

/// Ten to the power `k`.
pub open spec fn pow10(k: nat) -> nat
    decreases k,
{
    if k == 0 {
        1
    } else {
        10 * pow10((k - 1) as nat)
    }
}

/// An amount of base units in coins with eight decimals.
pub fn currency_string(units: i64) -> (out: String)
    ensures
        out@ == currency_text(units as int),
{
    let m = magnitude(units);
    let mut out = String::new();
    if units < 0 {
        out.append("-");
    }
    push_digits(&mut out, m / 100_000_000);
    out.append(".");
    push_padded_digits(&mut out, m % 100_000_000, 8);
    proof {
        reveal_strlit("-");
        reveal_strlit(".");
        assert(out@ =~= currency_text(units as int));
    }
    out
}

/// An amount of base units in coins, in the shortest form.
pub fn amount_string(units: i64) -> (out: String)
    ensures
        out@ == amount_text(units as int),
{
    let m = magnitude(units);
    let mut out = String::new();
    if units < 0 {
        out.append("-");
    }
    push_digits(&mut out, m / 100_000_000);
    let fraction = m % 100_000_000;
    if fraction != 0 {
        out.append(".");
        let mut rest = fraction;
        let mut width: u8 = 8;
        proof {
            reveal_with_fuel(pow10, 9);
        }
        while rest % 10 == 0
            invariant
                0 < rest < pow10(width as nat),
                width <= 8,
                trim_zeros(padded_digits(fraction as nat, 8)) == trim_zeros(
                    padded_digits(rest as nat, width as nat),
                ),
            decreases rest,
        {
            proof {
                reveal_with_fuel(pow10, 2);
                let shown = padded_digits(rest as nat, width as nat);
                assert(width > 0);
                assert(shown.drop_last() =~= padded_digits((rest / 10) as nat, (width - 1) as nat));
            }
            rest = rest / 10;
            width = width - 1;
        }
        proof {
            reveal_with_fuel(pow10, 2);
            assert(width > 0);
            let shown = padded_digits(rest as nat, width as nat);
            assert(shown.last() == digit_char((rest % 10) as int));
            assert(trim_zeros(shown) == shown);
        }
        push_padded_digits(&mut out, rest, width);
    }
    proof {
        reveal_strlit("-");
        reveal_strlit(".");
        assert(out@ =~= amount_text(units as int));
    }
    out
}

/// Whether two strings hold the same characters.
pub fn str_eq(a: &str, b: &str) -> (same: bool)
    ensures
        same == (a@ == b@),
{
    let x = a.as_bytes();
    let y = b.as_bytes();
    proof {
        encode_utf8_decode_utf8(a@);
        encode_utf8_decode_utf8(b@);
    }
    if x.len() != y.len() {
        return false;
    }
    let mut i: usize = 0;
    while i < x.len()
        invariant
            i <= x.len(),
            x.len() == y.len(),
            x@ == encode_utf8(a@),
            y@ == encode_utf8(b@),
            forall|j: int| 0 <= j < i ==> x@[j] == y@[j],
        decreases x.len() - i,
    {
        if x[i] != y[i] {
            return false;
        }
        i += 1;
    }
    proof {
        assert(x@ =~= y@);
    }
    true
}

/// Whether `s` starts with `n` times the character `c`.
pub fn starts_with_run(s: &str, c: char, n: usize) -> (yes: bool)
    ensures
        yes == leads_with(s@, c, n as nat),
{
    if s.unicode_len() < n {
        return false;
    }
    let mut i: usize = 0;
    while i < n
        invariant
            i <= n,
            n <= s@.len(),
            forall|j: int| 0 <= j < i ==> s@[j] == c,
        decreases n - i,
    {
        if s.get_char(i) != c {
            return false;
        }
        i += 1;
    }
    true
}

} // verus!
