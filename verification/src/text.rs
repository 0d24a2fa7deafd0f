//! Decimal numerals, as they appear in a written-out path, and the lossy
//! reading of bytes as text.
use vstd::prelude::*;

verus! {

/// The character of one decimal digit.
pub open spec fn digit_char(d: nat) -> char
    recommends
        d < 10,
{
    if d == 0 {
        '0'
    } else if d == 1 {
        '1'
    } else if d == 2 {
        '2'
    } else if d == 3 {
        '3'
    } else if d == 4 {
        '4'
    } else if d == 5 {
        '5'
    } else if d == 6 {
        '6'
    } else if d == 7 {
        '7'
    } else if d == 8 {
        '8'
    } else {
        '9'
    }
}

/// The decimal numeral of a natural number, without leading zeros.
pub open spec fn decimal_text(n: nat) -> Seq<char>
    decreases n,
{
    if n < 10 {
        seq![digit_char(n)]
    } else {
        decimal_text(n / 10).push(digit_char(n % 10))
    }
}

fn digit(d: usize) -> (s: &'static str)
    requires
        d < 10,
    ensures
        s@ == seq![digit_char(d as nat)],
{
    proof {
        reveal_strlit("0");
        reveal_strlit("1");
        reveal_strlit("2");
        reveal_strlit("3");
        reveal_strlit("4");
        reveal_strlit("5");
        reveal_strlit("6");
        reveal_strlit("7");
        reveal_strlit("8");
        reveal_strlit("9");
    }
    let s = if d == 0 {
        "0"
    } else if d == 1 {
        "1"
    } else if d == 2 {
        "2"
    } else if d == 3 {
        "3"
    } else if d == 4 {
        "4"
    } else if d == 5 {
        "5"
    } else if d == 6 {
        "6"
    } else if d == 7 {
        "7"
    } else if d == 8 {
        "8"
    } else {
        "9"
    };
    assert(s@ =~= seq![digit_char(d as nat)]);
    s
}

/// Writes a number as a decimal numeral.
pub fn decimal(n: usize) -> (out: String)
    ensures
        out@ == decimal_text(n as nat),
{
    let mut out = String::from_str(digit(n % 10));
    let mut rest: usize = n / 10;
    proof {
        if n >= 10 {
            assert(decimal_text(n as nat) =~= decimal_text(rest as nat) + out@);
        }
    }
    while rest > 0
        invariant
            rest > 0 ==> decimal_text(n as nat) == decimal_text(rest as nat) + out@,
            rest == 0 ==> decimal_text(n as nat) == out@,
        decreases rest,
    {
        let ghost low = out@;
        let mut next = String::from_str(digit(rest % 10));
        next.append(out.as_str());
        out = next;
        proof {
            if rest >= 10 {
                assert(decimal_text(rest as nat) + low =~= decimal_text((rest / 10) as nat) + out@);
            } else {
                assert(decimal_text(rest as nat) + low =~= out@);
            }
        }
        rest = rest / 10;
    }
    out
}

/// The text that `String::from_utf8_lossy` gives for bytes: the text that
/// they are as UTF-8, with U+FFFD in the place of what is not UTF-8.
pub uninterp spec fn utf8_lossy_text(bytes: Seq<u8>) -> Seq<char>;

/// Calls `String::from_utf8_lossy`, whose result is a function of the bytes alone.
#[verifier::external_body]
pub(crate) fn from_utf8_lossy(bytes: &[u8]) -> (text: String)
    ensures
        text@ == utf8_lossy_text(bytes@),
{
    String::from_utf8_lossy(bytes).into_owned()
}

} // verus!
