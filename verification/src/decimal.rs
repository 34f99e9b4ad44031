//! Unsigned decimal numerals: one or more of the digits `0` to `9`, the most
//! significant first. No sign, no blanks; leading zeros are read and not
//! written.

use vstd::prelude::*;
use vstd::std_specs::iter::IteratorSpec;
use vstd::string::*;

verus! {

/// Whether `c` is one of the ten decimal digits.
pub open spec fn is_digit(c: char) -> bool {
    '0' <= c && c <= '9'
}

/// The number that a digit stands for; 0 for any other character.
pub open spec fn digit_value(c: char) -> nat {
    if is_digit(c) {
        (c as u32 - '0' as u32) as nat
    } else {
        0
    }
}

/// The digit that stands for `d`, for `d` below ten.
pub open spec fn digit_char(d: nat) -> char
    recommends
        d < 10,
{
    ('0' as u32 + d) as char
}

/// Whether `s` is a numeral: not empty, and digits only.
pub open spec fn is_numeral(s: Seq<char>) -> bool {
    s.len() > 0 && forall|i: int| 0 <= i < s.len() ==> is_digit(#[trigger] s[i])
}

/// The number that the digits of `s` denote in base ten.
pub open spec fn numeral_value(s: Seq<char>) -> nat
    decreases s.len(),
{
    if s.len() == 0 {
        0
    } else {
        10 * numeral_value(s.drop_last()) + digit_value(s.last())
    }
}

/// The shortest numeral for `n`.
pub open spec fn decimal(n: nat) -> Seq<char>
    decreases n,
{
    if n < 10 {
        seq![digit_char(n)]
    } else {
        decimal(n / 10).push(digit_char(n % 10))
    }
}

/// What a text denotes as a `u8`: its value where it is a numeral for a number
/// up to 255, nothing otherwise.
pub open spec fn numeral_u8(s: Seq<char>) -> Option<u8> {
    if is_numeral(s) && numeral_value(s) <= u8::MAX {
        Some(numeral_value(s) as u8)
    } else {
        None
    }
}

/// Writing a number and reading it again gives the number back.
pub proof fn lemma_decimal_value(n: nat)
    ensures
        is_numeral(decimal(n)),
        numeral_value(decimal(n)) == n,
    decreases n,
{
    let s = decimal(n);
    assert(is_digit(digit_char(n % 10)) && digit_value(digit_char(n % 10)) == n % 10);
    if n < 10 {
        assert(s.drop_last() =~= Seq::empty());
        assert(numeral_value(s.drop_last()) == 0);
    } else {
        lemma_decimal_value(n / 10);
        assert(s.drop_last() =~= decimal(n / 10));
    }
    assert(s.last() == digit_char(n % 10));
}

/// A numeral's value never falls when digits are added at its end.
proof fn lemma_value_grows(s: Seq<char>, i: int)
    requires
        0 <= i <= s.len(),
    ensures
        numeral_value(s.take(i)) <= numeral_value(s),
    decreases s.len(),
{
    if i == s.len() {
        assert(s.take(i) =~= s);
    } else {
        assert(s.drop_last().take(i) =~= s.take(i));
        lemma_value_grows(s.drop_last(), i);
    }
}

/// Whether `s` is a numeral.
pub fn is_numeral_text(s: &str) -> (ok: bool)
    ensures
        ok == is_numeral(s@),
{
    broadcast use vstd::string::group_string_axioms;

    let mut seen: bool = false;
    for c in it: s.chars()
        invariant
            it.seq() == s@,
            seen == (it.index() > 0),
            forall|i: int| 0 <= i < it.index() ==> is_digit(#[trigger] s@[i]),
    {
        if !('0' <= c && c <= '9') {
            return false;
        }
        seen = true;
    }
    seen
}

/// Reads a numeral for a number that fits in a `u8`.
pub fn parse_u8(s: &str) -> (n: Option<u8>)
    ensures
        n == numeral_u8(s@),
{
    broadcast use vstd::string::group_string_axioms;

    let mut seen: bool = false;
    let mut acc: u32 = 0;
    for c in it: s.chars()
        invariant
            it.seq() == s@,
            seen == (it.index() > 0),
            forall|i: int| 0 <= i < it.index() ==> is_digit(#[trigger] s@[i]),
            acc == numeral_value(s@.take(it.index())),
            acc <= u8::MAX,
    {
        if !('0' <= c && c <= '9') {
            return None;
        }
        proof {
            assert(s@.take(it.index() + 1).drop_last() =~= s@.take(it.index()));
        }
        acc = 10 * acc + (c as u32 - '0' as u32);
        if acc > 255 {
            proof {
                lemma_value_grows(s@, it.index() + 1);
            }
            return None;
        }
        seen = true;
    }
    assert(s@.take(s@.len() as int) =~= s@);
    if seen {
        Some(acc as u8)
    } else {
        None
    }
}

/// The text of one digit.
fn digit_text(d: u64) -> (t: &'static str)
    requires
        d < 10,
    ensures
        t@ == seq![digit_char(d as nat)],
{
    proof {
        reveal_strlit("0");
        reveal_strlit("1");
        reveal_strlit("2");
        reveal_strlit("3");
        reveal_strlit("4");
        reveal_strlit("5");
        reveal_strlit("6");
        reveal_strlit("7");
        reveal_strlit("8");
        reveal_strlit("9");
    }
    let t = match d {
        0 => "0",
        1 => "1",
        2 => "2",
        3 => "3",
        4 => "4",
        5 => "5",
        6 => "6",
        7 => "7",
        8 => "8",
        _ => "9",
    };
    assert(t@ =~= seq![digit_char(d as nat)]);
    t
}

/// Writes `n` as its shortest numeral.
pub fn to_decimal(n: u64) -> (s: String)
    ensures
        s@ == decimal(n as nat),
    decreases n,
{
    if n < 10 {
        digit_text(n).to_owned()
    } else {
        to_decimal(n / 10).concat(digit_text(n % 10))
    }
}

} // verus!
