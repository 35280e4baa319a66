//! Decimal numerals and repeated text, from which bulky values are built.

use vstd::prelude::*;
use vstd::string::*;

verus! {

/// The numeral of one decimal digit.
pub open spec fn digit_text(d: int) -> Seq<char> {
    if d == 0 {
        "0"@
    } else if d == 1 {
        "1"@
    } else if d == 2 {
        "2"@
    } else if d == 3 {
        "3"@
    } else if d == 4 {
        "4"@
    } else if d == 5 {
        "5"@
    } else if d == 6 {
        "6"@
    } else if d == 7 {
        "7"@
    } else if d == 8 {
        "8"@
    } else {
        "9"@
    }
}

/// The decimal numeral of a number that is not negative, without leading
/// zeros.
pub open spec fn decimal_magnitude(n: int) -> Seq<char>
    decreases n,
{
    if n < 10 {
        digit_text(n)
    } else {
        decimal_magnitude(n / 10) + digit_text(n % 10)
    }
}

/// The decimal numeral of an integer, with a leading `'-'` where it is
/// negative.
pub open spec fn decimal(n: int) -> Seq<char> {
    if n < 0 {
        "-"@ + decimal_magnitude(-n)
    } else {
        decimal_magnitude(n)
    }
}

/// How many digits the decimal numeral of a number that is not negative
/// has.
pub open spec fn digit_count(n: int) -> nat
    decreases n,
{
    if n < 10 {
        1
    } else {
        digit_count(n / 10) + 1
    }
}

/// `times` copies of `s`, one after the other.
pub open spec fn repeated(s: Seq<char>, times: nat) -> Seq<char>
    decreases times,
{
    if times == 0 {
        Seq::empty()
    } else {
        repeated(s, (times - 1) as nat) + s
    }
}

/// A numeral has one character for each digit.
pub proof fn lemma_decimal_magnitude_len(n: int)
    requires
        0 <= n,
    ensures
        decimal_magnitude(n).len() == digit_count(n),
    decreases n,
{
    reveal_strlit("0");
    reveal_strlit("1");
    reveal_strlit("2");
    reveal_strlit("3");
    reveal_strlit("4");
    reveal_strlit("5");
    reveal_strlit("6");
    reveal_strlit("7");
    reveal_strlit("8");
    reveal_strlit("9");
    if n >= 10 {
        lemma_decimal_magnitude_len(n / 10);
    }
}

/// Repeated text is as long as one copy times the number of copies.
pub proof fn lemma_repeated_len(s: Seq<char>, times: nat)
    ensures
        repeated(s, times).len() == s.len() * times,
    decreases times,
{
    if times > 0 {
        lemma_repeated_len(s, (times - 1) as nat);
        assert(s.len() * times == s.len() * (times - 1) + s.len()) by (nonlinear_arith);
    } else {
        assert(s.len() * times == 0) by (nonlinear_arith)
            requires
                times == 0,
        ;
    }
}

/// Looks up the numeral of one digit.
fn digit_str(d: u64) -> (s: &'static str)
    requires
        d < 10,
    ensures
        s@ == digit_text(d as int),
{
    match d {
        0 => "0",
        1 => "1",
        2 => "2",
        3 => "3",
        4 => "4",
        5 => "5",
        6 => "6",
        7 => "7",
        8 => "8",
        _ => "9",
    }
}

/// Writes a number that is not negative in decimal.
pub fn magnitude_string(n: u64) -> (s: String)
    ensures
        s@ == decimal_magnitude(n as int),
    decreases n,
{
    if n < 10 {
        digit_str(n).to_owned()
    } else {
        let mut s = magnitude_string(n / 10);
        s.append(digit_str(n % 10));
        s
    }
}

/// Writes an integer in decimal.
pub fn decimal_string(n: i64) -> (s: String)
    ensures
        s@ == decimal(n as int),
{
    if n >= 0 {
        magnitude_string(n as u64)
    } else {
        let magnitude: u64 = (-(n + 1)) as u64 + 1;
        "-".to_owned().concat(magnitude_string(magnitude).as_str())
    }
}

/// Writes `times` copies of `s`, one after the other.
pub fn repeat_text(s: &str, times: usize) -> (r: String)
    ensures
        r@ == repeated(s@, times as nat),
{
    let mut r = String::new();
    let mut done: usize = 0;
    while done < times
        invariant
            done <= times,
            r@ == repeated(s@, done as nat),
        decreases times - done,
    {
        r.append(s);
        done = done + 1;
    }
    r
}

} // verus!
