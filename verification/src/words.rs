//! Naming integers in American English.
//!
//! `words` is the mathematical definition; `number_to_words` computes it.

use vstd::prelude::*;
use vstd::string::*;
use crate::lexicon::{
    lemma_low_name_is_name, lemma_tens_name_is_name, low_name, low_name_str, scale_name,
    scale_name_str, tens_name, tens_name_str,
};

verus! {

/// The largest magnitude that has a name: one below a trillion, the first
/// number that would need a scale label after "billion".
pub const MAX_MAGNITUDE: i64 = 999_999_999_999;

/// Whether `n` has a name.
pub open spec fn nameable(n: int) -> bool {
    -MAX_MAGNITUDE <= n <= MAX_MAGNITUDE
}

/// A number that has no name: its magnitude exceeds `MAX_MAGNITUDE`.
#[derive(Debug, Clone, Copy, PartialEq, Eq, Structural)]
pub struct OutOfRange {
    pub value: i64,
}

/// The name of a number from 0 to 99.
pub open spec fn words_below_hundred(n: int) -> Seq<char> {
    if n < 20 {
        low_name(n)
    } else if n % 10 == 0 {
        tens_name(n / 10 - 2)
    } else {
        tens_name(n / 10 - 2) + "-"@ + low_name(n % 10)
    }
}

/// The name of a number from 0 to 999.
pub open spec fn words_below_thousand(n: int) -> Seq<char> {
    if n <= 99 {
        words_below_hundred(n)
    } else if n % 100 == 0 {
        low_name(n / 100) + " hundred"@
    } else {
        low_name(n / 100) + " hundred"@ + " "@ + words_below_hundred(n % 100)
    }
}

/// A three-digit chunk `c` at position `t` (0 for units, 1 for thousands,
/// and so on), followed by its scale label where it has one.
pub open spec fn group_words(c: int, t: int) -> Seq<char> {
    if t <= 0 {
        words_below_thousand(c)
    } else {
        words_below_thousand(c) + " "@ + scale_name(t - 1)
    }
}

/// Two runs of groups joined by `", "`; an empty run adds no separator.
pub open spec fn join_groups(high: Seq<char>, low: Seq<char>) -> Seq<char> {
    if high.len() == 0 {
        low
    } else if low.len() == 0 {
        high
    } else {
        high + ", "@ + low
    }
}

/// The nonzero chunks of `n`, most significant first, when the least
/// significant chunk of `n` stands at position `t`.
pub open spec fn chunk_words(n: int, t: int) -> Seq<char>
    decreases n,
{
    if n <= 0 {
        Seq::empty()
    } else if n % 1000 == 0 {
        chunk_words(n / 1000, t + 1)
    } else {
        join_groups(chunk_words(n / 1000, t + 1), group_words(n % 1000, t))
    }
}

/// The American-English name of `n`.
pub open spec fn words(n: int) -> Seq<char>
    decreases
            (if n < 0 {
                1int
            } else {
                0int
            }),
{
    if n < 0 {
        "minus "@ + words(-n)
    } else if n <= 999 {
        words_below_thousand(n)
    } else {
        chunk_words(n, 0)
    }
}

/// Names a number from 0 to 99.
pub fn convert99(n: i64) -> (s: String)
    requires
        0 <= n <= 99,
    ensures
        s@ == words_below_hundred(n as int),
{
    if n < 20 {
        low_name_str(n as usize).to_owned()
    } else {
        let s = tens_name_str((n / 10 - 2) as usize).to_owned();
        if n % 10 == 0 {
            s
        } else {
            s.concat("-").concat(low_name_str((n % 10) as usize))
        }
    }
}

/// Names a number from 0 to 999.
pub fn convert999(n: i64) -> (s: String)
    requires
        0 <= n <= 999,
    ensures
        s@ == words_below_thousand(n as int),
{
    let s2 = convert99(n % 100);
    if n <= 99 {
        s2
    } else {
        let s1 = low_name_str((n / 100) as usize).to_owned().concat(" hundred");
        if n % 100 == 0 {
            s1
        } else {
            s1.concat(" ").concat(s2.as_str())
        }
    }
}

/// How far a number may reach when its least significant chunk stands at
/// position `t` and the whole is nameable.
pub open spec fn chunk_limit(t: int) -> int {
    if t <= 0 {
        1_000_000_000_000
    } else if t == 1 {
        1_000_000_000
    } else if t == 2 {
        1_000_000
    } else if t == 3 {
        1_000
    } else {
        1
    }
}

/// The name of a number from 0 to 99 is not empty.
pub proof fn lemma_words_below_hundred_nonempty(n: int)
    ensures
        words_below_hundred(n).len() >= 3,
{
    lemma_low_name_is_name(n);
    lemma_low_name_is_name(n % 10);
    lemma_tens_name_is_name(n / 10 - 2);
}

/// A rendered group is not empty.
pub proof fn lemma_group_words_nonempty(c: int, t: int)
    ensures
        group_words(c, t).len() >= 3,
{
    lemma_words_below_hundred_nonempty(c);
    lemma_low_name_is_name(c / 100);
}

/// Joining runs of groups is associative.
pub proof fn lemma_join_groups_assoc(a: Seq<char>, b: Seq<char>, c: Seq<char>)
    ensures
        join_groups(join_groups(a, b), c) == join_groups(a, join_groups(b, c)),
{
    reveal_strlit(", ");
    if a.len() > 0 && b.len() > 0 && c.len() > 0 {
        assert((a + ", "@ + b) + ", "@ + c =~= a + ", "@ + (b + ", "@ + c));
    }
}

/// Names a nonnegative number.
fn name_magnitude(n0: i64) -> (s: String)
    requires
        0 <= n0 <= MAX_MAGNITUDE,
    ensures
        s@ == words(n0 as int),
{
    if n0 <= 999 {
        return convert999(n0);
    }
    let mut n: i64 = n0;
    let mut s: String = String::new();
    let mut t: usize = 0;
    while n > 0
        invariant
            0 <= n < chunk_limit(t as int),
            t <= 4,
            join_groups(chunk_words(n as int, t as int), s@) == chunk_words(n0 as int, 0),
        decreases n,
    {
        let ghost high = chunk_words((n / 1000) as int, t as int + 1);
        let ghost low = s@;
        if n % 1000 != 0 {
            let mut s2 = convert999(n % 1000);
            if t > 0 {
                s2 = s2.concat(" ").concat(scale_name_str(t - 1));
            }
            proof {
                lemma_join_groups_assoc(high, s2@, low);
            }
            if s.as_str().is_empty() {
                s = s2;
            } else {
                s = s2.concat(", ").concat(s.as_str());
            }
            assert(s@ == join_groups(group_words((n % 1000) as int, t as int), low)) by {
                lemma_group_words_nonempty((n % 1000) as int, t as int);
            }
        }
        n = n / 1000;
        t = t + 1;
    }
    s
}

/// Names `n0`: `"minus "` and the name of the magnitude where `n0` is
/// negative, the bare name otherwise.
pub fn number_to_words(n0: i64) -> (s: String)
    requires
        nameable(n0 as int),
    ensures
        s@ == words(n0 as int),
{
    if n0 < 0 {
        let rest = name_magnitude(-n0);
        "minus ".to_owned().concat(rest.as_str())
    } else {
        name_magnitude(n0)
    }
}

/// Names `n` where it has a name, and reports it as out of range where it
/// has none.
pub fn checked_number_to_words(n: i64) -> (r: Result<String, OutOfRange>)
    ensures
        nameable(n as int) ==> (r matches Ok(s) && s@ == words(n as int)),
        !nameable(n as int) ==> r == Err::<String, OutOfRange>((OutOfRange { value: n })),
{
    if -MAX_MAGNITUDE <= n && n <= MAX_MAGNITUDE {
        Ok(number_to_words(n))
    } else {
        Err(OutOfRange { value: n })
    }
}

} // verus!
