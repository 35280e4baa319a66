//! Distinct numbers have distinct names.
//!
//! The argument reads a name from both ends.  A name begins with a run of
//! letters, which is one vocabulary entry, and what follows it begins with
//! a separator; so equal names have equal first entries and equal rests.
//! The last characters tell which scale label, if any, closes a group, and
//! the last comma tells where the last group begins.

use vstd::prelude::*;
use crate::lexicon::{
    ending_scale, is_letter, is_name, lemma_low_name_is_name, lemma_low_name_is_no_tens_name,
    lemma_low_name_shape, lemma_low_names_distinct, lemma_plain_ending_scale,
    lemma_scale_name_ending, lemma_scale_name_is_name, lemma_tens_name_is_name,
    lemma_tens_name_shape, lemma_tens_names_distinct, low_name, plain_ending, scale_name,
    tens_name,
};
use crate::words::{
    chunk_limit, chunk_words, group_words, lemma_group_words_nonempty, nameable, words,
    words_below_hundred, words_below_thousand,
};

verus! {

/// A text without a comma.
pub open spec fn comma_free(s: Seq<char>) -> bool {
    forall|k: int| 0 <= k < s.len() ==> #[trigger] s[k] != ','
}

/// A text that is empty or begins with something other than a letter.
pub open spec fn begins_no_name(s: Seq<char>) -> bool {
    s.len() > 0 ==> !is_letter(s[0])
}

/// A run of letters followed by a separator is read off in one way only.
pub proof fn lemma_leading_name(w1: Seq<char>, r1: Seq<char>, w2: Seq<char>, r2: Seq<char>)
    requires
        is_name(w1),
        is_name(w2),
        begins_no_name(r1),
        begins_no_name(r2),
        w1 + r1 == w2 + r2,
    ensures
        w1 == w2,
        r1 == r2,
{
    let s = w1 + r1;
    let t = w2 + r2;
    assert(s.len() == w1.len() + r1.len());
    assert(t.len() == w2.len() + r2.len());
    if w1.len() < w2.len() {
        assert(s[w1.len() as int] == r1[0]);
        assert(t[w1.len() as int] == w2[w1.len() as int]);
        assert(false);
    }
    if w2.len() < w1.len() {
        assert(t[w2.len() as int] == r2[0]);
        assert(s[w2.len() as int] == w1[w2.len() as int]);
        assert(false);
    }
    assert forall|k: int| 0 <= k < w1.len() implies w1[k] == w2[k] by {
        assert(s[k] == w1[k]);
        assert(t[k] == w2[k]);
    }
    assert(w1 =~= w2);
    assert forall|k: int| 0 <= k < r1.len() implies r1[k] == r2[k] by {
        assert(s[w1.len() + k] == r1[k]);
        assert(t[w2.len() + k] == r2[k]);
    }
    assert(r1 =~= r2);
}

/// Equal texts behind equal prefixes are equal.
pub proof fn lemma_cancel_prefix(p: Seq<char>, a: Seq<char>, b: Seq<char>)
    requires
        p + a == p + b,
    ensures
        a == b,
{
    assert((p + a).len() == p.len() + a.len());
    assert((p + b).len() == p.len() + b.len());
    assert forall|k: int| 0 <= k < a.len() implies a[k] == b[k] by {
        assert((p + a)[p.len() + k] == a[k]);
        assert((p + b)[p.len() + k] == b[k]);
    }
    assert(a =~= b);
}

/// Equal texts before suffixes of equal length are equal.
pub proof fn lemma_cancel_suffix(a: Seq<char>, b: Seq<char>, x: Seq<char>, y: Seq<char>)
    requires
        a + x == b + y,
        x.len() == y.len(),
    ensures
        a == b,
        x == y,
{
    assert((a + x).len() == a.len() + x.len());
    assert((b + y).len() == b.len() + y.len());
    assert forall|k: int| 0 <= k < a.len() implies a[k] == b[k] by {
        assert((a + x)[k] == a[k]);
        assert((b + y)[k] == b[k]);
    }
    assert(a =~= b);
    assert forall|k: int| 0 <= k < x.len() implies x[k] == y[k] by {
        assert((a + x)[a.len() + k] == x[k]);
        assert((b + y)[b.len() + k] == y[k]);
    }
    assert(x =~= y);
}

/// The vocabulary entry that a number from 0 to 99 begins with.
pub open spec fn head_below_hundred(n: int) -> Seq<char> {
    if n < 20 {
        low_name(n)
    } else {
        tens_name(n / 10 - 2)
    }
}

/// What follows the first entry of a number from 0 to 99: nothing, or a
/// hyphen and the name of the units.
pub open spec fn tail_below_hundred(n: int) -> Seq<char> {
    if n < 20 || n % 10 == 0 {
        Seq::empty()
    } else {
        "-"@ + low_name(n % 10)
    }
}

/// The shape of a name from 0 to 99.
pub proof fn lemma_below_hundred_shape(n: int)
    requires
        0 <= n <= 99,
    ensures
        words_below_hundred(n) == head_below_hundred(n) + tail_below_hundred(n),
        is_name(head_below_hundred(n)),
        begins_no_name(tail_below_hundred(n)),
        comma_free(words_below_hundred(n)),
        plain_ending(words_below_hundred(n)),
        words_below_hundred(n)[0] != 'm',
{
    reveal_strlit("-");
    lemma_low_name_is_name(n);
    lemma_low_name_is_name(n % 10);
    lemma_tens_name_is_name(n / 10 - 2);
    lemma_low_name_shape(n);
    lemma_low_name_shape(n % 10);
    lemma_tens_name_shape(n / 10 - 2);
    let head = head_below_hundred(n);
    let tail = tail_below_hundred(n);
    assert(words_below_hundred(n) =~= head + tail);
    if tail.len() > 0 {
        lemma_plain_ending_scale(head + "-"@, low_name(n % 10));
        assert(head + tail =~= head + "-"@ + low_name(n % 10));
    }
}

/// Distinct numbers from 0 to 99 have distinct names.
pub proof fn lemma_below_hundred_distinct(a: int, b: int)
    requires
        0 <= a <= 99,
        0 <= b <= 99,
        words_below_hundred(a) == words_below_hundred(b),
    ensures
        a == b,
{
    lemma_below_hundred_shape(a);
    lemma_below_hundred_shape(b);
    lemma_leading_name(
        head_below_hundred(a),
        tail_below_hundred(a),
        head_below_hundred(b),
        tail_below_hundred(b),
    );
    if a < 20 && b < 20 {
        lemma_low_names_distinct(a, b);
    } else if a < 20 {
        lemma_low_name_is_no_tens_name(a, b / 10 - 2);
    } else if b < 20 {
        lemma_low_name_is_no_tens_name(b, a / 10 - 2);
    } else {
        lemma_tens_names_distinct(a / 10 - 2, b / 10 - 2);
        if a % 10 != 0 && b % 10 != 0 {
            lemma_cancel_prefix("-"@, low_name(a % 10), low_name(b % 10));
            lemma_low_names_distinct(a % 10, b % 10);
        } else if a % 10 != 0 || b % 10 != 0 {
            lemma_low_name_is_name(a % 10);
            lemma_low_name_is_name(b % 10);
        }
    }
}

/// The vocabulary entry that a number from 0 to 999 begins with.
pub open spec fn head_below_thousand(n: int) -> Seq<char> {
    if n <= 99 {
        head_below_hundred(n)
    } else {
        low_name(n / 100)
    }
}

/// What follows the first entry of a number from 100 to 999 after the
/// word "hundred": nothing, or a space and the name of the remainder.
pub open spec fn tail_after_hundred(n: int) -> Seq<char> {
    if n % 100 == 0 {
        Seq::empty()
    } else {
        " "@ + words_below_hundred(n % 100)
    }
}

/// What follows the first entry of a number from 0 to 999.
pub open spec fn rest_below_thousand(n: int) -> Seq<char> {
    if n <= 99 {
        tail_below_hundred(n)
    } else {
        " hundred"@ + tail_after_hundred(n)
    }
}

/// The shape of a name from 0 to 999.
pub proof fn lemma_below_thousand_shape(n: int)
    requires
        0 <= n <= 999,
    ensures
        words_below_thousand(n) == head_below_thousand(n) + rest_below_thousand(n),
        is_name(head_below_thousand(n)),
        begins_no_name(rest_below_thousand(n)),
        comma_free(words_below_thousand(n)),
        plain_ending(words_below_thousand(n)),
        words_below_thousand(n)[0] != 'm',
        words_below_thousand(n).len() >= 3,
{
    if n <= 99 {
        lemma_below_hundred_shape(n);
    } else {
        reveal_strlit(" hundred");
        reveal_strlit(" ");
        lemma_low_name_is_name(n / 100);
        lemma_low_name_shape(n / 100);
        lemma_below_hundred_shape(n % 100);
        let head = low_name(n / 100);
        let rest = rest_below_thousand(n);
        assert(words_below_thousand(n) =~= head + rest);
        if n % 100 == 0 {
            lemma_plain_ending_scale(head, " hundred"@);
        } else {
            lemma_plain_ending_scale(head + " hundred"@ + " "@, words_below_hundred(n % 100));
        }
    }
}

/// Distinct numbers from 0 to 999 have distinct names.
pub proof fn lemma_below_thousand_distinct(a: int, b: int)
    requires
        0 <= a <= 999,
        0 <= b <= 999,
        words_below_thousand(a) == words_below_thousand(b),
    ensures
        a == b,
{
    lemma_below_thousand_shape(a);
    lemma_below_thousand_shape(b);
    lemma_leading_name(
        head_below_thousand(a),
        rest_below_thousand(a),
        head_below_thousand(b),
        rest_below_thousand(b),
    );
    if a <= 99 && b <= 99 {
        lemma_below_hundred_distinct(a, b);
    } else if a <= 99 || b <= 99 {
        reveal_strlit(" hundred");
        reveal_strlit("-");
        assert(rest_below_thousand(a)[0] == rest_below_thousand(b)[0]);
    } else {
        lemma_low_names_distinct(a / 100, b / 100);
        lemma_cancel_prefix(" hundred"@, tail_after_hundred(a), tail_after_hundred(b));
        if a % 100 != 0 && b % 100 != 0 {
            lemma_cancel_prefix(
                " "@,
                words_below_hundred(a % 100),
                words_below_hundred(b % 100),
            );
            lemma_below_hundred_distinct(a % 100, b % 100);
        } else if a % 100 != 0 || b % 100 != 0 {
            reveal_strlit(" ");
        }
    }
}

/// The shape of a rendered group, and the scale that `ending_scale` reads
/// off any text that ends with it.
pub proof fn lemma_group_shape(prefix: Seq<char>, c: int, t: int)
    requires
        0 <= c <= 999,
        0 <= t <= 3,
    ensures
        ending_scale(prefix + group_words(c, t)) == t,
        comma_free(group_words(c, t)),
        group_words(c, t).len() >= 3,
        group_words(c, t)[0] != 'm',
{
    lemma_below_thousand_shape(c);
    let name = words_below_thousand(c);
    if t == 0 {
        lemma_plain_ending_scale(prefix, name);
    } else {
        reveal_strlit(" ");
        lemma_scale_name_is_name(t - 1);
        lemma_scale_name_ending(prefix + name, t - 1);
        assert(prefix + group_words(c, t) =~= prefix + name + " "@ + scale_name(t - 1));
    }
}

/// Distinct chunks, or chunks at distinct positions, render differently.
pub proof fn lemma_group_distinct(a: int, ta: int, b: int, tb: int)
    requires
        0 <= a <= 999,
        0 <= b <= 999,
        0 <= ta <= 3,
        0 <= tb <= 3,
        group_words(a, ta) == group_words(b, tb),
    ensures
        a == b,
        ta == tb,
{
    let none = Seq::<char>::empty();
    lemma_group_shape(none, a, ta);
    lemma_group_shape(none, b, tb);
    assert(none + group_words(a, ta) =~= group_words(a, ta));
    assert(none + group_words(b, tb) =~= group_words(b, tb));
    assert(ta == tb);
    if ta > 0 {
        let label = " "@ + scale_name(ta - 1);
        assert(group_words(a, ta) =~= words_below_thousand(a) + label);
        assert(group_words(b, tb) =~= words_below_thousand(b) + label);
        lemma_cancel_suffix(words_below_thousand(a), words_below_thousand(b), label, label);
    }
    lemma_below_thousand_distinct(a, b);
}

/// A run of groups and one more group are read off in one way only: the
/// last comma of the text stands before its last group.
pub proof fn lemma_last_group(x1: Seq<char>, g1: Seq<char>, x2: Seq<char>, g2: Seq<char>)
    requires
        comma_free(g1),
        comma_free(g2),
        x1 + ", "@ + g1 == x2 + ", "@ + g2,
    ensures
        x1 == x2,
        g1 == g2,
{
    reveal_strlit(", ");
    let s1 = x1 + ", "@ + g1;
    let s2 = x2 + ", "@ + g2;
    assert(s1.len() == x1.len() + 2 + g1.len());
    assert(s2.len() == x2.len() + 2 + g2.len());
    if g1.len() < g2.len() {
        let p = x1.len() as int;
        assert(s1[p] == ',');
        if p == x2.len() + 1 {
            assert(s2[p] == ' ');
        } else {
            assert(s2[p] == g2[p - x2.len() - 2]);
        }
        assert(false);
    }
    if g2.len() < g1.len() {
        let p = x2.len() as int;
        assert(s2[p] == ',');
        if p == x1.len() + 1 {
            assert(s1[p] == ' ');
        } else {
            assert(s1[p] == g1[p - x1.len() - 2]);
        }
        assert(false);
    }
    lemma_cancel_suffix(x1 + ", "@, x2 + ", "@, g1, g2);
    lemma_cancel_suffix(x1, x2, ", "@, ", "@);
}

/// The position of the least significant nonzero chunk of `n`, when the
/// least significant chunk of `n` stands at position `t`.
pub open spec fn lowest_position(n: int, t: int) -> int
    decreases n,
{
    if n <= 0 || n % 1000 != 0 {
        t
    } else {
        lowest_position(n / 1000, t + 1)
    }
}

/// A run of groups for a positive number is not empty.
pub proof fn lemma_chunk_nonempty(n: int, t: int)
    requires
        0 < n,
    ensures
        chunk_words(n, t).len() >= 3,
    decreases n,
{
    if n % 1000 == 0 {
        lemma_chunk_nonempty(n / 1000, t + 1);
    } else {
        lemma_group_words_nonempty(n % 1000, t);
        if n >= 1000 {
            lemma_chunk_nonempty(n / 1000, t + 1);
        }
    }
}

/// How a run of groups is put together from the run of the higher chunks
/// and the lowest chunk.
pub proof fn lemma_chunk_unfold(n: int, t: int)
    requires
        0 < n,
    ensures
        n % 1000 == 0 ==> chunk_words(n, t) == chunk_words(n / 1000, t + 1),
        n % 1000 != 0 && n < 1000 ==> chunk_words(n, t) == group_words(n, t),
        n % 1000 != 0 && n >= 1000 ==> chunk_words(n, t) == chunk_words(n / 1000, t + 1) + ", "@
            + group_words(n % 1000, t),
{
    if n % 1000 != 0 {
        lemma_group_words_nonempty(n % 1000, t);
        if n >= 1000 {
            lemma_chunk_nonempty(n / 1000, t + 1);
        } else {
            assert(chunk_words(n / 1000, t + 1) =~= Seq::<char>::empty());
        }
    }
}

/// The shape of a run of groups: it does not begin with `'m'`, and it ends
/// with the scale label of its lowest nonzero chunk.
pub proof fn lemma_chunk_shape(n: int, t: int)
    requires
        0 < n < chunk_limit(t),
        0 <= t <= 3,
    ensures
        chunk_words(n, t)[0] != 'm',
        ending_scale(chunk_words(n, t)) == lowest_position(n, t),
        t <= lowest_position(n, t) <= 3,
        n % 1000 == 0 ==> t < lowest_position(n, t),
    decreases n,
{
    let none = Seq::<char>::empty();
    let whole = chunk_words(n, t);
    let high = chunk_words(n / 1000, t + 1);
    let group = group_words(n % 1000, t);
    lemma_chunk_unfold(n, t);
    if n % 1000 == 0 {
        lemma_chunk_shape(n / 1000, t + 1);
    } else if n < 1000 {
        lemma_group_shape(none, n, t);
        assert(none + group =~= group);
    } else {
        lemma_chunk_shape(n / 1000, t + 1);
        lemma_chunk_nonempty(n / 1000, t + 1);
        lemma_group_shape(high + ", "@, n % 1000, t);
        assert(whole[0] == high[0]);
    }
}

/// A comma stands between a run of groups and the group joined to it.
pub proof fn lemma_comma_before_group(high: Seq<char>, group: Seq<char>)
    ensures
        high.len() < (high + ", "@ + group).len(),
        (high + ", "@ + group)[high.len() as int] == ',',
{
    reveal_strlit(", ");
}

/// Equal runs of groups with nonzero lowest chunks have equal lowest
/// chunks and equal runs above them.
pub proof fn lemma_chunk_split(a: int, b: int, t: int)
    requires
        0 < a < chunk_limit(t),
        0 < b < chunk_limit(t),
        0 <= t <= 3,
        a % 1000 != 0,
        b % 1000 != 0,
        chunk_words(a, t) == chunk_words(b, t),
    ensures
        a % 1000 == b % 1000,
        a < 1000 <==> b < 1000,
        chunk_words(a / 1000, t + 1) == chunk_words(b / 1000, t + 1),
{
    let none = Seq::<char>::empty();
    let ga = group_words(a % 1000, t);
    let gb = group_words(b % 1000, t);
    let ha = chunk_words(a / 1000, t + 1);
    let hb = chunk_words(b / 1000, t + 1);
    lemma_chunk_unfold(a, t);
    lemma_chunk_unfold(b, t);
    lemma_group_shape(none, a % 1000, t);
    lemma_group_shape(none, b % 1000, t);
    if a < 1000 && b < 1000 {
        assert(ha =~= hb);
    } else if a < 1000 {
        lemma_comma_before_group(hb, gb);
        assert(ga[hb.len() as int] != ',');
    } else if b < 1000 {
        lemma_comma_before_group(ha, ga);
        assert(gb[ha.len() as int] != ',');
    } else {
        lemma_last_group(ha, ga, hb, gb);
    }
    lemma_group_distinct(a % 1000, t, b % 1000, t);
}

/// Distinct positive numbers give distinct runs of groups.
pub proof fn lemma_chunk_distinct(a: int, b: int, t: int)
    requires
        0 < a < chunk_limit(t),
        0 < b < chunk_limit(t),
        0 <= t <= 3,
        chunk_words(a, t) == chunk_words(b, t),
    ensures
        a == b,
    decreases a,
{
    lemma_chunk_shape(a, t);
    lemma_chunk_shape(b, t);
    if a % 1000 == 0 && b % 1000 == 0 {
        lemma_chunk_unfold(a, t);
        lemma_chunk_unfold(b, t);
        lemma_chunk_distinct(a / 1000, b / 1000, t + 1);
    } else if a % 1000 != 0 && b % 1000 != 0 {
        lemma_chunk_split(a, b, t);
        if a >= 1000 {
            lemma_chunk_distinct(a / 1000, b / 1000, t + 1);
        }
    }
}

/// Distinct nameable numbers that are not negative have distinct names.
pub proof fn lemma_magnitudes_distinct(a: int, b: int)
    requires
        0 <= a,
        0 <= b,
        nameable(a),
        nameable(b),
        words(a) == words(b),
    ensures
        a == b,
{
    if a <= 999 && b <= 999 {
        lemma_below_thousand_distinct(a, b);
    } else if a > 999 && b > 999 {
        lemma_chunk_distinct(a, b, 0);
    } else {
        let small = if a <= 999 { a } else { b };
        let large = if a <= 999 { b } else { a };
        let name = words_below_thousand(small);
        lemma_below_thousand_shape(small);
        lemma_plain_ending_scale(Seq::empty(), name);
        assert(Seq::<char>::empty() + name =~= name);
        lemma_chunk_shape(large, 0);
        lemma_chunk_unfold(large, 0);
        if large % 1000 != 0 {
            let high = chunk_words(large / 1000, 1);
            lemma_comma_before_group(high, group_words(large % 1000, 0));
            assert(name[high.len() as int] != ',');
        }
        assert(false);
    }
}

/// The name of a nameable number that is not negative does not begin with
/// `'m'`.
pub proof fn lemma_magnitude_initial(n: int)
    requires
        0 <= n,
        nameable(n),
    ensures
        words(n).len() >= 3,
        words(n)[0] != 'm',
{
    if n <= 999 {
        lemma_below_thousand_shape(n);
    } else {
        lemma_chunk_shape(n, 0);
        lemma_chunk_nonempty(n, 0);
    }
}

/// Distinct nameable numbers have distinct names.
pub proof fn lemma_words_distinct(a: int, b: int)
    requires
        nameable(a),
        nameable(b),
        words(a) == words(b),
    ensures
        a == b,
{
    reveal_strlit("minus ");
    if a < 0 && b < 0 {
        lemma_cancel_prefix("minus "@, words(-a), words(-b));
        lemma_magnitudes_distinct(-a, -b);
    } else if a < 0 {
        lemma_magnitude_initial(b);
        assert(words(a)[0] == 'm');
    } else if b < 0 {
        lemma_magnitude_initial(a);
        assert(words(b)[0] == 'm');
    } else {
        lemma_magnitudes_distinct(a, b);
    }
}

} // verus!
