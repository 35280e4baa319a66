//! The fixed vocabulary from which number names are composed.

use vstd::prelude::*;

verus! {

/// The irregular names of zero through nineteen.
pub open spec fn low_name(i: int) -> Seq<char> {
    if i == 0 {
        "zero"@
    } else if i == 1 {
        "one"@
    } else if i == 2 {
        "two"@
    } else if i == 3 {
        "three"@
    } else if i == 4 {
        "four"@
    } else if i == 5 {
        "five"@
    } else if i == 6 {
        "six"@
    } else if i == 7 {
        "seven"@
    } else if i == 8 {
        "eight"@
    } else if i == 9 {
        "nine"@
    } else if i == 10 {
        "ten"@
    } else if i == 11 {
        "eleven"@
    } else if i == 12 {
        "twelve"@
    } else if i == 13 {
        "thirteen"@
    } else if i == 14 {
        "fourteen"@
    } else if i == 15 {
        "fifteen"@
    } else if i == 16 {
        "sixteen"@
    } else if i == 17 {
        "seventeen"@
    } else if i == 18 {
        "eighteen"@
    } else {
        "nineteen"@
    }
}

/// The names of the multiples of ten, index 0 standing for twenty.
pub open spec fn tens_name(i: int) -> Seq<char> {
    if i == 0 {
        "twenty"@
    } else if i == 1 {
        "thirty"@
    } else if i == 2 {
        "forty"@
    } else if i == 3 {
        "fifty"@
    } else if i == 4 {
        "sixty"@
    } else if i == 5 {
        "seventy"@
    } else if i == 6 {
        "eighty"@
    } else {
        "ninety"@
    }
}

/// The scale labels, index 0 standing for thousand.
pub open spec fn scale_name(i: int) -> Seq<char> {
    if i == 0 {
        "thousand"@
    } else if i == 1 {
        "million"@
    } else {
        "billion"@
    }
}

/// Looks up the name of a number below twenty.
pub fn low_name_str(i: usize) -> (s: &'static str)
    requires
        i < 20,
    ensures
        s@ == low_name(i as int),
{
    match i {
        0 => "zero",
        1 => "one",
        2 => "two",
        3 => "three",
        4 => "four",
        5 => "five",
        6 => "six",
        7 => "seven",
        8 => "eight",
        9 => "nine",
        10 => "ten",
        11 => "eleven",
        12 => "twelve",
        13 => "thirteen",
        14 => "fourteen",
        15 => "fifteen",
        16 => "sixteen",
        17 => "seventeen",
        18 => "eighteen",
        _ => "nineteen",
    }
}

/// Looks up the name of a multiple of ten; index 0 is twenty.
pub fn tens_name_str(i: usize) -> (s: &'static str)
    requires
        i < 8,
    ensures
        s@ == tens_name(i as int),
{
    match i {
        0 => "twenty",
        1 => "thirty",
        2 => "forty",
        3 => "fifty",
        4 => "sixty",
        5 => "seventy",
        6 => "eighty",
        _ => "ninety",
    }
}

/// Looks up a scale label; index 0 is thousand.
pub fn scale_name_str(i: usize) -> (s: &'static str)
    requires
        i < 3,
    ensures
        s@ == scale_name(i as int),
{
    match i {
        0 => "thousand",
        1 => "million",
        _ => "billion",
    }
}

/// A lower-case Latin letter.
pub open spec fn is_letter(c: char) -> bool {
    'a' <= c && c <= 'z'
}

/// A vocabulary entry: at least three characters, all of them letters.
pub open spec fn is_name(s: Seq<char>) -> bool {
    &&& s.len() >= 3
    &&& forall|k: int| 0 <= k < s.len() ==> is_letter(#[trigger] s[k])
}

/// Every name of a number below twenty is made of letters.
pub proof fn lemma_low_name_is_name(i: int)
    ensures
        is_name(low_name(i)),
{
    reveal_strlit("zero");
    reveal_strlit("one");
    reveal_strlit("two");
    reveal_strlit("three");
    reveal_strlit("four");
    reveal_strlit("five");
    reveal_strlit("six");
    reveal_strlit("seven");
    reveal_strlit("eight");
    reveal_strlit("nine");
    reveal_strlit("ten");
    reveal_strlit("eleven");
    reveal_strlit("twelve");
    reveal_strlit("thirteen");
    reveal_strlit("fourteen");
    reveal_strlit("fifteen");
    reveal_strlit("sixteen");
    reveal_strlit("seventeen");
    reveal_strlit("eighteen");
    reveal_strlit("nineteen");
}

/// Every name of a multiple of ten is made of letters.
pub proof fn lemma_tens_name_is_name(i: int)
    ensures
        is_name(tens_name(i)),
{
    reveal_strlit("twenty");
    reveal_strlit("thirty");
    reveal_strlit("forty");
    reveal_strlit("fifty");
    reveal_strlit("sixty");
    reveal_strlit("seventy");
    reveal_strlit("eighty");
    reveal_strlit("ninety");
}

/// Every scale label is made of letters.
pub proof fn lemma_scale_name_is_name(i: int)
    ensures
        is_name(scale_name(i)),
{
    reveal_strlit("thousand");
    reveal_strlit("million");
    reveal_strlit("billion");
}

/// Distinct numbers below twenty have distinct names.
pub proof fn lemma_low_names_distinct(i: int, j: int)
    requires
        0 <= i < 20,
        0 <= j < 20,
        low_name(i) == low_name(j),
    ensures
        i == j,
{
    reveal_strlit("zero");
    reveal_strlit("one");
    reveal_strlit("two");
    reveal_strlit("three");
    reveal_strlit("four");
    reveal_strlit("five");
    reveal_strlit("six");
    reveal_strlit("seven");
    reveal_strlit("eight");
    reveal_strlit("nine");
    reveal_strlit("ten");
    reveal_strlit("eleven");
    reveal_strlit("twelve");
    reveal_strlit("thirteen");
    reveal_strlit("fourteen");
    reveal_strlit("fifteen");
    reveal_strlit("sixteen");
    reveal_strlit("seventeen");
    reveal_strlit("eighteen");
    reveal_strlit("nineteen");
    let a = low_name(i);
    let b = low_name(j);
    assert(a.len() == b.len() && a[0] == b[0] && a[1] == b[1]);
}

/// Distinct multiples of ten have distinct names.
pub proof fn lemma_tens_names_distinct(i: int, j: int)
    requires
        0 <= i < 8,
        0 <= j < 8,
        tens_name(i) == tens_name(j),
    ensures
        i == j,
{
    reveal_strlit("twenty");
    reveal_strlit("thirty");
    reveal_strlit("forty");
    reveal_strlit("fifty");
    reveal_strlit("sixty");
    reveal_strlit("seventy");
    reveal_strlit("eighty");
    reveal_strlit("ninety");
    let a = tens_name(i);
    let b = tens_name(j);
    assert(a.len() == b.len() && a[0] == b[0] && a[1] == b[1]);
}

/// No number below twenty shares its name with a multiple of ten.
pub proof fn lemma_low_name_is_no_tens_name(i: int, j: int)
    ensures
        low_name(i) != tens_name(j),
{
    reveal_strlit("zero");
    reveal_strlit("one");
    reveal_strlit("two");
    reveal_strlit("three");
    reveal_strlit("four");
    reveal_strlit("five");
    reveal_strlit("six");
    reveal_strlit("seven");
    reveal_strlit("eight");
    reveal_strlit("nine");
    reveal_strlit("ten");
    reveal_strlit("eleven");
    reveal_strlit("twelve");
    reveal_strlit("thirteen");
    reveal_strlit("fourteen");
    reveal_strlit("fifteen");
    reveal_strlit("sixteen");
    reveal_strlit("seventeen");
    reveal_strlit("eighteen");
    reveal_strlit("nineteen");
    reveal_strlit("twenty");
    reveal_strlit("thirty");
    reveal_strlit("forty");
    reveal_strlit("fifty");
    reveal_strlit("sixty");
    reveal_strlit("seventy");
    reveal_strlit("eighty");
    reveal_strlit("ninety");
    let a = low_name(i);
    let b = tens_name(j);
    assert(a == b ==> a.len() == b.len() && a[0] == b[0] && a[1] == b[1] && a[3] == b[3]);
}

/// Which scale label a text ends with, told by its last characters: 1 for
/// `"...nd"` (thousand), 2 for `"m....on"` (million), 3 for any other
/// `".....on"` (billion), and 0 for a text that ends otherwise.
pub open spec fn ending_scale(s: Seq<char>) -> int {
    let n = s.len() as int;
    if n >= 2 && s[n - 2] == 'n' && s[n - 1] == 'd' {
        1
    } else if n >= 7 && s[n - 2] == 'o' && s[n - 1] == 'n' {
        if s[n - 7] == 'm' {
            2
        } else {
            3
        }
    } else {
        0
    }
}

/// A text whose last two characters are neither `"nd"` nor `"on"`, so that
/// nothing ending with it ends like a scale label.
pub open spec fn plain_ending(s: Seq<char>) -> bool {
    let n = s.len() as int;
    &&& n >= 2
    &&& !(s[n - 2] == 'n' && s[n - 1] == 'd')
    &&& !(s[n - 2] == 'o' && s[n - 1] == 'n')
}

/// No name of a number below twenty ends like a scale label or begins
/// with `'m'`.
pub proof fn lemma_low_name_shape(i: int)
    ensures
        plain_ending(low_name(i)),
        low_name(i)[0] != 'm',
{
    reveal_strlit("zero");
    reveal_strlit("one");
    reveal_strlit("two");
    reveal_strlit("three");
    reveal_strlit("four");
    reveal_strlit("five");
    reveal_strlit("six");
    reveal_strlit("seven");
    reveal_strlit("eight");
    reveal_strlit("nine");
    reveal_strlit("ten");
    reveal_strlit("eleven");
    reveal_strlit("twelve");
    reveal_strlit("thirteen");
    reveal_strlit("fourteen");
    reveal_strlit("fifteen");
    reveal_strlit("sixteen");
    reveal_strlit("seventeen");
    reveal_strlit("eighteen");
    reveal_strlit("nineteen");
}

/// No name of a multiple of ten ends like a scale label or begins with
/// `'m'`.
pub proof fn lemma_tens_name_shape(i: int)
    ensures
        plain_ending(tens_name(i)),
        tens_name(i)[0] != 'm',
{
    reveal_strlit("twenty");
    reveal_strlit("thirty");
    reveal_strlit("forty");
    reveal_strlit("fifty");
    reveal_strlit("sixty");
    reveal_strlit("seventy");
    reveal_strlit("eighty");
    reveal_strlit("ninety");
}

/// A text that ends with a space and the scale label of index `i` is told
/// apart by `ending_scale`.
pub proof fn lemma_scale_name_ending(prefix: Seq<char>, i: int)
    requires
        0 <= i < 3,
    ensures
        ending_scale(prefix + " "@ + scale_name(i)) == i + 1,
{
    reveal_strlit(" ");
    reveal_strlit("thousand");
    reveal_strlit("million");
    reveal_strlit("billion");
}

/// A text that ends with a plain ending carries no scale label at its end.
pub proof fn lemma_plain_ending_scale(prefix: Seq<char>, tail: Seq<char>)
    requires
        plain_ending(tail),
    ensures
        plain_ending(prefix + tail),
        ending_scale(prefix + tail) == 0,
{
}

} // verus!
