//! High-entropy keys: fixed-length strings of random printable characters.

use rand::distributions::Uniform;
use rand::Rng;
use vstd::prelude::*;

verus! {

/// The number of characters in a random key.
pub const KEY_LENGTH: usize = 1024;

/// The first character that a random key may hold.
pub const FIRST_PRINTABLE: char = ' ';

/// The character after the last one that a random key may hold.
pub const END_PRINTABLE: char = '~';

/// A character that a random key may hold: code 32 up to, not including,
/// code 126.
pub open spec fn is_printable(c: char) -> bool {
    32 <= c as u32 && (c as u32) < 126
}

/// A well-formed random key.
pub open spec fn is_random_key(s: Seq<char>) -> bool {
    &&& s.len() == KEY_LENGTH
    &&& forall|k: int| 0 <= k < s.len() ==> is_printable(#[trigger] s[k])
}

/// One character drawn by `rand`: `thread_rng().sample(Uniform::new(low,
/// high))`.  That distribution yields values of the half-open range from
/// `low` to `high`, and cannot be built for an empty range; nothing else is
/// claimed of the character.
#[verifier::external_body]
fn sample_char(low: char, high: char) -> (c: char)
    requires
        (low as u32) < (high as u32),
    ensures
        low as u32 <= c as u32,
        (c as u32) < (high as u32),
{
    rand::thread_rng().sample(Uniform::new(low, high))
}

/// `String::push`: the character is appended to the string.
#[verifier::external_body]
fn push_char(s: &mut String, c: char)
    ensures
        final(s)@ == old(s)@.push(c),
{
    s.push(c)
}

/// Draws `len` printable characters, one after the other.
pub fn draw_chars(len: usize) -> (draws: Vec<char>)
    ensures
        draws@.len() == len,
        forall|k: int| 0 <= k < len ==> is_printable(#[trigger] draws@[k]),
{
    let mut draws: Vec<char> = Vec::new();
    while draws.len() < len
        invariant
            draws@.len() <= len,
            forall|k: int| 0 <= k < draws@.len() ==> is_printable(#[trigger] draws@[k]),
        decreases len - draws@.len(),
    {
        draws.push(sample_char(FIRST_PRINTABLE, END_PRINTABLE));
    }
    draws
}

/// Writes the characters as text, each once and in their order.
pub fn text_of_chars(chars: &Vec<char>) -> (s: String)
    ensures
        s@ == chars@,
{
    let mut s = String::new();
    let mut written: usize = 0;
    while written < chars.len()
        invariant
            written <= chars@.len(),
            s@ == chars@.take(written as int),
        decreases chars@.len() - written,
    {
        push_char(&mut s, chars[written]);
        assert(chars@.take(written + 1) =~= chars@.take(written as int).push(chars@[written as int]));
        written = written + 1;
    }
    assert(chars@.take(written as int) =~= chars@);
    s
}

/// Draws `len` printable characters and writes them as text in the order
/// in which they were drawn.
pub fn random_text(len: usize) -> (s: String)
    ensures
        s@.len() == len,
        forall|k: int| 0 <= k < s@.len() ==> is_printable(#[trigger] s@[k]),
{
    let draws = draw_chars(len);
    text_of_chars(&draws)
}

/// Draws a fresh random key.
pub fn random_key() -> (s: String)
    ensures
        is_random_key(s@),
{
    random_text(KEY_LENGTH)
}

} // verus!
