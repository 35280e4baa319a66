//! Holding what was read back against what was loaded.
//!
//! A store that was filled with the names of the first `count` numbers must
//! yield, at the closing checkpoint, one record for each name, in the order
//! of the keys' bytes, with a value as long as the one that was written.

use vstd::prelude::*;
use vstd::seq_lib::seq_to_set_is_finite;
use vstd::set_lib::{lemma_len_subset, lemma_subset_equality};
use vstd::string::*;
use vstd::utf8::{
    encode_utf8, encode_utf8_decode_utf8, is_ascii_chars, is_ascii_chars_encode_utf8,
};
use crate::byte_order::{
    ascending, bytes_less, lemma_bytes_less_transitive, lemma_bytes_trichotomy, less_bytes,
};
use crate::decimal::{
    decimal, decimal_magnitude, digit_count, digit_text, lemma_decimal_magnitude_len,
    lemma_repeated_len, repeated,
};
use crate::recovery::{lemma_word_keys_count, word_keys};
use crate::reopen::Record;
use crate::words::{number_to_words, words, MAX_MAGNITUDE};
use crate::workload::ValueSource;

verus! {

/// The keys of the records, as the store holds them.
pub open spec fn record_keys(records: Seq<Record>) -> Seq<Seq<u8>> {
    Seq::new(records.len(), |j: int| encode_utf8(records[j].key@))
}

/// The length in bytes of the value of item `i`.
pub open spec fn value_len_at(values: ValueSource, i: int) -> nat {
    encode_utf8(values.value_at(i)).len()
}

/// Whether the records hold item `i` of a workload of names: its name as
/// key, with a value of the length that was written.
pub open spec fn holds_item(records: Seq<Record>, values: ValueSource, i: int) -> bool {
    exists|j: int|
        0 <= j < records.len() && (#[trigger] records[j]).key@ == words(i) && records[j].value_len
            == value_len_at(values, i)
}

/// Whether some record has the name of `i` as its key.
pub open spec fn has_key(records: Seq<Record>, i: int) -> bool {
    exists|j: int| 0 <= j < records.len() && (#[trigger] records[j]).key@ == words(i)
}

/// Why records are not what was loaded.
#[derive(Debug, Clone, Copy, PartialEq, Eq, Structural)]
pub enum AuditFailure {
    /// Some key does not come before the next.
    OutOfOrder,
    /// There are this many records, not one for each item.
    WrongCount { found: usize },
    /// No record has the name of this index as its key; every smaller
    /// index is held.
    Missing { index: u64 },
    /// The record of this index has a value of this length, not of the
    /// length that was written; every smaller index is held.
    WrongLength { index: u64, found: usize },
}

/// Whether the records are what a store yields that holds the first `count`
/// items of a workload of names and nothing else.
pub open spec fn recovers_words(records: Seq<Record>, values: ValueSource, count: nat) -> bool {
    &&& ascending(record_keys(records))
    &&& records.len() == count
    &&& forall|i: int| 0 <= i < count ==> holds_item(records, values, i)
}

/// A numeral is made of ASCII characters.
pub proof fn lemma_decimal_magnitude_ascii(n: int)
    requires
        0 <= n,
    ensures
        is_ascii_chars(decimal_magnitude(n)),
    decreases n,
{
    reveal_strlit("0");
    reveal_strlit("1");
    reveal_strlit("2");
    reveal_strlit("3");
    reveal_strlit("4");
    reveal_strlit("5");
    reveal_strlit("6");
    reveal_strlit("7");
    reveal_strlit("8");
    reveal_strlit("9");
    assert(is_ascii_chars(digit_text(n % 10)));
    if n >= 10 {
        lemma_decimal_magnitude_ascii(n / 10);
    } else {
        assert(is_ascii_chars(digit_text(n)));
    }
}

/// Copies of ASCII text are ASCII text.
pub proof fn lemma_repeated_ascii(s: Seq<char>, times: nat)
    requires
        is_ascii_chars(s),
    ensures
        is_ascii_chars(repeated(s, times)),
    decreases times,
{
    if times > 0 {
        lemma_repeated_ascii(s, (times - 1) as nat);
    }
}

/// A value made of numerals takes one byte for each digit of each copy.
pub proof fn lemma_repeated_index_len(times: usize, i: int)
    requires
        0 <= i,
    ensures
        value_len_at(ValueSource::RepeatedIndex(times), i) == digit_count(i) * times,
{
    lemma_decimal_magnitude_ascii(i);
    lemma_decimal_magnitude_len(i);
    lemma_repeated_ascii(decimal(i), times as nat);
    lemma_repeated_len(decimal(i), times as nat);
    is_ascii_chars_encode_utf8(repeated(decimal(i), times as nat));
}

/// Counts the digits of the numeral of `n`.
fn count_digits(n: u64) -> (digits: u64)
    ensures
        digits == digit_count(n as int),
{
    let mut rest = n;
    let mut digits: u64 = 1;
    while rest >= 10
        invariant
            digits + digit_count(rest as int) == 1 + digit_count(n as int),
            digits + rest <= 1 + n,
        decreases rest,
    {
        rest = rest / 10;
        digits = digits + 1;
    }
    digits
}

/// Computes the length in bytes of the value of item `i`.
pub fn value_len(values: &ValueSource, i: u64) -> (len: u128)
    ensures
        len == value_len_at(*values, i as int),
{
    match values {
        ValueSource::Constant(text) => text.as_str().as_bytes().len() as u128,
        ValueSource::RepeatedIndex(times) => {
            proof {
                lemma_repeated_index_len(*times, i as int);
            }
            let digits = count_digits(i) as u128;
            let copies = *times as u128;
            assert(digits * copies <= u64::MAX * u64::MAX) by (nonlinear_arith)
                requires
                    0 <= digits <= u64::MAX,
                    0 <= copies <= u64::MAX,
            ;
            digits * copies
        },
    }
}

/// The key of record `j`, as the store holds it.
fn key_bytes(records: &Vec<Record>, j: usize) -> (bytes: &[u8])
    requires
        j < records@.len(),
    ensures
        bytes@ == record_keys(records@)[j as int],
{
    records[j].key.as_str().as_bytes()
}

/// Tells whether the records stand in the order of their keys, each key
/// before the next.
pub fn in_key_order(records: &Vec<Record>) -> (ok: bool)
    ensures
        ok == ascending(record_keys(records@)),
{
    let ghost keys = record_keys(records@);
    let mut j: usize = 1;
    while j < records.len()
        invariant
            1 <= j,
            keys == record_keys(records@),
            forall|a: int, b: int|
                0 <= a < b < j && b < keys.len() ==> bytes_less(
                    #[trigger] keys[a],
                    #[trigger] keys[b],
                ),
        decreases records@.len() - j,
    {
        if !less_bytes(key_bytes(records, j - 1), key_bytes(records, j)) {
            assert(!bytes_less(keys[j - 1], keys[j as int]));
            return false;
        }
        proof {
            assert forall|a: int| 0 <= a < j implies bytes_less(
                #[trigger] keys[a],
                keys[j as int],
            ) by {
                if a < j - 1 {
                    lemma_bytes_less_transitive(keys[a], keys[j - 1], keys[j as int]);
                }
            }
        }
        j = j + 1;
    }
    true
}

/// Looks a key up among records that stand in the order of their keys:
/// the position of the record that has it, or none where no record has it.
pub fn find_key(records: &Vec<Record>, key: &[u8]) -> (found: Option<usize>)
    requires
        ascending(record_keys(records@)),
    ensures
        match found {
            Some(j) => j < records@.len() && record_keys(records@)[j as int] == key@,
            None => forall|j: int|
                0 <= j < records@.len() ==> #[trigger] record_keys(records@)[j] != key@,
        },
{
    let ghost keys = record_keys(records@);
    let mut low: usize = 0;
    let mut high: usize = records.len();
    while low < high
        invariant
            low <= high <= records@.len(),
            keys == record_keys(records@),
            ascending(keys),
            forall|j: int| 0 <= j < low ==> bytes_less(#[trigger] keys[j], key@),
            forall|j: int| high <= j < keys.len() ==> bytes_less(key@, #[trigger] keys[j]),
        decreases high - low,
    {
        let middle = low + (high - low) / 2;
        let candidate = key_bytes(records, middle);
        if less_bytes(candidate, key) {
            proof {
                assert forall|j: int| 0 <= j < middle + 1 implies bytes_less(
                    #[trigger] keys[j],
                    key@,
                ) by {
                    if j < middle {
                        lemma_bytes_less_transitive(keys[j], keys[middle as int], key@);
                    }
                }
            }
            low = middle + 1;
        } else if less_bytes(key, candidate) {
            proof {
                assert forall|j: int| middle <= j < keys.len() implies bytes_less(
                    key@,
                    #[trigger] keys[j],
                ) by {
                    if middle < j {
                        lemma_bytes_less_transitive(key@, keys[middle as int], keys[j]);
                    }
                }
            }
            high = middle;
        } else {
            proof {
                lemma_bytes_trichotomy(candidate@, key@);
            }
            return Some(middle);
        }
    }
    proof {
        assert forall|j: int| 0 <= j < records@.len() implies #[trigger] keys[j] != key@ by {
            lemma_bytes_trichotomy(keys[j], key@);
            lemma_bytes_trichotomy(key@, keys[j]);
        }
    }
    None
}

/// Equal keys of the store are equal texts.
pub proof fn lemma_key_text(a: Seq<char>, b: Seq<char>)
    requires
        encode_utf8(a) == encode_utf8(b),
    ensures
        a == b,
{
    encode_utf8_decode_utf8(a);
    encode_utf8_decode_utf8(b);
}

/// Among records in the order of their keys, a key stands at one position
/// only.
pub proof fn lemma_key_once(records: Seq<Record>, j: int, k: int)
    requires
        ascending(record_keys(records)),
        0 <= j < records.len(),
        0 <= k < records.len(),
        records[j].key@ == records[k].key@,
    ensures
        j == k,
{
    let keys = record_keys(records);
    lemma_bytes_trichotomy(keys[j], keys[k]);
    if j < k {
        assert(bytes_less(keys[j], keys[k]));
    } else if k < j {
        assert(bytes_less(keys[k], keys[j]));
    }
}

/// Holds records that were read back against a load of the names of the
/// first `count` numbers, none where `count` is not positive: the records
/// must stand in the order of their keys, be as many as the items, and hold
/// every item with a value of the length that was written.  Reports the
/// first of these that fails, and for an item the smallest index that is
/// not held.
pub fn audit_words(records: &Vec<Record>, values: &ValueSource, count: i64) -> (verdict: Result<
    (),
    AuditFailure,
>)
    requires
        count <= MAX_MAGNITUDE + 1,
    ensures
        verdict is Ok <==> recovers_words(
            records@,
            *values,
            if count > 0 {
                count as nat
            } else {
                0
            },
        ),
        verdict == Err::<(), AuditFailure>(AuditFailure::OutOfOrder) <==> !ascending(record_keys(records@)),
        verdict matches Err(AuditFailure::WrongCount { found }) ==> {
            &&& found == records@.len()
            &&& found != if count > 0 {
                count as int
            } else {
                0
            }
            &&& ascending(record_keys(records@))
        },
        verdict matches Err(AuditFailure::Missing { index }) ==> {
            &&& index < count
            &&& !has_key(records@, index as int)
            &&& forall|i: int| 0 <= i < index ==> holds_item(records@, *values, i)
        },
        verdict matches Err(AuditFailure::WrongLength { index, found }) ==> {
            &&& index < count
            &&& found != value_len_at(*values, index as int)
            &&& exists|j: int|
                0 <= j < records@.len() && (#[trigger] records@[j]).key@ == words(index as int)
                    && records@[j].value_len == found
            &&& forall|i: int| 0 <= i < index ==> holds_item(records@, *values, i)
        },
{
    let items: u64 = if count > 0 {
        count as u64
    } else {
        0
    };
    if !in_key_order(records) {
        return Err(AuditFailure::OutOfOrder);
    }
    if records.len() as u64 != items {
        return Err(AuditFailure::WrongCount { found: records.len() });
    }
    let mut i: u64 = 0;
    while i < items
        invariant
            i <= items,
            items <= MAX_MAGNITUDE + 1,
            items == if count > 0 {
                count as int
            } else {
                0
            },
            records@.len() == items,
            ascending(record_keys(records@)),
            forall|k: int| 0 <= k < i ==> holds_item(records@, *values, k),
        decreases items - i,
    {
        let name = number_to_words(i as i64);
        let key = name.as_str().as_bytes();
        assert(key@ == encode_utf8(words(i as int)));
        match find_key(records, key) {
            None => {
                proof {
                    assert forall|j: int| 0 <= j < records@.len() implies (
                    #[trigger] records@[j]).key@ != words(i as int) by {
                        assert(record_keys(records@)[j] == encode_utf8(records@[j].key@));
                    }
                    assert(!has_key(records@, i as int));
                    assert(!holds_item(records@, *values, i as int));
                }
                return Err(AuditFailure::Missing { index: i });
            },
            Some(j) => {
                let found = records[j].value_len;
                proof {
                    assert(record_keys(records@)[j as int] == encode_utf8(records@[j as int].key@));
                    lemma_key_text(records@[j as int].key@, words(i as int));
                }
                if found as u128 != value_len(values, i) {
                    proof {
                        if holds_item(records@, *values, i as int) {
                            let k = choose|k: int|
                                0 <= k < records@.len() && (#[trigger] records@[k]).key@ == words(
                                    i as int,
                                ) && records@[k].value_len == value_len_at(*values, i as int);
                            lemma_key_once(records@, j as int, k);
                        }
                    }
                    return Err(AuditFailure::WrongLength { index: i, found });
                }
            },
        }
        i = i + 1;
    }
    Ok(())
}

/// Whether `record` is one of the first `count` items of a workload of
/// names: a name as key, with a value of the length that was written.
pub open spec fn is_item(record: Record, values: ValueSource, count: nat) -> bool {
    exists|i: int|
        0 <= i < count && record.key@ == #[trigger] words(i) && record.value_len == value_len_at(
            values,
            i,
        )
}

/// The keys of the records, as text.
pub open spec fn record_texts(records: Seq<Record>) -> Seq<Seq<char>> {
    Seq::new(records.len(), |j: int| records[j].key@)
}

/// Records that pass the audit are the load and nothing else: no key
/// occurs twice, the keys are the names of the first `count` numbers, and
/// every record is an item with a value of the length that was written.
pub proof fn lemma_recovered_is_loaded(records: Seq<Record>, values: ValueSource, count: nat)
    requires
        recovers_words(records, values, count),
        count <= MAX_MAGNITUDE + 1,
    ensures
        record_texts(records).no_duplicates(),
        record_texts(records).to_set() == word_keys(count),
        forall|j: int| 0 <= j < records.len() ==> is_item(#[trigger] records[j], values, count),
{
    let texts = record_texts(records);
    let held = texts.to_set();
    let named = word_keys(count);
    assert forall|j: int, k: int| 0 <= j < texts.len() && 0 <= k < texts.len() && j != k implies texts[j]
        != texts[k] by {
        if texts[j] == texts[k] {
            lemma_key_once(records, j, k);
        }
    }
    assert forall|key: Seq<char>| named.contains(key) implies held.contains(key) by {
        let i = choose|i: int| 0 <= i < count && key == #[trigger] words(i);
        assert(holds_item(records, values, i));
        let j = choose|j: int|
            0 <= j < records.len() && (#[trigger] records[j]).key@ == words(i) && records[j].value_len
                == value_len_at(values, i);
        assert(texts[j] == key);
    }
    lemma_word_keys_count(count);
    seq_to_set_is_finite(texts);
    texts.lemma_cardinality_of_set();
    lemma_len_subset(named, held);
    lemma_subset_equality(named, held);
    assert forall|j: int| 0 <= j < records.len() implies is_item(
        #[trigger] records[j],
        values,
        count,
    ) by {
        assert(texts[j] == records[j].key@);
        assert(held.contains(texts[j]));
        assert(named.contains(texts[j]));
        let i = choose|i: int| 0 <= i < count && texts[j] == #[trigger] words(i);
        assert(holds_item(records, values, i));
        let k = choose|k: int|
            0 <= k < records.len() && (#[trigger] records[k]).key@ == words(i) && records[k].value_len
                == value_len_at(values, i);
        lemma_key_once(records, j, k);
        assert(records[j].key@ == words(i));
    }
}

} // verus!
