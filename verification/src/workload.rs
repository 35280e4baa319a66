//! Workloads: finite sequences of key-value pairs to insert, addressed by
//! index so that a load can take them one at a time.

use vstd::prelude::*;
use crate::decimal::{decimal, decimal_string, magnitude_string, repeat_text, repeated};
use crate::random_key::{is_random_key, random_key};
use crate::words::{number_to_words, words, MAX_MAGNITUDE};

verus! {

/// Where the key of item `i` comes from.
#[derive(Debug, Clone, Copy, PartialEq, Eq, Structural)]
pub enum KeySource {
    /// The English name of `i`.
    Words,
    /// The decimal numeral of `i`.
    Decimal,
    /// A fresh random key, unrelated to `i`.
    Random,
}

/// Where the value of item `i` comes from.
#[derive(Debug, Clone, PartialEq, Eq)]
pub enum ValueSource {
    /// The same text for every item.
    Constant(String),
    /// The decimal numeral of `i`, written the given number of times.
    RepeatedIndex(usize),
}

/// A finite sequence of key-value pairs.
#[derive(Debug, Clone, PartialEq, Eq)]
pub enum Workload {
    /// The given pairs, in the given order.
    Listed(Vec<(String, String)>),
    /// `count` generated pairs, for the indices from 0 up to `count`; none
    /// where `count` is not positive.
    Generated { count: i64, keys: KeySource, values: ValueSource },
}

impl ValueSource {
    /// The value of item `i`.
    pub open spec fn value_at(&self, i: int) -> Seq<char> {
        match self {
            ValueSource::Constant(text) => text@,
            ValueSource::RepeatedIndex(times) => repeated(decimal(i), *times as nat),
        }
    }

    /// Builds the value of item `i`.
    pub fn value(&self, i: u64) -> (v: String)
        ensures
            v@ == self.value_at(i as int),
    {
        match self {
            ValueSource::Constant(text) => text.clone(),
            ValueSource::RepeatedIndex(times) => {
                let numeral = magnitude_string(i);
                repeat_text(numeral.as_str(), *times)
            },
        }
    }
}

impl Workload {
    /// The number of items.
    pub open spec fn len(&self) -> nat {
        match self {
            Workload::Listed(pairs) => pairs@.len(),
            Workload::Generated { count, .. } => if *count > 0 {
                *count as nat
            } else {
                0
            },
        }
    }

    /// Whether every item can be built: keys that are names stay within
    /// the numbers that have one.
    pub open spec fn valid(&self) -> bool {
        match self {
            Workload::Listed(_) => true,
            Workload::Generated { count, keys, .. } => *keys == KeySource::Words ==> *count
                <= MAX_MAGNITUDE + 1,
        }
    }

    /// Whether `key` can be the key of item `i`: the one key that the index
    /// determines, or any well-formed random key.
    pub open spec fn admits_key(&self, i: int, key: Seq<char>) -> bool {
        match self {
            Workload::Listed(pairs) => key == pairs@[i].0@,
            Workload::Generated { keys, .. } => match keys {
                KeySource::Words => key == words(i),
                KeySource::Decimal => key == decimal(i),
                KeySource::Random => is_random_key(key),
            },
        }
    }

    /// The value of item `i`.
    pub open spec fn value_at(&self, i: int) -> Seq<char> {
        match self {
            Workload::Listed(pairs) => pairs@[i].1@,
            Workload::Generated { values, .. } => values.value_at(i),
        }
    }

    /// Tells whether every item can be built.
    pub fn is_valid(&self) -> (ok: bool)
        ensures
            ok == self.valid(),
    {
        match self {
            Workload::Listed(_) => true,
            Workload::Generated { count, keys, .. } => match keys {
                KeySource::Words => *count <= MAX_MAGNITUDE + 1,
                _ => true,
            },
        }
    }

    /// Counts the items.
    pub fn size(&self) -> (n: u64)
        ensures
            n == self.len(),
    {
        match self {
            Workload::Listed(pairs) => pairs.len() as u64,
            Workload::Generated { count, .. } => if *count > 0 {
                *count as u64
            } else {
                0
            },
        }
    }

    /// Builds item `i`: its key and its value.
    pub fn item(&self, i: u64) -> (pair: (String, String))
        requires
            self.valid(),
            i < self.len(),
        ensures
            self.admits_key(i as int, pair.0@),
            pair.1@ == self.value_at(i as int),
    {
        match self {
            Workload::Listed(pairs) => {
                let count = pairs.len();
                assert(i < count);
                let entry = &pairs[i as usize];
                (entry.0.clone(), entry.1.clone())
            },
            Workload::Generated { keys, values, .. } => {
                let key = match keys {
                    KeySource::Words => number_to_words(i as i64),
                    KeySource::Decimal => decimal_string(i as i64),
                    KeySource::Random => random_key(),
                };
                (key, values.value(i))
            },
        }
    }
}

} // verus!
