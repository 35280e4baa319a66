//! The loads that the harness knows by name, each with its parameters
//! spelled out: where the store lives, what is inserted, and how often a
//! checkpoint is committed.

use vstd::prelude::*;
use vstd::string::*;
use crate::decimal::{decimal, decimal_string};
use crate::workload::{KeySource, ValueSource, Workload};

verus! {

/// A load chosen by name.
#[derive(Debug, Clone, Copy, PartialEq, Eq, Structural)]
pub enum Scenario {
    /// Three short greetings under keys that share prefixes.
    Greetings,
    /// The names of the first thousand numbers, with bulky values.
    BulkyThousand,
    /// The names of the first ten thousand numbers, with bulky values.
    BulkyTenThousand,
    /// The names of the first `count` numbers, with a checkpoint every
    /// hundred thousand items.
    WordsFile { count: i64 },
    /// `count` random keys, with a checkpoint every ten thousand items.
    RandomFile { count: i64 },
    /// One key.
    SingleKey,
    /// Twenty thousand numerals, each under itself, in a store in memory.
    DecimalPairs,
}

/// Where the store of a load lives.
#[derive(Debug, Clone, PartialEq, Eq)]
pub enum Target {
    /// In memory.
    Memory,
    /// In the file of this name.
    File(String),
}

/// The parameters of a load.
#[derive(Debug, Clone, PartialEq, Eq)]
pub struct Plan {
    pub target: Target,
    pub workload: Workload,
    /// The checkpoint interval; 0 for no checkpoint within the load.
    pub interval: u64,
}

/// The size in bytes of a page of a store that lives in a file.
pub const PAGE_SIZE: u64 = 1024 * 1024;

/// How many times a bulky value repeats the numeral of its index.
pub const BULK_REPEATS: usize = 10_000;

/// The checkpoint interval of a load of names.
pub const WORDS_INTERVAL: u64 = 100_000;

/// The checkpoint interval of a load of random keys.
pub const RANDOM_INTERVAL: u64 = 10_000;

/// The number of items of the load of numerals.
pub const DECIMAL_PAIRS: i64 = 20_000;

impl Scenario {
    /// The name of the file that holds the store; empty for a store in
    /// memory.
    pub open spec fn file_name(self) -> Seq<char> {
        match self {
            Scenario::Greetings => "test1.rdb"@,
            Scenario::BulkyThousand => "test2.rdb"@,
            Scenario::BulkyTenThousand => "test3.rdb"@,
            Scenario::WordsFile { count } => "testnormal"@ + decimal(count as int) + ".rdb"@,
            Scenario::RandomFile { count } => "test"@ + decimal(count as int) + ".rdb"@,
            Scenario::SingleKey => "test5_string_list.radixdb"@,
            Scenario::DecimalPairs => Seq::empty(),
        }
    }

    /// The checkpoint interval.
    pub open spec fn interval(self) -> u64 {
        match self {
            Scenario::WordsFile { .. } => WORDS_INTERVAL,
            Scenario::RandomFile { .. } => RANDOM_INTERVAL,
            _ => 0,
        }
    }

    /// The pairs of a scenario that lists them.
    pub open spec fn listed(self) -> Seq<(Seq<char>, Seq<char>)> {
        match self {
            Scenario::Greetings => seq![
                ("helloworld"@, "hi"@),
                ("helloworld1"@, "hi"@),
                ("hi"@, "hi"@),
            ],
            Scenario::SingleKey => seq![("SREDAEH"@, "1"@)],
            _ => Seq::empty(),
        }
    }

    /// Whether `workload` is what the scenario inserts.
    pub open spec fn inserts(self, workload: Workload) -> bool {
        match self {
            Scenario::Greetings | Scenario::SingleKey => {
                &&& workload matches Workload::Listed(pairs)
                &&& pairs@.len() == self.listed().len()
                &&& forall|i: int|
                    0 <= i < pairs@.len() ==> (#[trigger] pairs@[i]).0@ == self.listed()[i].0
                        && pairs@[i].1@ == self.listed()[i].1
            },
            Scenario::BulkyThousand => workload == (Workload::Generated {
                count: 1_000,
                keys: KeySource::Words,
                values: ValueSource::RepeatedIndex(BULK_REPEATS),
            }),
            Scenario::BulkyTenThousand => workload == (Workload::Generated {
                count: 10_000,
                keys: KeySource::Words,
                values: ValueSource::RepeatedIndex(BULK_REPEATS),
            }),
            Scenario::WordsFile { count } => {
                &&& workload matches Workload::Generated { count: n, keys, values }
                &&& n == count
                &&& keys == KeySource::Words
                &&& values matches ValueSource::Constant(text)
                &&& text@ == "1"@
            },
            Scenario::RandomFile { count } => {
                &&& workload matches Workload::Generated { count: n, keys, values }
                &&& n == count
                &&& keys == KeySource::Random
                &&& values matches ValueSource::Constant(text)
                &&& text@ == "1"@
            },
            Scenario::DecimalPairs => workload == (Workload::Generated {
                count: DECIMAL_PAIRS,
                keys: KeySource::Decimal,
                values: ValueSource::RepeatedIndex(1),
            }),
        }
    }

    /// Spells out the parameters of the scenario.
    pub fn plan(self) -> (plan: Plan)
        ensures
            match plan.target {
                Target::Memory => self == Scenario::DecimalPairs,
                Target::File(name) => self != Scenario::DecimalPairs && name@ == self.file_name(),
            },
            self.inserts(plan.workload),
            plan.interval == self.interval(),
    {
        match self {
            Scenario::Greetings => {
                let mut pairs: Vec<(String, String)> = Vec::new();
                pairs.push(("helloworld".to_owned(), "hi".to_owned()));
                pairs.push(("helloworld1".to_owned(), "hi".to_owned()));
                pairs.push(("hi".to_owned(), "hi".to_owned()));
                Plan {
                    target: Target::File("test1.rdb".to_owned()),
                    workload: Workload::Listed(pairs),
                    interval: 0,
                }
            },
            Scenario::BulkyThousand => Plan {
                target: Target::File("test2.rdb".to_owned()),
                workload: Workload::Generated {
                    count: 1_000,
                    keys: KeySource::Words,
                    values: ValueSource::RepeatedIndex(BULK_REPEATS),
                },
                interval: 0,
            },
            Scenario::BulkyTenThousand => Plan {
                target: Target::File("test3.rdb".to_owned()),
                workload: Workload::Generated {
                    count: 10_000,
                    keys: KeySource::Words,
                    values: ValueSource::RepeatedIndex(BULK_REPEATS),
                },
                interval: 0,
            },
            Scenario::WordsFile { count } => {
                let name = "testnormal".to_owned().concat(decimal_string(count).as_str()).concat(
                    ".rdb",
                );
                Plan {
                    target: Target::File(name),
                    workload: Workload::Generated {
                        count,
                        keys: KeySource::Words,
                        values: ValueSource::Constant("1".to_owned()),
                    },
                    interval: WORDS_INTERVAL,
                }
            },
            Scenario::RandomFile { count } => {
                let name = "test".to_owned().concat(decimal_string(count).as_str()).concat(".rdb");
                Plan {
                    target: Target::File(name),
                    workload: Workload::Generated {
                        count,
                        keys: KeySource::Random,
                        values: ValueSource::Constant("1".to_owned()),
                    },
                    interval: RANDOM_INTERVAL,
                }
            },
            Scenario::SingleKey => {
                let mut pairs: Vec<(String, String)> = Vec::new();
                pairs.push(("SREDAEH".to_owned(), "1".to_owned()));
                Plan {
                    target: Target::File("test5_string_list.radixdb".to_owned()),
                    workload: Workload::Listed(pairs),
                    interval: 0,
                }
            },
            Scenario::DecimalPairs => Plan {
                target: Target::Memory,
                workload: Workload::Generated {
                    count: DECIMAL_PAIRS,
                    keys: KeySource::Decimal,
                    values: ValueSource::RepeatedIndex(1),
                },
                interval: 0,
            },
        }
    }
}

} // verus!
