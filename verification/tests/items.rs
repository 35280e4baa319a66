use checkpoint_harness::scenario::{
    Plan, Scenario, Target, BULK_REPEATS, DECIMAL_PAIRS, RANDOM_INTERVAL, WORDS_INTERVAL,
};
use checkpoint_harness::workload::{KeySource, ValueSource, Workload};

#[test]
fn words_workload_pairs_names_with_the_payload() {
    let workload = Workload::Generated {
        count: 30,
        keys: KeySource::Words,
        values: ValueSource::Constant("1".to_string()),
    };
    assert!(workload.is_valid());
    assert_eq!(workload.size(), 30);
    assert_eq!(workload.item(0), ("zero".to_string(), "1".to_string()));
    assert_eq!(workload.item(21), ("twenty-one".to_string(), "1".to_string()));
    assert_eq!(workload.item(29), ("twenty-nine".to_string(), "1".to_string()));
}

#[test]
fn repeated_index_values_have_the_expected_length() {
    let workload = Workload::Generated {
        count: 1_000,
        keys: KeySource::Words,
        values: ValueSource::RepeatedIndex(10_000),
    };
    let (key, value) = workload.item(7);
    assert_eq!(key, "seven");
    assert_eq!(value.len(), 10_000);
    assert!(value.chars().all(|c| c == '7'));
    let (key, value) = workload.item(123);
    assert_eq!(key, "one hundred twenty-three");
    assert_eq!(value.len(), 30_000);
    assert_eq!(&value[..6], "123123");
    assert_eq!(ValueSource::RepeatedIndex(3).value(45), "454545");
    assert_eq!(ValueSource::RepeatedIndex(0).value(45), "");
}

#[test]
fn decimal_workload_pairs_each_numeral_with_itself() {
    let workload = Workload::Generated {
        count: 20_000,
        keys: KeySource::Decimal,
        values: ValueSource::RepeatedIndex(1),
    };
    assert_eq!(workload.size(), 20_000);
    assert_eq!(workload.item(0), ("0".to_string(), "0".to_string()));
    assert_eq!(workload.item(19_999), ("19999".to_string(), "19999".to_string()));
}

#[test]
fn random_workload_draws_fresh_keys() {
    let workload = Workload::Generated {
        count: 5,
        keys: KeySource::Random,
        values: ValueSource::Constant("1".to_string()),
    };
    assert!(workload.is_valid());
    let (first, value) = workload.item(0);
    assert_eq!(value, "1");
    assert_eq!(first.chars().count(), 1024);
    assert!(first.chars().all(|c| (32..126).contains(&(c as u32))));
    let again = (0..20).any(|_| workload.item(0).0 != first);
    assert!(again);
}

#[test]
fn listed_workload_returns_its_pairs_in_order() {
    let pairs = vec![
        ("b".to_string(), "2".to_string()),
        ("a".to_string(), "1".to_string()),
    ];
    let workload = Workload::Listed(pairs.clone());
    assert!(workload.is_valid());
    assert_eq!(workload.size(), 2);
    assert_eq!(workload.item(0), pairs[0]);
    assert_eq!(workload.item(1), pairs[1]);
}

#[test]
fn count_that_is_not_positive_means_no_items() {
    for count in [0i64, -1, i64::MIN] {
        let workload = Workload::Generated {
            count,
            keys: KeySource::Words,
            values: ValueSource::Constant(String::new()),
        };
        assert!(workload.is_valid());
        assert_eq!(workload.size(), 0);
    }
}

#[test]
fn words_workload_is_valid_up_to_the_last_name() {
    let fits = Workload::Generated {
        count: 1_000_000_000_000,
        keys: KeySource::Words,
        values: ValueSource::RepeatedIndex(1),
    };
    assert!(fits.is_valid());
    assert_eq!(fits.item(999_999_999_999).0.len(), 4 * 24 + 8 + 8 + 9 + 3 * 2);
    let too_many = Workload::Generated {
        count: 1_000_000_000_001,
        keys: KeySource::Words,
        values: ValueSource::RepeatedIndex(1),
    };
    assert!(!too_many.is_valid());
    let numerals = Workload::Generated {
        count: i64::MAX,
        keys: KeySource::Decimal,
        values: ValueSource::RepeatedIndex(1),
    };
    assert!(numerals.is_valid());
}

#[test]
fn greetings_plan() {
    let plan = Scenario::Greetings.plan();
    let pairs = vec![
        ("helloworld".to_string(), "hi".to_string()),
        ("helloworld1".to_string(), "hi".to_string()),
        ("hi".to_string(), "hi".to_string()),
    ];
    assert_eq!(
        plan,
        Plan { target: Target::File("test1.rdb".to_string()), workload: Workload::Listed(pairs), interval: 0 }
    );
}

#[test]
fn single_key_plan() {
    let plan = Scenario::SingleKey.plan();
    let pairs = vec![("SREDAEH".to_string(), "1".to_string())];
    assert_eq!(
        plan,
        Plan {
            target: Target::File("test5_string_list.radixdb".to_string()),
            workload: Workload::Listed(pairs),
            interval: 0,
        }
    );
}

#[test]
fn bulky_plans() {
    let thousand = Scenario::BulkyThousand.plan();
    assert_eq!(thousand.target, Target::File("test2.rdb".to_string()));
    assert_eq!(thousand.interval, 0);
    assert_eq!(
        thousand.workload,
        Workload::Generated { count: 1_000, keys: KeySource::Words, values: ValueSource::RepeatedIndex(10_000) }
    );
    let ten_thousand = Scenario::BulkyTenThousand.plan();
    assert_eq!(ten_thousand.target, Target::File("test3.rdb".to_string()));
    assert_eq!(ten_thousand.interval, 0);
    assert_eq!(
        ten_thousand.workload,
        Workload::Generated { count: 10_000, keys: KeySource::Words, values: ValueSource::RepeatedIndex(BULK_REPEATS) }
    );
}

#[test]
fn file_plans_carry_the_count_in_the_name() {
    let words = Scenario::WordsFile { count: 1_000_000 }.plan();
    assert_eq!(words.target, Target::File("testnormal1000000.rdb".to_string()));
    assert_eq!(words.interval, 100_000);
    assert_eq!(words.interval, WORDS_INTERVAL);
    assert_eq!(
        words.workload,
        Workload::Generated { count: 1_000_000, keys: KeySource::Words, values: ValueSource::Constant("1".to_string()) }
    );
    let random = Scenario::RandomFile { count: 100_000 }.plan();
    assert_eq!(random.target, Target::File("test100000.rdb".to_string()));
    assert_eq!(random.interval, 10_000);
    assert_eq!(random.interval, RANDOM_INTERVAL);
    assert_eq!(
        random.workload,
        Workload::Generated { count: 100_000, keys: KeySource::Random, values: ValueSource::Constant("1".to_string()) }
    );
    let negative = Scenario::WordsFile { count: -3 }.plan();
    assert_eq!(negative.target, Target::File("testnormal-3.rdb".to_string()));
    assert_eq!(negative.workload.size(), 0);
}

#[test]
fn decimal_pairs_plan_lives_in_memory() {
    let plan = Scenario::DecimalPairs.plan();
    assert_eq!(plan.target, Target::Memory);
    assert_eq!(plan.interval, 0);
    assert_eq!(DECIMAL_PAIRS, 20_000);
    assert_eq!(checkpoint_harness::scenario::PAGE_SIZE, 1_048_576);
    assert_eq!(
        plan.workload,
        Workload::Generated { count: 20_000, keys: KeySource::Decimal, values: ValueSource::RepeatedIndex(1) }
    );
}
