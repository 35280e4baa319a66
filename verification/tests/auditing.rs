use checkpoint_harness::audit::{audit_words, find_key, in_key_order, value_len, AuditFailure};
use checkpoint_harness::byte_order::less_bytes;
use checkpoint_harness::loader::{LoadAction, Loader, StoreEvent};
use checkpoint_harness::reopen::{read_strict, RawEntry, Record};
use checkpoint_harness::words::number_to_words;
use checkpoint_harness::workload::{KeySource, ValueSource, Workload};
use radixdb::store::MemStore;
use radixdb::RadixTree;

fn record(key: &str, len: usize) -> Record {
    Record { key: key.to_string(), value_len: len }
}

/// The records of the first `count` names, in the order of their keys.
fn records_of_names(count: i64, len: usize) -> Vec<Record> {
    let mut names: Vec<String> = (0..count).map(number_to_words).collect();
    names.sort();
    names.into_iter().map(|key| Record { key, value_len: len }).collect()
}

#[test]
fn bytes_are_ordered_like_slices() {
    let samples: [&[u8]; 9] = [b"", b"a", b"aa", b"ab", b"b", b"eight", b"eighteen", b"\xff", b"\x00"];
    for a in samples {
        for b in samples {
            assert_eq!(less_bytes(a, b), a < b);
        }
    }
}

#[test]
fn prefix_comes_first() {
    assert!(less_bytes(b"eight", b"eighteen"));
    assert!(!less_bytes(b"eighteen", b"eight"));
    assert!(!less_bytes(b"eight", b"eight"));
    assert!(less_bytes(b"", b"\x00"));
}

#[test]
fn key_order_is_told() {
    assert!(in_key_order(&Vec::new()));
    assert!(in_key_order(&vec![record("one", 1)]));
    assert!(in_key_order(&vec![record("eight", 1), record("five", 1), record("four", 1)]));
    assert!(!in_key_order(&vec![record("eight", 1), record("four", 1), record("five", 1)]));
    assert!(!in_key_order(&vec![record("one", 1), record("one", 1)]));
}

#[test]
fn keys_are_found_where_they_stand() {
    let records = records_of_names(200, 1);
    for i in 0..200 {
        let name = number_to_words(i);
        let j = find_key(&records, name.as_bytes()).unwrap();
        assert_eq!(records[j].key, name);
    }
    assert_eq!(find_key(&records, b"two hundred"), None);
    assert_eq!(find_key(&records, b""), None);
    assert_eq!(find_key(&records, b"zzz"), None);
    assert_eq!(find_key(&Vec::new(), b"one"), None);
}

#[test]
fn value_lengths_are_counted_in_bytes() {
    assert_eq!(value_len(&ValueSource::Constant("1".to_string()), 5), 1);
    assert_eq!(value_len(&ValueSource::Constant("z\u{fc}rich".to_string()), 0), 7);
    assert_eq!(value_len(&ValueSource::Constant(String::new()), 0), 0);
    assert_eq!(value_len(&ValueSource::RepeatedIndex(10_000), 0), 10_000);
    assert_eq!(value_len(&ValueSource::RepeatedIndex(10_000), 9), 10_000);
    assert_eq!(value_len(&ValueSource::RepeatedIndex(10_000), 10), 20_000);
    assert_eq!(value_len(&ValueSource::RepeatedIndex(10_000), 999), 30_000);
    assert_eq!(value_len(&ValueSource::RepeatedIndex(3), u64::MAX), 60);
    assert_eq!(value_len(&ValueSource::RepeatedIndex(0), 77), 0);
    assert_eq!(
        value_len(&ValueSource::RepeatedIndex(usize::MAX), 10),
        2 * usize::MAX as u128
    );
}

#[test]
fn audit_accepts_exactly_the_load() {
    let one = ValueSource::Constant("1".to_string());
    assert_eq!(audit_words(&records_of_names(300, 1), &one, 300), Ok(()));
    assert_eq!(audit_words(&Vec::new(), &one, 0), Ok(()));
    assert_eq!(audit_words(&Vec::new(), &one, -7), Ok(()));
    assert_eq!(audit_words(&vec![record("zero", 1)], &one, 1), Ok(()));
}

#[test]
fn audit_reports_disorder_first() {
    let one = ValueSource::Constant("1".to_string());
    let records = vec![record("zero", 1), record("one", 1)];
    assert_eq!(audit_words(&records, &one, 2), Err(AuditFailure::OutOfOrder));
    assert_eq!(audit_words(&records, &one, 5), Err(AuditFailure::OutOfOrder));
    let twice = vec![record("zero", 1), record("zero", 1)];
    assert_eq!(audit_words(&twice, &one, 2), Err(AuditFailure::OutOfOrder));
}

#[test]
fn audit_reports_a_wrong_count() {
    let one = ValueSource::Constant("1".to_string());
    assert_eq!(
        audit_words(&records_of_names(31, 1), &one, 37),
        Err(AuditFailure::WrongCount { found: 31 })
    );
    assert_eq!(
        audit_words(&records_of_names(3, 1), &one, 2),
        Err(AuditFailure::WrongCount { found: 3 })
    );
    assert_eq!(
        audit_words(&records_of_names(3, 1), &one, 0),
        Err(AuditFailure::WrongCount { found: 3 })
    );
}

#[test]
fn audit_reports_the_first_missing_name() {
    let one = ValueSource::Constant("1".to_string());
    let mut records = records_of_names(20, 1);
    let position = records.iter().position(|r| r.key == "seven").unwrap();
    records[position] = record("seven hundred", 1);
    assert_eq!(audit_words(&records, &one, 20), Err(AuditFailure::Missing { index: 7 }));
    assert_eq!(
        audit_words(&vec![record("one", 1)], &one, 1),
        Err(AuditFailure::Missing { index: 0 })
    );
}

#[test]
fn audit_reports_the_first_wrong_length() {
    let bulky = ValueSource::RepeatedIndex(100);
    let mut names: Vec<i64> = (0..150).collect();
    names.sort_by_key(|n| number_to_words(*n));
    let mut records: Vec<Record> = names
        .iter()
        .map(|n| Record { key: number_to_words(*n), value_len: n.to_string().len() * 100 })
        .collect();
    assert_eq!(audit_words(&records, &bulky, 150), Ok(()));
    let position = records.iter().position(|r| r.key == "one hundred").unwrap();
    records[position].value_len = 200;
    assert_eq!(
        audit_words(&records, &bulky, 150),
        Err(AuditFailure::WrongLength { index: 100, found: 200 })
    );
    let position = records.iter().position(|r| r.key == "twelve").unwrap();
    records[position].value_len = 0;
    assert_eq!(
        audit_words(&records, &bulky, 150),
        Err(AuditFailure::WrongLength { index: 12, found: 0 })
    );
}

#[test]
fn store_yields_what_the_audit_expects() {
    let store = MemStore::default();
    let mut tree = RadixTree::empty(store.clone());
    let values = ValueSource::RepeatedIndex(40);
    let workload = Workload::Generated { count: 1_200, keys: KeySource::Words, values: values.clone() };
    let (mut loader, mut action) = Loader::begin(workload.size(), 500);
    let mut first_checkpoint = None;
    let last = loop {
        let event = match action {
            LoadAction::Insert { index } => {
                let (key, value) = workload.item(index);
                tree.try_insert(key, value).unwrap();
                StoreEvent::Inserted
            }
            LoadAction::Checkpoint => {
                let id = tree.try_reattach().unwrap();
                first_checkpoint.get_or_insert(id.clone());
                StoreEvent::Checkpointed { id }
            }
            LoadAction::Finish { id } => break id,
            LoadAction::Abort { error } => panic!("{:?}", error),
        };
        action = loader.step(event);
    };
    let read = |id: Vec<u8>| {
        let tree = RadixTree::try_load(store.clone(), Some(id)).unwrap();
        let raw: Vec<RawEntry> = tree
            .try_iter()
            .map(|entry| {
                let (key, value) = entry.unwrap();
                RawEntry::Found {
                    key: key.as_ref().to_vec(),
                    value_len: value.load(&store).ok().map(|blob| blob.len()),
                }
            })
            .collect();
        read_strict(&raw).unwrap()
    };
    assert_eq!(audit_words(&read(last.clone()), &values, 1_200), Ok(()));
    assert_eq!(
        audit_words(&read(last), &values, 1_201),
        Err(AuditFailure::WrongCount { found: 1_200 })
    );
    let early = read(first_checkpoint.unwrap());
    assert_eq!(audit_words(&early, &values, 500), Ok(()));
    assert_eq!(audit_words(&early, &values, 1_200), Err(AuditFailure::WrongCount { found: 500 }));
}
