//! Reading a store back: which checkpoint to load, and what each entry of
//! the loaded tree yields.
//!
//! The caller opens the store and walks the tree; this module decides.  No
//! entry that the walk reports is dropped: each one becomes a record or a
//! failure.

use vstd::prelude::*;
use vstd::string::*;
use vstd::utf8::{encode_utf8, valid_utf8};

verus! {

/// The mathematical content of an optional checkpoint identifier.
pub open spec fn id_view(id: Option<Vec<u8>>) -> Option<Seq<u8>> {
    match id {
        Some(bytes) => Some(bytes@),
        None => None,
    }
}

/// Picks the checkpoint to load: the requested one where one is requested,
/// else the last one that the store recorded, else none, which stands for
/// the empty tree of a fresh store.
pub fn choose_root(requested: Option<Vec<u8>>, last_recorded: Option<Vec<u8>>) -> (root: Option<
    Vec<u8>,
>)
    ensures
        id_view(root) == if requested is Some {
            id_view(requested)
        } else {
            id_view(last_recorded)
        },
{
    match requested {
        Some(id) => Some(id),
        None => last_recorded,
    }
}

/// What the walk over a tree reports of one entry.
#[derive(Debug, Clone, PartialEq, Eq)]
pub enum RawEntry {
    /// The entry could not be read.
    Unreadable,
    /// The entry was read: its key, and the length of its value, or none
    /// where the value could not be fetched.
    Found { key: Vec<u8>, value_len: Option<usize> },
}

/// Why an entry yields no record.
#[derive(Debug, Clone, Copy, PartialEq, Eq, Structural)]
pub enum EntryError {
    /// The entry could not be read.
    Unreadable,
    /// The value of the entry could not be fetched.
    ValueMissing,
    /// The key of the entry is not UTF-8 text.
    KeyNotText,
}

/// An entry that was read back: its key as text, and the length of its
/// value in bytes.
#[derive(Debug, Clone, PartialEq, Eq)]
pub struct Record {
    pub key: String,
    pub value_len: usize,
}

/// The mathematical content of the outcome of one entry.
pub enum OutcomeModel {
    Read { key: Seq<u8>, value_len: usize },
    Failed { error: EntryError },
}

impl RawEntry {
    /// What the entry yields: a record with the same key and length, or the
    /// first failure in the order in which an entry is read: the entry
    /// itself, its value, its key.
    pub open spec fn outcome(&self) -> OutcomeModel {
        match self {
            RawEntry::Unreadable => OutcomeModel::Failed { error: EntryError::Unreadable },
            RawEntry::Found { key, value_len } => match value_len {
                None => OutcomeModel::Failed { error: EntryError::ValueMissing },
                Some(len) => if valid_utf8(key@) {
                    OutcomeModel::Read { key: key@, value_len: *len }
                } else {
                    OutcomeModel::Failed { error: EntryError::KeyNotText }
                },
            },
        }
    }
}

/// The mathematical content of a decoded entry.
pub open spec fn outcome_view(outcome: Result<Record, EntryError>) -> OutcomeModel {
    match outcome {
        Ok(record) => OutcomeModel::Read {
            key: encode_utf8(record.key@),
            value_len: record.value_len,
        },
        Err(error) => OutcomeModel::Failed { error },
    }
}

/// `std::str::from_utf8`: the bytes as text where they are valid UTF-8, and
/// nothing where they are not.
#[verifier::external_body]
fn text_of(bytes: &[u8]) -> (text: Option<&str>)
    ensures
        text is Some <==> valid_utf8(bytes@),
        text matches Some(s) ==> s.spec_bytes() == bytes@,
{
    match std::str::from_utf8(bytes) {
        Ok(s) => Some(s),
        Err(_) => None,
    }
}

/// Decodes one entry of the walk.
pub fn read_entry(raw: &RawEntry) -> (outcome: Result<Record, EntryError>)
    ensures
        outcome_view(outcome) == raw.outcome(),
{
    match raw {
        RawEntry::Unreadable => Err(EntryError::Unreadable),
        RawEntry::Found { key, value_len } => match value_len {
            None => Err(EntryError::ValueMissing),
            Some(len) => match text_of(key.as_slice()) {
                Some(text) => Ok(Record { key: text.to_owned(), value_len: *len }),
                None => Err(EntryError::KeyNotText),
            },
        },
    }
}

/// Decodes every entry of a walk, failures included: one outcome for each
/// entry, in the order of the walk.
pub fn read_all(entries: &Vec<RawEntry>) -> (outcomes: Vec<Result<Record, EntryError>>)
    ensures
        outcomes@.len() == entries@.len(),
        forall|i: int|
            0 <= i < entries@.len() ==> outcome_view(#[trigger] outcomes@[i])
                == entries@[i].outcome(),
{
    let mut outcomes: Vec<Result<Record, EntryError>> = Vec::new();
    let mut i: usize = 0;
    while i < entries.len()
        invariant
            i <= entries@.len(),
            outcomes@.len() == i,
            forall|j: int|
                0 <= j < i ==> outcome_view(#[trigger] outcomes@[j]) == entries@[j].outcome(),
        decreases entries@.len() - i,
    {
        outcomes.push(read_entry(&entries[i]));
        i = i + 1;
    }
    outcomes
}

/// The first entry of a walk that yields no record.
#[derive(Debug, Clone, Copy, PartialEq, Eq, Structural)]
pub struct ScanFailure {
    /// The position of the entry in the walk.
    pub position: usize,
    /// Why it yields no record.
    pub error: EntryError,
}

/// Decodes the entries of a walk up to the first failure, which ends the
/// scan: the records of all entries where none fails, else the position and
/// the reason of the first that does.
pub fn read_strict(entries: &Vec<RawEntry>) -> (scan: Result<Vec<Record>, ScanFailure>)
    ensures
        match scan {
            Ok(records) => {
                &&& records@.len() == entries@.len()
                &&& forall|i: int|
                    0 <= i < entries@.len() ==> outcome_view(Ok(#[trigger] records@[i]))
                        == entries@[i].outcome()
            },
            Err(failure) => {
                &&& failure.position < entries@.len()
                &&& entries@[failure.position as int].outcome() == (OutcomeModel::Failed {
                    error: failure.error,
                })
                &&& forall|i: int|
                    0 <= i < failure.position ==> #[trigger] entries@[i].outcome()
                        is Read
            },
        },
{
    let mut records: Vec<Record> = Vec::new();
    let mut i: usize = 0;
    while i < entries.len()
        invariant
            i <= entries@.len(),
            records@.len() == i,
            forall|j: int|
                0 <= j < i ==> outcome_view(Ok(#[trigger] records@[j])) == entries@[j].outcome(),
            forall|j: int| 0 <= j < i ==> #[trigger] entries@[j].outcome() is Read,
        decreases entries@.len() - i,
    {
        match read_entry(&entries[i]) {
            Ok(record) => {
                records.push(record);
            },
            Err(error) => {
                return Err(ScanFailure { position: i, error });
            },
        }
        i = i + 1;
    }
    Ok(records)
}

} // verus!
