//! Workload generation and recovery verification for a checkpointed,
//! ordered key-value store.
//!
//! The store itself is not part of this crate: a caller opens it, carries
//! out what the loader asks for, and hands back what the store reported.
//!
//! - [`words`] names integers in American English, the deterministic keys
//!   of a load; [`lexicon`] holds the vocabulary, and [`distinct`] proves
//!   that no two numbers share a name.
//! - [`decimal`] and [`random_key`] build numerals, bulky values and
//!   high-entropy keys; [`workload`] puts keys and values together, and
//!   [`scenario`] spells out the loads that are known by name.
//! - [`loader`] decides when an item is inserted and when a checkpoint is
//!   committed; [`recovery`] states what a checkpoint holds.
//! - [`reopen`] decodes what is read back from a store, [`byte_order`] is
//!   the order of its keys, and [`audit`] holds the records against the
//!   load.

pub mod audit;
pub mod byte_order;
pub mod decimal;
pub mod distinct;
pub mod lexicon;
pub mod loader;
pub mod random_key;
pub mod recovery;
pub mod reopen;
pub mod scenario;
pub mod words;
pub mod workload;
