//! The checkpointed bulk load, as a protocol between the loader and the
//! store that it fills.
//!
//! The store is driven from outside: the loader says what to do next, the
//! caller does it and reports what happened.  The loader inserts the items
//! in order, commits a checkpoint each time the number of insertions reaches
//! a multiple of the interval, and commits one more when no item is left.
//! Any failure ends the load.

use vstd::prelude::*;

verus! {

/// What the loader is waiting for.
#[derive(Debug, Clone, Copy, PartialEq, Eq, Structural)]
pub enum Phase {
    /// The outcome of the insertion of the next item.
    Inserting,
    /// The outcome of a checkpoint within the load.
    Committing,
    /// The outcome of the checkpoint that closes the load.
    Closing,
    /// Nothing: the load is complete.
    Done,
    /// Nothing: the load was abandoned.
    Failed,
}

/// Why a load was abandoned.
#[derive(Debug, Clone, Copy, PartialEq, Eq, Structural)]
pub enum LoadError {
    /// The store refused the item with this index.
    InsertFailed { index: u64 },
    /// The store failed to commit a checkpoint after this many insertions.
    CheckpointFailed { inserted: u64 },
    /// An outcome was reported that the loader was not waiting for.
    OutOfTurn,
}

/// What the store reported.
#[derive(Debug, Clone, PartialEq, Eq)]
pub enum StoreEvent {
    /// The item was inserted.
    Inserted,
    /// The item was refused.
    InsertFailed,
    /// A checkpoint was committed under this identifier.
    Checkpointed { id: Vec<u8> },
    /// No checkpoint could be committed.
    CheckpointFailed,
}

/// What the caller is to do next.
#[derive(Debug, Clone, PartialEq, Eq)]
pub enum LoadAction {
    /// Insert the item with this index.
    Insert { index: u64 },
    /// Commit a checkpoint.
    Checkpoint,
    /// Stop: the load is complete, and this identifier recovers it.
    Finish { id: Vec<u8> },
    /// Stop: the load was abandoned.
    Abort { error: LoadError },
}

/// The mathematical content of a `StoreEvent`.
pub enum EventModel {
    Inserted,
    InsertFailed,
    Checkpointed { id: Seq<u8> },
    CheckpointFailed,
}

/// The mathematical content of a `LoadAction`.
pub enum ActionModel {
    Insert { index: nat },
    Checkpoint,
    Finish { id: Seq<u8> },
    Abort { error: LoadError },
}

/// The mathematical content of a `Loader`.
pub struct SessionModel {
    /// The number of items to insert.
    pub total: nat,
    /// The checkpoint interval; 0 for no checkpoint within the load.
    pub interval: nat,
    /// The number of items inserted so far.
    pub inserted: nat,
    /// The number of insertions that the last committed checkpoint holds.
    pub durable: nat,
    /// The identifier of the last committed checkpoint.
    pub last_id: Option<Seq<u8>>,
    /// What the loader is waiting for.
    pub phase: Phase,
}

impl View for StoreEvent {
    type V = EventModel;

    open spec fn view(&self) -> EventModel {
        match self {
            StoreEvent::Inserted => EventModel::Inserted,
            StoreEvent::InsertFailed => EventModel::InsertFailed,
            StoreEvent::Checkpointed { id } => EventModel::Checkpointed { id: id@ },
            StoreEvent::CheckpointFailed => EventModel::CheckpointFailed,
        }
    }
}

impl View for LoadAction {
    type V = ActionModel;

    open spec fn view(&self) -> ActionModel {
        match self {
            LoadAction::Insert { index } => ActionModel::Insert { index: *index as nat },
            LoadAction::Checkpoint => ActionModel::Checkpoint,
            LoadAction::Finish { id } => ActionModel::Finish { id: id@ },
            LoadAction::Abort { error } => ActionModel::Abort { error: *error },
        }
    }
}

/// Whether a checkpoint within the load follows the item with this index:
/// whether that item brings the number of insertions to a multiple of the
/// interval.
pub open spec fn checkpoint_due(index: nat, interval: nat) -> bool {
    interval > 0 && (index + 1) % interval == 0
}

impl SessionModel {
    /// The state in which a load of `total` items begins.
    pub open spec fn begin(total: nat, interval: nat) -> SessionModel {
        SessionModel {
            total,
            interval,
            inserted: 0,
            durable: 0,
            last_id: None,
            phase: if total == 0 {
                Phase::Closing
            } else {
                Phase::Inserting
            },
        }
    }

    /// What a state asks the caller to do while it waits: insert the next
    /// item, or commit a checkpoint.  Meaningful while the load is running.
    pub open spec fn pending(self) -> ActionModel {
        match self.phase {
            Phase::Inserting => ActionModel::Insert { index: self.inserted },
            _ => ActionModel::Checkpoint,
        }
    }

    /// The phase that follows once `inserted` items are in and nothing is
    /// being committed.
    pub open spec fn proceed(self) -> SessionModel {
        SessionModel {
            phase: if self.inserted == self.total {
                Phase::Closing
            } else {
                Phase::Inserting
            },
            ..self
        }
    }

    /// The state after `event`, and what the caller is to do next.
    pub open spec fn step(self, event: EventModel) -> (SessionModel, ActionModel) {
        match (self.phase, event) {
            (Phase::Inserting, EventModel::Inserted) => {
                let index = self.inserted;
                let grown = SessionModel { inserted: index + 1, ..self };
                let next = if checkpoint_due(index, self.interval) {
                    SessionModel { phase: Phase::Committing, ..grown }
                } else {
                    grown.proceed()
                };
                (next, next.pending())
            },
            (Phase::Inserting, EventModel::InsertFailed) => (
                SessionModel { phase: Phase::Failed, ..self },
                ActionModel::Abort { error: LoadError::InsertFailed { index: self.inserted as u64 } },
            ),
            (Phase::Committing, EventModel::Checkpointed { id }) => {
                let next = SessionModel {
                    durable: self.inserted,
                    last_id: Some(id),
                    ..self
                }.proceed();
                (next, next.pending())
            },
            (Phase::Closing, EventModel::Checkpointed { id }) => (
                SessionModel {
                    durable: self.inserted,
                    last_id: Some(id),
                    phase: Phase::Done,
                    ..self
                },
                ActionModel::Finish { id },
            ),
            (Phase::Committing, EventModel::CheckpointFailed) | (
                Phase::Closing,
                EventModel::CheckpointFailed,
            ) => (
                SessionModel { phase: Phase::Failed, ..self },
                ActionModel::Abort {
                    error: LoadError::CheckpointFailed { inserted: self.inserted as u64 },
                },
            ),
            _ => (
                SessionModel { phase: Phase::Failed, ..self },
                ActionModel::Abort { error: LoadError::OutOfTurn },
            ),
        }
    }

    /// What holds of every state of a load: nothing is durable that was not
    /// inserted, nothing is inserted beyond the workload, and the phase
    /// agrees with the progress.
    pub open spec fn wf(self) -> bool {
        &&& self.durable <= self.inserted <= self.total <= u64::MAX
        &&& self.interval <= u64::MAX
        &&& self.durable > 0 ==> self.last_id is Some
        &&& self.phase == Phase::Inserting ==> self.inserted < self.total
        &&& self.phase == Phase::Committing ==> self.inserted > 0 && checkpoint_due(
            (self.inserted - 1) as nat,
            self.interval,
        )
        &&& self.phase == Phase::Closing ==> self.inserted == self.total
        &&& self.phase == Phase::Done ==> self.durable == self.total && self.last_id is Some
    }
}

/// The loader's side of a checkpointed bulk load.
#[derive(Debug, Clone, PartialEq, Eq)]
pub struct Loader {
    total: u64,
    interval: u64,
    inserted: u64,
    durable: u64,
    last_id: Option<Vec<u8>>,
    phase: Phase,
}

impl View for Loader {
    type V = SessionModel;

    closed spec fn view(&self) -> SessionModel {
        SessionModel {
            total: self.total as nat,
            interval: self.interval as nat,
            inserted: self.inserted as nat,
            durable: self.durable as nat,
            last_id: match self.last_id {
                Some(id) => Some(id@),
                None => None,
            },
            phase: self.phase,
        }
    }
}

impl Loader {
    /// Whether the loader is in one of the states of a load.
    pub open spec fn wf(&self) -> bool {
        self@.wf()
    }

    /// Begins a load of `total` items, with a checkpoint after every
    /// `interval` insertions, or none within the load where `interval` is
    /// 0.  Returns the loader and the first thing to do.
    pub fn begin(total: u64, interval: u64) -> (started: (Loader, LoadAction))
        ensures
            started.0@ == SessionModel::begin(total as nat, interval as nat),
            started.1@ == started.0@.pending(),
            started.0.wf(),
    {
        let phase = if total == 0 {
            Phase::Closing
        } else {
            Phase::Inserting
        };
        let loader = Loader { total, interval, inserted: 0, durable: 0, last_id: None, phase };
        let action = loader.pending();
        (loader, action)
    }

    /// What to do while waiting.
    fn pending(&self) -> (action: LoadAction)
        ensures
            action@ == self@.pending(),
    {
        match self.phase {
            Phase::Inserting => LoadAction::Insert { index: self.inserted },
            _ => LoadAction::Checkpoint,
        }
    }

    /// Moves on once nothing is being committed.
    fn proceed(&mut self)
        ensures
            final(self)@ == old(self)@.proceed(),
    {
        if self.inserted == self.total {
            self.phase = Phase::Closing;
        } else {
            self.phase = Phase::Inserting;
        }
    }

    /// Takes in what the store reported and says what to do next.
    pub fn step(&mut self, event: StoreEvent) -> (action: LoadAction)
        requires
            old(self).wf(),
        ensures
            final(self)@ == old(self)@.step(event@).0,
            action@ == old(self)@.step(event@).1,
            final(self).wf(),
            final(self)@.durable >= old(self)@.durable,
    {
        match (self.phase, event) {
            (Phase::Inserting, StoreEvent::Inserted) => {
                let index = self.inserted;
                self.inserted = index + 1;
                if self.interval > 0 && self.inserted % self.interval == 0 {
                    self.phase = Phase::Committing;
                } else {
                    self.proceed();
                }
                self.pending()
            },
            (Phase::Inserting, StoreEvent::InsertFailed) => {
                self.phase = Phase::Failed;
                LoadAction::Abort { error: LoadError::InsertFailed { index: self.inserted } }
            },
            (Phase::Committing, StoreEvent::Checkpointed { id }) => {
                self.durable = self.inserted;
                self.last_id = Some(id);
                self.proceed();
                self.pending()
            },
            (Phase::Closing, StoreEvent::Checkpointed { id }) => {
                self.durable = self.inserted;
                self.last_id = Some(id.clone());
                self.phase = Phase::Done;
                LoadAction::Finish { id }
            },
            (Phase::Committing, StoreEvent::CheckpointFailed) | (
                Phase::Closing,
                StoreEvent::CheckpointFailed,
            ) => {
                self.phase = Phase::Failed;
                LoadAction::Abort { error: LoadError::CheckpointFailed { inserted: self.inserted } }
            },
            _ => {
                self.phase = Phase::Failed;
                LoadAction::Abort { error: LoadError::OutOfTurn }
            },
        }
    }

    /// The phase of the load.
    pub fn phase(&self) -> (phase: Phase)
        ensures
            phase == self@.phase,
    {
        self.phase
    }

    /// The number of items inserted so far.
    pub fn inserted(&self) -> (n: u64)
        ensures
            n == self@.inserted,
    {
        self.inserted
    }

    /// The number of insertions that the last committed checkpoint holds.
    pub fn durable(&self) -> (n: u64)
        ensures
            n == self@.durable,
    {
        self.durable
    }

    /// The identifier of the last committed checkpoint, if there is one.
    pub fn last_checkpoint(&self) -> (id: Option<Vec<u8>>)
        ensures
            match id {
                Some(bytes) => self@.last_id == Some(bytes@),
                None => self@.last_id is None,
            },
    {
        match &self.last_id {
            Some(bytes) => Some(bytes.clone()),
            None => None,
        }
    }
}

} // verus!
