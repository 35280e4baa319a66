//! What a checkpoint of a load holds, and how that grows along a load.
//!
//! A checkpoint committed after `k` insertions denotes the first `k` items
//! of the workload.  The laws below speak of the loader's own account of a
//! load; that the store returns what it was given is the store's part.

use vstd::arithmetic::div_mod::{lemma_fundamental_div_mod_converse, lemma_mod_multiples_basic};
use vstd::prelude::*;
use crate::distinct::lemma_words_distinct;
use crate::loader::{EventModel, Phase, SessionModel};
use crate::words::{words, MAX_MAGNITUDE};

verus! {

/// The keys of the first `k` items of a workload whose keys are names.
pub open spec fn word_keys(k: nat) -> Set<Seq<char>> {
    Set::new(|key: Seq<char>| exists|i: int| 0 <= i < k && key == #[trigger] words(i))
}

/// The first `k` items of a workload whose keys are names have `k` keys,
/// no two of them equal.
pub proof fn lemma_word_keys_count(k: nat)
    requires
        k <= MAX_MAGNITUDE + 1,
    ensures
        word_keys(k).finite(),
        word_keys(k).len() == k,
    decreases k,
{
    if k == 0 {
        assert(word_keys(0) =~= Set::<Seq<char>>::empty());
    } else {
        let before = (k - 1) as nat;
        lemma_word_keys_count(before);
        let added = words(before as int);
        assert(!word_keys(before).contains(added)) by {
            if word_keys(before).contains(added) {
                let i = choose|i: int| 0 <= i < before && added == #[trigger] words(i);
                lemma_words_distinct(i, before as int);
            }
        }
        assert(word_keys(k) =~= word_keys(before).insert(added)) by {
            assert forall|key: Seq<char>| word_keys(before).insert(added).contains(key) implies word_keys(
                k,
            ).contains(key) by {
                if key == added {
                    assert(key == words(before as int));
                } else {
                    let i = choose|i: int| 0 <= i < before && key == #[trigger] words(i);
                    assert(0 <= i < k && key == words(i));
                }
            }
        }
    }
}

/// A checkpoint over more insertions holds every key that a checkpoint
/// over fewer insertions holds.
pub proof fn lemma_word_keys_grow(fewer: nat, more: nat)
    requires
        fewer <= more,
    ensures
        word_keys(fewer).subset_of(word_keys(more)),
{
    assert forall|key: Seq<char>| word_keys(fewer).contains(key) implies word_keys(more).contains(
        key,
    ) by {
        let i = choose|i: int| 0 <= i < fewer && key == #[trigger] words(i);
        assert(0 <= i < more && key == words(i));
    }
}

impl SessionModel {
    /// The state after a sequence of events.
    pub open spec fn run(self, events: Seq<EventModel>) -> SessionModel
        decreases events.len(),
    {
        if events.len() == 0 {
            self
        } else {
            self.run(events.drop_last()).step(events.last()).0
        }
    }
}

/// One event leads from a state of a load to a state of a load, and takes
/// nothing back from what is durable.
pub proof fn lemma_step_keeps(state: SessionModel, event: EventModel)
    requires
        state.wf(),
    ensures
        state.step(event).0.wf(),
        state.step(event).0.durable >= state.durable,
        state.step(event).0.inserted >= state.inserted,
        state.step(event).0.total == state.total,
        state.step(event).0.interval == state.interval,
{
}

/// Whatever the store reports, the loader stays in a state of a load.
pub proof fn lemma_run_keeps(state: SessionModel, events: Seq<EventModel>)
    requires
        state.wf(),
    ensures
        state.run(events).wf(),
        state.run(events).durable >= state.durable,
        state.run(events).inserted >= state.inserted,
        state.run(events).total == state.total,
        state.run(events).interval == state.interval,
    decreases events.len(),
{
    if events.len() > 0 {
        lemma_run_keeps(state, events.drop_last());
        lemma_step_keeps(state.run(events.drop_last()), events.last());
    }
}

/// A run in two parts is the run of the second part from where the first
/// part ended.
pub proof fn lemma_run_split(state: SessionModel, first: Seq<EventModel>, second: Seq<EventModel>)
    ensures
        state.run(first + second) == state.run(first).run(second),
    decreases second.len(),
{
    if second.len() == 0 {
        assert(first + second =~= first);
    } else {
        lemma_run_split(state, first, second.drop_last());
        assert((first + second).drop_last() =~= first + second.drop_last());
        assert((first + second).last() == second.last());
    }
}

/// A load that completes has inserted every item, and its closing
/// checkpoint holds them all: for a workload whose keys are names, as many
/// distinct keys as it has items.
pub proof fn lemma_complete_load(total: nat, interval: nat, events: Seq<EventModel>)
    requires
        total <= MAX_MAGNITUDE + 1,
        interval <= u64::MAX,
        SessionModel::begin(total, interval).run(events).phase == Phase::Done,
    ensures
        SessionModel::begin(total, interval).run(events).inserted == total,
        SessionModel::begin(total, interval).run(events).durable == total,
        SessionModel::begin(total, interval).run(events).last_id is Some,
        word_keys(total).finite(),
        word_keys(total).len() == total,
{
    lemma_run_keeps(SessionModel::begin(total, interval), events);
    lemma_word_keys_count(total);
}

/// Of two checkpoints of one load, the later holds every key that the
/// earlier holds.
pub proof fn lemma_checkpoints_grow(
    total: nat,
    interval: nat,
    earlier: Seq<EventModel>,
    later: Seq<EventModel>,
)
    requires
        total <= u64::MAX,
        interval <= u64::MAX,
    ensures
        SessionModel::begin(total, interval).run(earlier).durable <= SessionModel::begin(
            total,
            interval,
        ).run(earlier + later).durable,
        word_keys(SessionModel::begin(total, interval).run(earlier).durable).subset_of(
            word_keys(SessionModel::begin(total, interval).run(earlier + later).durable),
        ),
{
    let start = SessionModel::begin(total, interval);
    lemma_run_keeps(start, earlier);
    lemma_run_split(start, earlier, later);
    lemma_run_keeps(start.run(earlier), later);
    lemma_word_keys_grow(start.run(earlier).durable, start.run(earlier + later).durable);
}

/// A load that stops right after an insertion has lost that insertion: the
/// last committed checkpoint holds fewer keys than were inserted, never
/// more.
pub proof fn lemma_crash_after_insert(total: nat, interval: nat, events: Seq<EventModel>)
    requires
        total <= MAX_MAGNITUDE + 1,
        interval <= u64::MAX,
        events.len() > 0,
        SessionModel::begin(total, interval).run(events.drop_last()).phase == Phase::Inserting,
        events.last() == EventModel::Inserted,
    ensures
        SessionModel::begin(total, interval).run(events).durable < SessionModel::begin(
            total,
            interval,
        ).run(events).inserted,
        word_keys(SessionModel::begin(total, interval).run(events).durable).len()
            < SessionModel::begin(total, interval).run(events).inserted,
{
    let start = SessionModel::begin(total, interval);
    lemma_run_keeps(start, events.drop_last());
    lemma_run_keeps(start, events);
    lemma_word_keys_count(start.run(events).durable);
}

/// At every moment of a load, the last committed checkpoint holds no more
/// keys than were inserted.
pub proof fn lemma_never_more(total: nat, interval: nat, events: Seq<EventModel>)
    requires
        total <= MAX_MAGNITUDE + 1,
        interval <= u64::MAX,
    ensures
        word_keys(SessionModel::begin(total, interval).run(events).durable).len()
            <= SessionModel::begin(total, interval).run(events).inserted,
{
    let start = SessionModel::begin(total, interval);
    lemma_run_keeps(start, events);
    lemma_word_keys_count(start.run(events).durable);
}

/// The number of checkpoints that the store reported.
pub open spec fn checkpoints(events: Seq<EventModel>) -> nat
    decreases events.len(),
{
    if events.len() == 0 {
        0
    } else {
        checkpoints(events.drop_last()) + if events.last() is Checkpointed {
            1nat
        } else {
            0nat
        }
    }
}

impl SessionModel {
    /// Where a load stands after `committed` checkpoints when nothing has
    /// failed: every checkpoint within the load holds one interval more
    /// than the one before, none is overdue, and the closing checkpoint
    /// holds everything.
    pub open spec fn on_schedule(self, committed: nat) -> bool {
        match self.phase {
            Phase::Failed => false,
            Phase::Done => {
                &&& committed >= 1
                &&& self.durable == self.total
                &&& if self.interval == 0 {
                    committed == 1
                } else {
                    (committed - 1) * self.interval <= self.total < committed * self.interval
                }
            },
            Phase::Committing => {
                &&& self.interval > 0
                &&& self.durable == committed * self.interval
                &&& self.inserted == (committed + 1) * self.interval
            },
            Phase::Inserting | Phase::Closing => if self.interval == 0 {
                committed == 0 && self.durable == 0
            } else {
                &&& self.durable == committed * self.interval
                &&& committed * self.interval <= self.inserted < (committed + 1) * self.interval
            },
        }
    }
}

/// A failed load stays failed.
pub proof fn lemma_failed_stays(state: SessionModel, event: EventModel)
    requires
        state.phase == Phase::Failed,
    ensures
        state.step(event).0.phase == Phase::Failed,
{
}

/// One granted request keeps a load on schedule.
pub proof fn lemma_step_on_schedule(state: SessionModel, committed: nat, event: EventModel)
    requires
        state.wf(),
        state.on_schedule(committed),
        state.step(event).0.phase != Phase::Failed,
    ensures
        state.step(event).0.on_schedule(
            committed + if event is Checkpointed {
                1nat
            } else {
                0nat
            },
        ),
{
    let next = state.step(event).0;
    let every = state.interval as int;
    let c = committed as int;
    assert((c + 1) * every == c * every + every) by (nonlinear_arith);
    assert((c + 2) * every == c * every + every + every) by (nonlinear_arith);
    if every > 0 {
        lemma_mod_multiples_basic(c, every);
        lemma_mod_multiples_basic(c + 1, every);
        if state.phase == Phase::Inserting {
            let count = state.inserted as int + 1;
            if count < (c + 1) * every {
                lemma_fundamental_div_mod_converse(count, every, c, count - c * every);
            }
        }
    }
}

/// A load in which nothing has failed is on schedule.
pub proof fn lemma_run_on_schedule(total: nat, interval: nat, events: Seq<EventModel>)
    requires
        total <= u64::MAX,
        interval <= u64::MAX,
        SessionModel::begin(total, interval).run(events).phase != Phase::Failed,
    ensures
        SessionModel::begin(total, interval).run(events).on_schedule(checkpoints(events)),
    decreases events.len(),
{
    let start = SessionModel::begin(total, interval);
    if events.len() == 0 {
        assert(0 * interval == 0) by (nonlinear_arith);
        assert((0 + 1) * interval == interval) by (nonlinear_arith);
    } else {
        let before = start.run(events.drop_last());
        if before.phase == Phase::Failed {
            lemma_failed_stays(before, events.last());
        }
        lemma_run_on_schedule(total, interval, events.drop_last());
        lemma_run_keeps(start, events.drop_last());
        lemma_step_on_schedule(before, checkpoints(events.drop_last()), events.last());
    }
}

/// A load that completes has committed one checkpoint for every full
/// interval of its items, and the closing one.
pub proof fn lemma_checkpoint_count(total: nat, interval: nat, events: Seq<EventModel>)
    requires
        total <= u64::MAX,
        interval <= u64::MAX,
        SessionModel::begin(total, interval).run(events).phase == Phase::Done,
    ensures
        checkpoints(events) == 1 + if interval > 0 {
            total as int / interval as int
        } else {
            0
        },
{
    lemma_run_on_schedule(total, interval, events);
    lemma_run_keeps(SessionModel::begin(total, interval), events);
    if interval > 0 {
        let full = checkpoints(events) as int - 1;
        assert((full + 1) * interval == full * interval + interval) by (nonlinear_arith);
        lemma_fundamental_div_mod_converse(
            total as int,
            interval as int,
            full,
            total - full * interval,
        );
    }
}

/// A load that stops right after an insertion, nothing having failed, has
/// durable what the full intervals before that insertion hold, and nothing
/// of what came after them.
pub proof fn lemma_crash_keeps_full_intervals(total: nat, interval: nat, events: Seq<EventModel>)
    requires
        total <= u64::MAX,
        interval <= u64::MAX,
        events.len() > 0,
        events.last() == EventModel::Inserted,
        SessionModel::begin(total, interval).run(events).phase != Phase::Failed,
    ensures
        SessionModel::begin(total, interval).run(events).inserted >= 1,
        SessionModel::begin(total, interval).run(events).durable == if interval > 0 {
            interval * ((SessionModel::begin(total, interval).run(events).inserted - 1)
                / interval as int)
        } else {
            0
        },
{
    let start = SessionModel::begin(total, interval);
    let before = start.run(events.drop_last());
    let after = start.run(events);
    let c = checkpoints(events) as int;
    let every = interval as int;
    if before.phase == Phase::Failed {
        lemma_failed_stays(before, events.last());
    }
    lemma_run_keeps(start, events.drop_last());
    lemma_run_keeps(start, events);
    lemma_run_on_schedule(total, interval, events);
    assert(before.phase == Phase::Inserting);
    assert((c + 1) * every == c * every + every) by (nonlinear_arith);
    assert(c * every == every * c) by (nonlinear_arith);
    if every > 0 {
        lemma_mod_multiples_basic(c, every);
        let last = after.inserted as int - 1;
        assert(c * every <= last < (c + 1) * every) by {
            if after.phase != Phase::Committing && last < c * every {
                assert(after.inserted == c * every);
                assert(after.inserted % interval == 0);
            }
        }
        lemma_fundamental_div_mod_converse(last, every, c, last - c * every);
    }
}

} // verus!
