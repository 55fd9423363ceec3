//! The ingestion worker of one id range, as a state machine: it decides what
//! to fetch and when to write; its driver performs the fetches and writes and
//! reports how each one went.

use vstd::prelude::*;

use crate::firebase_listener;
use crate::models::{kids_of, row_of, Item, Kid};
use crate::store::{lemma_disjoint_writes_isolated, upsert_rows};
use crate::sync_service::Error;

verus! {

/// Rows of a sequence of fetched items, in order.
pub open spec fn rows_of_all(fetched: Seq<firebase_listener::Item>) -> Seq<Item> {
    fetched.map_values(|item: firebase_listener::Item| row_of(item))
}

/// Edges of a sequence of fetched items, item after item.
pub open spec fn kids_of_all(fetched: Seq<firebase_listener::Item>) -> Seq<Kid>
    decreases fetched.len(),
{
    if fetched.len() == 0 {
        Seq::empty()
    } else {
        kids_of_all(fetched.drop_last()) + kids_of(fetched.last())
    }
}

/// Where a worker stands.
#[derive(Debug, Clone, Copy, PartialEq, Eq, Structural)]
pub enum WorkerPhase {
    /// Waiting for the item it asked for.
    Fetching,
    /// Waiting for the write of a batch of item rows.
    WritingItems,
    /// Waiting for the write of the matching batch of edges.
    WritingKids,
    /// Every id of the range has been fetched and written.
    Finished,
    /// Stopped on a failure; the rest of the range is not retried.
    Failed,
}

/// What the driver of a worker is to do next.
#[derive(Debug)]
pub enum WorkerAction {
    /// Fetch the item with this id and report it with `on_fetched`, or the
    /// failure with `on_fetch_failed`.
    Fetch(i64),
    /// Upsert these item rows and report with `on_items_written`.
    WriteItems(Vec<Item>),
    /// Upsert these edges and report with `on_kids_written`.
    WriteKids(Vec<Kid>),
    /// The range is complete.
    Finished,
    /// The worker stopped on this failure.
    Failed(Error),
}

/// Ingestion of the ids `start..=end`, fetched one at a time in increasing
/// order and written in batches of at most `flush_interval` items (a limit of
/// zero writes each item on its own).
pub struct IngestWorker {
    start: i64,
    end: i64,
    flush_interval: usize,
    current: i64,
    items: Vec<Item>,
    kids: Vec<Kid>,
    phase: WorkerPhase,
    fetched: Ghost<Seq<firebase_listener::Item>>,
    sent_items: Ghost<Seq<Item>>,
    sent_kids: Ghost<Seq<Kid>>,
}

impl IngestWorker {
    pub closed spec fn range_start(&self) -> i64 {
        self.start
    }

    pub closed spec fn range_end(&self) -> i64 {
        self.end
    }

    pub closed spec fn batch_limit(&self) -> usize {
        self.flush_interval
    }

    pub closed spec fn spec_phase(&self) -> WorkerPhase {
        self.phase
    }

    /// The items delivered so far, in order.
    pub closed spec fn fetched(&self) -> Seq<firebase_listener::Item> {
        self.fetched@
    }

    /// The item rows handed out for writing so far, in order.
    pub closed spec fn sent_items(&self) -> Seq<Item> {
        self.sent_items@
    }

    /// The edges handed out for writing so far, in order.
    pub closed spec fn sent_kids(&self) -> Seq<Kid> {
        self.sent_kids@
    }

    /// Item rows buffered and not yet handed out.
    pub closed spec fn buffered_items(&self) -> Seq<Item> {
        self.items@
    }

    /// Edges buffered and not yet handed out.
    pub closed spec fn buffered_kids(&self) -> Seq<Kid> {
        self.kids@
    }

    /// The id that the next fetch asks for.
    pub open spec fn next_id(&self) -> int {
        self.range_start() + self.fetched().len()
    }

    pub closed spec fn wf(&self) -> bool {
        &&& self.sent_items@ + self.items@ == rows_of_all(self.fetched@)
        &&& self.sent_kids@ + self.kids@ == kids_of_all(self.fetched@)
        &&& match self.phase {
            WorkerPhase::Fetching => {
                &&& self.start + self.fetched@.len() <= self.end
                &&& self.current == self.start + self.fetched@.len()
                &&& self.items@.len() == 0 || self.items@.len() < self.flush_interval
            },
            WorkerPhase::WritingItems => {
                &&& self.fetched@.len() >= 1
                &&& self.current == self.start + self.fetched@.len() - 1
                &&& self.current <= self.end
                &&& self.items@.len() == 0
            },
            WorkerPhase::WritingKids => {
                &&& self.fetched@.len() >= 1
                &&& self.current == self.start + self.fetched@.len() - 1
                &&& self.current <= self.end
                &&& self.items@.len() == 0
                &&& self.kids@.len() == 0
            },
            WorkerPhase::Finished => {
                &&& self.fetched@.len() == if self.start <= self.end {
                    self.end - self.start + 1
                } else {
                    0
                }
                &&& self.items@.len() == 0
                &&& self.kids@.len() == 0
            },
            WorkerPhase::Failed => true,
        }
    }

    /// A worker for the ids `start..=end`, with the action that starts it:
    /// a fetch of `start`, or `Finished` at once for an empty range.
    pub fn new(start: i64, end: i64, flush_interval: usize) -> (res: (IngestWorker, WorkerAction))
        ensures
            res.0.wf(),
            res.0.range_start() == start,
            res.0.range_end() == end,
            res.0.batch_limit() == flush_interval,
            res.0.fetched().len() == 0,
            res.0.sent_items().len() == 0,
            res.0.sent_kids().len() == 0,
            start <= end ==> res.0.spec_phase() == WorkerPhase::Fetching && res.1 == WorkerAction::Fetch(start),
            start > end ==> res.0.spec_phase() == WorkerPhase::Finished && res.1 == WorkerAction::Finished,
    {
        let phase = if start <= end {
            WorkerPhase::Fetching
        } else {
            WorkerPhase::Finished
        };
        let worker = IngestWorker {
            start,
            end,
            flush_interval,
            current: start,
            items: Vec::new(),
            kids: Vec::new(),
            phase,
            fetched: Ghost(Seq::empty()),
            sent_items: Ghost(Seq::empty()),
            sent_kids: Ghost(Seq::empty()),
        };
        proof {
            assert(rows_of_all(Seq::empty()) =~= Seq::<Item>::empty());
            assert(worker.sent_items@ + worker.items@ =~= Seq::<Item>::empty());
            assert(worker.sent_kids@ + worker.kids@ =~= Seq::<Kid>::empty());
        }
        if start <= end {
            (worker, WorkerAction::Fetch(start))
        } else {
            (worker, WorkerAction::Finished)
        }
    }

    /// Records the item fetched for `next_id()`. Its row and edges join the
    /// buffers; once the batch holds `flush_interval` rows or the range's
    /// last id has been fetched, the rows are handed out for writing,
    /// otherwise the next id is asked for.
    pub fn on_fetched(&mut self, item: firebase_listener::Item) -> (action: WorkerAction)
        requires
            old(self).wf(),
            old(self).spec_phase() == WorkerPhase::Fetching,
        ensures
            final(self).wf(),
            final(self).range_start() == old(self).range_start(),
            final(self).range_end() == old(self).range_end(),
            final(self).batch_limit() == old(self).batch_limit(),
            final(self).fetched() == old(self).fetched().push(item),
            final(self).sent_kids() == old(self).sent_kids(),
            ({
                let batch = old(self).buffered_items().push(row_of(item));
                let full = batch.len() >= old(self).batch_limit() || old(self).next_id()
                    == old(self).range_end();
                &&& full ==> {
                    &&& final(self).spec_phase() == WorkerPhase::WritingItems
                    &&& action matches WorkerAction::WriteItems(rows) && rows@ == batch
                    &&& final(self).sent_items() == old(self).sent_items() + batch
                    &&& final(self).buffered_items().len() == 0
                }
                &&& !full ==> {
                    &&& final(self).spec_phase() == WorkerPhase::Fetching
                    &&& action == WorkerAction::Fetch((old(self).next_id() + 1) as i64)
                    &&& final(self).sent_items() == old(self).sent_items()
                    &&& final(self).buffered_items() == batch
                }
            }),
            final(self).buffered_kids() == old(self).buffered_kids() + kids_of(item),
    {
        let ghost before = self.fetched@;
        let (row, mut edges) = Item::from_remote(item);
        self.items.push(row);
        self.kids.append(&mut edges);
        proof {
            let after = before.push(item);
            assert(after.drop_last() =~= before);
            assert(rows_of_all(after) =~= rows_of_all(before).push(row_of(item)));
            self.fetched = Ghost(after);
            assert(self.sent_items@ + self.items@ =~= rows_of_all(after));
            assert(self.sent_kids@ + self.kids@ =~= kids_of_all(after));
        }
        if self.items.len() >= self.flush_interval || self.current == self.end {
            let mut batch: Vec<Item> = Vec::new();
            std::mem::swap(&mut batch, &mut self.items);
            self.phase = WorkerPhase::WritingItems;
            proof {
                self.sent_items = Ghost(self.sent_items@ + batch@);
                assert(self.sent_items@ + self.items@ =~= rows_of_all(self.fetched@));
            }
            WorkerAction::WriteItems(batch)
        } else {
            self.current = self.current + 1;
            WorkerAction::Fetch(self.current)
        }
    }

    /// Records a failed fetch: the worker stops and hands the failure on. Ids
    /// not yet written are left to a later run.
    pub fn on_fetch_failed(&mut self, err: Error) -> (action: WorkerAction)
        requires
            old(self).wf(),
            old(self).spec_phase() == WorkerPhase::Fetching,
        ensures
            final(self).wf(),
            final(self).spec_phase() == WorkerPhase::Failed,
            action == WorkerAction::Failed(err),
            final(self).fetched() == old(self).fetched(),
            final(self).sent_items() == old(self).sent_items(),
            final(self).sent_kids() == old(self).sent_kids(),
    {
        self.phase = WorkerPhase::Failed;
        WorkerAction::Failed(err)
    }

    /// Records that the item rows handed out were written; the matching
    /// edges are handed out next.
    pub fn on_items_written(&mut self) -> (action: WorkerAction)
        requires
            old(self).wf(),
            old(self).spec_phase() == WorkerPhase::WritingItems,
        ensures
            final(self).wf(),
            final(self).spec_phase() == WorkerPhase::WritingKids,
            action matches WorkerAction::WriteKids(edges) && edges@ == old(self).buffered_kids(),
            final(self).range_start() == old(self).range_start(),
            final(self).range_end() == old(self).range_end(),
            final(self).batch_limit() == old(self).batch_limit(),
            final(self).fetched() == old(self).fetched(),
            final(self).sent_items() == old(self).sent_items(),
            final(self).sent_kids() == old(self).sent_kids() + old(self).buffered_kids(),
            final(self).buffered_items() == old(self).buffered_items(),
            final(self).buffered_kids().len() == 0,
    {
        let mut batch: Vec<Kid> = Vec::new();
        std::mem::swap(&mut batch, &mut self.kids);
        self.phase = WorkerPhase::WritingKids;
        proof {
            self.sent_kids = Ghost(self.sent_kids@ + batch@);
            assert(self.sent_kids@ + self.kids@ =~= kids_of_all(self.fetched@));
        }
        WorkerAction::WriteKids(batch)
    }

    /// Records that the edges handed out were written: the worker finishes
    /// if the range's last id was in the batch, and otherwise asks for the
    /// next id.
    pub fn on_kids_written(&mut self) -> (action: WorkerAction)
        requires
            old(self).wf(),
            old(self).spec_phase() == WorkerPhase::WritingKids,
        ensures
            final(self).wf(),
            final(self).range_start() == old(self).range_start(),
            final(self).range_end() == old(self).range_end(),
            final(self).batch_limit() == old(self).batch_limit(),
            final(self).fetched() == old(self).fetched(),
            final(self).sent_items() == old(self).sent_items(),
            final(self).sent_kids() == old(self).sent_kids(),
            final(self).buffered_items() == old(self).buffered_items(),
            final(self).buffered_kids() == old(self).buffered_kids(),
            old(self).next_id() > old(self).range_end() ==> final(self).spec_phase()
                == WorkerPhase::Finished && action == WorkerAction::Finished,
            old(self).next_id() <= old(self).range_end() ==> final(self).spec_phase()
                == WorkerPhase::Fetching && action == WorkerAction::Fetch(
                old(self).next_id() as i64,
            ),
    {
        if self.current == self.end {
            self.phase = WorkerPhase::Finished;
            WorkerAction::Finished
        } else {
            self.current = self.current + 1;
            self.phase = WorkerPhase::Fetching;
            WorkerAction::Fetch(self.current)
        }
    }

    /// Records a failed write: the worker stops and hands the failure on.
    pub fn on_write_failed(&mut self, err: Error) -> (action: WorkerAction)
        requires
            old(self).wf(),
            old(self).spec_phase() == WorkerPhase::WritingItems || old(self).spec_phase()
                == WorkerPhase::WritingKids,
        ensures
            final(self).wf(),
            final(self).spec_phase() == WorkerPhase::Failed,
            action == WorkerAction::Failed(err),
            final(self).fetched() == old(self).fetched(),
            final(self).sent_items() == old(self).sent_items(),
            final(self).sent_kids() == old(self).sent_kids(),
    {
        self.phase = WorkerPhase::Failed;
        WorkerAction::Failed(err)
    }

    /// The phase the worker is in.
    #[verifier::when_used_as_spec(spec_phase)]
    pub fn phase(&self) -> (p: WorkerPhase)
        ensures
            p == self.spec_phase(),
    {
        self.phase
    }
}

/// A worker loses nothing and reorders nothing: the rows it has handed out
/// for writing, followed by the rows it still buffers, are the rows of the
/// items it fetched, in fetch order, and likewise for the edges. While it
/// fetches, it buffers fewer rows than its batch limit. A finished
/// worker buffers nothing and has fetched one item per id of its range.
pub proof fn lemma_worker_accounts_for_fetched(worker: &IngestWorker)
    requires
        worker.wf(),
    ensures
        worker.sent_items() + worker.buffered_items() == rows_of_all(worker.fetched()),
        worker.sent_kids() + worker.buffered_kids() == kids_of_all(worker.fetched()),
        worker.spec_phase() == WorkerPhase::Fetching ==> worker.next_id() <= worker.range_end(),
        worker.spec_phase() == WorkerPhase::Fetching ==> worker.buffered_items().len()
            < worker.batch_limit() || worker.buffered_items().len() == 0,
        worker.spec_phase() == WorkerPhase::Finished ==> {
            &&& worker.sent_items() == rows_of_all(worker.fetched())
            &&& worker.sent_kids() == kids_of_all(worker.fetched())
            &&& worker.fetched().len() == if worker.range_start() <= worker.range_end() {
                worker.range_end() - worker.range_start() + 1
            } else {
                0
            }
        },
{
    if worker.spec_phase() == WorkerPhase::Finished {
        assert(worker.sent_items() + worker.buffered_items() =~= worker.sent_items());
        assert(worker.sent_kids() + worker.buffered_kids() =~= worker.sent_kids());
    }
}

/// Partial failure isolation: once a worker has finished and its item
/// batches have been written, every item it fetched is in the store with the
/// row written for it, whatever rows other workers (of disjoint ranges,
/// finished or failed part way) wrote before or after.
pub proof fn lemma_finished_range_survives_others(
    worker: &IngestWorker,
    items: Map<i64, Item>,
    others: Seq<Item>,
)
    requires
        worker.wf(),
        worker.spec_phase() == WorkerPhase::Finished,
        forall|i: int, j: int|
            0 <= i < worker.fetched().len() && 0 <= j < others.len() ==> #[trigger] worker.fetched()[i].id
                != #[trigger] others[j].id,
    ensures
        forall|k: int|
            0 <= k < worker.fetched().len() ==> {
                let id = #[trigger] worker.fetched()[k].id;
                let written = upsert_rows(Map::empty(), worker.sent_items());
                &&& upsert_rows(upsert_rows(items, worker.sent_items()), others).contains_key(id)
                &&& upsert_rows(upsert_rows(items, worker.sent_items()), others)[id] == written[id]
                &&& upsert_rows(upsert_rows(items, others), worker.sent_items()).contains_key(id)
                &&& upsert_rows(upsert_rows(items, others), worker.sent_items())[id] == written[id]
            },
{
    lemma_worker_accounts_for_fetched(worker);
    let mine = worker.sent_items();
    assert(mine == rows_of_all(worker.fetched()));
    assert forall|i: int, j: int|
        0 <= i < mine.len() && 0 <= j < others.len() implies #[trigger] mine[i].id
            != #[trigger] others[j].id by {
        assert(mine[i].id == worker.fetched()[i].id);
    }
    lemma_disjoint_writes_isolated(items, mine, others);
    assert forall|k: int| 0 <= k < worker.fetched().len() implies mine[k].id == #[trigger] worker.fetched()[k].id by {}
}

} // verus!
