use vstd::prelude::*;
use crate::entities::{GenesisBounds, ImportError, TableKind};
use crate::handlers::{Group, Handler};
use crate::table::reversed;
use crate::transaction::{Database, StorageTransaction, Tables};

verus! {

/// The number of table kinds, and so of workers in a run.
pub const WORKER_COUNT: usize = 7;

pub open spec fn kind_index(k: TableKind) -> int {
    match k {
        TableKind::Coins => 0,
        TableKind::Messages => 1,
        TableKind::ContractsRawCode => 2,
        TableKind::ContractsLatestUtxo => 3,
        TableKind::ContractsState => 4,
        TableKind::ContractsAssets => 5,
        TableKind::Transactions => 6,
    }
}

/// The position of a kind's worker.
pub fn worker_index(k: TableKind) -> (r: usize)
    ensures
        r == kind_index(k),
        r < WORKER_COUNT,
{
    match k {
        TableKind::Coins => 0,
        TableKind::Messages => 1,
        TableKind::ContractsRawCode => 2,
        TableKind::ContractsLatestUtxo => 3,
        TableKind::ContractsState => 4,
        TableKind::ContractsAssets => 5,
        TableKind::Transactions => 6,
    }
}

/// The kind whose worker stands at position `i`.
pub fn kind_at(i: usize) -> (r: TableKind)
    requires
        i < WORKER_COUNT,
    ensures
        kind_index(r) == i,
{
    if i == 0 {
        TableKind::Coins
    } else if i == 1 {
        TableKind::Messages
    } else if i == 2 {
        TableKind::ContractsRawCode
    } else if i == 3 {
        TableKind::ContractsLatestUtxo
    } else if i == 4 {
        TableKind::ContractsState
    } else if i == 5 {
        TableKind::ContractsAssets
    } else {
        TableKind::Transactions
    }
}

/// Where an import run stands.
#[derive(Clone, Copy, Debug, PartialEq, Eq, Structural)]
pub enum RunState {
    NotStarted,
    Running,
    Succeeded,
    Failed,
    Cancelled,
}

/// The decisions of an import run: one worker per table kind feeds it groups, and it stages
/// them in one transaction, stops every worker once one fails or shutdown is asked for, and
/// commits only when every worker has finished without error.
pub struct GenesisWorkers {
    state: RunState,
    cancel: bool,
    active: Vec<bool>,
    first_error: Option<ImportError>,
    tx: StorageTransaction,
    bounds: GenesisBounds,
}

impl GenesisWorkers {
    pub closed spec fn state(&self) -> RunState {
        self.state
    }

    /// Whether shutdown has been asked for.
    pub closed spec fn cancelled(&self) -> bool {
        self.cancel
    }

    /// Whether the worker of `k` has yet to exit.
    pub closed spec fn is_active(&self, k: TableKind) -> bool {
        self.active@[kind_index(k)]
    }

    pub closed spec fn first_error(&self) -> Option<ImportError> {
        self.first_error
    }

    /// What the store holds as seen from within the run.
    pub closed spec fn staged(&self) -> Tables {
        self.tx@
    }

    /// What the store held before the run.
    pub closed spec fn base(&self) -> Tables {
        self.tx.base()
    }

    pub closed spec fn bounds(&self) -> GenesisBounds {
        self.bounds
    }

    pub open spec fn no_worker_active(&self) -> bool {
        forall|k: TableKind| !#[trigger] self.is_active(k)
    }

    pub open spec fn every_worker_active(&self) -> bool {
        forall|k: TableKind| #[trigger] self.is_active(k)
    }

    pub closed spec fn wf(&self) -> bool {
        &&& self.tx.wf()
        &&& self.active@.len() == WORKER_COUNT
        &&& self.state != RunState::Running ==> forall|i: int|
            0 <= i < WORKER_COUNT ==> !#[trigger] self.active@[i]
        &&& self.first_error is Some ==> self.cancel
        &&& self.state == RunState::Succeeded ==> self.first_error is None
        &&& self.state == RunState::Failed ==> self.first_error is Some
        &&& self.state == RunState::Cancelled ==> self.first_error is None && self.cancel
    }

    pub open spec fn finished_spec(&self) -> bool {
        self.state() != RunState::NotStarted && self.state() != RunState::Running
    }

    /// A run over `db` that has not started.
    pub fn new(db: Database, bounds: GenesisBounds) -> (r: GenesisWorkers)
        requires
            db.wf(),
        ensures
            r.wf(),
            r.state() == RunState::NotStarted,
            !r.cancelled(),
            r.first_error() is None,
            r.staged() == db@,
            r.base() == db@,
            r.bounds() == bounds,
            r.no_worker_active(),
    {
        let mut active: Vec<bool> = Vec::new();
        let mut i: usize = 0;
        while i < WORKER_COUNT
            invariant
                i <= WORKER_COUNT,
                active@.len() == i,
                forall|j: int| 0 <= j < i ==> !#[trigger] active@[j],
            decreases WORKER_COUNT - i,
        {
            active.push(false);
            i += 1;
        }
        GenesisWorkers {
            state: RunState::NotStarted,
            cancel: false,
            active,
            first_error: None,
            tx: db.transaction(),
            bounds,
        }
    }

    /// Starts the run: every worker is active.
    pub fn start(&mut self)
        requires
            old(self).wf(),
            old(self).state() == RunState::NotStarted,
        ensures
            final(self).wf(),
            final(self).state() == RunState::Running,
            final(self).every_worker_active(),
            final(self).cancelled() == old(self).cancelled(),
            final(self).first_error() == old(self).first_error(),
            final(self).staged() == old(self).staged(),
            final(self).base() == old(self).base(),
            final(self).bounds() == old(self).bounds(),
    {
        let mut active: Vec<bool> = Vec::new();
        let mut i: usize = 0;
        while i < WORKER_COUNT
            invariant
                i <= WORKER_COUNT,
                active@.len() == i,
                forall|j: int| 0 <= j < i ==> #[trigger] active@[j],
            decreases WORKER_COUNT - i,
        {
            active.push(true);
            i += 1;
        }
        self.active = active;
        self.state = RunState::Running;
        assert forall|k: TableKind| #[trigger] self.is_active(k) by {
            assert(self.active@[kind_index(k)]);
        }
    }

    /// Asks every worker to stop at its next group; safe at any time, and waits for nothing.
    pub fn shutdown(&mut self)
        requires
            old(self).wf(),
        ensures
            final(self).wf(),
            final(self).cancelled(),
            final(self).state() == old(self).state(),
            final(self).first_error() == old(self).first_error(),
            forall|k: TableKind| #[trigger] final(self).is_active(k) == old(self).is_active(k),
            final(self).staged() == old(self).staged(),
            final(self).base() == old(self).base(),
            final(self).bounds() == old(self).bounds(),
    {
        self.cancel = true;
    }

    /// Whether the worker of `kind` may take its next group.
    pub fn should_continue(&self, kind: TableKind) -> (r: bool)
        requires
            self.wf(),
        ensures
            r == (self.state() == RunState::Running && !self.cancelled() && self.is_active(kind)),
    {
        self.state == RunState::Running && !self.cancel && self.active[worker_index(kind)]
    }

    /// Hands the next group of a worker to the handler of its kind, unless the worker is to
    /// stop. Tells whether the worker may go on.  A group that fails ends the run for every
    /// worker: its error is kept and shutdown is asked for.
    pub fn apply_group(&mut self, group: Group) -> (r: bool)
        requires
            old(self).wf(),
        ensures
            final(self).wf(),
            final(self).state() == old(self).state(),
            forall|k: TableKind| #[trigger] final(self).is_active(k) == old(self).is_active(k),
            final(self).base() == old(self).base(),
            final(self).bounds() == old(self).bounds(),
            !(old(self).state() == RunState::Running && !old(self).cancelled() && old(self).is_active(group.kind_of())) ==> !r && final(self).cancelled() == old(self).cancelled()
                && final(self).first_error() == old(self).first_error() && final(self).staged()
                == old(self).staged(),
            old(self).state() == RunState::Running && !old(self).cancelled() && old(self).is_active(group.kind_of()) ==> match Handler::for_kind(
                group.kind_of(),
                old(self).bounds(),
            ).applied(old(self).staged(), group) {
                Ok(t) => r && !final(self).cancelled() && final(self).first_error() is None
                    && final(self).staged() == t,
                Err(e) => !r && final(self).cancelled() && final(self).first_error() == Some(e),
            },
    {
        let kind = group.kind();
        if !self.should_continue(kind) {
            return false;
        }
        let handler = Handler::new(kind, self.bounds);
        match handler.process(group, &mut self.tx) {
            Ok(()) => true,
            Err(e) => {
                self.first_error = Some(e);
                self.cancel = true;
                false
            },
        }
    }

    /// Records that the snapshot could not be read for `kind`: while the run is going and no
    /// error is kept yet, this becomes its error. The run is then shut down.
    pub fn source_failed(&mut self, kind: TableKind)
        requires
            old(self).wf(),
        ensures
            final(self).wf(),
            final(self).cancelled(),
            final(self).state() == old(self).state(),
            final(self).first_error() == (if old(self).state() == RunState::Running && old(self).first_error() is None {
                Some(ImportError::Source { table: kind })
            } else {
                old(self).first_error()
            }),
            forall|k: TableKind| #[trigger] final(self).is_active(k) == old(self).is_active(k),
            final(self).staged() == old(self).staged(),
            final(self).base() == old(self).base(),
            final(self).bounds() == old(self).bounds(),
    {
        if self.first_error.is_none() && self.state == RunState::Running {
            self.first_error = Some(ImportError::Source { table: kind });
        }
        self.cancel = true;
    }

    /// Where a run ends once its last worker has exited.
    pub open spec fn settled(first_error: Option<ImportError>, cancelled: bool) -> RunState {
        if first_error is Some {
            RunState::Failed
        } else if cancelled {
            RunState::Cancelled
        } else {
            RunState::Succeeded
        }
    }

    /// Records that the worker of `kind` has exited. When it was the last, the run ends: failed
    /// if an error is kept, cancelled if shutdown was asked for, else succeeded.
    pub fn worker_exited(&mut self, kind: TableKind)
        requires
            old(self).wf(),
        ensures
            final(self).wf(),
            forall|k: TableKind|
                #[trigger] final(self).is_active(k) == (old(self).is_active(k) && k != kind),
            old(self).state() == RunState::Running && final(self).no_worker_active() ==> final(self).state() == GenesisWorkers::settled(old(self).first_error(), old(self).cancelled()),
            !(old(self).state() == RunState::Running && final(self).no_worker_active())
                ==> final(self).state() == old(self).state(),
            final(self).cancelled() == old(self).cancelled(),
            final(self).first_error() == old(self).first_error(),
            final(self).staged() == old(self).staged(),
            final(self).base() == old(self).base(),
            final(self).bounds() == old(self).bounds(),
    {
        if self.state != RunState::Running {
            return;
        }
        let idx = worker_index(kind);
        self.active.set(idx, false);
        let none_left = !self.active[0] && !self.active[1] && !self.active[2] && !self.active[3]
            && !self.active[4] && !self.active[5] && !self.active[6];
        proof {
            assert forall|k: TableKind|
                #[trigger] self.is_active(k) == (old(self).is_active(k) && k != kind) by {
                if k != kind {
                    assert(kind_index(k) != kind_index(kind));
                }
            }
            if none_left {
                assert forall|k: TableKind| !#[trigger] self.is_active(k) by {
                    assert(0 <= kind_index(k) < 7);
                }
            } else {
                assert(!self.no_worker_active()) by {
                    if self.active@[0] {
                        assert(self.is_active(TableKind::Coins));
                    } else if self.active@[1] {
                        assert(self.is_active(TableKind::Messages));
                    } else if self.active@[2] {
                        assert(self.is_active(TableKind::ContractsRawCode));
                    } else if self.active@[3] {
                        assert(self.is_active(TableKind::ContractsLatestUtxo));
                    } else if self.active@[4] {
                        assert(self.is_active(TableKind::ContractsState));
                    } else if self.active@[5] {
                        assert(self.is_active(TableKind::ContractsAssets));
                    } else {
                        assert(self.is_active(TableKind::Transactions));
                    }
                }
            }
        }
        if none_left {
            self.state = if self.first_error.is_some() {
                RunState::Failed
            } else if self.cancel {
                RunState::Cancelled
            } else {
                RunState::Succeeded
            };
        }
    }

    /// Whether the run has ended: every worker has exited and the outcome is settled.
    pub fn finished(&self) -> (r: bool)
        requires
            self.wf(),
        ensures
            r == self.finished_spec(),
            r ==> self.no_worker_active(),
    {
        let r = self.state != RunState::NotStarted && self.state != RunState::Running;
        proof {
            if r {
                assert forall|k: TableKind| !#[trigger] self.is_active(k) by {
                    assert(0 <= kind_index(k) < 7);
                }
            }
        }
        r
    }

    /// Ends a finished run: commits the transaction if the run succeeded, else discards it and
    /// reports why. The store returned holds either every write of the run or none.
    pub fn finish(self) -> (r: (Database, Result<(), ImportError>))
        requires
            self.wf(),
            self.finished_spec(),
        ensures
            r.0.wf(),
            self.state() == RunState::Succeeded ==> r.1 is Ok && r.0@ == self.staged(),
            self.state() == RunState::Failed ==> r.1 == Err::<(), ImportError>(
                self.first_error()->Some_0,
            ) && r.0@ == self.base(),
            self.state() == RunState::Cancelled ==> r.1 == Err::<(), ImportError>(
                ImportError::Cancelled,
            ) && r.0@ == self.base(),
            r.1 is Ok <==> self.state() == RunState::Succeeded,
    {
        match self.state {
            RunState::Succeeded => (self.tx.commit(), Ok(())),
            _ => {
                let err = match self.first_error {
                    Some(e) => e,
                    None => ImportError::Cancelled,
                };
                (self.tx.discard(), Err(err))
            },
        }
    }
}

/// What a run that applies `gs` in order makes of a store holding `t`: the store with every
/// group staged, or the error of the first group that fails.
pub open spec fn run_outcome(bounds: GenesisBounds, t: Tables, gs: Seq<Group>) -> Result<
    Tables,
    ImportError,
>
    decreases gs.len(),
{
    if gs.len() == 0 {
        Ok(t)
    } else {
        match run_outcome(bounds, t, gs.drop_last()) {
            Ok(t2) => Handler::for_kind(gs.last().kind_of(), bounds).applied(t2, gs.last()),
            Err(e) => Err(e),
        }
    }
}

/// Imports the groups of a snapshot into `db`, in the order given, through one run of the
/// workers: the store returned holds every entry, or, on error, is `db` unchanged.
pub fn import_state(db: Database, bounds: GenesisBounds, groups: Vec<Group>) -> (r: (
    Database,
    Result<(), ImportError>,
))
    requires
        db.wf(),
    ensures
        r.0.wf(),
        match run_outcome(bounds, db@, groups@) {
            Ok(t) => r.1 is Ok && r.0@ == t,
            Err(e) => r.1 == Err::<(), ImportError>(e) && r.0@ == db@,
        },
{
    let ghost gs = groups@;
    let ghost t0 = db@;
    let mut workers = GenesisWorkers::new(db, bounds);
    workers.start();
    let n = groups.len();
    let mut rest = reversed(groups);
    let mut k: usize = 0;
    assert(gs.take(0) =~= Seq::<Group>::empty());
    while k < n
        invariant
            n == gs.len(),
            k <= n,
            rest@.len() == n - k,
            forall|i: int| 0 <= i < n - k ==> rest@[i] == gs[n - 1 - i],
            workers.wf(),
            workers.state() == RunState::Running,
            workers.every_worker_active(),
            workers.base() == t0,
            workers.bounds() == bounds,
            match run_outcome(bounds, t0, gs.take(k as int)) {
                Ok(t) => !workers.cancelled() && workers.first_error() is None && workers.staged()
                    == t,
                Err(e) => workers.cancelled() && workers.first_error() == Some(e),
            },
        decreases n - k,
    {
        let group = rest.pop().unwrap();
        assert(gs.take(k + 1).drop_last() =~= gs.take(k as int));
        assert(gs.take(k + 1).last() == group);
        workers.apply_group(group);
        k += 1;
    }
    assert(gs.take(n as int) =~= gs);
    let ghost fe = workers.first_error();
    let ghost cancelled = workers.cancelled();
    let ghost st = workers.staged();
    let mut i: usize = 0;
    while i < WORKER_COUNT
        invariant
            i <= WORKER_COUNT,
            workers.wf(),
            forall|k: TableKind| #[trigger] workers.is_active(k) == (kind_index(k) >= i),
            i < WORKER_COUNT ==> workers.state() == RunState::Running,
            i == WORKER_COUNT ==> workers.state() == GenesisWorkers::settled(fe, cancelled),
            workers.first_error() == fe,
            workers.cancelled() == cancelled,
            workers.base() == t0,
            workers.staged() == st,
        decreases WORKER_COUNT - i,
    {
        let kind = kind_at(i);
        workers.worker_exited(kind);
        proof {
            if i + 1 < WORKER_COUNT {
                assert(workers.is_active(TableKind::Transactions));
            } else {
                assert forall|k: TableKind| !#[trigger] workers.is_active(k) by {}
            }
        }
        i += 1;
    }
    workers.finish()
}

} // verus!
