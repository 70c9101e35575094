use vstd::prelude::*;

verus! {

/// A file that the run created and still answers for.
pub struct TrackedFile {
    pub path: String,
    pub size: u64,
}

/// What the run has done so far.
#[derive(Clone, Copy, Debug, PartialEq, Eq, Structural)]
pub struct RunCounters {
    pub files_created: u64,
    pub total_bytes: u64,
}

/// Where the run stands.
#[derive(Clone, Copy, Debug, PartialEq, Eq, Structural)]
pub enum Phase {
    /// Creating files until the policy refuses.
    Filling,
    /// Waiting for every file held to be verified.
    Draining,
    /// Waiting for the pruned files to be deleted.
    Pruning,
    /// Stopped on request.
    Stopped,
    /// Stopped on a fatal error.
    Aborted,
}

/// What the outside world reports back after an action.
pub enum Event {
    /// A file was created at this path with this size.
    Created(String, u64),
    /// The policy found no room for another file.
    NoRoom,
    /// Creating a file failed for another reason.
    CreateFailed,
    /// Every file held verified.
    AllVerified,
    /// A file held failed verification.
    VerifyFailed,
    /// The pruned files were deleted.
    Deleted,
}

/// What the outside world is to do next.
pub enum Action {
    /// Create one more file.
    Create,
    /// Verify every file held, in creation order.
    VerifyAll,
    /// Delete these files, in this order.
    DeleteAll(Vec<TrackedFile>),
    /// Stop cleanly.
    Stop,
    /// Stop on a fatal error.
    Abort,
}

/// The number of even indices below `n`.
pub open spec fn evens(n: int) -> int {
    (n + 1) / 2
}

/// The files kept by a prune: those at odd indices, in order.
pub open spec fn kept_files(s: Seq<TrackedFile>) -> Seq<TrackedFile> {
    Seq::new((s.len() / 2) as nat, |j: int| s[2 * j + 1])
}

/// The files removed by a prune: those at even indices, highest index first.
pub open spec fn pruned_files(s: Seq<TrackedFile>) -> Seq<TrackedFile> {
    Seq::new(evens(s.len() as int) as nat, |j: int| s[2 * (evens(s.len() as int) - 1 - j)])
}

/// Prunes the files held: the files at odd indices stay, in order; those
/// at even indices are taken out, scanned from the highest index down, and
/// returned in that order.
pub fn split_for_prune(files: &mut Vec<TrackedFile>) -> (pruned: Vec<TrackedFile>)
    ensures
        final(files)@ == kept_files(old(files)@),
        pruned@ == pruned_files(old(files)@),
{
    let ghost s = files@;
    let ghost n = s.len() as int;
    let mut pruned: Vec<TrackedFile> = Vec::new();
    let mut kept_rev: Vec<TrackedFile> = Vec::new();
    while files.len() > 0
        invariant
            files@ == s.subrange(0, files@.len() as int),
            n == s.len(),
            pruned@.len() == evens(n) - evens(files@.len() as int),
            kept_rev@.len() == n / 2 - files@.len() / 2,
            forall|j: int| 0 <= j < pruned@.len() ==> #[trigger] pruned@[j] == s[2 * (evens(n) - 1 - j)],
            forall|j: int| 0 <= j < kept_rev@.len() ==> #[trigger] kept_rev@[j] == s[2 * (n / 2 - 1 - j) + 1],
        decreases files@.len(),
    {
        let i = files.len() - 1;
        let f = files.pop().unwrap();
        assert(f == s[i as int]);
        if i % 2 == 0 {
            pruned.push(f);
        } else {
            kept_rev.push(f);
        }
    }
    let ghost m = kept_rev@.len() as int;
    while kept_rev.len() > 0
        invariant
            m == n / 2,
            kept_rev@.len() + files@.len() == m,
            forall|j: int| 0 <= j < kept_rev@.len() ==> #[trigger] kept_rev@[j] == s[2 * (m - 1 - j) + 1],
            forall|j: int| 0 <= j < files@.len() ==> #[trigger] files@[j] == s[2 * j + 1],
        decreases kept_rev@.len(),
    {
        let f = kept_rev.pop().unwrap();
        files.push(f);
    }
    assert(files@ =~= kept_files(s));
    assert(pruned@ =~= pruned_files(s));
    pruned
}

/// The decisions of a run: fill until there is no room, verify everything,
/// prune, and start over, until asked to stop or a check fails.
pub struct Orchestrator {
    phase: Phase,
    files: Vec<TrackedFile>,
    counters: RunCounters,
}

/// Whether an event is one that the phase waits for.
pub open spec fn expects(phase: Phase, event: Event) -> bool {
    match phase {
        Phase::Filling => event is Created || event is NoRoom || event is CreateFailed,
        Phase::Draining => event is AllVerified || event is VerifyFailed,
        Phase::Pruning => event is Deleted,
        _ => false,
    }
}

impl Orchestrator {
    pub closed spec fn spec_phase(&self) -> Phase {
        self.phase
    }

    pub closed spec fn spec_files(&self) -> Seq<TrackedFile> {
        self.files@
    }

    pub closed spec fn spec_counters(&self) -> RunCounters {
        self.counters
    }

    /// A run that has created nothing yet; its first action is to create a file.
    pub fn new() -> (r: Orchestrator)
        ensures
            r.spec_phase() == Phase::Filling,
            r.spec_files() == Seq::<TrackedFile>::empty(),
            r.spec_counters() == (RunCounters { files_created: 0, total_bytes: 0 }),
    {
        Orchestrator {
            phase: Phase::Filling,
            files: Vec::new(),
            counters: RunCounters { files_created: 0, total_bytes: 0 },
        }
    }

    pub fn phase(&self) -> (r: Phase)
        ensures
            r == self.spec_phase(),
    {
        self.phase
    }

    /// The files held, in creation order.
    pub fn files(&self) -> (r: &Vec<TrackedFile>)
        ensures
            r@ == self.spec_files(),
    {
        &self.files
    }

    pub fn counters(&self) -> (r: RunCounters)
        ensures
            r == self.spec_counters(),
    {
        self.counters
    }

    /// Whether `event` is one that the current phase waits for.
    pub fn expects(&self, event: &Event) -> (r: bool)
        ensures
            r == expects(self.spec_phase(), *event),
    {
        match self.phase {
            Phase::Filling => match event {
                Event::Created(_, _) | Event::NoRoom | Event::CreateFailed => true,
                _ => false,
            },
            Phase::Draining => match event {
                Event::AllVerified | Event::VerifyFailed => true,
                _ => false,
            },
            Phase::Pruning => match event {
                Event::Deleted => true,
                _ => false,
            },
            _ => false,
        }
    }

    /// Takes in what came of the last action and decides the next one.
    /// `cancelled` is the stop request as read after that action; it ends
    /// the run only once a create or a prune has completed.
    pub fn step(&mut self, event: Event, cancelled: bool) -> (action: Action)
        requires
            expects(old(self).spec_phase(), event),
        ensures
            match event {
                Event::Created(path, size) => {
                    &&& final(self).spec_files() == old(self).spec_files().push(
                        TrackedFile { path, size },
                    )
                    &&& final(self).spec_counters().files_created == (if old(
                        self,
                    ).spec_counters().files_created == u64::MAX {
                        u64::MAX as int
                    } else {
                        old(self).spec_counters().files_created + 1
                    })
                    &&& final(self).spec_counters().total_bytes == (if old(
                        self,
                    ).spec_counters().total_bytes + size > u64::MAX {
                        u64::MAX as int
                    } else {
                        old(self).spec_counters().total_bytes + size
                    })
                    &&& if cancelled {
                        final(self).spec_phase() == Phase::Stopped && action is Stop
                    } else {
                        final(self).spec_phase() == Phase::Filling && action is Create
                    }
                },
                Event::NoRoom => {
                    &&& final(self).spec_files() == old(self).spec_files()
                    &&& final(self).spec_counters() == old(self).spec_counters()
                    &&& final(self).spec_phase() == Phase::Draining
                    &&& action is VerifyAll
                },
                Event::AllVerified => {
                    &&& final(self).spec_files() == kept_files(old(self).spec_files())
                    &&& final(self).spec_counters() == old(self).spec_counters()
                    &&& final(self).spec_phase() == Phase::Pruning
                    &&& action matches Action::DeleteAll(v) && v@ == pruned_files(
                        old(self).spec_files(),
                    )
                },
                Event::Deleted => {
                    &&& final(self).spec_files() == old(self).spec_files()
                    &&& final(self).spec_counters() == old(self).spec_counters()
                    &&& if cancelled {
                        final(self).spec_phase() == Phase::Stopped && action is Stop
                    } else {
                        final(self).spec_phase() == Phase::Filling && action is Create
                    }
                },
                _ => {
                    &&& final(self).spec_files() == old(self).spec_files()
                    &&& final(self).spec_counters() == old(self).spec_counters()
                    &&& final(self).spec_phase() == Phase::Aborted
                    &&& action is Abort
                },
            },
    {
        match event {
            Event::Created(path, size) => {
                self.files.push(TrackedFile { path, size });
                self.counters = RunCounters {
                    files_created: self.counters.files_created.saturating_add(1),
                    total_bytes: self.counters.total_bytes.saturating_add(size),
                };
                self.after_unit(cancelled)
            },
            Event::NoRoom => {
                self.phase = Phase::Draining;
                Action::VerifyAll
            },
            Event::AllVerified => {
                let pruned = split_for_prune(&mut self.files);
                self.phase = Phase::Pruning;
                Action::DeleteAll(pruned)
            },
            Event::Deleted => self.after_unit(cancelled),
            _ => {
                self.phase = Phase::Aborted;
                Action::Abort
            },
        }
    }

    /// The end of a unit of work: stop if asked to, else create the next file.
    fn after_unit(&mut self, cancelled: bool) -> (action: Action)
        ensures
            final(self).spec_files() == old(self).spec_files(),
            final(self).spec_counters() == old(self).spec_counters(),
            if cancelled {
                final(self).spec_phase() == Phase::Stopped && action is Stop
            } else {
                final(self).spec_phase() == Phase::Filling && action is Create
            },
    {
        if cancelled {
            self.phase = Phase::Stopped;
            Action::Stop
        } else {
            self.phase = Phase::Filling;
            Action::Create
        }
    }
}

} // verus!
