//! Queries in flight.

use vstd::prelude::*;
use crate::cache::Dep;
use crate::pass::{QueryKey, READ_LIMIT};

verus! {

/// How far a query in flight has come.
#[derive(Clone, Copy, Debug, PartialEq, Eq, Structural)]
pub enum Phase {
    /// Nothing was done yet.
    Start,
    /// The memoized value is being revalidated, one recorded read at a time.
    Validate,
    /// The pass is being run, one read at a time.
    Run,
}

/// A query in flight: the key asked for, the revision of the snapshot that
/// asked, and what was done for it so far. It goes on by one step at a time,
/// and each step begins at a checkpoint.
#[derive(Debug)]
pub struct Task {
    pub(crate) key: QueryKey,
    pub(crate) captured: u64,
    pub(crate) phase: Phase,
    /// While the pass is run: the values read so far.
    pub(crate) vals: Vec<String>,
    /// While revalidating: the recorded reads. While the pass is run: the
    /// reads so far.
    pub(crate) deps: Vec<Dep>,
    /// While revalidating: how many of the recorded reads hold.
    pub(crate) next: usize,
    /// While revalidating: the stamp of the value that is revalidated.
    pub(crate) changed_at: u64,
    /// While the pass is run: every read so far rests on library files alone.
    pub(crate) durable: bool,
}

/// What a step of a query in flight yields: the query, to go on with, or the
/// value asked for.
#[derive(Debug)]
pub enum Progress {
    Pending(Task),
    Ready(String),
}

impl Task {
    /// The key asked for.
    pub open(crate) spec fn spec_key(&self) -> QueryKey {
        self.key
    }

    /// The revision of the snapshot that asked.
    pub open(crate) spec fn captured(&self) -> u64 {
        self.captured
    }

    /// Nothing was done for the query yet.
    pub open(crate) spec fn is_new(&self) -> bool {
        self.phase == Phase::Start
    }

    /// A bound on the steps that the query has left, the steps that the
    /// queries it reads take not counted.
    pub open(crate) spec fn left(&self) -> nat {
        match self.phase {
            Phase::Start => (2 * READ_LIMIT + 3) as nat,
            Phase::Validate => (READ_LIMIT + 2 + self.deps@.len() - self.next) as nat,
            Phase::Run => (READ_LIMIT + 1 - self.deps@.len()) as nat,
        }
    }

    /// The key asked for.
    #[verifier::when_used_as_spec(spec_key)]
    pub fn key(&self) -> (key: QueryKey)
        ensures
            key == self.spec_key(),
    {
        self.key
    }

    /// A query for `key` by a snapshot of revision `captured`, for which
    /// nothing was done yet.
    pub(crate) fn new(key: QueryKey, captured: u64) -> (task: Task)
        ensures
            task.key == key,
            task.captured == captured,
            task.phase == Phase::Start,
    {
        Task {
            key,
            captured,
            phase: Phase::Start,
            vals: Vec::new(),
            deps: Vec::new(),
            next: 0,
            changed_at: 0,
            durable: true,
        }
    }

    /// Starts the run of the pass over.
    pub(crate) fn restart(&mut self)
        ensures
            final(self).key == old(self).key,
            final(self).captured == old(self).captured,
            final(self).phase == Phase::Run,
            final(self).vals@.len() == 0,
            final(self).deps@.len() == 0,
            final(self).durable,
    {
        self.phase = Phase::Run;
        self.vals = Vec::new();
        self.deps = Vec::new();
        self.durable = true;
    }
}

} // verus!
