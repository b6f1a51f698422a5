//! The host, which alone changes the database, and the snapshots that
//! queries are asked through.

use vstd::prelude::*;
use crate::base::{Cancelable, Canceled, CrateId, FileId};
use crate::cache::swept;
use crate::change::{AnalysisChange, ProjectModel, crate_root_of};
use crate::db::{Database, DatabaseView, outcome_text, query_result, GC_THRESHOLD};
use crate::pass::{QueryKey, Step, eval, well_formed};
use crate::query::{
    FileSymbol, NavigationTarget, Query, search_result, search_symbols, symbol_models,
    target_models,
};
use crate::task::{Progress, Task};

verus! {

/// A snapshot: the revision of the database at the moment it was taken.
/// A query asked through it is answered as long as the database is still at
/// that revision, and gets the stale signal ever after.
#[derive(Clone, Copy, Debug)]
pub struct Analysis {
    revision: u64,
}

/// The host of a project session. It owns the database and is the only one
/// to change it.
pub struct AnalysisHost<P> {
    db: Database<P>,
}

impl<P: Fn(QueryKey, &Vec<String>) -> Step> View for AnalysisHost<P> {
    type V = DatabaseView;

    open spec fn view(&self) -> DatabaseView {
        self.db()@
    }
}

impl<P: Fn(QueryKey, &Vec<String>) -> Step> AnalysisHost<P> {
    /// The database that the host owns.
    pub closed spec fn db(&self) -> Database<P> {
        self.db
    }

    /// The host's invariant: that of its database.
    pub open spec fn wf(&self) -> bool {
        self.db().wf()
    }

    /// The pass whose values the database memoizes.
    pub open spec fn pass(&self) -> P {
        self.db().pass()
    }

    /// A host without files, at revision 0, whose database memoizes `pass`.
    pub fn new(pass: P) -> (host: Self)
        requires
            well_formed(pass),
        ensures
            host.wf(),
            host.pass() == pass,
            host@ == (DatabaseView { revision: 0, project: ProjectModel::empty() }),
            host.db().cached() == 0,
    {
        AnalysisHost { db: Database::new(pass) }
    }

    /// A snapshot of the current revision.
    pub fn analysis(&self) -> (snapshot: Analysis)
        ensures
            snapshot.captured() == self@.revision,
            !snapshot.is_stale(self@),
    {
        self.db.snapshot()
    }

    /// The database, to read from.
    pub fn database(&self) -> (db: &Database<P>)
        ensures
            *db == self.db(),
    {
        &self.db
    }

    /// Applies `change` as one step and moves to the next revision. Every
    /// snapshot taken before is stale from now on.
    pub fn apply_change(&mut self, change: AnalysisChange)
        requires
            old(self).wf(),
            old(self)@.revision < u64::MAX,
        ensures
            final(self).wf(),
            final(self).pass() == old(self).pass(),
            final(self)@ == old(self)@.after(change@),
            final(self).db().memo() == old(self).db().memo(),
    {
        self.db.apply_change(change);
    }

    /// Takes the query in flight `task` one step on. Where a change was
    /// applied since the snapshot of the query was taken, the outcome is the
    /// stale signal and nothing is touched. Otherwise the step either yields
    /// the value that a computation from scratch yields, or hands the query
    /// back with fewer steps left.
    pub fn advance(&mut self, task: Task) -> (r: Cancelable<Progress>)
        requires
            old(self).wf(),
            task.captured() == old(self)@.revision ==> old(self).db().tracks(&task),
        ensures
            final(self).wf(),
            final(self).pass() == old(self).pass(),
            final(self)@ == old(self)@,
            final(self).db().continues(&old(self).db()),
            forall|k: QueryKey| #[trigger]
                old(self).db().memo().contains_key(k) ==> final(self).db().memo().contains_key(k),
            match r {
                Err(_) => task.captured() != old(self)@.revision && final(self).db().memo()
                    == old(self).db().memo(),
                Ok(Progress::Ready(value)) => task.captured() == old(self)@.revision && value@
                    == eval(old(self).pass(), old(self)@.project.texts(), task.spec_key()),
                Ok(Progress::Pending(rest)) => {
                    &&& task.captured() == old(self)@.revision
                    &&& rest.spec_key() == task.spec_key()
                    &&& rest.captured() == task.captured()
                    &&& final(self).db().tracks(&rest)
                    &&& rest.left() < task.left()
                },
            },
    {
        self.db.advance(task)
    }

    /// Collects garbage when the memo table holds more than
    /// [`GC_THRESHOLD`] entries, and does nothing otherwise. What a query
    /// yields is not affected.
    pub fn maybe_collect_garbage(&mut self)
        requires
            old(self).wf(),
        ensures
            final(self).wf(),
            final(self).pass() == old(self).pass(),
            final(self)@ == old(self)@,
            final(self).db().memo() == if old(self).db().cached() > GC_THRESHOLD {
                swept(old(self).db().memo(), old(self)@.revision)
            } else {
                old(self).db().memo()
            },
            final(self).db().continues(&old(self).db()),
    {
        self.db.maybe_collect_garbage();
    }

    /// Drops every memoized value that was not verified at the current
    /// revision. What a query yields is not affected.
    pub fn collect_garbage(&mut self)
        requires
            old(self).wf(),
        ensures
            final(self).wf(),
            final(self).pass() == old(self).pass(),
            final(self)@ == old(self)@,
            final(self).db().memo() == swept(old(self).db().memo(), old(self)@.revision),
            final(self).db().continues(&old(self).db()),
    {
        self.db.collect_garbage();
    }
}

impl Analysis {
    /// The revision at which the snapshot was taken.
    pub closed spec fn captured(&self) -> u64 {
        self.revision
    }

    /// A snapshot of the revision `revision`.
    pub(crate) fn at(revision: u64) -> (snapshot: Analysis)
        ensures
            snapshot.captured() == revision,
    {
        Analysis { revision }
    }

    /// The database has moved on since the snapshot was taken.
    pub open spec fn is_stale(&self, db: DatabaseView) -> bool {
        self.captured() != db.revision
    }

    /// The revision at which the snapshot was taken.
    #[verifier::when_used_as_spec(captured)]
    pub fn revision(&self) -> (rev: u64)
        ensures
            rev == self.captured(),
    {
        self.revision
    }

    /// The checkpoint: whether the snapshot is stale with respect to `host`.
    pub fn is_canceled<P: Fn(QueryKey, &Vec<String>) -> Step>(&self, host: &AnalysisHost<P>) -> (stale:
        bool)
        ensures
            stale == self.is_stale(host@),
    {
        self.revision != host.db.revision()
    }

    /// The value of `key`, memoized in the host's database: the stale signal
    /// for a stale snapshot, and otherwise the value that a computation from
    /// scratch over the host's inputs yields.
    pub fn query<P: Fn(QueryKey, &Vec<String>) -> Step>(
        &self,
        host: &mut AnalysisHost<P>,
        key: QueryKey,
    ) -> (r: Cancelable<String>)
        requires
            old(host).wf(),
        ensures
            final(host).wf(),
            final(host).pass() == old(host).pass(),
            final(host)@ == old(host)@,
            outcome_text(r) == query_result(old(host).pass(), old(host)@, self.captured(), key),
            r is Err ==> final(host).db().memo() == old(host).db().memo(),
            forall|k: QueryKey| #[trigger]
                old(host).db().memo().contains_key(k) ==> final(host).db().memo().contains_key(k),
            final(host).db().continues(&old(host).db()),
    {
        host.db.compute(key, self)
    }

    /// Begins a query for `key`, to be taken on step by step with
    /// [`AnalysisHost::advance`]. Nothing is done for it yet.
    pub fn begin<P: Fn(QueryKey, &Vec<String>) -> Step>(
        &self,
        host: &AnalysisHost<P>,
        key: QueryKey,
    ) -> (task: Task)
        ensures
            task.spec_key() == key,
            task.captured() == self.captured(),
            task.is_new(),
            host.db().tracks(&task),
    {
        host.db.begin(key, self)
    }

    /// Runs the pass `f` on the host's database, unless the snapshot is
    /// stale: then `f` is not run, and the stale signal is the outcome.
    pub fn with_db<P: Fn(QueryKey, &Vec<String>) -> Step, T, F: FnOnce(&Database<P>) -> T>(
        &self,
        host: &AnalysisHost<P>,
        f: F,
    ) -> (r: Cancelable<T>)
        requires
            !self.is_stale(host@) ==> f.requires((&host.db(),)),
        ensures
            match r {
                Ok(v) => !self.is_stale(host@) && f.ensures((&host.db(),), v),
                Err(_) => self.is_stale(host@),
            },
    {
        if self.is_canceled(host) {
            Err(Canceled)
        } else {
            Ok(f(&host.db))
        }
    }

    /// The text of the file `file_id`, if the project has that file.
    pub fn file_text<P: Fn(QueryKey, &Vec<String>) -> Step>(
        &self,
        host: &AnalysisHost<P>,
        file_id: FileId,
    ) -> (r: Cancelable<Option<String>>)
        ensures
            match r {
                Ok(Some(t)) => !self.is_stale(host@) && host@.project.files.contains_key(file_id.0)
                    && host@.project.files[file_id.0].text == t@,
                Ok(None) => !self.is_stale(host@) && !host@.project.files.contains_key(file_id.0),
                Err(_) => self.is_stale(host@),
            },
    {
        if self.is_canceled(host) {
            return Err(Canceled);
        }
        match host.db.get_input(file_id) {
            Some(t) => Ok(Some(t.clone())),
            None => Ok(None),
        }
    }

    /// The root file of the crate `crate_id`, if the project graph names
    /// that crate.
    pub fn crate_root<P: Fn(QueryKey, &Vec<String>) -> Step>(
        &self,
        host: &AnalysisHost<P>,
        crate_id: CrateId,
    ) -> (r: Cancelable<Option<FileId>>)
        ensures
            r == if self.is_stale(host@) {
                Err(Canceled)
            } else {
                Ok(crate_root_of(host@.project.graph, crate_id))
            },
    {
        if self.is_canceled(host) {
            return Err(Canceled);
        }
        Ok(host.db.crate_root(crate_id))
    }

    /// Searches `symbols` for what `query` looks for among the host's
    /// files: the symbols wanted, in the order in which they were handed in,
    /// up to the query's limit, each as the target that leads to it.
    pub fn symbol_search<P: Fn(QueryKey, &Vec<String>) -> Step>(
        &self,
        host: &AnalysisHost<P>,
        query: Query,
        symbols: Vec<FileSymbol>,
    ) -> (r: Cancelable<Vec<NavigationTarget>>)
        ensures
            match r {
                Ok(targets) => !self.is_stale(host@) && target_models(targets@) == search_result(
                    query@,
                    host@.project.files,
                    symbol_models(symbols@),
                ),
                Err(_) => self.is_stale(host@),
            },
    {
        if self.is_canceled(host) {
            return Err(Canceled);
        }
        Ok(search_symbols(&host.db, &query, symbols))
    }
}

} // verus!
