//! The incremental database: the project's inputs, the revision counter and
//! the memo table, with the rule that decides when a memoized value may be
//! served again.

use std::collections::HashMap;
use vstd::prelude::*;
use crate::base::{Cancelable, Canceled, CrateId, FileId, SourceRootId};
use crate::cache::{Cache, Dep, Entry, EntryModel, swept};
use crate::change::{
    AnalysisChange, ChangeOp, CrateGraph, FileModel, OpModel, ProjectModel, crate_root_of,
    file_texts, lemma_library_files_stay, library_kept, op_models,
};
use crate::host::Analysis;
use crate::inv::{
    Seen, dep_keys, dep_value, dep_values, deps_known, durable_ok, entry_ok, extends, file_ok,
    input_key, lemma_dep_values_extend, lemma_entry_ok_extends, lemma_entry_ok_later,
    lemma_settled_later, lemma_settled_run, read_settled, reads_settled, seen_ok, settled,
};
use crate::pass::{
    QueryKey, Step, StepModel, eval, follows, input_text, lemma_replay, pass_step, read_value,
    step, texts, well_formed, READ_LIMIT,
};
use crate::task::{Phase, Progress, Task};

verus! {

broadcast use vstd::std_specs::hash::group_hash_axioms;

/// A file as the database holds it: what the project knows of it, and the
/// revision at which its text was written.
pub struct FileData {
    text: String,
    root: SourceRootId,
    library: bool,
    stamp: u64,
}

impl View for FileData {
    type V = FileModel;

    closed spec fn view(&self) -> FileModel {
        FileModel { text: self.text@, root: self.root, library: self.library }
    }
}

/// What a client can observe of a database: its revision and its inputs.
pub struct DatabaseView {
    pub revision: u64,
    pub project: ProjectModel,
}

impl DatabaseView {
    /// The database after a change with the operations `ops`: the next
    /// revision, over the inputs that the operations leave.
    pub open spec fn after(self, ops: Seq<OpModel>) -> DatabaseView {
        DatabaseView { revision: (self.revision + 1) as u64, project: self.project.apply(ops) }
    }
}

/// The text of an outcome.
pub open spec fn outcome_text(r: Cancelable<String>) -> Cancelable<Seq<char>> {
    match r {
        Ok(v) => Ok(v@),
        Err(c) => Err(c),
    }
}

/// What a query for `key` yields when it is asked through a snapshot taken
/// at revision `captured`: the stale signal when the database has moved on,
/// and otherwise the value of `key` computed from scratch over the inputs.
pub open spec fn query_result<P: Fn(QueryKey, &Vec<String>) -> Step>(
    pass: P,
    db: DatabaseView,
    captured: u64,
    key: QueryKey,
) -> Cancelable<Seq<char>> {
    if captured != db.revision {
        Err(Canceled)
    } else {
        Ok(eval(pass, db.project.texts(), key))
    }
}

/// The operation that writes `text` as the text of `file`: a change of the
/// file where the project has it, and otherwise its addition to the source
/// root 0.
pub open spec fn write_op(project: ProjectModel, file: u32, text: Seq<char>) -> OpModel {
    if project.files.contains_key(file) {
        OpModel::ChangeFile { file, text }
    } else {
        OpModel::AddFile { file, root: SourceRootId(0), text }
    }
}

/// When the memo table has more entries than this, an opportunistic
/// collection sweeps it.
pub const GC_THRESHOLD: usize = 1024;

/// The incremental database. It owns the project's inputs and the pass that
/// derives values from them, and memoizes what the pass yields.
pub struct Database<P> {
    pass: P,
    revision: u64,
    files: HashMap<u32, FileData>,
    graph: CrateGraph,
    cache: Cache,
    seen: Ghost<Seen>,
}

impl<P: Fn(QueryKey, &Vec<String>) -> Step> View for Database<P> {
    type V = DatabaseView;

    open spec fn view(&self) -> DatabaseView {
        DatabaseView { revision: self.spec_revision(), project: self.project() }
    }
}

impl<P: Fn(QueryKey, &Vec<String>) -> Step> Database<P> {
    /// The pass whose values the database memoizes.
    pub closed spec fn pass(&self) -> P {
        self.pass
    }

    /// The current revision.
    pub closed spec fn spec_revision(&self) -> u64 {
        self.revision
    }

    /// The project's inputs.
    pub closed spec fn project(&self) -> ProjectModel {
        ProjectModel {
            files: Map::new(
                |id: u32| self.files@.contains_key(id),
                |id: u32| self.files@[id]@,
            ),
            graph: self.graph@,
        }
    }

    /// The text of each file.
    pub open spec fn inputs(&self) -> Map<u32, Seq<char>> {
        self.project().texts()
    }

    /// The memo table: the entry of each key that has a memoized value.
    pub closed spec fn memo(&self) -> Map<QueryKey, EntryModel> {
        self.cache@
    }

    /// The number of memoized values.
    pub open spec fn cached(&self) -> nat {
        self.memo().dom().len()
    }

    /// The key has a memoized value that was verified at the current
    /// revision.
    pub closed spec fn is_fresh(&self, key: QueryKey) -> bool {
        self.cache@.contains_key(key) && self.cache@[key].verified_at == self.revision
    }

    /// The database's invariant: the pass is well formed, and every memoized
    /// value is in order.
    pub closed spec fn wf(&self) -> bool {
        &&& well_formed(self.pass)
        &&& self.cache.wf()
        &&& forall|key: QueryKey| #[trigger]
            self.cache@.contains_key(key) ==> entry_ok(
                self.pass,
                self.seen@,
                self.revision,
                self.inputs(),
                key,
                self.cache@[key],
            )
        &&& forall|id: u32| #[trigger]
            self.files@.contains_key(id) ==> file_ok(
                self.seen@,
                self.revision,
                id,
                self.files@[id].text@,
                self.files@[id].stamp,
            )
        &&& seen_ok(self.pass, self.seen@, self.revision, self.inputs())
        &&& forall|key: QueryKey| #[trigger]
            self.cache@.contains_key(key) ==> durable_ok(
                self.pass,
                self.project().files,
                key,
                self.cache@[key],
            )
    }

    /// The database is `earlier` at a later moment of the same revision:
    /// the pass and the inputs are the same, and no less is known. A query
    /// in flight that `earlier` tracked is still tracked.
    pub closed spec fn continues(&self, earlier: &Self) -> bool {
        &&& self.pass == earlier.pass
        &&& self.revision == earlier.revision
        &&& self.files == earlier.files
        &&& self.graph == earlier.graph
        &&& extends(self.seen@, earlier.seen@)
    }

    /// Each key that has an entry in `earlier` has one.
    closed spec fn keeps(&self, earlier: &Self) -> bool {
        forall|k: QueryKey| #[trigger]
            earlier.cache@.contains_key(k) ==> self.cache@.contains_key(k)
    }

    /// The query in flight `task` is in order: what it holds of reads and
    /// values is what the database knows.
    pub closed spec fn tracks(&self, task: &Task) -> bool {
        match task.phase {
            Phase::Start => true,
            Phase::Validate => {
                &&& task.key.func > 0
                &&& task.next <= task.deps@.len() <= READ_LIMIT
                &&& deps_known(self.seen@, task.deps@)
                &&& self.seen@.contains_key((task.key, task.changed_at))
                &&& follows(
                    self.pass,
                    task.key,
                    dep_keys(task.deps@),
                    dep_values(self.seen@, task.deps@),
                    self.seen@[(task.key, task.changed_at)],
                )
                &&& forall|j: int|
                    0 <= j < task.next ==> #[trigger] dep_values(self.seen@, task.deps@)[j]
                        == read_value(
                        self.pass,
                        self.inputs(),
                        task.key.func,
                        dep_keys(task.deps@)[j],
                    )
            },
            Phase::Run => {
                &&& task.key.func > 0
                &&& task.deps@.len() == task.vals@.len()
                &&& task.deps@.len() <= READ_LIMIT
                &&& deps_known(self.seen@, task.deps@)
                &&& texts(task.vals@) == dep_values(self.seen@, task.deps@)
                &&& forall|j: int|
                    0 <= j < task.deps@.len() ==> #[trigger] pass_step(
                        self.pass,
                        task.key,
                        texts(task.vals@).take(j),
                    ) == StepModel::Read(dep_keys(task.deps@)[j])
                &&& forall|j: int|
                    0 <= j < task.deps@.len() ==> #[trigger] texts(task.vals@)[j] == read_value(
                        self.pass,
                        self.inputs(),
                        task.key.func,
                        dep_keys(task.deps@)[j],
                    )
                &&& task.durable ==> reads_settled(
                    self.pass,
                    self.project().files,
                    task.key.func,
                    dep_keys(task.deps@),
                    texts(task.vals@),
                )
            },
        }
    }

    /// A query in flight that a database tracked is tracked by the database
    /// at any later moment of the same revision.
    pub proof fn lemma_task_survives(&self, earlier: &Self, task: &Task)
        requires
            earlier.tracks(task),
            self.continues(earlier),
        ensures
            self.tracks(task),
    {
        if task.phase != Phase::Start {
            lemma_dep_values_extend(self.seen@, earlier.seen@, task.deps@);
        }
    }

    /// A later moment of a later moment is a later moment.
    pub proof fn lemma_continues_on(&self, middle: &Self, earlier: &Self)
        requires
            middle.continues(earlier),
            self.continues(middle),
        ensures
            self.continues(earlier),
    {
        assert forall|p: (QueryKey, u64)| #[trigger] earlier.seen@.contains_key(p) implies self.seen@.contains_key(
            p,
        ) && self.seen@[p] == earlier.seen@[p] by {
            assert(middle.seen@.contains_key(p));
        }
    }

    /// A database without files, at revision 0, that memoizes `pass`.
    pub fn new(pass: P) -> (db: Self)
        requires
            well_formed(pass),
        ensures
            db.wf(),
            db.pass() == pass,
            db.spec_revision() == 0,
            db.project() == ProjectModel::empty(),
            db.cached() == 0,
    {
        let db = Database {
            pass,
            revision: 0,
            files: HashMap::new(),
            graph: CrateGraph::new(),
            cache: Cache::new(),
            seen: Ghost(Map::empty()),
        };
        assert(db.project().files =~= Map::empty());
        db
    }

    /// A snapshot of the current revision.
    pub fn snapshot(&self) -> (snapshot: Analysis)
        ensures
            snapshot.captured() == self.spec_revision(),
    {
        Analysis::at(self.revision)
    }

    /// The current revision.
    #[verifier::when_used_as_spec(spec_revision)]
    pub fn revision(&self) -> (rev: u64)
        ensures
            rev == self.spec_revision(),
    {
        self.revision
    }

    /// The text of the file `file_id`, if the project has that file.
    pub fn get_input(&self, file_id: FileId) -> (text: Option<&String>)
        ensures
            match text {
                Some(t) => self.project().files.contains_key(file_id.0)
                    && self.project().files[file_id.0].text == t@,
                None => !self.project().files.contains_key(file_id.0),
            },
    {
        match self.files.get(&file_id.0) {
            Some(f) => Some(&f.text),
            None => None,
        }
    }

    /// What the project knows of the file `file_id`: nothing, or whether it
    /// is a library file.
    pub fn is_library(&self, file_id: FileId) -> (library: Option<bool>)
        ensures
            library == if self.project().files.contains_key(file_id.0) {
                Some(self.project().files[file_id.0].library)
            } else {
                None
            },
    {
        match self.files.get(&file_id.0) {
            Some(f) => Some(f.library),
            None => None,
        }
    }

    /// The root file of the crate `crate_id`, if the project graph names that
    /// crate.
    pub fn crate_root(&self, crate_id: CrateId) -> (root: Option<FileId>)
        ensures
            root == crate_root_of(self.project().graph, crate_id),
    {
        self.graph.crate_root(crate_id)
    }

    /// The stamp of the value that a read of `key` by a pass at function
    /// `level` is answered with now: that of the file's text for an input,
    /// that of the memoized value for a key that the pass may read, and none
    /// where the answer is the empty text, for want of a file, of an entry or
    /// of leave to read.
    closed spec fn stamp_now(&self, level: u32, key: QueryKey) -> Option<u64> {
        if key.func == 0 {
            if key.arg <= u32::MAX && self.files@.contains_key(key.arg as u32) {
                Some(self.files@[key.arg as u32].stamp)
            } else {
                None
            }
        } else if key.func < level && self.cache@.contains_key(key) {
            Some(self.cache@[key].changed_at)
        } else {
            None
        }
    }

    /// The stamp under which the text of the input `arg` is recorded; none
    /// where there is no such file.
    fn input_stamp(&self, arg: u64) -> (stamp: Option<u64>)
        requires
            self.wf(),
        ensures
            stamp == self.stamp_now(0, QueryKey { func: 0, arg }),
            dep_value(self.seen@, Dep { key: QueryKey { func: 0, arg }, stamp }) == input_text(
                self.inputs(),
                arg,
            ),
            match stamp {
                Some(s) => self.seen@.contains_key((QueryKey { func: 0, arg }, s)),
                None => true,
            },
    {
        if arg > u32::MAX as u64 {
            return None;
        }
        let id = arg as u32;
        match self.files.get(&id) {
            Some(f) => {
                assert(self.files@.contains_key(id));
                assert(input_key(id) == QueryKey { func: 0, arg });
                Some(f.stamp)
            },
            None => None,
        }
    }

    /// The text of the input `arg`, the stamp under which it is recorded,
    /// and whether it is the text of a library file.
    fn input_now(&self, arg: u64) -> (r: (String, Option<u64>, bool))
        requires
            self.wf(),
        ensures
            r.0@ == input_text(self.inputs(), arg),
            dep_value(self.seen@, Dep { key: QueryKey { func: 0, arg }, stamp: r.1 }) == r.0@,
            match r.1 {
                Some(s) => self.seen@.contains_key((QueryKey { func: 0, arg }, s)),
                None => true,
            },
            r.2 ==> forall|other: Map<u32, FileModel>| #[trigger]
                library_kept(self.project().files, other) ==> input_text(file_texts(other), arg)
                    == r.0@,
    {
        if arg > u32::MAX as u64 {
            return (String::new(), None, false);
        }
        let id = arg as u32;
        match self.files.get(&id) {
            Some(f) => {
                assert(self.files@.contains_key(id));
                assert(self.project().files.contains_key(id));
                assert(input_key(id) == QueryKey { func: 0, arg });
                (f.text.clone(), Some(f.stamp), f.library)
            },
            None => (String::new(), None, false),
        }
    }

    /// Answers a read of `dep` by a pass at function `level`: brings `dep`
    /// up to date and returns its value, the stamp of that value, and
    /// whether the value rests on library files alone.
    fn read(&mut self, level: u32, dep: QueryKey) -> (r: (String, Option<u64>, bool))
        requires
            old(self).wf(),
            level > 0,
        ensures
            final(self).wf(),
            final(self).continues(old(self)),
            final(self).keeps(old(self)),
            r.0@ == read_value(old(self).pass, old(self).inputs(), level, dep),
            dep_value(final(self).seen@, Dep { key: dep, stamp: r.1 }) == r.0@,
            match r.1 {
                Some(s) => final(self).seen@.contains_key((dep, s)),
                None => true,
            },
            r.2 ==> read_settled(old(self).pass, old(self).project().files, level, dep, r.0@),
        decreases level, 1int,
    {
        if dep.func == 0 {
            self.input_now(dep.arg)
        } else if dep.func < level {
            let stamp = self.refresh(dep);
            match self.cache.get(dep) {
                Some(e) => (e.value.clone(), Some(stamp), e.durable),
                None => (String::new(), None, false),
            }
        } else {
            (String::new(), None, true)
        }
    }

    /// Whether the recorded read `dep` of a pass at function `level` would be
    /// answered now as it was when it was recorded: whether the stamp of the
    /// value that answers it now is the recorded one. A key that the pass may
    /// read is brought up to date first; for any other, nothing is touched.
    fn holds(&mut self, level: u32, dep: Dep) -> (ok: bool)
        requires
            old(self).wf(),
            level > 0,
        ensures
            final(self).wf(),
            final(self).continues(old(self)),
            final(self).keeps(old(self)),
            ok == (final(self).stamp_now(level, dep.key) == dep.stamp),
            0 < dep.key.func < level ==> final(self).is_fresh(dep.key),
            !(0 < dep.key.func < level) ==> *final(self) == *old(self),
            ok ==> dep_value(final(self).seen@, dep) == read_value(
                old(self).pass,
                old(self).inputs(),
                level,
                dep.key,
            ),
            ok ==> match dep.stamp {
                Some(s) => final(self).seen@.contains_key((dep.key, s)),
                None => true,
            },
        decreases level, 1int,
    {
        if dep.key.func == 0 {
            let now = self.input_stamp(dep.key.arg);
            match (dep.stamp, now) {
                (Some(a), Some(b)) => a == b,
                (None, None) => true,
                _ => false,
            }
        } else if dep.key.func < level {
            let now = self.refresh(dep.key);
            match dep.stamp {
                Some(a) => a == now,
                None => false,
            }
        } else {
            dep.stamp.is_none()
        }
    }

    /// Brings the derived key `key` up to date, by the steps of a query of
    /// its own, and returns the stamp of its value.
    fn refresh(&mut self, key: QueryKey) -> (stamp: u64)
        requires
            old(self).wf(),
            key.func > 0,
        ensures
            final(self).wf(),
            final(self).continues(old(self)),
            final(self).keeps(old(self)),
            final(self).is_fresh(key),
            final(self).cache@[key].changed_at == stamp,
            final(self).cache@[key].value == eval(old(self).pass, old(self).inputs(), key),
        decreases key.func, 3int,
    {
        let mut task = Task::new(key, self.revision);
        let mut ready = false;
        while !ready
            invariant
                self.wf(),
                self.continues(old(self)),
                self.keeps(old(self)),
                task.key == key,
                key.func > 0,
                !ready ==> self.tracks(&task),
                ready ==> self.is_fresh(key),
            decreases
                    (if ready {
                        0int
                    } else {
                        1int
                    }),
                    task.left(),
        {
            let ghost before = *self;
            ready = self.proceed(&mut task);
            proof {
                self.lemma_continues_on(&before, old(self));
            }
        }
        match self.cache.get(key) {
            Some(e) => e.changed_at,
            None => 0,
        }
    }

    /// Marks the entry of `key`, whose value is the value computed from
    /// scratch, as verified at the current revision.
    fn renew(&mut self, key: QueryKey)
        requires
            old(self).wf(),
            old(self).cache@.contains_key(key),
            old(self).cache@[key].value == eval(old(self).pass, old(self).inputs(), key),
        ensures
            final(self).wf(),
            final(self).continues(old(self)),
            final(self).keeps(old(self)),
            final(self).is_fresh(key),
    {
        let ghost cache = self.cache@;
        self.cache.restamp(key, self.revision);
        proof {
            assert forall|k: QueryKey| #[trigger] self.cache@.contains_key(k) implies entry_ok(
                self.pass,
                self.seen@,
                self.revision,
                self.inputs(),
                k,
                self.cache@[k],
            ) && durable_ok(self.pass, self.project().files, k, self.cache@[k]) by {
                assert(cache.contains_key(k));
            }
        }
    }

    /// Memoizes `value`, which a run of the pass for `key` yielded after the
    /// reads `deps`. A value that is what the entry held keeps the stamp of
    /// the entry: what has read it need not be run again.
    fn store(&mut self, key: QueryKey, value: String, deps: Vec<Dep>, durable: bool)
        requires
            old(self).wf(),
            key.func > 0,
            value@ == eval(old(self).pass, old(self).inputs(), key),
            deps_known(old(self).seen@, deps@),
            follows(
                old(self).pass,
                key,
                dep_keys(deps@),
                dep_values(old(self).seen@, deps@),
                value@,
            ),
            durable ==> settled(old(self).pass, old(self).project().files, key, value@),
        ensures
            final(self).wf(),
            final(self).continues(old(self)),
            final(self).keeps(old(self)),
            final(self).is_fresh(key),
    {
        let rev = self.revision;
        let changed_at = match self.cache.get(key) {
            Some(e) => if e.value == value {
                e.changed_at
            } else {
                rev
            },
            None => rev,
        };
        let ghost cache = self.cache@;
        let ghost before = self.seen@;
        proof {
            if !before.contains_key((key, changed_at)) {
                self.seen@ = before.insert((key, changed_at), value@);
            }
        }
        self.cache.put(Entry { key, value, verified_at: rev, changed_at, deps, durable });
        proof {
            assert(extends(self.seen@, before));
            lemma_dep_values_extend(self.seen@, before, deps@);
            assert forall|k: QueryKey| #[trigger] self.cache@.contains_key(k) implies entry_ok(
                self.pass,
                self.seen@,
                self.revision,
                self.inputs(),
                k,
                self.cache@[k],
            ) && durable_ok(self.pass, self.project().files, k, self.cache@[k]) by {
                if k != key {
                    assert(cache.contains_key(k));
                    lemma_entry_ok_extends(
                        self.pass,
                        self.seen@,
                        before,
                        self.revision,
                        self.inputs(),
                        k,
                        cache[k],
                    );
                }
            }
        }
    }

    /// One step of the query in flight `task` for a derived key. Returns
    /// whether the key is up to date now.
    ///
    /// Every step looks the key up first, and serves a value that was
    /// verified at the current revision. Of another value, a new query
    /// serves one that rests on library files alone and sets out to
    /// revalidate any other; without a value it sets out to run the pass.
    /// Revalidation checks one recorded read per step, and gives way to a
    /// run of the pass when one does not hold. A run makes one read per
    /// step.
    fn proceed(&mut self, task: &mut Task) -> (ready: bool)
        requires
            old(self).wf(),
            old(self).tracks(old(task)),
            old(task).key.func > 0,
        ensures
            final(self).wf(),
            final(self).continues(old(self)),
            final(self).keeps(old(self)),
            final(task).key == old(task).key,
            final(task).captured == old(task).captured,
            ready ==> final(self).is_fresh(old(task).key),
            !ready ==> final(self).tracks(final(task)) && final(task).left() < old(task).left(),
        decreases old(task).key.func, 2int,
    {
        let key = task.key;
        let rev = self.revision;
        let entry = self.cache.get(key);
        let fresh = match entry {
            Some(e) => e.verified_at == rev,
            None => false,
        };
        if fresh {
            return true;
        }
        match task.phase {
            Phase::Start => {
                let mut durable = false;
                match entry {
                    Some(e) => {
                        if e.durable {
                            durable = true;
                        } else {
                            task.deps = copy_deps(&e.deps);
                            task.changed_at = e.changed_at;
                            task.next = 0;
                            task.phase = Phase::Validate;
                        }
                    },
                    None => {
                        task.restart();
                        assert(texts(task.vals@) =~= dep_values(self.seen@, task.deps@));
                    },
                }
                if durable {
                    proof {
                        assert(durable_ok(self.pass, self.project().files, key, self.cache@[key]));
                        assert(library_kept(self.project().files, self.project().files));
                    }
                    self.renew(key);
                }
                durable
            },
            Phase::Validate => {
                if task.next < task.deps.len() {
                    let ghost before = self.seen@;
                    let ok = self.holds(key.func, task.deps[task.next]);
                    proof {
                        lemma_dep_values_extend(self.seen@, before, task.deps@);
                    }
                    if ok {
                        task.next = task.next + 1;
                    } else {
                        task.restart();
                        assert(texts(task.vals@) =~= dep_values(self.seen@, task.deps@));
                    }
                    false
                } else {
                    proof {
                        lemma_replay(
                            self.pass,
                            self.inputs(),
                            key,
                            dep_keys(task.deps@),
                            dep_values(self.seen@, task.deps@),
                            self.seen@[(key, task.changed_at)],
                        );
                    }
                    let current = match entry {
                        Some(e) => e.changed_at == task.changed_at,
                        None => false,
                    };
                    if current {
                        self.renew(key);
                    } else {
                        task.restart();
                        assert(texts(task.vals@) =~= dep_values(self.seen@, task.deps@));
                    }
                    current
                }
            },
            Phase::Run => {
                match step(&self.pass, key, &task.vals) {
                    Step::Done(value) => {
                        proof {
                            self.lemma_run_ends(task, value@);
                        }
                        let mut deps: Vec<Dep> = Vec::new();
                        std::mem::swap(&mut deps, &mut task.deps);
                        self.store(key, value, deps, task.durable);
                        true
                    },
                    Step::Read(dep) => {
                        if task.deps.len() >= READ_LIMIT {
                            proof {
                                self.lemma_run_ends(task, Seq::empty());
                            }
                            let mut deps: Vec<Dep> = Vec::new();
                            std::mem::swap(&mut deps, &mut task.deps);
                            self.store(key, String::new(), deps, task.durable);
                            true
                        } else {
                            let ghost before = self.seen@;
                            let ghost so_far = texts(task.vals@);
                            let ghost keys = dep_keys(task.deps@);
                            let ghost prior = task.deps@;
                            let (answer, stamp, rests) = self.read(key.func, dep);
                            proof {
                                lemma_dep_values_extend(self.seen@, before, task.deps@);
                            }
                            task.durable = task.durable && rests;
                            task.vals.push(answer);
                            task.deps.push(Dep { key: dep, stamp });
                            proof {
                                let n = so_far.len() as int;
                                assert(texts(task.vals@) =~= so_far.push(answer@));
                                assert(dep_keys(task.deps@) =~= keys.push(dep));
                                assert(task.deps@.take(n) =~= prior);
                                assert(dep_values(self.seen@, task.deps@) =~= dep_values(
                                    self.seen@,
                                    prior,
                                ).push(answer@));
                                assert forall|j: int|
                                    0 <= j < task.deps@.len() implies #[trigger] pass_step(
                                    self.pass,
                                    key,
                                    texts(task.vals@).take(j),
                                ) == StepModel::Read(dep_keys(task.deps@)[j]) by {
                                    if j < n {
                                        assert(texts(task.vals@).take(j) =~= so_far.take(j));
                                    } else {
                                        assert(texts(task.vals@).take(j) =~= so_far);
                                    }
                                }
                            }
                            false
                        }
                    },
                }
            },
        }
    }

    /// A run that is over, by the word of the pass or by the limit of reads,
    /// has yielded the value computed from scratch.
    proof fn lemma_run_ends(&self, task: &Task, value: Seq<char>)
        requires
            well_formed(self.pass),
            task.phase == Phase::Run,
            self.tracks(task),
            match pass_step(self.pass, task.key, texts(task.vals@)) {
                StepModel::Done(v) => v == value,
                StepModel::Read(_) => task.deps@.len() == READ_LIMIT && value == Seq::<char>::empty(),
            },
        ensures
            value == eval(self.pass, self.inputs(), task.key),
            follows(
                self.pass,
                task.key,
                dep_keys(task.deps@),
                dep_values(self.seen@, task.deps@),
                value,
            ),
            task.durable ==> settled(self.pass, self.project().files, task.key, value),
    {
        lemma_replay(
            self.pass,
            self.inputs(),
            task.key,
            dep_keys(task.deps@),
            texts(task.vals@),
            value,
        );
        if task.durable {
            lemma_settled_run(
                self.pass,
                self.project().files,
                task.key,
                dep_keys(task.deps@),
                texts(task.vals@),
                value,
            );
        }
    }

    /// The value of `key`, asked through `snapshot`. A stale snapshot gets
    /// the stale signal and leaves the memo table as it is. A current one
    /// gets the value that a computation from scratch yields; what had to be
    /// computed for it is memoized.
    pub fn compute(&mut self, key: QueryKey, snapshot: &Analysis) -> (r: Cancelable<String>)
        requires
            old(self).wf(),
        ensures
            final(self).wf(),
            final(self).continues(old(self)),
            final(self)@ == old(self)@,
            final(self).pass() == old(self).pass(),
            outcome_text(r) == query_result(old(self).pass(), old(self)@, snapshot.captured(), key),
            r is Err ==> final(self).memo() == old(self).memo(),
            r is Ok && key.func > 0 ==> final(self).is_fresh(key) && final(self).memo()[key].value
                == r->Ok_0@,
            forall|k: QueryKey| #[trigger]
                old(self).memo().contains_key(k) ==> final(self).memo().contains_key(k),
    {
        if snapshot.revision() != self.revision {
            return Err(Canceled);
        }
        if key.func == 0 {
            let (text, _, _) = self.input_now(key.arg);
            Ok(text)
        } else {
            let _ = self.refresh(key);
            match self.cache.get(key) {
                Some(e) => Ok(e.value.clone()),
                None => Ok(String::new()),
            }
        }
    }

    /// Begins a query for `key` through `snapshot`, to be taken on step by
    /// step. Nothing is done for it yet.
    pub fn begin(&self, key: QueryKey, snapshot: &Analysis) -> (task: Task)
        ensures
            task.spec_key() == key,
            task.captured() == snapshot.captured(),
            task.is_new(),
            self.tracks(&task),
    {
        Task::new(key, snapshot.revision())
    }

    /// Takes the query in flight `task` one step on.
    ///
    /// The step begins at the checkpoint: where the database has moved on
    /// since the snapshot of the query was taken, the outcome is the stale
    /// signal, and neither the memo table nor anything else is touched; what
    /// the query had read so far is dropped with it. Otherwise the step
    /// either yields the value that a computation from scratch yields, or
    /// hands the query back with fewer steps left. A step reads at most one
    /// key; what it reads is brought up to date and memoized within the
    /// step.
    pub fn advance(&mut self, task: Task) -> (r: Cancelable<Progress>)
        requires
            old(self).wf(),
            task.captured() == old(self).spec_revision() ==> old(self).tracks(&task),
        ensures
            final(self).wf(),
            final(self).continues(old(self)),
            final(self)@ == old(self)@,
            final(self).pass() == old(self).pass(),
            forall|k: QueryKey| #[trigger]
                old(self).memo().contains_key(k) ==> final(self).memo().contains_key(k),
            match r {
                Err(_) => task.captured() != old(self).spec_revision() && final(self).memo()
                    == old(self).memo(),
                Ok(Progress::Ready(value)) => task.captured() == old(self).spec_revision()
                    && value@ == eval(old(self).pass(), old(self).inputs(), task.spec_key()),
                Ok(Progress::Pending(rest)) => {
                    &&& task.captured() == old(self).spec_revision()
                    &&& rest.spec_key() == task.spec_key()
                    &&& rest.captured() == task.captured()
                    &&& final(self).tracks(&rest)
                    &&& rest.left() < task.left()
                },
            },
    {
        if task.captured != self.revision {
            return Err(Canceled);
        }
        let key = task.key;
        if key.func == 0 {
            let (text, _, _) = self.input_now(key.arg);
            return Ok(Progress::Ready(text));
        }
        let mut task = task;
        if self.proceed(&mut task) {
            match self.cache.get(key) {
                Some(e) => Ok(Progress::Ready(e.value.clone())),
                None => Ok(Progress::Ready(String::new())),
            }
        } else {
            Ok(Progress::Pending(task))
        }
    }

    /// Applies one operation to the inputs, stamping what it writes with
    /// `rev`.
    fn stage(&mut self, op: ChangeOp, rev: u64, base: Ghost<Self>)
        requires
            old(self).staging(&base@, rev),
        ensures
            final(self).staging(&base@, rev),
            final(self).project() == old(self).project().apply_op(op@),
    {
        let ghost project = self.project();
        proof {
            lemma_library_files_stay(project, op@);
        }
        match op {
            ChangeOp::AddFile { file_id, root, text } => {
                let library = match self.files.get(&file_id.0) {
                    Some(f) => f.library,
                    None => false,
                };
                if !library {
                    let ghost model = FileModel { text: text@, root, library: false };
                    self.files.insert(file_id.0, FileData { text, root, library: false, stamp: rev });
                    assert(self.project().files =~= project.files.insert(file_id.0, model));
                }
            },
            ChangeOp::RemoveFile { file_id } => {
                let workspace = match self.files.get(&file_id.0) {
                    Some(f) => !f.library,
                    None => false,
                };
                if workspace {
                    self.files.remove(&file_id.0);
                    assert(self.project().files =~= project.files.remove(file_id.0));
                }
            },
            ChangeOp::ChangeFile { file_id, text } => {
                let root = match self.files.get(&file_id.0) {
                    Some(f) => if f.library {
                        None
                    } else {
                        Some(f.root)
                    },
                    None => None,
                };
                match root {
                    Some(root) => {
                        let ghost model = FileModel { text: text@, root, library: false };
                        self.files.insert(
                            file_id.0,
                            FileData { text, root, library: false, stamp: rev },
                        );
                        assert(self.project().files =~= project.files.insert(file_id.0, model));
                    },
                    None => {},
                }
            },
            ChangeOp::AddLibrary { file_id, root, text } => {
                if self.files.get(&file_id.0).is_none() {
                    let ghost model = FileModel { text: text@, root, library: true };
                    self.files.insert(file_id.0, FileData { text, root, library: true, stamp: rev });
                    assert(self.project().files =~= project.files.insert(file_id.0, model));
                }
            },
            ChangeOp::SetCrateGraph { graph } => {
                self.graph = graph;
            },
        }
    }

    /// Between the first operation of a change and the bump of the
    /// revision: the files written so far carry the stamp `rev`, and
    /// everything else is as in `base`.
    closed spec fn staging(&self, base: &Self, rev: u64) -> bool {
        &&& base.wf()
        &&& base.revision < rev
        &&& self.pass == base.pass
        &&& self.revision == base.revision
        &&& self.cache == base.cache
        &&& self.seen == base.seen
        &&& library_kept(base.project().files, self.project().files)
        &&& forall|id: u32| #[trigger]
            self.files@.contains_key(id) ==> self.files@[id].stamp == rev || (
            base.files@.contains_key(id) && base.files@[id] == self.files@[id])
    }

    /// What is known once the files written under the stamp `rev` are
    /// recorded.
    closed spec fn recorded(&self, rev: u64) -> Seen {
        Map::new(
            |p: (QueryKey, u64)| self.seen@.contains_key(p) || self.written(p, rev),
            |p: (QueryKey, u64)|
                if self.seen@.contains_key(p) {
                    self.seen@[p]
                } else {
                    self.files@[p.0.arg as u32].text@
                },
        )
    }

    /// `p` names the text of a file that was written under the stamp `rev`.
    closed spec fn written(&self, p: (QueryKey, u64), rev: u64) -> bool {
        &&& p.0.func == 0
        &&& p.1 == rev
        &&& p.0.arg <= u32::MAX
        &&& self.files@.contains_key(p.0.arg as u32)
        &&& self.files@[p.0.arg as u32].stamp == rev
    }

    /// Ends a change: records the files written and moves to revision
    /// `rev`.
    fn commit(&mut self, rev: u64, base: Ghost<Self>)
        requires
            old(self).staging(&base@, rev),
        ensures
            final(self).wf(),
            final(self).pass() == base@.pass(),
            final(self).spec_revision() == rev,
            final(self).project() == old(self).project(),
            final(self).memo() == base@.memo(),
    {
        let ghost earlier = self.seen@;
        proof {
            self.seen@ = self.recorded(rev);
        }
        self.revision = rev;
        proof {
            let seen = self.seen@;
            assert forall|p: (QueryKey, u64)| #[trigger] earlier.contains_key(p) implies p.1
                < rev by {}
            assert(extends(seen, earlier));
            assert forall|key: QueryKey| #[trigger] self.cache@.contains_key(key) implies entry_ok(
                self.pass,
                seen,
                self.revision,
                self.inputs(),
                key,
                self.cache@[key],
            ) by {
                lemma_entry_ok_later(
                    self.pass,
                    seen,
                    earlier,
                    base@.revision,
                    rev,
                    base@.inputs(),
                    self.inputs(),
                    key,
                    self.cache@[key],
                );
            }
            assert forall|key: QueryKey| #[trigger] self.cache@.contains_key(key) implies durable_ok(
                self.pass,
                self.project().files,
                key,
                self.cache@[key],
            ) by {
                if self.cache@[key].durable {
                    lemma_settled_later(
                        self.pass,
                        base@.project().files,
                        self.project().files,
                        key,
                        self.cache@[key].value,
                    );
                }
            }
            assert forall|id: u32| #[trigger] self.files@.contains_key(id) implies file_ok(
                seen,
                self.revision,
                id,
                self.files@[id].text@,
                self.files@[id].stamp,
            ) by {
                let p = (input_key(id), self.files@[id].stamp);
                if self.files@[id].stamp == rev {
                    assert(old(self).written(p, rev));
                    assert(!earlier.contains_key(p));
                } else {
                    assert(base@.files@.contains_key(id));
                    assert(earlier.contains_key(p));
                }
            }
        }
    }

    /// Applies `change` as one step: every operation in order, then one
    /// bump of the revision. The memo table is left as it is; what it holds
    /// is revalidated when it is next asked for.
    pub fn apply_change(&mut self, change: AnalysisChange)
        requires
            old(self).wf(),
            old(self).spec_revision() < u64::MAX,
        ensures
            final(self).wf(),
            final(self).pass() == old(self).pass(),
            final(self)@ == old(self)@.after(change@),
            final(self).memo() == old(self).memo(),
    {
        let rev = self.revision + 1;
        let ghost base = *self;
        let ops = change.into_ops();
        assert(op_models(ops@).take(0) =~= Seq::empty());
        for op in it: ops
            invariant
                it.seq() == ops@,
                self.staging(&base, rev),
                self.project() == base.project().apply(op_models(ops@).take(it.index() as int)),
        {
            proof {
                let n = it.index() as int;
                let ms = op_models(ops@);
                assert(ms.take(n + 1).drop_last() =~= ms.take(n));
                assert(ms.take(n + 1).last() == op@);
            }
            self.stage(op, rev, Ghost(base));
        }
        assert(op_models(ops@).take(ops@.len() as int) =~= op_models(ops@));
        self.commit(rev, Ghost(base));
    }

    /// Writes `text` as the text of the file `file_id` and bumps the
    /// revision. A file that the project does not have yet is added to the
    /// source root 0; a library file keeps its text.
    pub fn set_input(&mut self, file_id: FileId, text: String)
        requires
            old(self).wf(),
            old(self).spec_revision() < u64::MAX,
        ensures
            final(self).wf(),
            final(self).pass() == old(self).pass(),
            final(self).spec_revision() == old(self).spec_revision() + 1,
            final(self).project() == old(self).project().apply_op(
                write_op(old(self).project(), file_id.0, text@),
            ),
            final(self).memo() == old(self).memo(),
    {
        let rev = self.revision + 1;
        let ghost base = *self;
        let op = if self.files.get(&file_id.0).is_some() {
            ChangeOp::ChangeFile { file_id, text }
        } else {
            ChangeOp::AddFile { file_id, root: SourceRootId(0), text }
        };
        self.stage(op, rev, Ghost(base));
        self.commit(rev, Ghost(base));
    }

    /// Drops every memoized value that was not verified at the current
    /// revision. What a query yields is not affected.
    pub fn collect_garbage(&mut self)
        requires
            old(self).wf(),
        ensures
            final(self).wf(),
            final(self)@ == old(self)@,
            final(self).pass() == old(self).pass(),
            final(self).memo() == swept(old(self).memo(), old(self).spec_revision()),
            final(self).cached() <= old(self).cached(),
            final(self).continues(old(self)),
    {
        proof {
            self.cache.lemma_count();
        }
        self.cache.sweep(self.revision);
        proof {
            self.cache.lemma_count();
        }
    }

    /// Collects garbage when the memo table holds more than
    /// [`GC_THRESHOLD`] entries, and does nothing otherwise.
    pub fn maybe_collect_garbage(&mut self)
        requires
            old(self).wf(),
        ensures
            final(self).wf(),
            final(self)@ == old(self)@,
            final(self).pass() == old(self).pass(),
            final(self).memo() == if old(self).cached() > GC_THRESHOLD {
                swept(old(self).memo(), old(self).spec_revision())
            } else {
                old(self).memo()
            },
            final(self).cached() <= old(self).cached(),
            final(self).continues(old(self)),
    {
        proof {
            self.cache.lemma_count();
        }
        if self.cache.len() > GC_THRESHOLD {
            self.collect_garbage();
        }
    }
}

/// A copy of recorded reads.
fn copy_deps(deps: &Vec<Dep>) -> (copy: Vec<Dep>)
    ensures
        copy@ == deps@,
{
    let mut copy: Vec<Dep> = Vec::new();
    let mut i: usize = 0;
    while i < deps.len()
        invariant
            i <= deps@.len(),
            copy@ == deps@.take(i as int),
        decreases deps@.len() - i,
    {
        copy.push(deps[i]);
        assert(copy@ =~= deps@.take(i + 1));
        i = i + 1;
    }
    assert(deps@.take(i as int) =~= deps@);
    copy
}

} // verus!
