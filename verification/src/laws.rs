//! What holds of the substrate as a whole, stated over what a client can
//! observe: the revision, the inputs, and the outcome of each query.

use vstd::prelude::*;
use crate::base::Canceled;
use crate::cache::{EntryModel, swept};
use crate::change::{OpModel, lemma_libraries_are_immutable};
use crate::db::{Database, DatabaseView, query_result};
use crate::pass::{QueryKey, Step, eval, input_text};

verus! {

/// Snapshot isolation. A snapshot taken before a change is applied gets the
/// stale signal for every query that it asks after the change.
pub proof fn law_snapshot_isolation<P: Fn(QueryKey, &Vec<String>) -> Step>(
    pass: P,
    db: DatabaseView,
    ops: Seq<OpModel>,
    captured: u64,
    key: QueryKey,
)
    requires
        captured <= db.revision,
        db.revision < u64::MAX,
    ensures
        query_result(pass, db.after(ops), captured, key) == Err::<Seq<char>, Canceled>(Canceled),
{
}

/// A snapshot that has got the stale signal once never revives: whatever
/// changes follow, each of its queries gets the stale signal.
pub proof fn law_stale_stays_stale<P: Fn(QueryKey, &Vec<String>) -> Step>(
    pass: P,
    db: DatabaseView,
    ops: Seq<OpModel>,
    captured: u64,
    asked: QueryKey,
    key: QueryKey,
)
    requires
        captured <= db.revision,
        db.revision < u64::MAX,
        query_result(pass, db, captured, asked) is Err,
    ensures
        captured <= db.after(ops).revision,
        query_result(pass, db.after(ops), captured, key) is Err,
{
}

/// Without a change, a snapshot stays current: a query through a snapshot
/// of the database's own revision is answered.
pub proof fn law_current_snapshot_is_answered<P: Fn(QueryKey, &Vec<String>) -> Step>(
    pass: P,
    db: DatabaseView,
    key: QueryKey,
)
    ensures
        query_result(pass, db, db.revision, key) is Ok,
{
}

/// Revision monotonicity. The revision after a change is greater than the
/// one before, and a snapshot taken after the change reads each file as the
/// change has left it.
pub proof fn law_revision_monotonic<P: Fn(QueryKey, &Vec<String>) -> Step>(
    pass: P,
    db: DatabaseView,
    ops: Seq<OpModel>,
    file: u32,
)
    requires
        db.revision < u64::MAX,
    ensures
        db.after(ops).revision > db.revision,
        query_result(pass, db.after(ops), db.after(ops).revision, QueryKey { func: 0, arg: file as u64 })
            == Ok::<Seq<char>, Canceled>(input_text(db.project.apply(ops).texts(), file as u64)),
{
}

/// No-op idempotence. A change without operations leaves the inputs as
/// they are: a snapshot taken after it gets, for every query, what a
/// snapshot taken before it got before it.
pub proof fn law_empty_change_is_unobservable<P: Fn(QueryKey, &Vec<String>) -> Step>(
    pass: P,
    db: DatabaseView,
    key: QueryKey,
)
    requires
        db.revision < u64::MAX,
    ensures
        db.after(Seq::empty()).project == db.project,
        query_result(pass, db.after(Seq::empty()), db.after(Seq::empty()).revision, key)
            == query_result(pass, db, db.revision, key),
{
}

/// Memoization correctness and garbage-collection transparency. What a
/// query yields depends on the pass, the revision and the inputs alone: two
/// databases that agree on these give every snapshot the same outcome for
/// every key, whatever their memo tables hold. A collection leaves all three
/// as they are.
pub proof fn law_memo_is_unobservable<P: Fn(QueryKey, &Vec<String>) -> Step>(
    one: Database<P>,
    other: Database<P>,
    captured: u64,
    key: QueryKey,
)
    requires
        one.pass() == other.pass(),
        one@ == other@,
    ensures
        query_result(one.pass(), one@, captured, key) == query_result(
            other.pass(),
            other@,
            captured,
            key,
        ),
{
}

/// What a current snapshot is answered is the value computed from scratch.
pub proof fn law_answer_is_from_scratch<P: Fn(QueryKey, &Vec<String>) -> Step>(
    pass: P,
    db: DatabaseView,
    key: QueryKey,
)
    ensures
        query_result(pass, db, db.revision, key) == Ok::<Seq<char>, Canceled>(
            eval(pass, db.project.texts(), key),
        ),
{
}

/// A collection keeps what is in use: an entry that was verified at the
/// current revision is in the memo table afterwards, as it was.
pub proof fn law_collection_keeps_fresh(memo: Map<QueryKey, EntryModel>, rev: u64, key: QueryKey)
    requires
        memo.contains_key(key),
        memo[key].verified_at == rev,
    ensures
        swept(memo, rev).contains_key(key),
        swept(memo, rev)[key] == memo[key],
{
}

/// Library files are immutable: whatever a change holds, a library file of
/// the project is a file of the project afterwards, with the text, the
/// source root and the mark that it had, and a snapshot taken afterwards
/// reads its text as it was.
pub proof fn law_library_files_are_immutable<P: Fn(QueryKey, &Vec<String>) -> Step>(
    pass: P,
    db: DatabaseView,
    ops: Seq<OpModel>,
    file: u32,
)
    requires
        db.project.has_library_file(file),
        db.revision < u64::MAX,
    ensures
        db.after(ops).project.has_library_file(file),
        db.after(ops).project.files[file] == db.project.files[file],
        query_result(pass, db.after(ops), db.after(ops).revision, QueryKey { func: 0, arg: file as u64 })
            == Ok::<Seq<char>, Canceled>(db.project.files[file].text),
{
    lemma_libraries_are_immutable(db.project, ops);
}

} // verus!
