//! What the database keeps true of its memo table, and why it stays true.

use vstd::prelude::*;
use crate::cache::{Dep, EntryModel};
use crate::change::{FileModel, file_texts, library_kept};
use crate::pass::{QueryKey, Step, eval, follows, lemma_replay, read_value};

verus! {

/// Every value that a key has had, by the revision at which it became that
/// value.
pub type Seen = Map<(QueryKey, u64), Seq<char>>;

/// The key of the text of file `id`.
pub open spec fn input_key(id: u32) -> QueryKey {
    QueryKey { func: 0, arg: id as u64 }
}

/// `later` knows all that `earlier` knows.
pub open spec fn extends(later: Seen, earlier: Seen) -> bool {
    forall|p: (QueryKey, u64)| #[trigger]
        earlier.contains_key(p) ==> later.contains_key(p) && later[p] == earlier[p]
}

/// The value that answered a recorded read.
pub open spec fn dep_value(seen: Seen, dep: Dep) -> Seq<char> {
    match dep.stamp {
        Some(s) => seen[(dep.key, s)],
        None => Seq::empty(),
    }
}

/// The keys of recorded reads.
pub open spec fn dep_keys(deps: Seq<Dep>) -> Seq<QueryKey> {
    Seq::new(deps.len(), |i: int| deps[i].key)
}

/// The values that answered recorded reads.
pub open spec fn dep_values(seen: Seen, deps: Seq<Dep>) -> Seq<Seq<char>> {
    Seq::new(deps.len(), |i: int| dep_value(seen, deps[i]))
}

/// Each stamp of a recorded read names a value that is known.
pub open spec fn deps_known(seen: Seen, deps: Seq<Dep>) -> bool {
    forall|i: int|
        0 <= i < deps.len() ==> match (#[trigger] deps[i]).stamp {
            Some(s) => seen.contains_key((deps[i].key, s)),
            None => true,
        }
}

/// What holds of each entry of the memo table: its stamps are in order, its
/// value is recorded under the stamp at which it changed, it is what the
/// pass yields when its recorded reads are answered as recorded, and, where
/// it was verified at the current revision, it is the value computed from
/// scratch.
pub open spec fn entry_ok<P: Fn(QueryKey, &Vec<String>) -> Step>(
    pass: P,
    seen: Seen,
    rev: u64,
    inputs: Map<u32, Seq<char>>,
    key: QueryKey,
    e: EntryModel,
) -> bool {
    &&& key.func > 0
    &&& e.changed_at <= e.verified_at <= rev
    &&& seen.contains_key((key, e.changed_at))
    &&& seen[(key, e.changed_at)] == e.value
    &&& deps_known(seen, e.deps)
    &&& follows(pass, key, dep_keys(e.deps), dep_values(seen, e.deps), e.value)
    &&& e.verified_at == rev ==> e.value == eval(pass, inputs, key)
}

/// What holds of each file: its text is recorded under its stamp.
pub open spec fn file_ok(seen: Seen, rev: u64, id: u32, text: Seq<char>, stamp: u64) -> bool {
    &&& stamp <= rev
    &&& seen.contains_key((input_key(id), stamp))
    &&& seen[(input_key(id), stamp)] == text
}

/// What holds of the recorded values: none is from the future, and one of a
/// derived key recorded at the current revision is the value computed from
/// scratch.
pub open spec fn seen_ok<P: Fn(QueryKey, &Vec<String>) -> Step>(
    pass: P,
    seen: Seen,
    rev: u64,
    inputs: Map<u32, Seq<char>>,
) -> bool {
    forall|p: (QueryKey, u64)| #[trigger]
        seen.contains_key(p) ==> p.1 <= rev && (p.1 == rev && p.0.func > 0 ==> seen[p] == eval(
            pass,
            inputs,
            p.0,
        ))
}

/// The value of `key` rests on the library files of `files` alone: it is
/// `value` over any files that have these library files as they are.
pub open spec fn settled<P: Fn(QueryKey, &Vec<String>) -> Step>(
    pass: P,
    files: Map<u32, FileModel>,
    key: QueryKey,
    value: Seq<char>,
) -> bool {
    forall|other: Map<u32, FileModel>| #[trigger]
        library_kept(files, other) ==> eval(pass, file_texts(other), key) == value
}

/// A read of `dep` by a pass at function `level` is answered by `answer`
/// over any files that have the library files of `files` as they are.
pub open spec fn read_settled<P: Fn(QueryKey, &Vec<String>) -> Step>(
    pass: P,
    files: Map<u32, FileModel>,
    level: u32,
    dep: QueryKey,
    answer: Seq<char>,
) -> bool {
    forall|other: Map<u32, FileModel>| #[trigger]
        library_kept(files, other) ==> read_value(pass, file_texts(other), level, dep) == answer
}

/// Each of the reads `deps` is answered as in `answers` over any files that
/// have the library files of `files` as they are.
pub open spec fn reads_settled<P: Fn(QueryKey, &Vec<String>) -> Step>(
    pass: P,
    files: Map<u32, FileModel>,
    level: u32,
    deps: Seq<QueryKey>,
    answers: Seq<Seq<char>>,
) -> bool {
    forall|j: int|
        0 <= j < deps.len() ==> read_settled(pass, files, level, #[trigger] deps[j], answers[j])
}

/// What holds of an entry that is marked durable: its value rests on
/// library files alone.
pub open spec fn durable_ok<P: Fn(QueryKey, &Vec<String>) -> Step>(
    pass: P,
    files: Map<u32, FileModel>,
    key: QueryKey,
    e: EntryModel,
) -> bool {
    e.durable ==> settled(pass, files, key, e.value)
}

/// A recorded run whose reads all rest on library files alone yields a
/// value that rests on library files alone.
pub proof fn lemma_settled_run<P: Fn(QueryKey, &Vec<String>) -> Step>(
    pass: P,
    files: Map<u32, FileModel>,
    key: QueryKey,
    deps: Seq<QueryKey>,
    answers: Seq<Seq<char>>,
    value: Seq<char>,
)
    requires
        key.func > 0,
        follows(pass, key, deps, answers, value),
        reads_settled(pass, files, key.func, deps, answers),
    ensures
        settled(pass, files, key, value),
{
    assert forall|other: Map<u32, FileModel>| #[trigger]
        library_kept(files, other) implies eval(pass, file_texts(other), key) == value by {
        assert forall|j: int| 0 <= j < deps.len() implies #[trigger] answers[j] == read_value(
            pass,
            file_texts(other),
            key.func,
            deps[j],
        ) by {
            assert(read_settled(pass, files, key.func, deps[j], answers[j]));
        }
        lemma_replay(pass, file_texts(other), key, deps, answers, value);
    }
}

/// What rests on the library files of some files rests on those of any
/// files that have kept them.
pub proof fn lemma_settled_later<P: Fn(QueryKey, &Vec<String>) -> Step>(
    pass: P,
    files: Map<u32, FileModel>,
    later: Map<u32, FileModel>,
    key: QueryKey,
    value: Seq<char>,
)
    requires
        settled(pass, files, key, value),
        library_kept(files, later),
    ensures
        settled(pass, later, key, value),
{
    assert forall|other: Map<u32, FileModel>| #[trigger]
        library_kept(later, other) implies eval(pass, file_texts(other), key) == value by {
        assert(library_kept(files, other));
    }
}

/// Recorded reads keep their values when more becomes known.
pub proof fn lemma_dep_values_extend(later: Seen, earlier: Seen, deps: Seq<Dep>)
    requires
        extends(later, earlier),
        deps_known(earlier, deps),
    ensures
        deps_known(later, deps),
        dep_values(later, deps) == dep_values(earlier, deps),
{
    assert forall|i: int| 0 <= i < deps.len() implies dep_value(later, deps[i]) == dep_value(
        earlier,
        deps[i],
    ) && match (#[trigger] deps[i]).stamp {
        Some(s) => later.contains_key((deps[i].key, s)),
        None => true,
    } by {
        match deps[i].stamp {
            Some(s) => {
                assert(earlier.contains_key((deps[i].key, s)));
            },
            None => {},
        }
    }
    assert(dep_values(later, deps) =~= dep_values(earlier, deps));
}

/// An entry that was in order stays so when more becomes known.
pub proof fn lemma_entry_ok_extends<P: Fn(QueryKey, &Vec<String>) -> Step>(
    pass: P,
    later: Seen,
    earlier: Seen,
    rev: u64,
    inputs: Map<u32, Seq<char>>,
    key: QueryKey,
    e: EntryModel,
)
    requires
        extends(later, earlier),
        entry_ok(pass, earlier, rev, inputs, key, e),
    ensures
        entry_ok(pass, later, rev, inputs, key, e),
{
    lemma_dep_values_extend(later, earlier, e.deps);
    assert(earlier.contains_key((key, e.changed_at)));
}

/// An entry that was in order at one revision is in order at a later one,
/// whatever the inputs have become, when no less is known.
pub proof fn lemma_entry_ok_later<P: Fn(QueryKey, &Vec<String>) -> Step>(
    pass: P,
    later: Seen,
    earlier: Seen,
    rev: u64,
    next: u64,
    inputs: Map<u32, Seq<char>>,
    changed: Map<u32, Seq<char>>,
    key: QueryKey,
    e: EntryModel,
)
    requires
        extends(later, earlier),
        entry_ok(pass, earlier, rev, inputs, key, e),
        rev < next,
    ensures
        entry_ok(pass, later, next, changed, key, e),
{
    lemma_dep_values_extend(later, earlier, e.deps);
    assert(earlier.contains_key((key, e.changed_at)));
}

} // verus!
