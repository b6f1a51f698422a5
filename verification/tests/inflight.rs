use std::cell::RefCell;
use std::collections::HashMap;
use std::rc::Rc;

use ra_ide_api::{
    AnalysisChange, AnalysisHost, Canceled, FileId, Progress, QueryKey, SourceRootId, Step, Task,
};

const TEXT: u32 = 0;
const LENGTH: u32 = 1;
const TOTAL: u32 = 2;

fn key(func: u32, arg: u64) -> QueryKey {
    QueryKey { func, arg }
}

type Runs = Rc<RefCell<HashMap<(u32, u64), usize>>>;

/// `LENGTH(f)` is the number of characters of file `f`; `TOTAL(n)` is the
/// sum of `LENGTH(1)` to `LENGTH(n)`. Counts how often a run of each key
/// starts.
fn counting(runs: Runs) -> impl Fn(QueryKey, &Vec<String>) -> Step {
    move |key: QueryKey, vals: &Vec<String>| {
        if vals.is_empty() {
            *runs.borrow_mut().entry((key.func, key.arg)).or_insert(0) += 1;
        }
        match key.func {
            LENGTH => match vals.first() {
                None => Step::Read(QueryKey { func: TEXT, arg: key.arg }),
                Some(text) => Step::Done(text.chars().count().to_string()),
            },
            TOTAL => {
                if (vals.len() as u64) < key.arg {
                    Step::Read(QueryKey { func: LENGTH, arg: vals.len() as u64 + 1 })
                } else {
                    let sum: usize = vals.iter().map(|v| v.parse::<usize>().unwrap()).sum();
                    Step::Done(sum.to_string())
                }
            }
            _ => Step::Done(String::new()),
        }
    }
}

fn runs_of(runs: &Runs, func: u32, arg: u64) -> usize {
    runs.borrow().get(&(func, arg)).copied().unwrap_or(0)
}

fn host_with_three_files(
    runs: &Runs,
) -> AnalysisHost<impl Fn(QueryKey, &Vec<String>) -> Step> {
    let mut host = AnalysisHost::new(counting(runs.clone()));
    let mut change = AnalysisChange::new();
    change.add_file(SourceRootId(0), FileId(1), "a".to_string());
    change.add_file(SourceRootId(0), FileId(2), "bb".to_string());
    change.add_file(SourceRootId(0), FileId(3), "ccc".to_string());
    host.apply_change(change);
    host
}

fn edit(host: &mut AnalysisHost<impl Fn(QueryKey, &Vec<String>) -> Step>, file: u32, text: &str) {
    let mut change = AnalysisChange::new();
    change.change_file(FileId(file), text.to_string());
    host.apply_change(change);
}

/// Takes `task` on until it is over; returns the outcome and the number of
/// steps.
fn finish(
    host: &mut AnalysisHost<impl Fn(QueryKey, &Vec<String>) -> Step>,
    task: Task,
) -> (Result<String, Canceled>, usize) {
    let mut task = task;
    let mut steps = 0;
    loop {
        steps += 1;
        match host.advance(task) {
            Ok(Progress::Pending(rest)) => task = rest,
            Ok(Progress::Ready(value)) => return (Ok(value), steps),
            Err(Canceled) => return (Err(Canceled), steps),
        }
    }
}

fn pending(progress: Result<Progress, Canceled>) -> Task {
    match progress {
        Ok(Progress::Pending(task)) => task,
        Ok(Progress::Ready(value)) => panic!("ready with {:?}", value),
        Err(Canceled) => panic!("canceled"),
    }
}

#[test]
fn query_in_steps_yields_what_the_query_at_once_yields() {
    let runs: Runs = Rc::default();
    let mut host = host_with_three_files(&runs);
    let s = host.analysis();
    let task = s.begin(&host, key(TOTAL, 3));
    assert_eq!(task.key(), key(TOTAL, 3));
    // One step to look the key up, one for each read, one to end the run.
    assert_eq!(finish(&mut host, task), (Ok("6".to_string()), 5));
    assert_eq!(s.query(&mut host, key(TOTAL, 3)), Ok("6".to_string()));
    assert_eq!(runs_of(&runs, TOTAL, 3), 1);
    // What is memoized is served at the first step.
    let task = s.begin(&host, key(TOTAL, 3));
    assert_eq!(finish(&mut host, task), (Ok("6".to_string()), 1));
    assert_eq!(runs_of(&runs, TOTAL, 3), 1);
}

#[test]
fn input_is_ready_at_the_first_step() {
    let runs: Runs = Rc::default();
    let mut host = host_with_three_files(&runs);
    let s = host.analysis();
    let task = s.begin(&host, key(TEXT, 2));
    assert_eq!(finish(&mut host, task), (Ok("bb".to_string()), 1));
    let task = s.begin(&host, key(TEXT, 9));
    assert_eq!(finish(&mut host, task), (Ok(String::new()), 1));
}

#[test]
fn change_cancels_a_query_in_flight() {
    let runs: Runs = Rc::default();
    let mut host = host_with_three_files(&runs);
    let s = host.analysis();
    let task = s.begin(&host, key(TOTAL, 3));
    let task = pending(host.advance(task));
    let task = pending(host.advance(task));
    let task = pending(host.advance(task));
    assert_eq!(runs_of(&runs, TOTAL, 3), 1);
    assert_eq!(runs_of(&runs, LENGTH, 2), 1);
    assert_eq!(runs_of(&runs, LENGTH, 3), 0);
    edit(&mut host, 3, "cccc");
    assert!(matches!(host.advance(task), Err(Canceled)));
    // Nothing of the canceled run was memoized: the key is run from its
    // first step again, over what its finished reads have left.
    let t = host.analysis();
    assert_eq!(t.query(&mut host, key(TOTAL, 3)), Ok("7".to_string()));
    assert_eq!(runs_of(&runs, TOTAL, 3), 2);
    assert_eq!(runs_of(&runs, LENGTH, 1), 1);
    assert_eq!(runs_of(&runs, LENGTH, 2), 1);
    assert_eq!(runs_of(&runs, LENGTH, 3), 1);
}

#[test]
fn stale_query_is_canceled_at_its_first_step() {
    let runs: Runs = Rc::default();
    let mut host = host_with_three_files(&runs);
    let s = host.analysis();
    let task = s.begin(&host, key(TOTAL, 3));
    host.apply_change(AnalysisChange::new());
    assert_eq!(finish(&mut host, task), (Err(Canceled), 1));
    let task = s.begin(&host, key(TEXT, 1));
    assert_eq!(finish(&mut host, task), (Err(Canceled), 1));
    assert_eq!(runs_of(&runs, TOTAL, 3), 0);
}

#[test]
fn collection_does_not_disturb_a_query_in_flight() {
    let runs: Runs = Rc::default();
    let mut host = host_with_three_files(&runs);
    let s = host.analysis();
    let task = s.begin(&host, key(TOTAL, 3));
    let task = pending(host.advance(task));
    let task = pending(host.advance(task));
    host.collect_garbage();
    host.maybe_collect_garbage();
    assert_eq!(finish(&mut host, task), (Ok("6".to_string()), 3));
    assert_eq!(runs_of(&runs, TOTAL, 3), 1);
    assert_eq!(runs_of(&runs, LENGTH, 1), 1);
}

#[test]
fn queries_in_flight_take_turns() {
    let runs: Runs = Rc::default();
    let mut host = host_with_three_files(&runs);
    let s = host.analysis();
    let mut one = s.begin(&host, key(TOTAL, 3));
    let mut two = s.begin(&host, key(TOTAL, 3));
    let mut other = s.begin(&host, key(TOTAL, 2));
    for _ in 0..3 {
        one = pending(host.advance(one));
        two = pending(host.advance(two));
        other = pending(host.advance(other));
    }
    assert_eq!(finish(&mut host, other), (Ok("3".to_string()), 1));
    one = pending(host.advance(one));
    assert_eq!(finish(&mut host, two), (Ok("6".to_string()), 2));
    assert_eq!(finish(&mut host, one), (Ok("6".to_string()), 1));
    assert_eq!(runs_of(&runs, LENGTH, 1), 1);
    assert_eq!(runs_of(&runs, LENGTH, 2), 1);
    assert_eq!(runs_of(&runs, LENGTH, 3), 1);
}

#[test]
fn revalidation_takes_one_recorded_read_per_step() {
    let runs: Runs = Rc::default();
    let mut host = host_with_three_files(&runs);
    assert_eq!(host.analysis().query(&mut host, key(TOTAL, 3)), Ok("6".to_string()));
    // Another text of the same length: every recorded read of the total holds.
    edit(&mut host, 2, "BB");
    let s = host.analysis();
    let task = s.begin(&host, key(TOTAL, 3));
    // One step to look the key up, one for each recorded read, one to renew.
    assert_eq!(finish(&mut host, task), (Ok("6".to_string()), 5));
    assert_eq!(runs_of(&runs, TOTAL, 3), 1);
    assert_eq!(runs_of(&runs, LENGTH, 2), 2);
    // A longer text: the second recorded read does not hold, and the run
    // starts over.
    edit(&mut host, 2, "bbbb");
    let s = host.analysis();
    let task = s.begin(&host, key(TOTAL, 3));
    assert_eq!(finish(&mut host, task), (Ok("8".to_string()), 7));
    assert_eq!(runs_of(&runs, TOTAL, 3), 2);
    assert_eq!(runs_of(&runs, LENGTH, 1), 1);
    assert_eq!(runs_of(&runs, LENGTH, 2), 3);
    assert_eq!(runs_of(&runs, LENGTH, 3), 1);
}

#[test]
fn revalidation_in_flight_yields_to_a_finished_run() {
    let runs: Runs = Rc::default();
    let mut host = host_with_three_files(&runs);
    assert_eq!(host.analysis().query(&mut host, key(TOTAL, 3)), Ok("6".to_string()));
    edit(&mut host, 3, "cccccc");
    let s = host.analysis();
    let task = s.begin(&host, key(TOTAL, 3));
    let task = pending(host.advance(task));
    let task = pending(host.advance(task));
    // Meanwhile the key is brought up to date at once: the query in flight
    // finds it so at its next step.
    assert_eq!(s.query(&mut host, key(TOTAL, 3)), Ok("9".to_string()));
    assert_eq!(runs_of(&runs, TOTAL, 3), 2);
    assert_eq!(finish(&mut host, task), (Ok("9".to_string()), 1));
    assert_eq!(runs_of(&runs, TOTAL, 3), 2);
}

#[test]
fn database_takes_queries_in_steps_too() {
    let runs: Runs = Rc::default();
    let mut db = ra_ide_api::Database::new(counting(runs.clone()));
    db.set_input(FileId(1), "abcd".to_string());
    let s = db.snapshot();
    let task = db.begin(key(LENGTH, 1), &s);
    let task = match db.advance(task) {
        Ok(Progress::Pending(task)) => task,
        _ => panic!("the first step looks the key up"),
    };
    let task = match db.advance(task) {
        Ok(Progress::Pending(task)) => task,
        _ => panic!("the second step reads the file"),
    };
    match db.advance(task) {
        Ok(Progress::Ready(value)) => assert_eq!(value, "4"),
        _ => panic!("the third step ends the run"),
    }
    let task = db.begin(key(LENGTH, 1), &s);
    db.set_input(FileId(1), "abc".to_string());
    assert!(matches!(db.advance(task), Err(Canceled)));
}
