//! Passes: the pure functions that the database memoizes, and what it means
//! to evaluate one from scratch.

use vstd::prelude::*;

verus! {

/// Identity of a memoized computation: which function, applied to which
/// argument. Function `0` is the file-text input; its argument is a file id.
#[derive(Clone, Copy, Debug, PartialEq, Eq, Structural)]
pub struct QueryKey {
    pub func: u32,
    pub arg: u64,
}

/// What a pass wants next, given the values it has read so far.
#[derive(Debug)]
pub enum Step {
    /// The pass has finished with this value.
    Done(String),
    /// The pass needs the value of another key before it can go on.
    Read(QueryKey),
}

/// Mathematical model of a [`Step`].
pub enum StepModel {
    Done(Seq<char>),
    Read(QueryKey),
}

impl View for Step {
    type V = StepModel;

    open spec fn view(&self) -> StepModel {
        match self {
            Step::Done(v) => StepModel::Done(v@),
            Step::Read(k) => StepModel::Read(*k),
        }
    }
}

/// The texts held by a sequence of strings.
pub open spec fn texts(v: Seq<String>) -> Seq<Seq<char>> {
    Seq::new(v.len(), |i: int| v[i]@)
}

/// A pass is usable when it accepts every input and its answer is a
/// function of the key and of the texts read so far.
pub open spec fn well_formed<P: Fn(QueryKey, &Vec<String>) -> Step>(pass: P) -> bool {
    &&& forall|key: QueryKey, vals: Vec<String>| #[trigger] pass.requires((key, &vals))
    &&& forall|key: QueryKey, v1: Vec<String>, v2: Vec<String>, r1: Step, r2: Step|
        texts(v1@) == texts(v2@) && #[trigger] pass.ensures((key, &v1), r1)
            && #[trigger] pass.ensures((key, &v2), r2) ==> r1@ == r2@
}

/// `step` is an answer that `pass` can give for `key` after reading `vals`.
pub open spec fn can_answer<P: Fn(QueryKey, &Vec<String>) -> Step>(
    pass: P,
    key: QueryKey,
    vals: Seq<Seq<char>>,
    step: StepModel,
) -> bool {
    exists|v: Vec<String>, r: Step|
        texts(v@) == vals && #[trigger] pass.ensures((key, &v), r) && r@ == step
}

/// The answer of `pass` for `key` after reading `vals`.
pub open spec fn pass_step<P: Fn(QueryKey, &Vec<String>) -> Step>(
    pass: P,
    key: QueryKey,
    vals: Seq<Seq<char>>,
) -> StepModel {
    choose|step: StepModel| can_answer(pass, key, vals, step)
}

/// An executed step of a well-formed pass is the step of the model.
pub proof fn lemma_step_is_model<P: Fn(QueryKey, &Vec<String>) -> Step>(
    pass: P,
    key: QueryKey,
    vals: Vec<String>,
    r: Step,
)
    requires
        well_formed(pass),
        pass.ensures((key, &vals), r),
    ensures
        pass_step(pass, key, texts(vals@)) == r@,
{
    assert(can_answer(pass, key, texts(vals@), r@));
    let s = pass_step(pass, key, texts(vals@));
    assert(can_answer(pass, key, texts(vals@), s));
    let (v2, r2) = choose|v: Vec<String>, r2: Step|
        texts(v@) == texts(vals@) && #[trigger] pass.ensures((key, &v), r2) && r2@ == s;
    assert(r2@ == r@);
}

/// The most dependencies that one run of a pass may read. A pass that asks
/// for more is cut off and yields the empty text.
pub const READ_LIMIT: usize = 1_048_576;

/// The text of the input with argument `arg`; empty where there is no such
/// file.
pub open spec fn input_text(inputs: Map<u32, Seq<char>>, arg: u64) -> Seq<char> {
    if arg <= u32::MAX && inputs.contains_key(arg as u32) {
        inputs[arg as u32]
    } else {
        Seq::empty()
    }
}

/// A pass at function `level` may read inputs and the functions below its
/// own.
pub open spec fn readable(level: u32, dep: QueryKey) -> bool {
    dep.func < level
}

/// The rest of a run of `pass` for `key` over `inputs` that has read `vals`
/// so far and may read `fuel` more. Each read is answered by the value of
/// the key read: the text of the file for an input key, what a run of its
/// own yields for a key that is [`readable`], and the empty text otherwise.
/// A run that asks for more than it may read yields the empty text.
pub open spec fn run<P: Fn(QueryKey, &Vec<String>) -> Step>(
    pass: P,
    inputs: Map<u32, Seq<char>>,
    key: QueryKey,
    vals: Seq<Seq<char>>,
    fuel: nat,
) -> Seq<char>
    decreases key.func, fuel,
{
    match pass_step(pass, key, vals) {
        StepModel::Done(v) => v,
        StepModel::Read(dep) => if fuel == 0 {
            Seq::empty()
        } else {
            let answer = if dep.func == 0 {
                input_text(inputs, dep.arg)
            } else if readable(key.func, dep) {
                run(pass, inputs, dep, Seq::empty(), READ_LIMIT as nat)
            } else {
                Seq::empty()
            };
            run(pass, inputs, key, vals.push(answer), (fuel - 1) as nat)
        },
    }
}

/// The value of `key` computed from scratch over `inputs`: the text of the
/// file for an input key, and otherwise what a run of the pass yields.
pub open spec fn eval<P: Fn(QueryKey, &Vec<String>) -> Step>(
    pass: P,
    inputs: Map<u32, Seq<char>>,
    key: QueryKey,
) -> Seq<char> {
    if key.func == 0 {
        input_text(inputs, key.arg)
    } else {
        run(pass, inputs, key, Seq::empty(), READ_LIMIT as nat)
    }
}

/// What a read of `dep` by a pass at function `level` is answered with.
pub open spec fn read_value<P: Fn(QueryKey, &Vec<String>) -> Step>(
    pass: P,
    inputs: Map<u32, Seq<char>>,
    level: u32,
    dep: QueryKey,
) -> Seq<char> {
    if readable(level, dep) {
        eval(pass, inputs, dep)
    } else {
        Seq::empty()
    }
}

/// A recorded run: `pass`, run for `key`, asked for `deps` in this order when
/// answered with `answers`, and then yielded `value`.
pub open spec fn follows<P: Fn(QueryKey, &Vec<String>) -> Step>(
    pass: P,
    key: QueryKey,
    deps: Seq<QueryKey>,
    answers: Seq<Seq<char>>,
    value: Seq<char>,
) -> bool {
    &&& deps.len() == answers.len()
    &&& deps.len() <= READ_LIMIT
    &&& forall|i: int|
        0 <= i < deps.len() ==> #[trigger] pass_step(pass, key, answers.take(i))
            == StepModel::Read(deps[i])
    &&& match pass_step(pass, key, answers) {
        StepModel::Done(v) => v == value,
        StepModel::Read(_) => deps.len() == READ_LIMIT && value == Seq::<char>::empty(),
    }
}

/// A recorded run whose answers are still the values of the keys read is
/// what a run from scratch does, from its `i`-th read on.
proof fn lemma_replay_from<P: Fn(QueryKey, &Vec<String>) -> Step>(
    pass: P,
    inputs: Map<u32, Seq<char>>,
    key: QueryKey,
    deps: Seq<QueryKey>,
    answers: Seq<Seq<char>>,
    value: Seq<char>,
    i: int,
)
    requires
        key.func > 0,
        follows(pass, key, deps, answers, value),
        forall|j: int|
            0 <= j < deps.len() ==> #[trigger] answers[j] == read_value(
                pass,
                inputs,
                key.func,
                deps[j],
            ),
        0 <= i <= deps.len(),
    ensures
        run(pass, inputs, key, answers.take(i), (READ_LIMIT - i) as nat) == value,
    decreases deps.len() - i,
{
    if i == deps.len() {
        assert(answers.take(i) =~= answers);
    } else {
        assert(pass_step(pass, key, answers.take(i)) == StepModel::Read(deps[i]));
        assert(answers[i] == read_value(pass, inputs, key.func, deps[i]));
        assert(answers.take(i).push(answers[i]) =~= answers.take(i + 1));
        lemma_replay_from(pass, inputs, key, deps, answers, value, i + 1);
    }
}

/// A recorded run whose answers are still the values of the keys read
/// yields the value that a computation from scratch yields.
pub proof fn lemma_replay<P: Fn(QueryKey, &Vec<String>) -> Step>(
    pass: P,
    inputs: Map<u32, Seq<char>>,
    key: QueryKey,
    deps: Seq<QueryKey>,
    answers: Seq<Seq<char>>,
    value: Seq<char>,
)
    requires
        key.func > 0,
        follows(pass, key, deps, answers, value),
        forall|j: int|
            0 <= j < deps.len() ==> #[trigger] answers[j] == read_value(
                pass,
                inputs,
                key.func,
                deps[j],
            ),
    ensures
        eval(pass, inputs, key) == value,
{
    lemma_replay_from(pass, inputs, key, deps, answers, value, 0);
    assert(answers.take(0) =~= Seq::empty());
}

/// Runs `pass` once for `key` on the values read so far.
pub fn step<P: Fn(QueryKey, &Vec<String>) -> Step>(pass: &P, key: QueryKey, vals: &Vec<String>) -> (r:
    Step)
    requires
        well_formed(*pass),
    ensures
        r@ == pass_step(*pass, key, texts(vals@)),
{
    let r = pass(key, vals);
    proof {
        lemma_step_is_model(*pass, key, *vals, r);
    }
    r
}

} // verus!
