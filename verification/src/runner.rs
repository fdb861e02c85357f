//! Running test cases one after another.
//!
//! A `TestRun` says what to do next; whoever performs it hands the outcome back.
use crate::text::texts_of;
use vstd::prelude::*;

verus! {

/// Outcome of a test case.
#[derive(Debug)]
pub struct TestResult {
    /// test case name
    pub name: String,
    /// true if the test case passed
    pub passed: bool,
    /// (optional) more detailed results, if available
    pub snap_data: Option<Vec<u8>>,
}

/// Whether `results` are those of the first test cases of `names`, in their order, with
/// the given success and without details.
pub open spec fn results_of(
    results: Seq<TestResult>,
    names: Seq<Seq<char>>,
    passed: Seq<bool>,
) -> bool {
    &&& results.len() == passed.len()
    &&& results.len() <= names.len()
    &&& forall|i: int|
        0 <= i < results.len() ==> {
            &&& (#[trigger] results[i]).name@ == names[i]
            &&& results[i].passed == passed[i]
            &&& results[i].snap_data is None
        }
}

/// What a run is waiting for.
#[derive(Clone, Copy, Debug, Eq, PartialEq, Structural)]
pub enum Waiting {
    /// The current test case to end
    Test,
    /// The provider of the current test case to shut down
    Shutdown,
    /// Nothing: the run is over
    Nothing,
}

/// What happened.
pub enum RunEvent {
    /// The test case ended, with or without success.
    Ended(bool),
    /// The task of the test case could not be joined, for the reason given.
    Lost(String),
    /// The provider was told to shut down.
    ShutDown,
}

/// What to do next.
pub enum RunAction {
    /// Run the test case with this number.
    Run(usize),
    /// Tell the provider of the test case with this number to shut down.
    ShutDown(usize),
    /// Return the results.
    Finish(Vec<TestResult>),
    /// Give up, for this reason.
    Abort(String),
}

/// Where a run of test cases stands.
#[verifier::ext_equal]
pub struct RunView {
    /// Names of the test cases
    pub names: Seq<Seq<char>>,
    /// Which of the test cases that ended did so with success
    pub passed: Seq<bool>,
    /// What the run is waiting for
    pub waiting: Waiting,
}

/// Whether `event` is what a run waits for.
pub open spec fn accepts(run: RunView, event: RunEvent) -> bool {
    match event {
        RunEvent::Ended(_) => run.waiting is Test,
        RunEvent::Lost(_) => run.waiting is Test,
        RunEvent::ShutDown => run.waiting is Shutdown,
    }
}

/// A run whose next test case is due: it waits for that one, if there is one left.
pub open spec fn due(names: Seq<Seq<char>>, passed: Seq<bool>) -> RunView {
    RunView {
        names,
        passed,
        waiting: if passed.len() < names.len() {
            Waiting::Test
        } else {
            Waiting::Nothing
        },
    }
}

/// Where a run stands after `event`: a test case that ended is recorded and its provider
/// shuts down, after that the next one is due, and one that was lost ends the run.
pub open spec fn run_after(run: RunView, event: RunEvent) -> RunView {
    match event {
        RunEvent::Ended(passed) => RunView {
            passed: run.passed.push(passed),
            waiting: Waiting::Shutdown,
            ..run
        },
        RunEvent::Lost(_) => RunView { waiting: Waiting::Nothing, ..run },
        RunEvent::ShutDown => due(run.names, run.passed),
    }
}

/// Whether `action` is what is due where `run` stands.
pub open spec fn action_due(action: RunAction, run: RunView) -> bool {
    if run.passed.len() < run.names.len() {
        action matches RunAction::Run(number) && number == run.passed.len()
    } else {
        action matches RunAction::Finish(results) && results_of(results@, run.names, run.passed)
            && results@.len() == run.names.len()
    }
}

/// A run of test cases, always one at a time and in the order given.
pub struct TestRun {
    names: Vec<String>,
    passed: Vec<bool>,
    waiting: Waiting,
}

impl View for TestRun {
    type V = RunView;

    closed spec fn view(&self) -> RunView {
        RunView { names: texts_of(self.names@), passed: self.passed@, waiting: self.waiting }
    }
}

impl TestRun {
    #[verifier::type_invariant]
    spec fn well_formed(self) -> bool {
        &&& self.passed@.len() <= self.names@.len()
        &&& self.waiting is Test ==> self.passed@.len() < self.names@.len()
    }

    /// The results of the test cases that ended.
    fn results(names: &Vec<String>, passed: &Vec<bool>) -> (results: Vec<TestResult>)
        requires
            passed@.len() <= names@.len(),
        ensures
            results_of(results@, texts_of(names@), passed@),
            results@.len() == passed@.len(),
            forall|i: int|
                0 <= i < passed@.len() ==> (#[trigger] results@[i]).name@ == names@[i]@
                    && results@[i].passed == passed@[i] && results@[i].snap_data is None,
    {
        let mut results: Vec<TestResult> = Vec::new();
        let mut i: usize = 0;
        while i < passed.len()
            invariant
                i <= passed@.len() <= names@.len(),
                results_of(results@, texts_of(names@), passed@.take(i as int)),
            decreases passed@.len() - i,
        {
            let ghost before = results@;
            results.push(
                TestResult { name: names[i].clone(), passed: passed[i], snap_data: None },
            );
            assert forall|j: int| 0 <= j < results@.len() implies {
                &&& (#[trigger] results@[j]).name@ == texts_of(names@)[j]
                &&& results@[j].passed == passed@.take(i + 1)[j]
                &&& results@[j].snap_data is None
            } by {
                if j < i {
                    assert(results@[j] == before[j]);
                    assert(before[j].name@ == texts_of(names@)[j]);
                }
            }
            i = i + 1;
        }
        assert(passed@.take(i as int) =~= passed@);
        assert(forall|j: int|
            0 <= j < names@.len() ==> #[trigger] texts_of(names@)[j] == names@[j]@);
        results
    }

    /// The run whose next test case is due, with what to do.
    fn begin(names: Vec<String>, passed: Vec<bool>) -> (begun: (TestRun, RunAction))
        requires
            passed@.len() <= names@.len(),
        ensures
            begun.0@ == due(texts_of(names@), passed@),
            action_due(begun.1, due(texts_of(names@), passed@)),
    {
        if passed.len() < names.len() {
            let number: usize = passed.len();
            (TestRun { names, passed, waiting: Waiting::Test }, RunAction::Run(number))
        } else {
            let results = TestRun::results(&names, &passed);
            (TestRun { names, passed, waiting: Waiting::Nothing }, RunAction::Finish(results))
        }
    }

    /// Takes what happened and says what to do next. A test case that ended is recorded,
    /// then its provider is shut down, then the next test case runs; one that was lost
    /// ends the run.
    pub fn next(self, event: RunEvent) -> (moved: (TestRun, RunAction))
        requires
            accepts(self@, event),
        ensures
            moved.0@ == run_after(self@, event),
            match event {
                RunEvent::Ended(_) => moved.1 matches RunAction::ShutDown(number) && number
                    == self@.passed.len(),
                RunEvent::Lost(cause) => moved.1 == RunAction::Abort(cause),
                RunEvent::ShutDown => action_due(moved.1, self@),
            },
            event is ShutDown ==> action_due(moved.1, moved.0@),
            moved.0@.names == self@.names,
            match event {
                RunEvent::Ended(success) => {
                    &&& moved.0@.passed == self@.passed.push(success)
                    &&& moved.0@.waiting is Shutdown
                },
                RunEvent::Lost(_) => {
                    &&& moved.0@.passed == self@.passed
                    &&& moved.0@.waiting is Nothing
                },
                RunEvent::ShutDown => {
                    &&& moved.0@.passed == self@.passed
                    &&& if self@.passed.len() < self@.names.len() {
                        &&& moved.0@.waiting is Test
                        &&& moved.1 matches RunAction::Run(number) && number == self@.passed.len()
                    } else {
                        &&& moved.0@.waiting is Nothing
                        &&& moved.1 matches RunAction::Finish(results) && results@.len()
                            == self@.names.len() && results@.len() == self@.passed.len()
                            && forall|i: int|
                            0 <= i < results@.len() ==> (#[trigger] results@[i]).name@
                                == self@.names[i] && results@[i].passed == self@.passed[i]
                                && results@[i].snap_data is None
                    }
                },
            },
    {
        proof {
            use_type_invariant(&self);
        }
        let mut passed: Vec<bool> = self.passed;
        match event {
            RunEvent::Ended(success) => {
                let number: usize = passed.len();
                passed.push(success);
                let run = TestRun { names: self.names, passed, waiting: Waiting::Shutdown };
                (run, RunAction::ShutDown(number))
            },
            RunEvent::Lost(cause) => {
                let run = TestRun { names: self.names, passed, waiting: Waiting::Nothing };
                (run, RunAction::Abort(cause))
            },
            RunEvent::ShutDown => TestRun::begin(self.names, passed),
        }
    }

    /// Tells whether `event` is what the run waits for.
    pub fn can_accept(&self, event: &RunEvent) -> (accepted: bool)
        ensures
            accepted == accepts(self@, *event),
            accepted == (match *event {
                RunEvent::Ended(_) => self@.waiting is Test,
                RunEvent::Lost(_) => self@.waiting is Test,
                RunEvent::ShutDown => self@.waiting is Shutdown,
            }),
    {
        match event {
            RunEvent::Ended(_) => self.waiting == Waiting::Test,
            RunEvent::Lost(_) => self.waiting == Waiting::Test,
            RunEvent::ShutDown => self.waiting == Waiting::Shutdown,
        }
    }
}

/// Begins a run of the test cases with the given names, and says what to do first.
pub fn run_tests(names: Vec<String>) -> (begun: (TestRun, RunAction))
    ensures
        begun.0@ == due(texts_of(names@), Seq::empty()),
        action_due(begun.1, due(texts_of(names@), Seq::empty())),
        begun.0@.names.len() == names@.len(),
        forall|i: int| 0 <= i < names@.len() ==> #[trigger] begun.0@.names[i] == names@[i]@,
        begun.0@.passed.len() == 0,
        names@.len() > 0 ==> begun.0@.waiting is Test && begun.1 == RunAction::Run(0),
        names@.len() == 0 ==> begun.0@.waiting is Nothing && (begun.1 matches RunAction::Finish(
            results,
        ) && results@.len() == 0),
{
    TestRun::begin(names, Vec::new())
}

/// Where a run stands after a list of events.
pub open spec fn run_reached(run: RunView, events: Seq<RunEvent>) -> RunView
    decreases events.len(),
{
    if events.len() == 0 {
        run
    } else {
        run_after(run_reached(run, events.drop_last()), events.last())
    }
}

/// The success of the test cases that ended, in the order in which they did.
pub open spec fn successes(events: Seq<RunEvent>) -> Seq<bool>
    decreases events.len(),
{
    if events.len() == 0 {
        Seq::empty()
    } else {
        match events.last() {
            RunEvent::Ended(passed) => successes(events.drop_last()).push(passed),
            _ => successes(events.drop_last()),
        }
    }
}

/// A run records each test case that ended, in the order in which they did, and nothing
/// else; the names stay as they were given.
pub proof fn run_records_what_ended(names: Seq<Seq<char>>, events: Seq<RunEvent>)
    ensures
        run_reached(due(names, Seq::empty()), events).passed == successes(events),
        run_reached(due(names, Seq::empty()), events).names == names,
    decreases events.len(),
{
    if events.len() > 0 {
        run_records_what_ended(names, events.drop_last());
    }
}

/// Whether each of a list of events is what the run waits for when it comes.
pub open spec fn accepted_in_turn(run: RunView, events: Seq<RunEvent>) -> bool
    decreases events.len(),
{
    events.len() > 0 ==> {
        &&& accepted_in_turn(run, events.drop_last())
        &&& accepts(run_reached(run, events.drop_last()), events.last())
    }
}

/// Whether the outcomes and shutdowns of test cases take turns in a list of events.
pub open spec fn takes_turns(events: Seq<RunEvent>) -> bool {
    forall|i: int|
        0 <= i < events.len() ==> if i % 2 == 0 {
            #[trigger] events[i] is Ended
        } else {
            events[i] is ShutDown
        }
}

/// All tests are executed, and each is followed by the shutdown of its provider: in a run
/// in which no test case is lost the two take turns, and the run is over exactly when
/// every test case ended and every provider was told to shut down.
pub proof fn run_executes_all_tests(names: Seq<Seq<char>>, events: Seq<RunEvent>)
    requires
        accepted_in_turn(due(names, Seq::empty()), events),
        forall|i: int| 0 <= i < events.len() ==> !(#[trigger] events[i] is Lost),
    ensures
        takes_turns(events),
        successes(events).len() == (events.len() + 1) / 2,
        run_reached(due(names, Seq::empty()), events).waiting == (if events.len() % 2 == 1 {
            Waiting::Shutdown
        } else if events.len() < 2 * names.len() {
            Waiting::Test
        } else {
            Waiting::Nothing
        }),
        events.len() <= 2 * names.len(),
    decreases events.len(),
{
    if events.len() > 0 {
        let rest = events.drop_last();
        assert(forall|i: int| 0 <= i < rest.len() ==> #[trigger] rest[i] == events[i]);
        run_executes_all_tests(names, rest);
        run_records_what_ended(names, rest);
        assert(events.last() == events[events.len() - 1]);
        assert forall|i: int| 0 <= i < events.len() implies if i % 2 == 0 {
            #[trigger] events[i] is Ended
        } else {
            events[i] is ShutDown
        } by {
            if i < rest.len() {
                assert(rest[i] == events[i]);
            }
        }
    }
}

/// A run that is over reports each test case by its own outcome: the events are the outcomes
/// and shutdowns of the test cases in turn, there is one result for each name, and result
/// `i` has name `i` and the success with which test case `i` ended, whatever became of the
/// others.
pub proof fn results_are_the_outcomes(
    names: Seq<Seq<char>>,
    events: Seq<RunEvent>,
    action: RunAction,
)
    requires
        accepted_in_turn(due(names, Seq::empty()), events),
        forall|i: int| 0 <= i < events.len() ==> !(#[trigger] events[i] is Lost),
        action_due(action, run_reached(due(names, Seq::empty()), events)),
        action is Finish,
        run_reached(due(names, Seq::empty()), events).waiting is Nothing,
    ensures
        events.len() == 2 * names.len(),
        action->Finish_0@.len() == names.len(),
        forall|i: int|
            0 <= i < names.len() ==> {
                let result = #[trigger] action->Finish_0@[i];
                &&& result.name@ == names[i]
                &&& events[2 * i] is Ended
                &&& events[2 * i + 1] is ShutDown
                &&& result.passed == events[2 * i]->Ended_0
                &&& result.passed == successes(events)[i]
                &&& result.snap_data is None
            },
{
    run_executes_all_tests(names, events);
    run_records_what_ended(names, events);
    assert forall|i: int| 0 <= i < names.len() implies events[2 * i] is Ended && events[2 * i + 1]
        is ShutDown && successes(events)[i] == events[2 * i]->Ended_0 by {
        outcome_of_test(events, i);
        assert(events[2 * i + 1] is ShutDown);
    }
}

/// Where outcomes and shutdowns take turns, the success of test case `i` is that of its own
/// outcome.
proof fn outcome_of_test(events: Seq<RunEvent>, i: int)
    requires
        takes_turns(events),
        0 <= 2 * i < events.len(),
    ensures
        successes(events).len() == (events.len() + 1) / 2,
        events[2 * i] is Ended,
        successes(events)[i] == events[2 * i]->Ended_0,
    decreases events.len(),
{
    let rest = events.drop_last();
    assert(forall|k: int| 0 <= k < rest.len() ==> #[trigger] rest[k] == events[k]);
    assert(takes_turns(rest));
    assert(events.last() == events[events.len() - 1]);
    if 2 * i < rest.len() {
        outcome_of_test(rest, i);
    } else if rest.len() > 0 {
        outcome_of_test(rest, 0);
    }
}

/// Successes are those of the outcomes, one by one: the successes of two lists of events in
/// a row are those of the first and then those of the second, an outcome gives its own, and
/// nothing else gives any.
pub proof fn successes_are_the_outcomes(
    a: Seq<RunEvent>,
    b: Seq<RunEvent>,
    passed: bool,
    cause: String,
)
    ensures
        successes(a + b) == successes(a) + successes(b),
        successes(seq![RunEvent::Ended(passed)]) == seq![passed],
        successes(seq![RunEvent::Lost(cause)]).len() == 0,
        successes(seq![RunEvent::ShutDown]).len() == 0,
        successes(Seq::<RunEvent>::empty()).len() == 0,
    decreases b.len(),
{
    reveal_with_fuel(successes, 2);
    assert(seq![RunEvent::Ended(passed)].drop_last() =~= Seq::<RunEvent>::empty());
    assert(seq![RunEvent::Lost(cause)].drop_last() =~= Seq::<RunEvent>::empty());
    assert(seq![RunEvent::ShutDown].drop_last() =~= Seq::<RunEvent>::empty());
    assert(successes(seq![RunEvent::Ended(passed)]) =~= seq![passed]);
    if b.len() == 0 {
        assert(a + b =~= a);
        assert(successes(a) + successes(b) =~= successes(a));
    } else {
        successes_are_the_outcomes(a, b.drop_last(), passed, cause);
        assert((a + b).drop_last() =~= a + b.drop_last());
        assert((a + b).last() == b.last());
        assert(successes(a + b) =~= successes(a) + successes(b));
    }
}

/// One event moves a run by one step: an outcome is added to those before and makes the run
/// wait for the shutdown, after which the next test case is due, or none is left; a lost
/// test case ends the run. Names and earlier outcomes stay as they are.
pub proof fn one_event_moves_one_step(run: RunView, passed: bool, cause: String)
    ensures
        run_after(run, RunEvent::Ended(passed)).passed == run.passed.push(passed),
        run_after(run, RunEvent::Ended(passed)).names == run.names,
        run_after(run, RunEvent::Ended(passed)).waiting is Shutdown,
        run_after(run, RunEvent::ShutDown).passed == run.passed,
        run_after(run, RunEvent::ShutDown).names == run.names,
        run_after(run, RunEvent::ShutDown).waiting is Test <==> run.passed.len() < run.names.len(),
        run_after(run, RunEvent::ShutDown).waiting is Nothing <==> run.passed.len()
            >= run.names.len(),
        run_after(run, RunEvent::Lost(cause)).passed == run.passed,
        run_after(run, RunEvent::Lost(cause)).names == run.names,
        run_after(run, RunEvent::Lost(cause)).waiting is Nothing,
        accepts(run, RunEvent::Ended(passed)) <==> run.waiting is Test,
        accepts(run, RunEvent::Lost(cause)) <==> run.waiting is Test,
        accepts(run, RunEvent::ShutDown) <==> run.waiting is Shutdown,
{
}

} // verus!
