//! The report of test results on a terminal.
use crate::text::{decimal, to_decimal};
use vstd::prelude::*;
use vstd::string::*;

verus! {

/// Colors of the report.
#[derive(Clone, Copy, Debug, Eq, PartialEq, Structural)]
pub enum Color {
    Green,
    Red,
}

/// One step of writing the report to a terminal.
#[derive(Debug)]
pub enum TermOp {
    /// Write in this color from here on.
    Paint(Color),
    /// Write with no color set from here on.
    Unpaint,
    /// Go back to the state of the terminal.
    Reset,
    /// Write this text.
    Write(String),
}

/// What a step does, with its text as a sequence of characters.
pub enum OpView {
    Paint(Color),
    Unpaint,
    Reset,
    Write(Seq<char>),
}

impl View for TermOp {
    type V = OpView;

    open spec fn view(&self) -> OpView {
        match self {
            TermOp::Paint(color) => OpView::Paint(*color),
            TermOp::Unpaint => OpView::Unpaint,
            TermOp::Reset => OpView::Reset,
            TermOp::Write(text) => OpView::Write(text@),
        }
    }
}

/// What the steps of a list do.
pub open spec fn ops_of(ops: Seq<TermOp>) -> Seq<OpView> {
    ops.map_values(|op: TermOp| op@)
}

/// A test result, with the error that its details report, if they report one.
#[derive(Debug)]
pub struct ReportedTest {
    /// test case name
    pub name: String,
    /// true if the test case passed
    pub passed: bool,
    /// error in the details of the result
    pub error: Option<String>,
}

/// The error that a test result reports; none is as good as an empty one.
pub open spec fn error_text(test: ReportedTest) -> Seq<char> {
    match test.error {
        Some(error) => error@,
        None => Seq::empty(),
    }
}

/// The lines of the report for one test: the name where it passed, the error where it
/// failed.
pub open spec fn test_ops(test: ReportedTest) -> Seq<OpView> {
    if test.passed {
        seq![
            OpView::Paint(Color::Green),
            OpView::Write("Pass"@),
            OpView::Reset,
            OpView::Write(": "@ + test.name@ + "\n"@),
        ]
    } else {
        seq![
            OpView::Paint(Color::Red),
            OpView::Write("Fail"@),
            OpView::Reset,
            OpView::Write(": "@ + error_text(test) + "\n"@),
        ]
    }
}

/// The lines of the report for a list of tests, in their order.
pub open spec fn tests_ops(tests: Seq<ReportedTest>) -> Seq<OpView>
    decreases tests.len(),
{
    if tests.len() == 0 {
        Seq::empty()
    } else {
        tests_ops(tests.drop_last()) + test_ops(tests.last())
    }
}

/// How many of a list of tests passed.
pub open spec fn count_passed(tests: Seq<ReportedTest>) -> nat
    decreases tests.len(),
{
    if tests.len() == 0 {
        0
    } else if tests.last().passed {
        count_passed(tests.drop_last()) + 1
    } else {
        count_passed(tests.drop_last())
    }
}

/// The number of tests as the report counts them, in 32 bits.
pub open spec fn total_of(tests: Seq<ReportedTest>) -> nat {
    tests.len() % 0x1_0000_0000
}

/// The last lines of the report: how many tests passed, in green where that is all.
pub open spec fn summary_ops(passed: nat, total: nat) -> Seq<OpView> {
    seq![
        OpView::Write("Test results: "@),
        OpView::Paint(
            if passed == total {
                Color::Green
            } else {
                Color::Red
            },
        ),
        OpView::Write(decimal(passed) + "/"@ + decimal(total) + " Passed\n"@),
        OpView::Unpaint,
        OpView::Write("\n"@),
    ]
}

/// Adds the lines of the report for one test.
fn push_test(ops: &mut Vec<TermOp>, test: &ReportedTest)
    ensures
        ops_of(final(ops)@) == ops_of(old(ops)@) + test_ops(*test),
{
    let ghost before = ops@;
    let mut text: String = ": ".to_owned();
    if test.passed {
        ops.push(TermOp::Paint(Color::Green));
        ops.push(TermOp::Write("Pass".to_owned()));
        text.append(test.name.as_str());
    } else {
        ops.push(TermOp::Paint(Color::Red));
        ops.push(TermOp::Write("Fail".to_owned()));
        if let Some(error) = &test.error {
            text.append(error.as_str());
        }
        assert(text@ =~= ": "@ + error_text(*test));
    }
    text.append("\n");
    ops.push(TermOp::Reset);
    ops.push(TermOp::Write(text));
    assert(ops_of(ops@) =~= ops_of(before) + test_ops(*test));
}

/// Adds the last lines of the report.
fn push_summary(ops: &mut Vec<TermOp>, passed: u32, total: u32)
    ensures
        ops_of(final(ops)@) == ops_of(old(ops)@) + summary_ops(passed as nat, total as nat),
{
    let ghost before = ops@;
    let color: Color = if passed == total {
        Color::Green
    } else {
        Color::Red
    };
    let mut text: String = to_decimal(passed);
    text.append("/");
    text.append(to_decimal(total).as_str());
    text.append(" Passed\n");
    ops.push(TermOp::Write("Test results: ".to_owned()));
    ops.push(TermOp::Paint(color));
    ops.push(TermOp::Write(text));
    ops.push(TermOp::Unpaint);
    ops.push(TermOp::Write("\n".to_owned()));
    assert(ops_of(ops@) =~= ops_of(before) + summary_ops(passed as nat, total as nat));
}

/// The steps that print test results (with handy color!) to the terminal.
pub fn print_test_results(results: &Vec<ReportedTest>) -> (ops: Vec<TermOp>)
    requires
        count_passed(results@) <= u32::MAX,
    ensures
        ops_of(ops@) == tests_ops(results@) + summary_ops(
            count_passed(results@),
            total_of(results@),
        ),
        ops@.len() == 4 * results@.len() + 5,
        forall|i: int|
            0 <= i < results@.len() ==> {
                let test = #[trigger] results@[i];
                &&& ops@[4 * i] == TermOp::Paint(
                    if test.passed {
                        Color::Green
                    } else {
                        Color::Red
                    },
                )
                &&& ops@[4 * i + 1] matches TermOp::Write(word) && word@ == (if test.passed {
                    "Pass"@
                } else {
                    "Fail"@
                })
                &&& ops@[4 * i + 2] is Reset
                &&& ops@[4 * i + 3] matches TermOp::Write(rest) && rest@ == ": "@ + (
                if test.passed {
                    test.name@
                } else if test.error is Some {
                    test.error->Some_0@
                } else {
                    Seq::<char>::empty()
                }) + "\n"@
            },
        ops@[ops@.len() - 5] matches TermOp::Write(text) && text@ == "Test results: "@,
        ops@[ops@.len() - 4] == TermOp::Paint(
            if results@.filter(|test: ReportedTest| test.passed).len() == results@.len()
                % 0x1_0000_0000 {
                Color::Green
            } else {
                Color::Red
            },
        ),
        ops@[ops@.len() - 3] matches TermOp::Write(text) && text@ == decimal(
            results@.filter(|test: ReportedTest| test.passed).len(),
        ) + "/"@ + decimal(results@.len() % 0x1_0000_0000) + " Passed\n"@,
        ops@[ops@.len() - 2] is Unpaint,
        ops@[ops@.len() - 1] matches TermOp::Write(text) && text@ == "\n"@,
{
    let mut ops: Vec<TermOp> = Vec::new();
    let mut passed: u32 = 0;
    let total: u32 = (results.len() as u64 % 0x1_0000_0000) as u32;
    let mut i: usize = 0;
    assert(results@.take(0) =~= Seq::empty());
    assert(ops_of(ops@) =~= tests_ops(results@.take(0)));
    while i < results.len()
        invariant
            i <= results@.len(),
            count_passed(results@) <= u32::MAX,
            passed == count_passed(results@.take(i as int)),
            ops_of(ops@) == tests_ops(results@.take(i as int)),
        decreases results@.len() - i,
    {
        proof {
            let upto = results@.take(i + 1);
            assert(upto.drop_last() =~= results@.take(i as int));
            assert(upto.last() == results@[i as int]);
            count_passed_grows(results@, i + 1);
        }
        push_test(&mut ops, &results[i]);
        if results[i].passed {
            passed = passed + 1;
        }
        i = i + 1;
    }
    assert(results@.take(i as int) =~= results@);
    push_summary(&mut ops, passed, total);
    proof {
        report_lines_by_test(results@);
        count_is_number_of_passed(results@);
        report_steps(ops@, results@);
    }
    ops
}

/// What the steps of a report are, one by one, from what they do.
proof fn report_steps(ops: Seq<TermOp>, tests: Seq<ReportedTest>)
    requires
        ops_of(ops) == tests_ops(tests) + summary_ops(count_passed(tests), total_of(tests)),
    ensures
        ops.len() == 4 * tests.len() + 5,
        forall|j: int| 0 <= j < 4 * tests.len() ==> (#[trigger] ops[j])@ == tests_ops(tests)[j],
        forall|j: int|
            4 * tests.len() <= j < ops.len() ==> (#[trigger] ops[j])@ == summary_ops(
                count_passed(tests),
                total_of(tests),
            )[j - 4 * tests.len()],
{
    report_lines_by_test(tests);
    assert(ops_of(ops).len() == ops.len());
    assert forall|j: int| 0 <= j < ops.len() implies (#[trigger] ops[j])@ == ops_of(ops)[j] by {}
}

/// Each test has four steps in the report, in the order of the tests: its color, the word
/// for its success, the end of the color, and its name or its error.
pub proof fn report_lines_by_test(tests: Seq<ReportedTest>)
    ensures
        tests_ops(tests).len() == 4 * tests.len(),
        forall|i: int|
            0 <= i < tests.len() ==> {
                let test = #[trigger] tests[i];
                &&& tests_ops(tests)[4 * i] == OpView::Paint(
                    if test.passed {
                        Color::Green
                    } else {
                        Color::Red
                    },
                )
                &&& tests_ops(tests)[4 * i + 1] == OpView::Write(
                    if test.passed {
                        "Pass"@
                    } else {
                        "Fail"@
                    },
                )
                &&& tests_ops(tests)[4 * i + 2] == OpView::Reset
                &&& tests_ops(tests)[4 * i + 3] == OpView::Write(
                    ": "@ + (if test.passed {
                        test.name@
                    } else if test.error is Some {
                        test.error->Some_0@
                    } else {
                        Seq::<char>::empty()
                    }) + "\n"@,
                )
            },
    decreases tests.len(),
{
    if tests.len() > 0 {
        let rest = tests.drop_last();
        report_lines_by_test(rest);
        assert forall|i: int| 0 <= i < tests.len() implies {
            let test = #[trigger] tests[i];
            &&& tests_ops(tests)[4 * i] == OpView::Paint(
                if test.passed {
                    Color::Green
                } else {
                    Color::Red
                },
            )
            &&& tests_ops(tests)[4 * i + 1] == OpView::Write(
                if test.passed {
                    "Pass"@
                } else {
                    "Fail"@
                },
            )
            &&& tests_ops(tests)[4 * i + 2] == OpView::Reset
            &&& tests_ops(tests)[4 * i + 3] == OpView::Write(
                ": "@ + (if test.passed {
                    test.name@
                } else if test.error is Some {
                    test.error->Some_0@
                } else {
                    Seq::<char>::empty()
                }) + "\n"@,
            )
        } by {
            if i < rest.len() {
                assert(rest[i] == tests[i]);
            } else {
                assert(tests[i] == tests.last());
            }
        }
    }
}

/// The number of tests that the report counts as passed is the number of tests that did.
pub proof fn count_is_number_of_passed(tests: Seq<ReportedTest>)
    ensures
        count_passed(tests) == tests.filter(|test: ReportedTest| test.passed).len(),
    decreases tests.len(),
{
    reveal(Seq::filter);
    if tests.len() > 0 {
        count_is_number_of_passed(tests.drop_last());
    }
}

/// Each test counts for itself: the count of two lists in a row is the sum of their
/// counts, that of one test is one where it passed and else zero, and that of none is zero.
pub proof fn each_test_counts_for_itself(a: Seq<ReportedTest>, b: Seq<ReportedTest>, test: ReportedTest)
    ensures
        count_passed(Seq::<ReportedTest>::empty()) == 0,
        count_passed(seq![test]) == (if test.passed {
            1nat
        } else {
            0nat
        }),
        count_passed(a + b) == count_passed(a) + count_passed(b),
    decreases b.len(),
{
    reveal_with_fuel(count_passed, 2);
    assert(seq![test].drop_last() =~= Seq::<ReportedTest>::empty());
    if b.len() == 0 {
        assert(a + b =~= a);
    } else {
        each_test_counts_for_itself(a, b.drop_last(), test);
        assert((a + b).drop_last() =~= a + b.drop_last());
        assert((a + b).last() == b.last());
    }
}

/// The report of two lists in a row is the report of the first and then that of the second.
pub proof fn reports_follow_each_other(a: Seq<ReportedTest>, b: Seq<ReportedTest>)
    ensures
        tests_ops(a + b) == tests_ops(a) + tests_ops(b),
    decreases b.len(),
{
    if b.len() == 0 {
        assert(a + b =~= a);
        assert(tests_ops(a) + tests_ops(b) =~= tests_ops(a));
    } else {
        reports_follow_each_other(a, b.drop_last());
        assert((a + b).drop_last() =~= a + b.drop_last());
        assert((a + b).last() == b.last());
        assert(tests_ops(a + b) =~= tests_ops(a) + tests_ops(b));
    }
}

/// The summary says how many of how many tests passed, in green where these are as many.
pub proof fn summary_says_how_many(passed: nat, total: nat)
    ensures
        summary_ops(passed, total).len() == 5,
        summary_ops(passed, total)[0] == OpView::Write("Test results: "@),
        summary_ops(passed, total)[1] == OpView::Paint(Color::Green) <==> passed == total,
        summary_ops(passed, total)[1] == OpView::Paint(Color::Red) <==> passed != total,
        summary_ops(passed, total)[2] == OpView::Write(
            decimal(passed) + "/"@ + decimal(total) + " Passed\n"@,
        ),
        summary_ops(passed, total)[3] == OpView::Unpaint,
        summary_ops(passed, total)[4] == OpView::Write("\n"@),
{
}

/// Steps keep their number and their order, and a step does what it says.
pub proof fn steps_do_what_they_say(ops: Seq<TermOp>, i: int)
    requires
        0 <= i < ops.len(),
    ensures
        ops_of(ops).len() == ops.len(),
        match ops[i] {
            TermOp::Paint(color) => ops_of(ops)[i] == OpView::Paint(color),
            TermOp::Unpaint => ops_of(ops)[i] == OpView::Unpaint,
            TermOp::Reset => ops_of(ops)[i] == OpView::Reset,
            TermOp::Write(text) => ops_of(ops)[i] == OpView::Write(text@),
        },
{
}

proof fn count_passed_grows(tests: Seq<ReportedTest>, n: int)
    requires
        0 <= n <= tests.len(),
    ensures
        count_passed(tests.take(n)) <= count_passed(tests),
    decreases tests.len(),
{
    if n == tests.len() {
        assert(tests.take(n) =~= tests);
    } else {
        count_passed_grows(tests.drop_last(), n);
        assert(tests.drop_last().take(n) =~= tests.take(n));
    }
}

/// The summary counts all tests as passed exactly when each of them did.
pub proof fn all_counted_iff_all_passed(tests: Seq<ReportedTest>)
    ensures
        count_passed(tests) <= tests.len(),
        count_passed(tests) == tests.len() <==> forall|i: int|
            0 <= i < tests.len() ==> (#[trigger] tests[i]).passed,
    decreases tests.len(),
{
    if tests.len() > 0 {
        let rest = tests.drop_last();
        all_counted_iff_all_passed(rest);
        assert(tests[tests.len() - 1] == tests.last());
        assert(forall|i: int| 0 <= i < rest.len() ==> #[trigger] rest[i] == tests[i]);
        if count_passed(tests) == tests.len() {
            assert forall|i: int| 0 <= i < tests.len() implies (#[trigger] tests[i]).passed by {
                if i < rest.len() {
                    assert(rest[i].passed);
                }
            }
        }
        if forall|i: int| 0 <= i < tests.len() ==> (#[trigger] tests[i]).passed {
            assert forall|i: int| 0 <= i < rest.len() implies (#[trigger] rest[i]).passed by {
                assert(tests[i].passed);
            }
            assert(tests[tests.len() - 1].passed);
        }
    }
}

/// The summary is green exactly when every test passed, as long as the tests can be
/// counted in 32 bits.
pub proof fn summary_is_green_iff_all_passed(tests: Seq<ReportedTest>)
    requires
        tests.len() <= u32::MAX,
    ensures
        summary_ops(count_passed(tests), total_of(tests))[1] == OpView::Paint(Color::Green)
            <==> forall|i: int| 0 <= i < tests.len() ==> (#[trigger] tests[i]).passed,
{
    all_counted_iff_all_passed(tests);
}

} // verus!
