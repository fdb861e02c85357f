use wasmcloud_test_util::cli::{print_test_results, Color, ReportedTest, TermOp};

fn shown(results: Vec<ReportedTest>) -> String {
    let mut out = String::new();
    for op in print_test_results(&results) {
        match op {
            TermOp::Paint(Color::Green) => out.push_str("<g>"),
            TermOp::Paint(Color::Red) => out.push_str("<r>"),
            TermOp::Unpaint => out.push_str("<->"),
            TermOp::Reset => out.push_str("</>"),
            TermOp::Write(text) => out.push_str(&text),
        }
    }
    out
}

fn test(name: &str, passed: bool, error: Option<&str>) -> ReportedTest {
    ReportedTest { name: name.to_string(), passed, error: error.map(|e| e.to_string()) }
}

#[test]
fn report_of_passed_tests() {
    assert_eq!(
        shown(vec![test("a", true, None), test("b", true, Some("ignored"))]),
        "<g>Pass</>: a\n<g>Pass</>: b\nTest results: <g>2/2 Passed\n<->\n"
    );
}

#[test]
fn report_of_failed_tests() {
    assert_eq!(
        shown(vec![test("a", false, Some("broke")), test("b", true, None), test("c", false, None)]),
        "<r>Fail</>: broke\n<g>Pass</>: b\n<r>Fail</>: \nTest results: <r>1/3 Passed\n<->\n"
    );
}

#[test]
fn report_of_no_tests() {
    assert_eq!(shown(Vec::new()), "Test results: <g>0/0 Passed\n<->\n");
}
