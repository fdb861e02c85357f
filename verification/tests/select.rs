use wasmcloud_test_util::error::RpcError;
use wasmcloud_test_util::select::{
    apply_pattern, choose_hits, choose_tests, invalid_pattern_error, join_error, match_names,
    run_selected, Selection,
};

fn strings(n: &[&str]) -> Vec<String> {
    n.iter().map(|s| s.to_string()).collect()
}

fn select(patterns: &[&str], names: &[&str]) -> Selection {
    run_selected(&strings(patterns), &strings(names))
}

#[test]
fn all_tests_match_anything() {
    let s = select(&[".*"], &["a", "b", "c"]);
    assert_eq!(s.order, vec![0, 1, 2]);
    assert!(s.invalid.is_none());
}

#[test]
fn order_of_patterns_comes_first() {
    let s = select(&["put", "get"], &["get_one", "put_one", "get_two", "put_two"]);
    assert_eq!(s.order, vec![1, 3, 0, 2]);
}

#[test]
fn tests_run_at_most_once() {
    let s = select(&["two", ".*", "one"], &["one", "two", "three"]);
    assert_eq!(s.order, vec![1, 0, 2]);
    let s = select(&["a"], &["a", "b", "a"]);
    assert_eq!(s.order, vec![0]);
}

#[test]
fn patterns_match_anywhere_and_by_case() {
    assert_eq!(select(&["^b"], &["ab", "ba"]).order, vec![1]);
    assert_eq!(select(&["b$"], &["ab", "ba"]).order, vec![0]);
    assert!(select(&["A"], &["a"]).order.is_empty());
    assert_eq!(select(&["^$"], &["", "x"]).order, vec![0]);
}

#[test]
fn invalid_pattern_stops_the_choice() {
    let s = select(&["a", "(", "b"], &["b", "a"]);
    assert_eq!(s.order, vec![1]);
    let bad = s.invalid.unwrap();
    assert_eq!(bad.number, 1);
    assert_eq!(bad.cause, regex::Regex::new("(").unwrap_err().to_string());
}

#[test]
fn invalid_pattern_counts_without_tests() {
    let s = select(&["["], &[]);
    assert!(s.order.is_empty());
    assert_eq!(s.invalid.unwrap().number, 0);
    let s = select(&[], &["a"]);
    assert!(s.order.is_empty());
    assert!(s.invalid.is_none());
}

#[test]
fn hits_are_added_once() {
    let names = strings(&["a", "b", "c", "b"]);
    let mut order: Vec<usize> = vec![2];
    choose_hits(&mut order, &names, &vec![false, true, true, true]);
    assert_eq!(order, vec![2, 1]);
}

#[test]
fn names_are_held_against_a_compiled_pattern() {
    let names = strings(&["put", "get", "input"]);
    let compiled = regex::Regex::new("put").map_err(|e| e.to_string());
    assert_eq!(match_names(compiled, &names), Ok(vec![true, false, true]));
    assert_eq!(match_names(Err("bad".to_string()), &names), Err("bad".to_string()));
}

#[test]
fn patterns_are_applied_in_turn() {
    let names = strings(&["a", "b", "c"]);
    let mut s = Selection { order: Vec::new(), invalid: None };
    apply_pattern(&mut s, &names, 0, Ok(vec![false, true, false]));
    apply_pattern(&mut s, &names, 1, Ok(vec![true, true, false]));
    assert_eq!(s.order, vec![1, 0]);
    assert!(s.invalid.is_none());
    apply_pattern(&mut s, &names, 2, Err("bad".to_string()));
    assert_eq!(s.order, vec![1, 0]);
    let bad = s.invalid.unwrap();
    assert_eq!(bad.number, 2);
    assert_eq!(bad.cause, "bad");
}

#[test]
fn choice_follows_the_outcomes() {
    let names = strings(&["a", "b", "c"]);
    let all = choose_tests(
        vec![Ok(vec![false, false, true]), Ok(vec![true, false, true])],
        &names,
    );
    assert_eq!(all.order, vec![2, 0]);
    assert!(all.invalid.is_none());
    let cut = choose_tests(
        vec![
            Ok(vec![false, true, false]),
            Err("first".to_string()),
            Ok(vec![true, true, true]),
            Err("second".to_string()),
        ],
        &names,
    );
    assert_eq!(cut.order, vec![1]);
    let bad = cut.invalid.unwrap();
    assert_eq!(bad.number, 1);
    assert_eq!(bad.cause, "first");
}

#[test]
fn error_texts() {
    match invalid_pattern_error("(", "unclosed group") {
        RpcError::Other(text) => {
            assert_eq!(text, "invalid regex spec '(' for test case: unclosed group")
        }
        e => panic!("another error: {:?}", e),
    }
    match join_error("panic") {
        RpcError::Other(text) => assert_eq!(text, "join error: panic"),
        e => panic!("another error: {:?}", e),
    }
}
