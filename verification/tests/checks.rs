use wasmcloud_test_util::checks::{check, check_eq};
use wasmcloud_test_util::error::RpcError;
use wasmcloud_test_util::text::to_decimal;

fn failure(outcome: Result<bool, RpcError>) -> String {
    match outcome {
        Err(RpcError::Other(text)) => text,
        other => panic!("no failed check: {:?}", other),
    }
}

#[test]
fn equal_values_pass() {
    assert!(matches!(check_eq(true, "1", "1", "f.rs", 3), Ok(true)));
}

#[test]
fn different_values_are_shown() {
    assert_eq!(
        failure(check_eq(false, "1", "\"x\"", "src/f.rs", 120)),
        "check failed: `check_eq(left, right)`\n  left: `1`\n right: `\"x\"` src/f.rs:120"
    );
}

#[test]
fn condition_passes_or_is_shown() {
    assert!(matches!(check(true, "true", "f.rs", 3), Ok(true)));
    assert_eq!(failure(check(false, "false", "f.rs", 7)), "check failed: `false' f.rs:7");
}

#[test]
fn decimal_numbers() {
    for n in [0u32, 1, 9, 10, 11, 99, 100, 1009, 4294967295] {
        assert_eq!(to_decimal(n), format!("{}", n));
    }
}
