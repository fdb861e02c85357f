//! Checks inside a test case that report a failure instead of ending the test.
use crate::error::RpcError;
use crate::text::{decimal, to_decimal};
use vstd::prelude::*;
use vstd::string::*;

verus! {

/// The place in a source file at which a check stands.
pub open spec fn place_text(file: Seq<char>, line: u32) -> Seq<char> {
    file + ":"@ + decimal(line as nat)
}

/// The message of a failed check that two values are equal.
pub open spec fn check_eq_text(
    left: Seq<char>,
    right: Seq<char>,
    file: Seq<char>,
    line: u32,
) -> Seq<char> {
    "check failed: `check_eq(left, right)`\n  left: `"@ + left + "`\n right: `"@ + right + "` "@
        + place_text(file, line)
}

/// The message of a failed check that a condition is true.
pub open spec fn check_text(value: Seq<char>, file: Seq<char>, line: u32) -> Seq<char> {
    "check failed: `"@ + value + "' "@ + place_text(file, line)
}

fn place(file: &str, line: u32) -> (text: String)
    ensures
        text@ == place_text(file@, line),
{
    let mut text: String = file.to_owned();
    text.append(":");
    text.append(to_decimal(line).as_str());
    text
}

/// The outcome of a check that two values, shown as `left` and `right`, are equal.
pub fn check_eq(equal: bool, left: &str, right: &str, file: &str, line: u32) -> (outcome: Result<
    bool,
    RpcError,
>)
    ensures
        equal ==> outcome == Ok::<bool, RpcError>(true),
        !equal ==> (outcome matches Err(RpcError::Other(text)) && text@ == check_eq_text(
            left@,
            right@,
            file@,
            line,
        )),
        !equal ==> (outcome matches Err(RpcError::Other(text)) && text@
            == "check failed: `check_eq(left, right)`\n  left: `"@ + left@ + "`\n right: `"@ + right@
            + "` "@ + (file@ + ":"@ + decimal(line as nat))),
{
    if equal {
        return Ok(true);
    }
    let mut text: String = "check failed: `check_eq(left, right)`\n  left: `".to_owned();
    text.append(left);
    text.append("`\n right: `");
    text.append(right);
    text.append("` ");
    text.append(place(file, line).as_str());
    Err(RpcError::Other(text))
}

/// The outcome of a check that a condition, shown as `value`, is true.
pub fn check(condition: bool, value: &str, file: &str, line: u32) -> (outcome: Result<
    bool,
    RpcError,
>)
    ensures
        condition ==> outcome == Ok::<bool, RpcError>(true),
        !condition ==> (outcome matches Err(RpcError::Other(text)) && text@ == check_text(
            value@,
            file@,
            line,
        )),
        !condition ==> (outcome matches Err(RpcError::Other(text)) && text@ == "check failed: `"@
            + value@ + "' "@ + (file@ + ":"@ + decimal(line as nat))),
{
    if condition {
        return Ok(true);
    }
    let mut text: String = "check failed: `".to_owned();
    text.append(value);
    text.append("' ");
    text.append(place(file, line).as_str());
    Err(RpcError::Other(text))
}

} // verus!
