//! The expected-status gate: the exit code that a response's status earns.

use vstd::prelude::*;

verus! {

/// The status `actual` is acceptable: none was expected (0), or it is the
/// expected one.
pub open spec fn gate_passes(expected: u16, actual: u16) -> bool {
    expected == 0 || expected == actual
}

/// The exit code that the status `actual` earns: 0 where it is acceptable,
/// 1 where it is not.
pub open spec fn exit_code_of(expected: u16, actual: u16) -> i32 {
    if gate_passes(expected, actual) {
        0
    } else {
        1
    }
}

/// The exit code for a response with status `actual`. With nothing
/// expected it is 0 whatever the status.
pub fn exit_code(expected: u16, actual: u16) -> (r: i32)
    ensures
        r == exit_code_of(expected, actual),
        expected == 0 ==> r == 0,
{
    if expected == 0 || expected == actual {
        0
    } else {
        1
    }
}

} // verus!
