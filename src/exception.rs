use vstd::prelude::*;

use crate::value::Value;

verus! {

/// Why an exception was raised.
#[derive(PartialEq, Eq, Structural, Clone, Copy, Debug)]
pub enum Reason {
    /// An argument of the wrong kind.
    Badarg,
}

/// A captured exception: its reason and the offending value.
#[derive(PartialEq, Eq, Debug)]
pub struct Exception {
    pub reason: Reason,
    pub value: Value,
}

impl Exception {
    pub fn badarg(value: Value) -> (r: Exception)
        ensures
            r.reason == Reason::Badarg,
            r.value == value,
    {
        Exception { reason: Reason::Badarg, value }
    }
}

} // verus!
