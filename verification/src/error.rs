//! The thin error taxonomy of the core. Expected absences (an empty
//! deck, an empty slot, an undecodable packet) are plain `None`
//! results, never errors; this type reports genuine logic faults.

use vstd::prelude::*;
use vstd::string::StringExecFns;

verus! {

/// An error in the game logic, carrying a description of the fault.
#[derive(Debug)]
pub enum LogicError {
    Generic(String),
}

/// The rendered message of an error.
pub open spec fn spec_message(e: LogicError) -> Seq<char> {
    match e {
        LogicError::Generic(m) => "Generic logic error: "@ + m@,
    }
}

impl LogicError {
    /// The human-readable description of the error.
    pub fn message(&self) -> (r: String)
        ensures
            r@ == spec_message(*self),
    {
        match self {
            LogicError::Generic(m) => {
                let mut s = "Generic logic error: ".to_owned();
                s.append(m.as_str());
                s
            },
        }
    }
}

} // verus!
