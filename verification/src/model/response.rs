//! Warnings attached to tool answers.
use vstd::prelude::*;

verus! {

/// A non-fatal remark attached to an answer.
#[derive(Debug, Clone)]
pub struct Warning {
    pub code: String,
    pub message: String,
}

impl Warning {
    pub fn new(code: &str, message: &str) -> (w: Self)
        ensures
            w.code@ == code@,
            w.message@ == message@,
    {
        Warning { code: code.to_owned(), message: message.to_owned() }
    }
}

} // verus!
