use vstd::prelude::*;

use crate::token::{Token, TokenM};

verus! {

/// Mathematical model of a runtime error: the offending token and the
/// diagnostic message.
pub struct RuntimeErrorM {
    pub token: TokenM,
    pub message: Seq<char>,
}

/// A runtime error detected by the evaluator: it carries the offending token
/// for line-accurate diagnostics and a human-readable message.
#[derive(Debug)]
pub struct RuntimeError {
    pub token: Token,
    pub message: String,
}

impl View for RuntimeError {
    type V = RuntimeErrorM;

    open spec fn view(&self) -> RuntimeErrorM {
        RuntimeErrorM { token: self.token@, message: self.message@ }
    }
}

impl RuntimeError {
    pub fn new(token: Token, message: String) -> (r: RuntimeError)
        ensures
            r@ == (RuntimeErrorM { token: token@, message: message@ }),
    {
        RuntimeError { token, message }
    }
}

} // verus!
