use vstd::prelude::*;

use crate::interpreter::{eval, stringify_spec, Interpreter};
use crate::parser::{p_expression, wf_tokens, ParseStep, Parser};
use crate::runtime_error::RuntimeError;
use crate::scanner::{scan_spec, Scanner};
use crate::token::{Token, TokenM, TokenType};

verus! {

/// Mathematical model of one recorded diagnostic: the source line, a
/// location description (empty, " at end", or " at '<lexeme>'"), and the
/// message.
pub struct DiagnosticM {
    pub line: nat,
    pub location: Seq<char>,
    pub message: Seq<char>,
}

/// One recorded diagnostic, ready for the host to display as
/// "[line <line>] Error<location>: <message>".
pub struct Diagnostic {
    pub line: usize,
    pub location: String,
    pub message: String,
}

impl View for Diagnostic {
    type V = DiagnosticM;

    open spec fn view(&self) -> DiagnosticM {
        DiagnosticM { line: self.line as nat, location: self.location@, message: self.message@ }
    }
}

impl DeepView for Diagnostic {
    type V = DiagnosticM;

    open spec fn deep_view(&self) -> DiagnosticM {
        self.view()
    }
}

/// The diagnostic that reporting `message` against `token` records: parse
/// errors are located " at end" when the parser stood at end-of-input, and
/// " at '<lexeme>'" when it stood at a concrete token.
pub open spec fn diag_for_token(token: TokenM, message: Seq<char>) -> DiagnosticM {
    if token.token_type == TokenType::Eof {
        DiagnosticM { line: token.line, location: " at end"@, message }
    } else {
        DiagnosticM { line: token.line, location: " at '"@ + token.lexeme + "'"@, message }
    }
}

/// The diagnostic that a runtime error records.
pub open spec fn diag_for_runtime_error(token: TokenM, message: Seq<char>) -> DiagnosticM {
    DiagnosticM { line: token.line, location: ""@, message }
}

/// Model of the error collector: the two error flags and every diagnostic
/// recorded so far, in order.
pub struct RoxM {
    pub had_error: bool,
    pub had_runtime_error: bool,
    pub diagnostics: Seq<DiagnosticM>,
}

/// The explicit error collector passed by reference into each phase: the
/// scanner and parser record syntax errors here, the evaluator records
/// runtime errors, and the host inspects the flags and diagnostics after
/// each phase completes.
pub struct Rox {
    pub had_error: bool,
    pub had_runtime_error: bool,
    pub diagnostics: Vec<Diagnostic>,
}

impl View for Rox {
    type V = RoxM;

    open spec fn view(&self) -> RoxM {
        RoxM {
            had_error: self.had_error,
            had_runtime_error: self.had_runtime_error,
            diagnostics: self.diagnostics.deep_view(),
        }
    }
}

impl Rox {
    pub fn new() -> (r: Rox)
        ensures
            r@ == (RoxM { had_error: false, had_runtime_error: false, diagnostics: Seq::<DiagnosticM>::empty() }),
    {
        let r = Rox { had_error: false, had_runtime_error: false, diagnostics: Vec::new() };
        proof {
            assert(r@.diagnostics =~= Seq::<DiagnosticM>::empty());
        }
        r
    }

    /// Record a syntax diagnostic and raise the error flag.
    pub fn report(&mut self, line: usize, location: &str, message: &str)
        ensures
            final(self)@ == (RoxM {
                had_error: true,
                had_runtime_error: old(self)@.had_runtime_error,
                diagnostics: old(self)@.diagnostics.push(
                    DiagnosticM { line: line as nat, location: location@, message: message@ },
                ),
            }),
    {
        let location_text = location.to_owned();
        let message_text = message.to_owned();
        self.diagnostics.push(Diagnostic { line, location: location_text, message: message_text });
        self.had_error = true;
        proof {
            assert(self@.diagnostics =~= old(self)@.diagnostics.push(
                DiagnosticM { line: line as nat, location: location@, message: message@ },
            ));
        }
    }

    /// Record a lexical or parse error with no location description.
    pub fn error(&mut self, line: usize, message: &str)
        ensures
            final(self)@ == (RoxM {
                had_error: true,
                had_runtime_error: old(self)@.had_runtime_error,
                diagnostics: old(self)@.diagnostics.push(
                    DiagnosticM { line: line as nat, location: ""@, message: message@ },
                ),
            }),
    {
        self.report(line, "", message);
    }

    /// Record a parse error against a token: " at end" when the token is the
    /// end-of-input marker, " at '<lexeme>'" otherwise.
    pub fn error_token(&mut self, token: &Token, message: &str)
        ensures
            final(self)@ == (RoxM {
                had_error: true,
                had_runtime_error: old(self)@.had_runtime_error,
                diagnostics: old(self)@.diagnostics.push(diag_for_token(token@, message@)),
            }),
    {
        if token.token_type == TokenType::Eof {
            self.report(token.line, " at end", message);
        } else {
            let mut location = " at '".to_owned();
            location.append(token.lexeme.as_str());
            location.append("'");
            self.report(token.line, location.as_str(), message);
        }
    }

    /// Run the whole pipeline on one source text: scan, parse, evaluate.
    /// The printable text of the result, or nothing once any error has been
    /// recorded; evaluation is not attempted after a syntax error.
    pub fn run(&mut self, source: String) -> (r: Option<String>)
        requires
            source@.len() < usize::MAX,
        ensures
            ({
                let sc = scan_spec(source@);
                let after_scan = old(self)@.diagnostics + sc.errors;
                let scan_err = old(self)@.had_error || sc.errors.len() > 0;
                match p_expression(sc.tokens, 0) {
                    ParseStep::Bad { at, message } => {
                        &&& r is None
                        &&& final(self)@.had_error
                        &&& final(self)@.had_runtime_error == old(self)@.had_runtime_error
                        &&& final(self)@.diagnostics == after_scan.push(
                            diag_for_token(sc.tokens[at], message),
                        )
                    },
                    ParseStep::Good { expr, next } => if scan_err {
                        &&& r is None
                        &&& final(self)@.had_error
                        &&& final(self)@.had_runtime_error == old(self)@.had_runtime_error
                        &&& final(self)@.diagnostics == after_scan
                    } else {
                        &&& final(self)@.had_error == old(self)@.had_error
                        &&& (match eval(expr) {
                            Result::Ok(v) => {
                                &&& (match r {
                                    Option::Some(text) => text@ == stringify_spec(v),
                                    Option::None => false,
                                })
                                &&& final(self)@.had_runtime_error == old(self)@.had_runtime_error
                                &&& final(self)@.diagnostics == after_scan
                            },
                            Result::Err(em) => {
                                &&& r is None
                                &&& final(self)@.had_runtime_error
                                &&& final(self)@.diagnostics == after_scan.push(
                                    diag_for_runtime_error(em.token, em.message),
                                )
                            },
                        })
                    },
                }
            }),
    {
        let ghost s = source@;
        let mut scanner = Scanner::new(source);
        let tokens = scanner.scan_tokens(self);
        proof {
            assert(wf_tokens(tokens.deep_view()));
        }
        let mut parser = Parser::new(&tokens);
        let expression = parser.parse(self);
        if self.had_error {
            return None;
        }
        match expression {
            Option::Some(expr) => {
                let mut interpreter = Interpreter::new();
                interpreter.interpret(&expr, self)
            },
            Option::None => None,
        }
    }

    /// Record a runtime error and raise the runtime-error flag.
    pub fn runtime_error(&mut self, error: &RuntimeError)
        ensures
            final(self)@ == (RoxM {
                had_error: old(self)@.had_error,
                had_runtime_error: true,
                diagnostics: old(self)@.diagnostics.push(
                    diag_for_runtime_error(error@.token, error@.message),
                ),
            }),
    {
        let line = error.token.line;
        let location_text = "".to_owned();
        let message_text = error.message.clone();
        self.diagnostics.push(Diagnostic { line, location: location_text, message: message_text });
        self.had_runtime_error = true;
        proof {
            assert(self@.diagnostics =~= old(self)@.diagnostics.push(
                diag_for_runtime_error(error@.token, error@.message),
            ));
        }
    }
}

} // verus!
