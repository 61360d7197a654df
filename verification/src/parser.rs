use vstd::prelude::*;

use crate::expr::{expr_view, wf_expr, Expr, ExprM};
use crate::reporter::{diag_for_token, Rox, RoxM};
use crate::token::{Token, TokenM, TokenType};

verus! {

/// Signals that a parse attempt failed; the diagnostic was already recorded,
/// and the partially built expression is discarded.
pub struct ParseError;

/// What one grammar rule yields: a finished subtree and the position of the
/// next unconsumed token, or the position of the token at which an
/// expectation failed, with the message reported there.
pub enum ParseStep {
    Good { expr: ExprM, next: int },
    Bad { at: int, message: Seq<char> },
}

/// A token sequence the parser accepts: nonempty, ending in the end-of-input
/// marker (which the parser never consumes).
pub open spec fn wf_tokens(toks: Seq<TokenM>) -> bool {
    toks.len() >= 1 && toks.last().token_type == TokenType::Eof
}

// The grammar, lowest to highest precedence; each `_rest` function is the
// left-associative fold of one precedence level. Each function consumes at
// least one token on success; the index guards below only restate that so
// that the mutual recursion visibly terminates, and are never taken on a
// parser state that arises.

pub open spec fn p_expression(toks: Seq<TokenM>, i: int) -> ParseStep
    decreases toks.len() - i, 11int,
{
    p_equality(toks, i)
}

pub open spec fn p_equality(toks: Seq<TokenM>, i: int) -> ParseStep
    decreases toks.len() - i, 10int,
{
    match p_comparison(toks, i) {
        ParseStep::Good { expr, next } => if next > i && next <= toks.len() {
            p_equality_rest(toks, next, expr)
        } else {
            ParseStep::Good { expr, next }
        },
        bad => bad,
    }
}

pub open spec fn p_equality_rest(toks: Seq<TokenM>, i: int, acc: ExprM) -> ParseStep
    decreases toks.len() - i, 9int,
{
    if 0 <= i && i < toks.len() && (toks[i].token_type == TokenType::BangEqual
        || toks[i].token_type == TokenType::EqualEqual) {
        match p_comparison(toks, i + 1) {
            ParseStep::Good { expr, next } => {
                let folded = ExprM::Binary {
                    left: Box::new(acc),
                    operator: toks[i],
                    right: Box::new(expr),
                };
                if next > i && next <= toks.len() {
                    p_equality_rest(toks, next, folded)
                } else {
                    ParseStep::Good { expr: folded, next }
                }
            },
            bad => bad,
        }
    } else {
        ParseStep::Good { expr: acc, next: i }
    }
}

pub open spec fn p_comparison(toks: Seq<TokenM>, i: int) -> ParseStep
    decreases toks.len() - i, 8int,
{
    match p_term(toks, i) {
        ParseStep::Good { expr, next } => if next > i && next <= toks.len() {
            p_comparison_rest(toks, next, expr)
        } else {
            ParseStep::Good { expr, next }
        },
        bad => bad,
    }
}

pub open spec fn p_comparison_rest(toks: Seq<TokenM>, i: int, acc: ExprM) -> ParseStep
    decreases toks.len() - i, 7int,
{
    if 0 <= i && i < toks.len() && (toks[i].token_type == TokenType::Greater
        || toks[i].token_type == TokenType::GreaterEqual
        || toks[i].token_type == TokenType::Less
        || toks[i].token_type == TokenType::LessEqual) {
        match p_term(toks, i + 1) {
            ParseStep::Good { expr, next } => {
                let folded = ExprM::Binary {
                    left: Box::new(acc),
                    operator: toks[i],
                    right: Box::new(expr),
                };
                if next > i && next <= toks.len() {
                    p_comparison_rest(toks, next, folded)
                } else {
                    ParseStep::Good { expr: folded, next }
                }
            },
            bad => bad,
        }
    } else {
        ParseStep::Good { expr: acc, next: i }
    }
}

pub open spec fn p_term(toks: Seq<TokenM>, i: int) -> ParseStep
    decreases toks.len() - i, 6int,
{
    match p_factor(toks, i) {
        ParseStep::Good { expr, next } => if next > i && next <= toks.len() {
            p_term_rest(toks, next, expr)
        } else {
            ParseStep::Good { expr, next }
        },
        bad => bad,
    }
}

pub open spec fn p_term_rest(toks: Seq<TokenM>, i: int, acc: ExprM) -> ParseStep
    decreases toks.len() - i, 5int,
{
    if 0 <= i && i < toks.len() && (toks[i].token_type == TokenType::Minus
        || toks[i].token_type == TokenType::Plus) {
        match p_factor(toks, i + 1) {
            ParseStep::Good { expr, next } => {
                let folded = ExprM::Binary {
                    left: Box::new(acc),
                    operator: toks[i],
                    right: Box::new(expr),
                };
                if next > i && next <= toks.len() {
                    p_term_rest(toks, next, folded)
                } else {
                    ParseStep::Good { expr: folded, next }
                }
            },
            bad => bad,
        }
    } else {
        ParseStep::Good { expr: acc, next: i }
    }
}

pub open spec fn p_factor(toks: Seq<TokenM>, i: int) -> ParseStep
    decreases toks.len() - i, 4int,
{
    match p_unary(toks, i) {
        ParseStep::Good { expr, next } => if next > i && next <= toks.len() {
            p_factor_rest(toks, next, expr)
        } else {
            ParseStep::Good { expr, next }
        },
        bad => bad,
    }
}

pub open spec fn p_factor_rest(toks: Seq<TokenM>, i: int, acc: ExprM) -> ParseStep
    decreases toks.len() - i, 3int,
{
    if 0 <= i && i < toks.len() && (toks[i].token_type == TokenType::Slash
        || toks[i].token_type == TokenType::Star) {
        match p_unary(toks, i + 1) {
            ParseStep::Good { expr, next } => {
                let folded = ExprM::Binary {
                    left: Box::new(acc),
                    operator: toks[i],
                    right: Box::new(expr),
                };
                if next > i && next <= toks.len() {
                    p_factor_rest(toks, next, folded)
                } else {
                    ParseStep::Good { expr: folded, next }
                }
            },
            bad => bad,
        }
    } else {
        ParseStep::Good { expr: acc, next: i }
    }
}

pub open spec fn p_unary(toks: Seq<TokenM>, i: int) -> ParseStep
    decreases toks.len() - i, 2int,
{
    if 0 <= i && i < toks.len() && (toks[i].token_type == TokenType::Bang
        || toks[i].token_type == TokenType::Minus) {
        match p_unary(toks, i + 1) {
            ParseStep::Good { expr, next } => ParseStep::Good {
                expr: ExprM::Unary { operator: toks[i], right: Box::new(expr) },
                next,
            },
            bad => bad,
        }
    } else {
        p_primary(toks, i)
    }
}

pub open spec fn p_primary(toks: Seq<TokenM>, i: int) -> ParseStep
    decreases toks.len() - i, 1int,
{
    if i < 0 || i >= toks.len() {
        ParseStep::Bad { at: i, message: "Expect expression."@ }
    } else {
        let t = toks[i];
        if t.token_type == TokenType::False {
            ParseStep::Good { expr: ExprM::Literal { value: Option::Some("false"@) }, next: i + 1 }
        } else if t.token_type == TokenType::True {
            ParseStep::Good { expr: ExprM::Literal { value: Option::Some("true"@) }, next: i + 1 }
        } else if t.token_type == TokenType::Nil {
            ParseStep::Good { expr: ExprM::Literal { value: Option::None }, next: i + 1 }
        } else if t.token_type == TokenType::Number || t.token_type == TokenType::String {
            ParseStep::Good { expr: ExprM::Literal { value: t.literal }, next: i + 1 }
        } else if t.token_type == TokenType::LeftParen {
            match p_expression(toks, i + 1) {
                ParseStep::Good { expr, next } => if 0 <= next && next < toks.len()
                    && toks[next].token_type == TokenType::RightParen {
                    ParseStep::Good {
                        expr: ExprM::Grouping { expression: Box::new(expr) },
                        next: next + 1,
                    }
                } else {
                    ParseStep::Bad { at: next, message: "Expect ')' after expression."@ }
                },
                bad => bad,
            }
        } else {
            ParseStep::Bad { at: i, message: "Expect expression."@ }
        }
    }
}

// ---------------------------------------------------------------------------
// The executable parser
// ---------------------------------------------------------------------------

/// The recursive-descent parser: consumes the token sequence strictly left
/// to right, never backtracking past a committed choice.
pub struct Parser<'a> {
    tokens: &'a Vec<Token>,
    current: usize,
}

impl<'a> Parser<'a> {
    /// The token sequence being parsed, as its model.
    pub closed spec fn toks(&self) -> Seq<TokenM> {
        self.tokens.deep_view()
    }

    /// The position of the next unconsumed token.
    pub closed spec fn pos(&self) -> int {
        self.current as int
    }

    pub closed spec fn same_tokens(&self, other: &Parser<'a>) -> bool {
        self.tokens == other.tokens
    }

    pub closed spec fn wf(&self) -> bool {
        wf_tokens(self.toks()) && self.current < self.toks().len()
    }

    pub fn new(tokens: &'a Vec<Token>) -> (r: Parser<'a>)
        requires
            wf_tokens(tokens.deep_view()),
        ensures
            r.toks() == tokens.deep_view(),
            r.pos() == 0,
            r.wf(),
    {
        Parser { tokens, current: 0 }
    }

    fn peek_kind(&self) -> (t: TokenType)
        requires
            self.wf(),
        ensures
            t == self.toks()[self.pos()].token_type,
    {
        self.tokens[self.current].token_type
    }

    fn advance(&mut self) -> (r: Token)
        requires
            old(self).wf(),
            old(self).toks()[old(self).pos()].token_type != TokenType::Eof,
        ensures
            final(self).wf(),
            final(self).same_tokens(old(self)),
            final(self).toks() == old(self).toks(),
            final(self).pos() == old(self).pos() + 1,
            r@ == old(self).toks()[old(self).pos()],
    {
        proof {
            assert(self.toks().last().token_type == TokenType::Eof);
            assert(self.current < self.toks().len() - 1);
        }
        let n = self.tokens.len();
        proof {
            assert(self.current < n);
        }
        let t = (&self.tokens[self.current]).clone();
        self.current = self.current + 1;
        t
    }

    /// Parse the whole token sequence as one expression: the completed tree,
    /// or nothing after a syntax error has been recorded.
    pub fn parse(&mut self, rox: &mut Rox) -> (r: Option<Expr>)
        requires
            old(self).wf(),
        ensures
            final(rox)@.had_runtime_error == old(rox)@.had_runtime_error,
            (match p_expression(old(self).toks(), old(self).pos()) {
                ParseStep::Good { expr, next } => match r {
                    Option::Some(e) => expr_view(e) == expr && wf_expr(expr) && final(rox)@
                        == old(rox)@,
                    Option::None => false,
                },
                ParseStep::Bad { at, message } => match r {
                    Option::Some(e) => false,
                    Option::None => final(rox)@ == (RoxM {
                        had_error: true,
                        had_runtime_error: old(rox)@.had_runtime_error,
                        diagnostics: old(rox)@.diagnostics.push(
                            diag_for_token(old(self).toks()[at], message),
                        ),
                    }),
                },
            }),
    {
        match self.expression(rox) {
            Result::Ok(e) => Some(e),
            Result::Err(_) => None,
        }
    }

    fn expression(&mut self, rox: &mut Rox) -> (r: Result<Expr, ParseError>)
        requires
            old(self).wf(),
        ensures
            final(self).wf(),
            final(self).same_tokens(old(self)),
            final(self).toks() == old(self).toks(),
            final(rox)@.had_runtime_error == old(rox)@.had_runtime_error,
            (match p_expression(old(self).toks(), old(self).pos()) {
                ParseStep::Good { expr, next } => match r {
                    Result::Ok(e) => expr_view(e) == expr && wf_expr(expr) && final(self).pos()
                        == next && next > old(self).pos() && final(rox)@ == old(rox)@,
                    Result::Err(pe) => false,
                },
                ParseStep::Bad { at, message } => match r {
                    Result::Ok(e) => false,
                    Result::Err(pe) => 0 <= at < old(self).toks().len() && final(rox)@ == (RoxM {
                        had_error: true,
                        had_runtime_error: old(rox)@.had_runtime_error,
                        diagnostics: old(rox)@.diagnostics.push(
                            diag_for_token(old(self).toks()[at], message),
                        ),
                    }),
                },
            }),
        decreases old(self).toks().len() - old(self).pos(), 11int,
    {
        self.equality(rox)
    }

    #[verifier::loop_isolation(false)]
    fn equality(&mut self, rox: &mut Rox) -> (r: Result<Expr, ParseError>)
        requires
            old(self).wf(),
        ensures
            final(self).wf(),
            final(self).same_tokens(old(self)),
            final(self).toks() == old(self).toks(),
            final(rox)@.had_runtime_error == old(rox)@.had_runtime_error,
            (match p_equality(old(self).toks(), old(self).pos()) {
                ParseStep::Good { expr, next } => match r {
                    Result::Ok(e) => expr_view(e) == expr && wf_expr(expr) && final(self).pos()
                        == next && next > old(self).pos() && final(rox)@ == old(rox)@,
                    Result::Err(pe) => false,
                },
                ParseStep::Bad { at, message } => match r {
                    Result::Ok(e) => false,
                    Result::Err(pe) => 0 <= at < old(self).toks().len() && final(rox)@ == (RoxM {
                        had_error: true,
                        had_runtime_error: old(rox)@.had_runtime_error,
                        diagnostics: old(rox)@.diagnostics.push(
                            diag_for_token(old(self).toks()[at], message),
                        ),
                    }),
                },
            }),
        decreases old(self).toks().len() - old(self).pos(), 10int,
    {
        let ghost toks = self.toks();
        let ghost i0 = self.pos();
        let mut expr = match self.comparison(rox) {
            Result::Ok(e) => e,
            Result::Err(pe) => {
                return Result::Err(pe);
            },
        };
        while self.peek_kind() == TokenType::BangEqual || self.peek_kind() == TokenType::EqualEqual
            invariant
                self.wf(),
                self.same_tokens(old(self)),
                self.toks() == toks,
                i0 < self.pos(),
                rox@ == old(rox)@,
                wf_expr(expr_view(expr)),
                p_equality(toks, i0) == p_equality_rest(toks, self.pos(), expr_view(expr)),
            decreases self.toks().len() - self.pos(),
        {
            let operator = self.advance();
            let right = match self.comparison(rox) {
                Result::Ok(e) => e,
                Result::Err(pe) => {
                    return Result::Err(pe);
                },
            };
            expr = Expr::Binary { left: Box::new(expr), operator, right: Box::new(right) };
        }
        Result::Ok(expr)
    }

    #[verifier::loop_isolation(false)]
    fn comparison(&mut self, rox: &mut Rox) -> (r: Result<Expr, ParseError>)
        requires
            old(self).wf(),
        ensures
            final(self).wf(),
            final(self).same_tokens(old(self)),
            final(self).toks() == old(self).toks(),
            final(rox)@.had_runtime_error == old(rox)@.had_runtime_error,
            (match p_comparison(old(self).toks(), old(self).pos()) {
                ParseStep::Good { expr, next } => match r {
                    Result::Ok(e) => expr_view(e) == expr && wf_expr(expr) && final(self).pos()
                        == next && next > old(self).pos() && final(rox)@ == old(rox)@,
                    Result::Err(pe) => false,
                },
                ParseStep::Bad { at, message } => match r {
                    Result::Ok(e) => false,
                    Result::Err(pe) => 0 <= at < old(self).toks().len() && final(rox)@ == (RoxM {
                        had_error: true,
                        had_runtime_error: old(rox)@.had_runtime_error,
                        diagnostics: old(rox)@.diagnostics.push(
                            diag_for_token(old(self).toks()[at], message),
                        ),
                    }),
                },
            }),
        decreases old(self).toks().len() - old(self).pos(), 8int,
    {
        let ghost toks = self.toks();
        let ghost i0 = self.pos();
        let mut expr = match self.term(rox) {
            Result::Ok(e) => e,
            Result::Err(pe) => {
                return Result::Err(pe);
            },
        };
        while self.peek_kind() == TokenType::Greater || self.peek_kind() == TokenType::GreaterEqual
            || self.peek_kind() == TokenType::Less || self.peek_kind() == TokenType::LessEqual
            invariant
                self.wf(),
                self.same_tokens(old(self)),
                self.toks() == toks,
                i0 < self.pos(),
                rox@ == old(rox)@,
                wf_expr(expr_view(expr)),
                p_comparison(toks, i0) == p_comparison_rest(toks, self.pos(), expr_view(expr)),
            decreases self.toks().len() - self.pos(),
        {
            let operator = self.advance();
            let right = match self.term(rox) {
                Result::Ok(e) => e,
                Result::Err(pe) => {
                    return Result::Err(pe);
                },
            };
            expr = Expr::Binary { left: Box::new(expr), operator, right: Box::new(right) };
        }
        Result::Ok(expr)
    }

    #[verifier::loop_isolation(false)]
    fn term(&mut self, rox: &mut Rox) -> (r: Result<Expr, ParseError>)
        requires
            old(self).wf(),
        ensures
            final(self).wf(),
            final(self).same_tokens(old(self)),
            final(self).toks() == old(self).toks(),
            final(rox)@.had_runtime_error == old(rox)@.had_runtime_error,
            (match p_term(old(self).toks(), old(self).pos()) {
                ParseStep::Good { expr, next } => match r {
                    Result::Ok(e) => expr_view(e) == expr && wf_expr(expr) && final(self).pos()
                        == next && next > old(self).pos() && final(rox)@ == old(rox)@,
                    Result::Err(pe) => false,
                },
                ParseStep::Bad { at, message } => match r {
                    Result::Ok(e) => false,
                    Result::Err(pe) => 0 <= at < old(self).toks().len() && final(rox)@ == (RoxM {
                        had_error: true,
                        had_runtime_error: old(rox)@.had_runtime_error,
                        diagnostics: old(rox)@.diagnostics.push(
                            diag_for_token(old(self).toks()[at], message),
                        ),
                    }),
                },
            }),
        decreases old(self).toks().len() - old(self).pos(), 6int,
    {
        let ghost toks = self.toks();
        let ghost i0 = self.pos();
        let mut expr = match self.factor(rox) {
            Result::Ok(e) => e,
            Result::Err(pe) => {
                return Result::Err(pe);
            },
        };
        while self.peek_kind() == TokenType::Minus || self.peek_kind() == TokenType::Plus
            invariant
                self.wf(),
                self.same_tokens(old(self)),
                self.toks() == toks,
                i0 < self.pos(),
                rox@ == old(rox)@,
                wf_expr(expr_view(expr)),
                p_term(toks, i0) == p_term_rest(toks, self.pos(), expr_view(expr)),
            decreases self.toks().len() - self.pos(),
        {
            let operator = self.advance();
            let right = match self.factor(rox) {
                Result::Ok(e) => e,
                Result::Err(pe) => {
                    return Result::Err(pe);
                },
            };
            expr = Expr::Binary { left: Box::new(expr), operator, right: Box::new(right) };
        }
        Result::Ok(expr)
    }

    #[verifier::loop_isolation(false)]
    fn factor(&mut self, rox: &mut Rox) -> (r: Result<Expr, ParseError>)
        requires
            old(self).wf(),
        ensures
            final(self).wf(),
            final(self).same_tokens(old(self)),
            final(self).toks() == old(self).toks(),
            final(rox)@.had_runtime_error == old(rox)@.had_runtime_error,
            (match p_factor(old(self).toks(), old(self).pos()) {
                ParseStep::Good { expr, next } => match r {
                    Result::Ok(e) => expr_view(e) == expr && wf_expr(expr) && final(self).pos()
                        == next && next > old(self).pos() && final(rox)@ == old(rox)@,
                    Result::Err(pe) => false,
                },
                ParseStep::Bad { at, message } => match r {
                    Result::Ok(e) => false,
                    Result::Err(pe) => 0 <= at < old(self).toks().len() && final(rox)@ == (RoxM {
                        had_error: true,
                        had_runtime_error: old(rox)@.had_runtime_error,
                        diagnostics: old(rox)@.diagnostics.push(
                            diag_for_token(old(self).toks()[at], message),
                        ),
                    }),
                },
            }),
        decreases old(self).toks().len() - old(self).pos(), 4int,
    {
        let ghost toks = self.toks();
        let ghost i0 = self.pos();
        let mut expr = match self.unary(rox) {
            Result::Ok(e) => e,
            Result::Err(pe) => {
                return Result::Err(pe);
            },
        };
        while self.peek_kind() == TokenType::Slash || self.peek_kind() == TokenType::Star
            invariant
                self.wf(),
                self.same_tokens(old(self)),
                self.toks() == toks,
                i0 < self.pos(),
                rox@ == old(rox)@,
                wf_expr(expr_view(expr)),
                p_factor(toks, i0) == p_factor_rest(toks, self.pos(), expr_view(expr)),
            decreases self.toks().len() - self.pos(),
        {
            let operator = self.advance();
            let right = match self.unary(rox) {
                Result::Ok(e) => e,
                Result::Err(pe) => {
                    return Result::Err(pe);
                },
            };
            expr = Expr::Binary { left: Box::new(expr), operator, right: Box::new(right) };
        }
        Result::Ok(expr)
    }

    fn unary(&mut self, rox: &mut Rox) -> (r: Result<Expr, ParseError>)
        requires
            old(self).wf(),
        ensures
            final(self).wf(),
            final(self).same_tokens(old(self)),
            final(self).toks() == old(self).toks(),
            final(rox)@.had_runtime_error == old(rox)@.had_runtime_error,
            (match p_unary(old(self).toks(), old(self).pos()) {
                ParseStep::Good { expr, next } => match r {
                    Result::Ok(e) => expr_view(e) == expr && wf_expr(expr) && final(self).pos()
                        == next && next > old(self).pos() && final(rox)@ == old(rox)@,
                    Result::Err(pe) => false,
                },
                ParseStep::Bad { at, message } => match r {
                    Result::Ok(e) => false,
                    Result::Err(pe) => 0 <= at < old(self).toks().len() && final(rox)@ == (RoxM {
                        had_error: true,
                        had_runtime_error: old(rox)@.had_runtime_error,
                        diagnostics: old(rox)@.diagnostics.push(
                            diag_for_token(old(self).toks()[at], message),
                        ),
                    }),
                },
            }),
        decreases old(self).toks().len() - old(self).pos(), 2int,
    {
        let t = self.peek_kind();
        if t == TokenType::Bang || t == TokenType::Minus {
            let operator = self.advance();
            let right = match self.unary(rox) {
                Result::Ok(e) => e,
                Result::Err(pe) => {
                    return Result::Err(pe);
                },
            };
            return Result::Ok(Expr::Unary { operator, right: Box::new(right) });
        }
        self.primary(rox)
    }

    fn primary(&mut self, rox: &mut Rox) -> (r: Result<Expr, ParseError>)
        requires
            old(self).wf(),
        ensures
            final(self).wf(),
            final(self).same_tokens(old(self)),
            final(self).toks() == old(self).toks(),
            final(rox)@.had_runtime_error == old(rox)@.had_runtime_error,
            (match p_primary(old(self).toks(), old(self).pos()) {
                ParseStep::Good { expr, next } => match r {
                    Result::Ok(e) => expr_view(e) == expr && wf_expr(expr) && final(self).pos()
                        == next && next > old(self).pos() && final(rox)@ == old(rox)@,
                    Result::Err(pe) => false,
                },
                ParseStep::Bad { at, message } => match r {
                    Result::Ok(e) => false,
                    Result::Err(pe) => 0 <= at < old(self).toks().len() && final(rox)@ == (RoxM {
                        had_error: true,
                        had_runtime_error: old(rox)@.had_runtime_error,
                        diagnostics: old(rox)@.diagnostics.push(
                            diag_for_token(old(self).toks()[at], message),
                        ),
                    }),
                },
            }),
        decreases old(self).toks().len() - old(self).pos(), 1int,
    {
        let t = self.peek_kind();
        if t == TokenType::False {
            self.advance();
            return Result::Ok(Expr::Literal { value: Some("false".to_owned()) });
        }
        if t == TokenType::True {
            self.advance();
            return Result::Ok(Expr::Literal { value: Some("true".to_owned()) });
        }
        if t == TokenType::Nil {
            self.advance();
            return Result::Ok(Expr::Literal { value: None });
        }
        if t == TokenType::Number || t == TokenType::String {
            let token = self.advance();
            return Result::Ok(Expr::Literal { value: token.literal });
        }
        if t == TokenType::LeftParen {
            self.advance();
            let inner = match self.expression(rox) {
                Result::Ok(e) => e,
                Result::Err(pe) => {
                    return Result::Err(pe);
                },
            };
            if self.peek_kind() == TokenType::RightParen {
                self.advance();
                return Result::Ok(Expr::Grouping { expression: Box::new(inner) });
            }
            rox.error_token(&self.tokens[self.current], "Expect ')' after expression.");
            return Result::Err(ParseError);
        }
        rox.error_token(&self.tokens[self.current], "Expect expression.");
        Result::Err(ParseError)
    }
}

} // verus!
