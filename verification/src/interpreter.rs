use vstd::prelude::*;

use crate::expr::{expr_view, wf_expr, Expr, ExprM};
use crate::numeric::{
    add_bits, div_bits, le_bits, lt_bits, mul_bits, neg_bits, num_add, num_div, num_eq, num_le,
    num_lt, num_mul, num_neg, num_sub, num_to_text, parse_bits_of, parse_number, sub_bits,
    text_of_bits,
};
use crate::object::{truthy, val_eq, Object, ValueM};
use crate::reporter::{diag_for_runtime_error, Rox, RoxM};
use crate::runtime_error::{RuntimeError, RuntimeErrorM};
use crate::token::{TokenM, TokenType};

verus! {

/// The value a literal node resolves to at evaluation time: nil for the nil
/// literal; otherwise the payload parsed as a double if it parses, and the
/// payload itself as a string if it does not.
pub open spec fn literal_value(v: Option<Seq<char>>) -> ValueM {
    match v {
        Option::None => ValueM::Nil,
        Option::Some(t) => match parse_bits_of(t) {
            Option::Some(b) => ValueM::Num(b),
            Option::None => ValueM::Str(t),
        },
    }
}

/// The evaluation rule for a unary operator applied to an evaluated operand.
pub open spec fn apply_unary(op: TokenM, v: ValueM) -> Result<ValueM, RuntimeErrorM> {
    if op.token_type == TokenType::Bang {
        Result::Ok(ValueM::Bool(!truthy(v)))
    } else {
        match v {
            ValueM::Num(b) => Result::Ok(ValueM::Num(neg_bits(b))),
            _ => Result::Err(
                RuntimeErrorM { token: op, message: "Operand must be a number."@ },
            ),
        }
    }
}

/// The evaluation rule for a binary operator applied to two evaluated
/// operands: ordering and the non-additive arithmetic require two numbers,
/// `+` requires two numbers or two strings, and equality accepts anything.
pub open spec fn apply_binary(op: TokenM, l: ValueM, r: ValueM) -> Result<ValueM, RuntimeErrorM> {
    let k = op.token_type;
    if k == TokenType::BangEqual {
        Result::Ok(ValueM::Bool(!val_eq(l, r)))
    } else if k == TokenType::EqualEqual {
        Result::Ok(ValueM::Bool(val_eq(l, r)))
    } else if k == TokenType::Plus {
        match (l, r) {
            (ValueM::Num(a), ValueM::Num(b)) => Result::Ok(ValueM::Num(add_bits(a, b))),
            (ValueM::Str(a), ValueM::Str(b)) => Result::Ok(ValueM::Str(a + b)),
            _ => Result::Err(
                RuntimeErrorM {
                    token: op,
                    message: "Operands must be two numbers or two strings."@,
                },
            ),
        }
    } else {
        match (l, r) {
            (ValueM::Num(a), ValueM::Num(b)) => if k == TokenType::Greater {
                Result::Ok(ValueM::Bool(lt_bits(b, a)))
            } else if k == TokenType::GreaterEqual {
                Result::Ok(ValueM::Bool(le_bits(b, a)))
            } else if k == TokenType::Less {
                Result::Ok(ValueM::Bool(lt_bits(a, b)))
            } else if k == TokenType::LessEqual {
                Result::Ok(ValueM::Bool(le_bits(a, b)))
            } else if k == TokenType::Minus {
                Result::Ok(ValueM::Num(sub_bits(a, b)))
            } else if k == TokenType::Slash {
                Result::Ok(ValueM::Num(div_bits(a, b)))
            } else {
                Result::Ok(ValueM::Num(mul_bits(a, b)))
            },
            _ => Result::Err(
                RuntimeErrorM { token: op, message: "Operands must be numbers."@ },
            ),
        }
    }
}

/// The evaluation of an expression tree: each node kind has exactly one
/// rule, operands are evaluated strictly left then right, and an error in
/// the left operand short-circuits before the right operand is touched.
pub open spec fn eval(e: ExprM) -> Result<ValueM, RuntimeErrorM>
    decreases e,
{
    match e {
        ExprM::Literal { value } => Result::Ok(literal_value(value)),
        ExprM::Grouping { expression } => eval(*expression),
        ExprM::Unary { operator, right } => match eval(*right) {
            Result::Ok(v) => apply_unary(operator, v),
            Result::Err(er) => Result::Err(er),
        },
        ExprM::Binary { left, operator, right } => match eval(*left) {
            Result::Err(er) => Result::Err(er),
            Result::Ok(lv) => match eval(*right) {
                Result::Err(er) => Result::Err(er),
                Result::Ok(rv) => apply_binary(operator, lv, rv),
            },
        },
    }
}

/// Strip a trailing ".0" from decimal text, so that integer-valued numbers
/// print without a fractional part.
pub open spec fn strip_point_zero(s: Seq<char>) -> Seq<char> {
    if s.len() >= 2 && s.subrange(s.len() - 2, s.len() as int) == ".0"@ {
        s.subrange(0, s.len() - 2)
    } else {
        s
    }
}

/// The text a runtime value prints as: "nil" for nil, decimal text with a
/// trailing ".0" stripped for numbers, and the natural text of strings and
/// booleans.
pub open spec fn stringify_spec(v: ValueM) -> Seq<char> {
    match v {
        ValueM::Nil => "nil"@,
        ValueM::Num(b) => strip_point_zero(text_of_bits(b)),
        ValueM::Str(s) => s,
        ValueM::Bool(b) => if b {
            "true"@
        } else {
            "false"@
        },
    }
}

/// The tree-walking evaluator.
pub struct Interpreter {}

impl Interpreter {
    pub fn new() -> (r: Interpreter) {
        Interpreter {  }
    }

    /// Truthiness of a runtime value.
    pub fn is_truthy(&self, object: &Object) -> (r: bool)
        ensures
            r == truthy(object@),
    {
        match object {
            Object::Nil => false,
            Object::Boolean(value) => *value,
            _ => true,
        }
    }

    /// Structural equality of two runtime values.
    pub fn is_equal(&self, a: &Object, b: &Object) -> (r: bool)
        ensures
            r == val_eq(a@, b@),
    {
        match (a, b) {
            (Object::Number(x), Object::Number(y)) => num_eq(*x, *y),
            (Object::String(x), Object::String(y)) => *x == *y,
            (Object::Boolean(x), Object::Boolean(y)) => *x == *y,
            (Object::Nil, Object::Nil) => true,
            _ => false,
        }
    }

    /// Reduce an expression tree to a runtime value, or signal the first
    /// runtime error, which carries the offending operator token.
    pub fn evaluate(&mut self, expr: &Expr) -> (r: Result<Object, RuntimeError>)
        requires
            wf_expr(expr_view(*expr)),
        ensures
            (match eval(expr_view(*expr)) {
                Result::Ok(vm) => match r {
                    Result::Ok(v) => v@ == vm,
                    Result::Err(e) => false,
                },
                Result::Err(em) => match r {
                    Result::Ok(v) => false,
                    Result::Err(e) => e@ == em,
                },
            }),
        decreases *expr,
    {
        match expr {
            Expr::Literal { value } => match value {
                Option::None => Result::Ok(Object::Nil),
                Option::Some(text) => match parse_number(text.as_str()) {
                    Option::Some(bits) => Result::Ok(Object::Number(bits)),
                    Option::None => Result::Ok(Object::String(text.clone())),
                },
            },
            Expr::Grouping { expression } => self.evaluate(&**expression),
            Expr::Unary { operator, right } => {
                let rv = match self.evaluate(&**right) {
                    Result::Ok(v) => v,
                    Result::Err(e) => {
                        return Result::Err(e);
                    },
                };
                if operator.token_type == TokenType::Bang {
                    let t = self.is_truthy(&rv);
                    Result::Ok(Object::Boolean(!t))
                } else {
                    match rv {
                        Object::Number(b) => Result::Ok(Object::Number(num_neg(b))),
                        _ => Result::Err(
                            RuntimeError::new(operator.clone(), "Operand must be a number.".to_owned()),
                        ),
                    }
                }
            },
            Expr::Binary { left, operator, right } => {
                let lv = match self.evaluate(&**left) {
                    Result::Ok(v) => v,
                    Result::Err(e) => {
                        return Result::Err(e);
                    },
                };
                let rv = match self.evaluate(&**right) {
                    Result::Ok(v) => v,
                    Result::Err(e) => {
                        return Result::Err(e);
                    },
                };
                let k = operator.token_type;
                if k == TokenType::BangEqual {
                    let eq = self.is_equal(&lv, &rv);
                    Result::Ok(Object::Boolean(!eq))
                } else if k == TokenType::EqualEqual {
                    let eq = self.is_equal(&lv, &rv);
                    Result::Ok(Object::Boolean(eq))
                } else if k == TokenType::Plus {
                    match (lv, rv) {
                        (Object::Number(a), Object::Number(b)) => Result::Ok(
                            Object::Number(num_add(a, b)),
                        ),
                        (Object::String(a), Object::String(b)) => Result::Ok(
                            Object::String(a.concat(b.as_str())),
                        ),
                        _ => Result::Err(
                            RuntimeError::new(
                                operator.clone(),
                                "Operands must be two numbers or two strings.".to_owned(),
                            ),
                        ),
                    }
                } else {
                    match (lv, rv) {
                        (Object::Number(a), Object::Number(b)) => if k == TokenType::Greater {
                            Result::Ok(Object::Boolean(num_lt(b, a)))
                        } else if k == TokenType::GreaterEqual {
                            Result::Ok(Object::Boolean(num_le(b, a)))
                        } else if k == TokenType::Less {
                            Result::Ok(Object::Boolean(num_lt(a, b)))
                        } else if k == TokenType::LessEqual {
                            Result::Ok(Object::Boolean(num_le(a, b)))
                        } else if k == TokenType::Minus {
                            Result::Ok(Object::Number(num_sub(a, b)))
                        } else if k == TokenType::Slash {
                            Result::Ok(Object::Number(num_div(a, b)))
                        } else {
                            Result::Ok(Object::Number(num_mul(a, b)))
                        },
                        _ => Result::Err(
                            RuntimeError::new(
                                operator.clone(),
                                "Operands must be numbers.".to_owned(),
                            ),
                        ),
                    }
                }
            },
        }
    }

    /// The printable text of a runtime value.
    pub fn stringify(&self, object: &Object) -> (r: String)
        ensures
            r@ == stringify_spec(object@),
    {
        match object {
            Object::Nil => "nil".to_owned(),
            Object::Number(b) => {
                let s = num_to_text(*b);
                let n = s.as_str().unicode_len();
                proof {
                    reveal_strlit(".0");
                }
                if n >= 2 {
                    let c1 = s.as_str().get_char(n - 2);
                    let c2 = s.as_str().get_char(n - 1);
                    if c1 == '.' && c2 == '0' {
                        proof {
                            assert(s@.subrange(n - 2, n as int) =~= ".0"@);
                        }
                        let stripped = s.as_str().substring_char(0, n - 2).to_owned();
                        stripped
                    } else {
                        proof {
                            let sub = s@.subrange(n - 2, n as int);
                            assert(sub[0] == s@[n - 2] && sub[1] == s@[n - 1]);
                            assert(sub != ".0"@) by {
                                if sub == ".0"@ {
                                    assert(sub[0] == '.' && sub[1] == '0');
                                }
                            }
                        }
                        s
                    }
                } else {
                    s
                }
            },
            Object::String(text) => text.clone(),
            Object::Boolean(b) => if *b {
                "true".to_owned()
            } else {
                "false".to_owned()
            },
        }
    }

    /// Evaluate a parsed expression: the printable text of its value, or
    /// nothing after the runtime error has been recorded.
    pub fn interpret(&mut self, expression: &Expr, rox: &mut Rox) -> (r: Option<String>)
        requires
            wf_expr(expr_view(*expression)),
        ensures
            final(rox)@.had_error == old(rox)@.had_error,
            (match eval(expr_view(*expression)) {
                Result::Ok(vm) => match r {
                    Option::Some(text) => text@ == stringify_spec(vm) && final(rox)@ == old(rox)@,
                    Option::None => false,
                },
                Result::Err(em) => match r {
                    Option::Some(text) => false,
                    Option::None => final(rox)@ == (RoxM {
                        had_error: old(rox)@.had_error,
                        had_runtime_error: true,
                        diagnostics: old(rox)@.diagnostics.push(
                            diag_for_runtime_error(em.token, em.message),
                        ),
                    }),
                },
            }),
    {
        match self.evaluate(expression) {
            Result::Ok(value) => Some(self.stringify(&value)),
            Result::Err(error) => {
                rox.runtime_error(&error);
                None
            },
        }
    }
}

} // verus!
