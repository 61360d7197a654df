use vstd::prelude::*;

use crate::expr::ExprM;
use crate::interpreter::{apply_binary, eval};
use crate::parser::{
    p_comparison, p_comparison_rest, p_equality, p_equality_rest, p_factor, p_factor_rest,
    p_primary, p_term, p_term_rest, p_unary, ParseStep,
};
use crate::object::{val_eq, ValueM};
use crate::runtime_error::RuntimeErrorM;
use crate::scanner::{
    digit_run_len, is_digit, lemma_digit_run, lemma_string_run, scan_rest, scan_spec,
    string_run_len,
};
use crate::token::{TokenM, TokenType};

verus! {

/// Valid numeral text: a digit run, optionally followed by a point and a
/// second digit run, covering the whole text (so a trailing point with no
/// digit after it is no numeral).
pub open spec fn is_numeral(t: Seq<char>) -> bool {
    let j = digit_run_len(t, 0) as int;
    &&& t.len() > 0
    &&& is_digit(t[0])
    &&& (j == t.len() || (j + 1 < t.len() && t[j] == '.' && is_digit(t[j + 1]) && j + 1
        + digit_run_len(t, j + 1) == t.len()))
}

/// Scanning any valid numeral yields exactly one Number token, whose lexeme
/// and literal payload equal the numeral verbatim, followed by the
/// end-of-input token, and no lexical error.
pub proof fn lemma_scan_numeral(t: Seq<char>)
    requires
        is_numeral(t),
    ensures
        scan_spec(t).errors.len() == 0,
        scan_spec(t).tokens.len() == 2,
        scan_spec(t).tokens[0] == (TokenM {
            token_type: TokenType::Number,
            lexeme: t,
            literal: Option::Some(t),
            line: 1nat,
        }),
        scan_spec(t).tokens[1].token_type == TokenType::Eof,
{
    lemma_digit_run(t, 0);
    let j = digit_run_len(t, 0) as int;
    if j < t.len() {
        lemma_digit_run(t, j + 1);
        assert(t.subrange(0, t.len() as int) =~= t);
    } else {
        assert(t.subrange(0, j) =~= t);
    }
    lemma_scan_rest_ended(t, t.len() as int, 1);
    assert(scan_spec(t).tokens[0] == (TokenM {
        token_type: TokenType::Number,
        lexeme: t,
        literal: Option::Some(t),
        line: 1nat,
    }));
}

/// Past the end of the text a scan yields nothing more.
proof fn lemma_scan_rest_ended(s: Seq<char>, i: int, line: int)
    requires
        i >= s.len(),
    ensures
        scan_rest(s, i, line).tokens =~= Seq::<TokenM>::empty(),
        scan_rest(s, i, line).errors =~= Seq::<crate::reporter::DiagnosticM>::empty(),
        scan_rest(s, i, line).end_line == line,
{
}

/// An unterminated string literal (an opening quote never closed) produces
/// exactly one lexical error and no token for that span; the scan still
/// reaches end-of-input and yields the end-of-input token.
pub proof fn lemma_unterminated_string(s: Seq<char>)
    requires
        s.len() > 0,
        s[0] == '"',
        forall|k: int| 1 <= k < s.len() ==> s[k] != '"',
    ensures
        scan_spec(s).errors.len() == 1,
        scan_spec(s).errors[0].message == "Unterminated string."@,
        scan_spec(s).tokens.len() == 1,
        scan_spec(s).tokens[0].token_type == TokenType::Eof,
{
    lemma_string_run_no_close(s, 1);
    lemma_string_run(s, 1);
    assert(1 + string_run_len(s, 1) == s.len());
    lemma_scan_rest_ended(s, s.len() as int, 1 + crate::scanner::nl_count(s, 1, s.len() as int));
}

proof fn lemma_string_run_no_close(s: Seq<char>, i: int)
    requires
        0 <= i <= s.len(),
        forall|k: int| i <= k < s.len() ==> s[k] != '"',
    ensures
        i + string_run_len(s, i) == s.len(),
    decreases s.len() - i,
{
    if i < s.len() {
        lemma_string_run_no_close(s, i + 1);
    }
}

/// Multiplicative operators bind tighter than additive ones: for any number
/// tokens, `n1 + n2 * n3` parses as `n1 + (n2 * n3)`, never as
/// `(n1 + n2) * n3`.
pub proof fn lemma_multiplication_binds_tighter(
    n1: TokenM,
    plus: TokenM,
    n2: TokenM,
    star: TokenM,
    n3: TokenM,
    eof: TokenM,
)
    requires
        n1.token_type == TokenType::Number,
        n2.token_type == TokenType::Number,
        n3.token_type == TokenType::Number,
        plus.token_type == TokenType::Plus,
        star.token_type == TokenType::Star,
        eof.token_type == TokenType::Eof,
    ensures
        ({
            let toks = seq![n1, plus, n2, star, n3, eof];
            let lit1 = ExprM::Literal { value: n1.literal };
            let lit2 = ExprM::Literal { value: n2.literal };
            let lit3 = ExprM::Literal { value: n3.literal };
            crate::parser::p_expression(toks, 0) == ParseStep::Good {
                expr: ExprM::Binary {
                    left: Box::new(lit1),
                    operator: plus,
                    right: Box::new(
                        ExprM::Binary {
                            left: Box::new(lit2),
                            operator: star,
                            right: Box::new(lit3),
                        },
                    ),
                },
                next: 5,
            }
        }),
{
    let toks = seq![n1, plus, n2, star, n3, eof];
    let lit1 = ExprM::Literal { value: n1.literal };
    let lit2 = ExprM::Literal { value: n2.literal };
    let lit3 = ExprM::Literal { value: n3.literal };
    let prod = ExprM::Binary { left: Box::new(lit2), operator: star, right: Box::new(lit3) };
    assert(p_primary(toks, 0) == ParseStep::Good { expr: lit1, next: 1 });
    assert(p_unary(toks, 0) == ParseStep::Good { expr: lit1, next: 1 });
    assert(p_factor_rest(toks, 1, lit1) == ParseStep::Good { expr: lit1, next: 1 });
    assert(p_factor(toks, 0) == ParseStep::Good { expr: lit1, next: 1 });
    assert(p_primary(toks, 2) == ParseStep::Good { expr: lit2, next: 3 });
    assert(p_unary(toks, 2) == ParseStep::Good { expr: lit2, next: 3 });
    assert(p_primary(toks, 4) == ParseStep::Good { expr: lit3, next: 5 });
    assert(p_unary(toks, 4) == ParseStep::Good { expr: lit3, next: 5 });
    assert(p_factor_rest(toks, 5, prod) == ParseStep::Good { expr: prod, next: 5 });
    assert(p_factor_rest(toks, 3, lit2) == ParseStep::Good { expr: prod, next: 5 });
    assert(p_factor(toks, 2) == ParseStep::Good { expr: prod, next: 5 });
    let sum = ExprM::Binary { left: Box::new(lit1), operator: plus, right: Box::new(prod) };
    assert(p_term_rest(toks, 5, sum) == ParseStep::Good { expr: sum, next: 5 });
    assert(p_term_rest(toks, 1, lit1) == ParseStep::Good { expr: sum, next: 5 });
    assert(p_term(toks, 0) == ParseStep::Good { expr: sum, next: 5 });
    assert(p_comparison_rest(toks, 5, sum) == ParseStep::Good { expr: sum, next: 5 });
    assert(p_comparison(toks, 0) == ParseStep::Good { expr: sum, next: 5 });
    assert(p_equality_rest(toks, 5, sum) == ParseStep::Good { expr: sum, next: 5 });
    assert(p_equality(toks, 0) == ParseStep::Good { expr: sum, next: 5 });
}

/// Operators of one precedence level fold to the left: for any number
/// tokens, `n1 - n2 - n3` parses as `(n1 - n2) - n3`.
pub proof fn lemma_same_level_folds_left(
    n1: TokenM,
    minus1: TokenM,
    n2: TokenM,
    minus2: TokenM,
    n3: TokenM,
    eof: TokenM,
)
    requires
        n1.token_type == TokenType::Number,
        n2.token_type == TokenType::Number,
        n3.token_type == TokenType::Number,
        minus1.token_type == TokenType::Minus,
        minus2.token_type == TokenType::Minus,
        eof.token_type == TokenType::Eof,
    ensures
        ({
            let toks = seq![n1, minus1, n2, minus2, n3, eof];
            let lit1 = ExprM::Literal { value: n1.literal };
            let lit2 = ExprM::Literal { value: n2.literal };
            let lit3 = ExprM::Literal { value: n3.literal };
            crate::parser::p_expression(toks, 0) == ParseStep::Good {
                expr: ExprM::Binary {
                    left: Box::new(
                        ExprM::Binary {
                            left: Box::new(lit1),
                            operator: minus1,
                            right: Box::new(lit2),
                        },
                    ),
                    operator: minus2,
                    right: Box::new(lit3),
                },
                next: 5,
            }
        }),
{
    let toks = seq![n1, minus1, n2, minus2, n3, eof];
    let lit1 = ExprM::Literal { value: n1.literal };
    let lit2 = ExprM::Literal { value: n2.literal };
    let lit3 = ExprM::Literal { value: n3.literal };
    assert(p_primary(toks, 0) == ParseStep::Good { expr: lit1, next: 1 });
    assert(p_unary(toks, 0) == ParseStep::Good { expr: lit1, next: 1 });
    assert(p_factor_rest(toks, 1, lit1) == ParseStep::Good { expr: lit1, next: 1 });
    assert(p_factor(toks, 0) == ParseStep::Good { expr: lit1, next: 1 });
    assert(p_primary(toks, 2) == ParseStep::Good { expr: lit2, next: 3 });
    assert(p_unary(toks, 2) == ParseStep::Good { expr: lit2, next: 3 });
    assert(p_factor_rest(toks, 3, lit2) == ParseStep::Good { expr: lit2, next: 3 });
    assert(p_factor(toks, 2) == ParseStep::Good { expr: lit2, next: 3 });
    assert(p_primary(toks, 4) == ParseStep::Good { expr: lit3, next: 5 });
    assert(p_unary(toks, 4) == ParseStep::Good { expr: lit3, next: 5 });
    assert(p_factor_rest(toks, 5, lit3) == ParseStep::Good { expr: lit3, next: 5 });
    assert(p_factor(toks, 4) == ParseStep::Good { expr: lit3, next: 5 });
    let first = ExprM::Binary { left: Box::new(lit1), operator: minus1, right: Box::new(lit2) };
    let second = ExprM::Binary { left: Box::new(first), operator: minus2, right: Box::new(lit3) };
    assert(p_term_rest(toks, 5, second) == ParseStep::Good { expr: second, next: 5 });
    assert(p_term_rest(toks, 3, first) == ParseStep::Good { expr: second, next: 5 });
    assert(p_term_rest(toks, 1, lit1) == ParseStep::Good { expr: second, next: 5 });
    assert(p_term(toks, 0) == ParseStep::Good { expr: second, next: 5 });
    assert(p_comparison_rest(toks, 5, second) == ParseStep::Good { expr: second, next: 5 });
    assert(p_comparison(toks, 0) == ParseStep::Good { expr: second, next: 5 });
    assert(p_equality_rest(toks, 5, second) == ParseStep::Good { expr: second, next: 5 });
    assert(p_equality(toks, 0) == ParseStep::Good { expr: second, next: 5 });
}

/// Equality and inequality never require matching operand types: applied to
/// any two values they yield a boolean, never an error.
pub proof fn lemma_equality_ignores_types(op: TokenM, l: ValueM, r: ValueM)
    requires
        op.token_type == TokenType::BangEqual || op.token_type == TokenType::EqualEqual,
    ensures
        apply_binary(op, l, r) == Result::<ValueM, RuntimeErrorM>::Ok(
            ValueM::Bool(
                if op.token_type == TokenType::BangEqual {
                    !val_eq(l, r)
                } else {
                    val_eq(l, r)
                },
            ),
        ),
{
}

/// The ordering operators require two Number operands: on any other pair of
/// values they yield exactly the runtime error "Operands must be numbers.",
/// attributed to the operator token.
pub proof fn lemma_ordering_requires_numbers(op: TokenM, l: ValueM, r: ValueM)
    requires
        op.token_type == TokenType::Greater || op.token_type == TokenType::GreaterEqual
            || op.token_type == TokenType::Less || op.token_type == TokenType::LessEqual,
        !(l is Num && r is Num),
    ensures
        apply_binary(op, l, r) == Result::<ValueM, RuntimeErrorM>::Err(
            RuntimeErrorM { token: op, message: "Operands must be numbers."@ },
        ),
{
}

/// Addition concatenates two strings, and on a mixed-type pair (anything
/// but two numbers or two strings) yields exactly the runtime error
/// "Operands must be two numbers or two strings." — there is no implicit
/// coercion between the two cases.
pub proof fn lemma_plus_strings_or_mismatch(op: TokenM, l: ValueM, r: ValueM)
    requires
        op.token_type == TokenType::Plus,
    ensures
        l is Str && r is Str ==> apply_binary(op, l, r) == Result::<ValueM, RuntimeErrorM>::Ok(
            ValueM::Str(l->Str_0 + r->Str_0),
        ),
        !(l is Str && r is Str) && !(l is Num && r is Num) ==> apply_binary(op, l, r)
            == Result::<ValueM, RuntimeErrorM>::Err(
            RuntimeErrorM {
                token: op,
                message: "Operands must be two numbers or two strings."@,
            },
        ),
{
}

/// Operands are evaluated strictly left then right: an error while
/// evaluating the left operand of any binary expression is the result of
/// the whole expression, and the right operand is never evaluated.
pub proof fn lemma_left_error_short_circuits(l: ExprM, op: TokenM, r: ExprM)
    requires
        eval(l) is Err,
    ensures
        eval(ExprM::Binary { left: Box::new(l), operator: op, right: Box::new(r) }) == eval(l),
{
}

} // verus!
