use rox::{Expr, Interpreter, Object, Parser, Rox, Scanner};

fn run_source(source: &str) -> (Option<String>, Rox) {
    let mut rox = Rox::new();
    let out = rox.run(source.to_string());
    (out, rox)
}

fn evaluated(source: &str) -> Object {
    let mut rox = Rox::new();
    let mut scanner = Scanner::new(source.to_string());
    let tokens = scanner.scan_tokens(&mut rox);
    let mut parser = Parser::new(&tokens);
    let expression: Expr = parser.parse(&mut rox).expect("expected an expression");
    assert!(!rox.had_error);
    let mut interpreter = Interpreter::new();
    interpreter.evaluate(&expression).expect("expected a value")
}

#[test]
fn precedence_computes_seven() {
    assert_eq!(run_source("1 + 2 * 3").0.as_deref(), Some("7"));
}

#[test]
fn grouping_computes_nine() {
    assert_eq!(run_source("(1 + 2) * 3").0.as_deref(), Some("9"));
}

#[test]
fn arithmetic_matches_ieee_doubles() {
    assert_eq!(evaluated("1 + 2"), Object::Number(3.0f64.to_bits()));
    assert_eq!(evaluated("7 - 2"), Object::Number(5.0f64.to_bits()));
    assert_eq!(evaluated("4.5 - 2.25"), Object::Number(2.25f64.to_bits()));
    assert_eq!(evaluated("3 * 0.5"), Object::Number(1.5f64.to_bits()));
    assert_eq!(evaluated("7 / 2"), Object::Number(3.5f64.to_bits()));
    assert_eq!(evaluated("0.1 + 0.2"), Object::Number((0.1f64 + 0.2f64).to_bits()));
    assert_eq!(evaluated("-1.5"), Object::Number((-1.5f64).to_bits()));
}

#[test]
fn numeral_literal_parses_to_its_double() {
    assert_eq!(evaluated("123.45"), Object::Number(123.45f64.to_bits()));
}

#[test]
fn string_concatenation() {
    assert_eq!(run_source("\"a\" + \"b\"").0.as_deref(), Some("ab"));
}

#[test]
fn mixed_plus_is_a_runtime_error() {
    let (out, rox) = run_source("\"a\" + 2");
    assert!(out.is_none());
    assert!(rox.had_runtime_error);
    assert!(!rox.had_error);
    assert_eq!(rox.diagnostics.len(), 1);
    assert_eq!(rox.diagnostics[0].message, "Operands must be two numbers or two strings.");
}

#[test]
fn numeric_string_payload_resolves_to_a_number() {
    // literal payloads resolve by numeric parse with string fallback, so a
    // string literal whose text is a numeral becomes that number
    assert_eq!(run_source("\"1\" + 2").0.as_deref(), Some("3"));
}

#[test]
fn equality_never_requires_matching_types() {
    assert_eq!(run_source("1 == \"a\"").0.as_deref(), Some("false"));
    assert_eq!(run_source("1 != \"a\"").0.as_deref(), Some("true"));
    assert_eq!(run_source("nil == nil").0.as_deref(), Some("true"));
    assert_eq!(run_source("nil == false").0.as_deref(), Some("false"));
}

#[test]
fn ordering_requires_numbers() {
    let (out, rox) = run_source("1 < \"a\"");
    assert!(out.is_none());
    assert!(rox.had_runtime_error);
    assert_eq!(rox.diagnostics.len(), 1);
    assert_eq!(rox.diagnostics[0].message, "Operands must be numbers.");
}

#[test]
fn comparisons_compute() {
    assert_eq!(run_source("1 < 2").0.as_deref(), Some("true"));
    assert_eq!(run_source("2 <= 1").0.as_deref(), Some("false"));
    assert_eq!(run_source("3 > 2").0.as_deref(), Some("true"));
    assert_eq!(run_source("2 >= 3").0.as_deref(), Some("false"));
}

#[test]
fn ieee_equality_of_numbers() {
    // positive and negative zero are equal; NaN equals nothing
    assert_eq!(run_source("0 == -0").0.as_deref(), Some("true"));
    assert_eq!(run_source("(0 / 0) == (0 / 0)").0.as_deref(), Some("false"));
}

#[test]
fn division_by_zero_is_no_error() {
    let (out, rox) = run_source("1 / 0");
    assert!(out.is_some());
    assert!(!rox.had_runtime_error);
}

#[test]
fn integer_valued_number_prints_without_fraction() {
    assert_eq!(run_source("4.0 - 2.0").0.as_deref(), Some("2"));
}

#[test]
fn fractional_number_prints_its_fraction() {
    assert_eq!(run_source("4.5 - 2.0").0.as_deref(), Some("2.5"));
}

#[test]
fn left_operand_error_short_circuits() {
    // both operands would fail; the reported error is the left one's
    let (out, rox) = run_source("(\"x\" * 1) - (\"a\" + 1)");
    assert!(out.is_none());
    assert!(rox.had_runtime_error);
    assert_eq!(rox.diagnostics.len(), 1);
    assert_eq!(rox.diagnostics[0].message, "Operands must be numbers.");
}

#[test]
fn negation_requires_a_number() {
    let (out, rox) = run_source("-\"a\"");
    assert!(out.is_none());
    assert_eq!(rox.diagnostics.len(), 1);
    assert_eq!(rox.diagnostics[0].message, "Operand must be a number.");
}

#[test]
fn truthiness_in_logical_not() {
    assert_eq!(run_source("!nil").0.as_deref(), Some("true"));
    assert_eq!(run_source("!0").0.as_deref(), Some("false"));
    assert_eq!(run_source("!\"\"").0.as_deref(), Some("false"));
    assert_eq!(run_source("!!nil").0.as_deref(), Some("false"));
}

#[test]
fn keyword_literals_resolve_through_text_fallback() {
    // literal payloads are resolved at evaluation time: no numeric parse
    // succeeds, so they come back as their own text
    assert_eq!(run_source("true").0.as_deref(), Some("true"));
    assert_eq!(run_source("false").0.as_deref(), Some("false"));
    assert_eq!(run_source("nil").0.as_deref(), Some("nil"));
}

#[test]
fn string_value_prints_verbatim() {
    assert_eq!(run_source("\"hello\"").0.as_deref(), Some("hello"));
}

#[test]
fn syntax_error_stops_before_evaluation() {
    let (out, rox) = run_source("(1 + 2");
    assert!(out.is_none());
    assert!(rox.had_error);
    assert!(!rox.had_runtime_error);
}

#[test]
fn lexical_error_stops_before_evaluation() {
    let (out, rox) = run_source("1 + 2 @");
    assert!(out.is_none());
    assert!(rox.had_error);
    assert_eq!(rox.diagnostics[0].message, "Unexpected character.");
}

#[test]
fn runtime_error_carries_operator_line() {
    let (out, rox) = run_source("1 +\n\"a\"");
    assert!(out.is_none());
    assert_eq!(rox.diagnostics.len(), 1);
    assert_eq!(rox.diagnostics[0].line, 1);
}
