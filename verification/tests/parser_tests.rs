use rox::{AstPrinter, Expr, Parser, Rox, Scanner};

fn parse_source(source: &str) -> (Option<Expr>, Rox) {
    let mut rox = Rox::new();
    let mut scanner = Scanner::new(source.to_string());
    let tokens = scanner.scan_tokens(&mut rox);
    let mut parser = Parser::new(&tokens);
    let expression = parser.parse(&mut rox);
    (expression, rox)
}

fn printed(source: &str) -> String {
    let (expression, rox) = parse_source(source);
    assert!(!rox.had_error, "unexpected syntax error for {:?}", source);
    let printer = AstPrinter {};
    printer.print(&expression.expect("expected an expression"))
}

#[test]
fn multiplication_binds_tighter_than_addition() {
    assert_eq!(printed("1 + 2 * 3"), "(+ 1 (* 2 3))");
}

#[test]
fn grouping_overrides_precedence() {
    assert_eq!(printed("(1 + 2) * 3"), "(* (group (+ 1 2)) 3)");
}

#[test]
fn same_level_operators_fold_left() {
    assert_eq!(printed("1 - 2 - 3"), "(- (- 1 2) 3)");
    assert_eq!(printed("8 / 4 / 2"), "(/ (/ 8 4) 2)");
}

#[test]
fn comparison_sits_between_equality_and_term() {
    assert_eq!(printed("1 + 2 < 3 == true"), "(== (< (+ 1 2) 3) true)");
}

#[test]
fn unary_is_right_recursive() {
    assert_eq!(printed("!!true"), "(! (! true))");
    assert_eq!(printed("--1"), "(- (- 1))");
}

#[test]
fn literals_keep_their_payload_text() {
    assert_eq!(printed("nil"), "nil");
    assert_eq!(printed("false"), "false");
    assert_eq!(printed("\"hi\""), "hi");
    assert_eq!(printed("123.45"), "123.45");
}

#[test]
fn missing_close_paren_reports_at_end() {
    let (expression, rox) = parse_source("(1 + 2");
    assert!(expression.is_none());
    assert!(rox.had_error);
    assert_eq!(rox.diagnostics.len(), 1);
    assert_eq!(rox.diagnostics[0].location, " at end");
    assert_eq!(rox.diagnostics[0].message, "Expect ')' after expression.");
}

#[test]
fn missing_close_paren_reports_at_token() {
    let (expression, rox) = parse_source("(1 + 2 3");
    assert!(expression.is_none());
    assert!(rox.had_error);
    assert_eq!(rox.diagnostics.len(), 1);
    assert_eq!(rox.diagnostics[0].location, " at '3'");
    assert_eq!(rox.diagnostics[0].message, "Expect ')' after expression.");
}

#[test]
fn operator_without_operand_expects_expression() {
    let (expression, rox) = parse_source("+");
    assert!(expression.is_none());
    assert!(rox.had_error);
    assert_eq!(rox.diagnostics.len(), 1);
    assert_eq!(rox.diagnostics[0].location, " at '+'");
    assert_eq!(rox.diagnostics[0].message, "Expect expression.");
}

#[test]
fn empty_input_expects_expression_at_end() {
    let (expression, rox) = parse_source("");
    assert!(expression.is_none());
    assert!(rox.had_error);
    assert_eq!(rox.diagnostics.len(), 1);
    assert_eq!(rox.diagnostics[0].location, " at end");
    assert_eq!(rox.diagnostics[0].message, "Expect expression.");
}
