use rox::{Rox, Scanner, Token, TokenType};

fn scan_source(source: &str) -> (Vec<Token>, Rox) {
    let mut rox = Rox::new();
    let mut scanner = Scanner::new(source.to_string());
    let tokens = scanner.scan_tokens(&mut rox);
    (tokens, rox)
}

#[test]
fn scans_whole_numeral_verbatim() {
    let (tokens, rox) = scan_source("123.45");
    assert!(!rox.had_error);
    assert_eq!(tokens.len(), 2);
    assert_eq!(tokens[0].token_type, TokenType::Number);
    assert_eq!(tokens[0].lexeme, "123.45");
    assert_eq!(tokens[0].literal.as_deref(), Some("123.45"));
    assert_eq!(tokens[0].line, 1);
    assert_eq!(tokens[1].token_type, TokenType::Eof);
}

#[test]
fn trailing_dot_is_not_part_of_number() {
    let (tokens, rox) = scan_source("123.");
    assert!(!rox.had_error);
    assert_eq!(tokens.len(), 3);
    assert_eq!(tokens[0].token_type, TokenType::Number);
    assert_eq!(tokens[0].lexeme, "123");
    assert_eq!(tokens[1].token_type, TokenType::Dot);
    assert_eq!(tokens[1].lexeme, ".");
    assert_eq!(tokens[2].token_type, TokenType::Eof);
}

#[test]
fn unterminated_string_reports_error_and_no_token() {
    let (tokens, rox) = scan_source("\"abc");
    assert!(rox.had_error);
    assert_eq!(rox.diagnostics.len(), 1);
    assert_eq!(rox.diagnostics[0].message, "Unterminated string.");
    assert_eq!(rox.diagnostics[0].line, 1);
    assert_eq!(tokens.len(), 1);
    assert_eq!(tokens[0].token_type, TokenType::Eof);
}

#[test]
fn string_literal_payload_is_between_quotes() {
    let (tokens, rox) = scan_source("\"hello world\"");
    assert!(!rox.had_error);
    assert_eq!(tokens.len(), 2);
    assert_eq!(tokens[0].token_type, TokenType::String);
    assert_eq!(tokens[0].lexeme, "\"hello world\"");
    assert_eq!(tokens[0].literal.as_deref(), Some("hello world"));
}

#[test]
fn string_with_embedded_newline_counts_lines() {
    let (tokens, _rox) = scan_source("\"a\nb\"\n1");
    assert_eq!(tokens.len(), 3);
    assert_eq!(tokens[0].token_type, TokenType::String);
    assert_eq!(tokens[0].literal.as_deref(), Some("a\nb"));
    // the string token carries the line where its scan began
    assert_eq!(tokens[0].line, 1);
    // the numeral after it sits two newlines further on
    assert_eq!(tokens[1].token_type, TokenType::Number);
    assert_eq!(tokens[1].line, 3);
}

#[test]
fn compound_operators_are_greedy() {
    let (tokens, rox) = scan_source("! != = == < <= > >=");
    assert!(!rox.had_error);
    let kinds: Vec<TokenType> = tokens.iter().map(|t| t.token_type).collect();
    assert_eq!(
        kinds,
        vec![
            TokenType::Bang,
            TokenType::BangEqual,
            TokenType::Equal,
            TokenType::EqualEqual,
            TokenType::Less,
            TokenType::LessEqual,
            TokenType::Greater,
            TokenType::GreaterEqual,
            TokenType::Eof,
        ]
    );
}

#[test]
fn comment_discards_rest_of_line() {
    let (tokens, rox) = scan_source("1 // all of this vanishes != )\n2");
    assert!(!rox.had_error);
    assert_eq!(tokens.len(), 3);
    assert_eq!(tokens[0].lexeme, "1");
    assert_eq!(tokens[1].lexeme, "2");
    assert_eq!(tokens[1].line, 2);
}

#[test]
fn slash_alone_is_division() {
    let (tokens, _rox) = scan_source("8 / 4");
    assert_eq!(tokens[1].token_type, TokenType::Slash);
}

#[test]
fn keywords_resolve_by_exact_match_only() {
    let (tokens, rox) = scan_source("and andy class var x _y true truey nil while");
    assert!(!rox.had_error);
    let kinds: Vec<TokenType> = tokens.iter().map(|t| t.token_type).collect();
    assert_eq!(
        kinds,
        vec![
            TokenType::And,
            TokenType::Identifier,
            TokenType::Class,
            TokenType::Var,
            TokenType::Identifier,
            TokenType::Identifier,
            TokenType::True,
            TokenType::Identifier,
            TokenType::Nil,
            TokenType::While,
            TokenType::Eof,
        ]
    );
}

#[test]
fn unexpected_character_reported_and_scan_continues() {
    let (tokens, rox) = scan_source("@1");
    assert!(rox.had_error);
    assert_eq!(rox.diagnostics.len(), 1);
    assert_eq!(rox.diagnostics[0].message, "Unexpected character.");
    assert_eq!(tokens.len(), 2);
    assert_eq!(tokens[0].token_type, TokenType::Number);
    assert_eq!(tokens[0].lexeme, "1");
}

#[test]
fn empty_source_yields_only_eof() {
    let (tokens, rox) = scan_source("");
    assert!(!rox.had_error);
    assert_eq!(tokens.len(), 1);
    assert_eq!(tokens[0].token_type, TokenType::Eof);
    assert_eq!(tokens[0].lexeme, "");
    assert_eq!(tokens[0].line, 1);
}

#[test]
fn whitespace_is_discarded_and_newline_counts() {
    let (tokens, rox) = scan_source(" \t\r\n (");
    assert!(!rox.had_error);
    assert_eq!(tokens.len(), 2);
    assert_eq!(tokens[0].token_type, TokenType::LeftParen);
    assert_eq!(tokens[0].line, 2);
}
