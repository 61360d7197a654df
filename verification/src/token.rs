use vstd::prelude::*;

verus! {

/// The kind of a lexical token: single- and double-character punctuation,
/// operators, literal kinds, reserved keywords, and the end-of-input marker.
#[derive(Clone, Copy, Debug, PartialEq, Eq, Structural)]
pub enum TokenType {
    LeftParen,
    RightParen,
    LeftBrace,
    RightBrace,
    Comma,
    Dot,
    Minus,
    Plus,
    Semicolon,
    Slash,
    Star,
    Bang,
    BangEqual,
    Equal,
    EqualEqual,
    Greater,
    GreaterEqual,
    Less,
    LessEqual,
    Identifier,
    String,
    Number,
    And,
    Class,
    Else,
    False,
    Fun,
    For,
    If,
    Nil,
    Or,
    Print,
    Return,
    Super,
    This,
    True,
    Var,
    While,
    Eof,
}

/// Mathematical model of a token: its kind, the exact source substring it
/// spans, the optional raw literal payload, and the source line it was
/// scanned on.
pub struct TokenM {
    pub token_type: TokenType,
    pub lexeme: Seq<char>,
    pub literal: Option<Seq<char>>,
    pub line: nat,
}

/// An immutable lexical token produced by the scanner.
#[derive(Debug)]
pub struct Token {
    pub token_type: TokenType,
    pub lexeme: String,
    pub literal: Option<String>,
    pub line: usize,
}

impl View for Token {
    type V = TokenM;

    open spec fn view(&self) -> TokenM {
        TokenM {
            token_type: self.token_type,
            lexeme: self.lexeme@,
            literal: match self.literal {
                Option::Some(s) => Option::Some(s@),
                Option::None => Option::None,
            },
            line: self.line as nat,
        }
    }
}

impl DeepView for Token {
    type V = TokenM;

    open spec fn deep_view(&self) -> TokenM {
        self.view()
    }
}

impl Token {
    pub fn new(token_type: TokenType, lexeme: String, literal: Option<String>, line: usize) -> (r: Token)
        ensures
            r@ == (TokenM {
                token_type,
                lexeme: lexeme@,
                literal: match literal {
                    Option::Some(s) => Option::Some(s@),
                    Option::None => Option::None,
                },
                line: line as nat,
            }),
    {
        Token { token_type, lexeme, literal, line }
    }
}

impl Clone for Token {
    fn clone(&self) -> (r: Token)
        ensures
            r == *self,
    {
        Token {
            token_type: self.token_type,
            lexeme: self.lexeme.clone(),
            literal: match &self.literal {
                Option::Some(s) => Option::Some(s.clone()),
                Option::None => Option::None,
            },
            line: self.line,
        }
    }
}

} // verus!
