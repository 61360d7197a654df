use vstd::prelude::*;

use crate::reporter::{DiagnosticM, Rox};
use crate::token::{Token, TokenM, TokenType};

verus! {

// ---------------------------------------------------------------------------
// Character classes
// ---------------------------------------------------------------------------

pub open spec fn is_digit(c: char) -> bool {
    '0' <= c && c <= '9'
}

pub open spec fn is_alpha(c: char) -> bool {
    ('a' <= c && c <= 'z') || ('A' <= c && c <= 'Z') || c == '_'
}

pub open spec fn is_alnum(c: char) -> bool {
    is_digit(c) || is_alpha(c)
}

fn is_digit_char(c: char) -> (r: bool)
    ensures
        r == is_digit(c),
{
    '0' <= c && c <= '9'
}

fn is_alpha_char(c: char) -> (r: bool)
    ensures
        r == is_alpha(c),
{
    ('a' <= c && c <= 'z') || ('A' <= c && c <= 'Z') || c == '_'
}

fn is_alnum_char(c: char) -> (r: bool)
    ensures
        r == is_alnum(c),
{
    is_digit_char(c) || is_alpha_char(c)
}

// ---------------------------------------------------------------------------
// Maximal runs of characters, as lengths so that every run end lies at or
// beyond its start by construction
// ---------------------------------------------------------------------------

/// Length of the maximal run of decimal digits starting at `i`.
pub open spec fn digit_run_len(s: Seq<char>, i: int) -> nat
    decreases s.len() - i,
{
    if 0 <= i && i < s.len() && is_digit(s[i]) {
        1 + digit_run_len(s, i + 1)
    } else {
        0
    }
}

/// Length of the maximal run of identifier characters starting at `i`.
pub open spec fn ident_run_len(s: Seq<char>, i: int) -> nat
    decreases s.len() - i,
{
    if 0 <= i && i < s.len() && is_alnum(s[i]) {
        1 + ident_run_len(s, i + 1)
    } else {
        0
    }
}

/// Length of the run of commented-out characters starting at `i`: everything
/// up to the next newline or the end of input.
pub open spec fn comment_run_len(s: Seq<char>, i: int) -> nat
    decreases s.len() - i,
{
    if 0 <= i && i < s.len() && s[i] != '\n' {
        1 + comment_run_len(s, i + 1)
    } else {
        0
    }
}

/// Length of a string literal's body starting at `i` (just past the opening
/// quote): everything up to the closing quote or the end of input.
pub open spec fn string_run_len(s: Seq<char>, i: int) -> nat
    decreases s.len() - i,
{
    if 0 <= i && i < s.len() && s[i] != '"' {
        1 + string_run_len(s, i + 1)
    } else {
        0
    }
}

/// Number of newline characters in `s[i..j)`.
pub open spec fn nl_count(s: Seq<char>, i: int, j: int) -> int
    decreases j - i,
{
    if i < j {
        (if s[i] == '\n' {
            1int
        } else {
            0int
        }) + nl_count(s, i + 1, j)
    } else {
        0
    }
}

pub proof fn lemma_digit_run(s: Seq<char>, i: int)
    requires
        0 <= i <= s.len(),
    ensures
        i + digit_run_len(s, i) <= s.len(),
        forall|k: int| i <= k < i + digit_run_len(s, i) ==> is_digit(s[k]),
        i + digit_run_len(s, i) < s.len() ==> !is_digit(s[i + digit_run_len(s, i)]),
    decreases s.len() - i,
{
    if i < s.len() && is_digit(s[i]) {
        lemma_digit_run(s, i + 1);
    }
}

pub proof fn lemma_ident_run(s: Seq<char>, i: int)
    requires
        0 <= i <= s.len(),
    ensures
        i + ident_run_len(s, i) <= s.len(),
        forall|k: int| i <= k < i + ident_run_len(s, i) ==> is_alnum(s[k]),
        i + ident_run_len(s, i) < s.len() ==> !is_alnum(s[i + ident_run_len(s, i)]),
    decreases s.len() - i,
{
    if i < s.len() && is_alnum(s[i]) {
        lemma_ident_run(s, i + 1);
    }
}

pub proof fn lemma_comment_run(s: Seq<char>, i: int)
    requires
        0 <= i <= s.len(),
    ensures
        i + comment_run_len(s, i) <= s.len(),
        i + comment_run_len(s, i) < s.len() ==> s[i + comment_run_len(s, i)] == '\n',
    decreases s.len() - i,
{
    if i < s.len() && s[i] != '\n' {
        lemma_comment_run(s, i + 1);
    }
}

pub proof fn lemma_string_run(s: Seq<char>, i: int)
    requires
        0 <= i <= s.len(),
    ensures
        i + string_run_len(s, i) <= s.len(),
        i + string_run_len(s, i) < s.len() ==> s[i + string_run_len(s, i)] == '"',
    decreases s.len() - i,
{
    if i < s.len() && s[i] != '"' {
        lemma_string_run(s, i + 1);
    }
}

pub proof fn lemma_nl_count_bounds(s: Seq<char>, i: int, j: int)
    requires
        i <= j,
    ensures
        0 <= nl_count(s, i, j) <= j - i,
    decreases j - i,
{
    if i < j {
        lemma_nl_count_bounds(s, i + 1, j);
    }
}

pub proof fn lemma_nl_count_snoc(s: Seq<char>, i: int, j: int)
    requires
        i <= j,
    ensures
        nl_count(s, i, j + 1) == nl_count(s, i, j) + (if s[j] == '\n' {
            1int
        } else {
            0int
        }),
    decreases j - i,
{
    reveal_with_fuel(nl_count, 3);
    if i < j {
        lemma_nl_count_snoc(s, i + 1, j);
    }
}

// ---------------------------------------------------------------------------
// The keyword table: an exact-match table from reserved lexemes to their
// token kinds, distinct from generic identifiers
// ---------------------------------------------------------------------------

pub open spec fn keyword_or_identifier(s: Seq<char>) -> TokenType {
    if s == "and"@ {
        TokenType::And
    } else if s == "class"@ {
        TokenType::Class
    } else if s == "else"@ {
        TokenType::Else
    } else if s == "false"@ {
        TokenType::False
    } else if s == "for"@ {
        TokenType::For
    } else if s == "fun"@ {
        TokenType::Fun
    } else if s == "if"@ {
        TokenType::If
    } else if s == "nil"@ {
        TokenType::Nil
    } else if s == "or"@ {
        TokenType::Or
    } else if s == "print"@ {
        TokenType::Print
    } else if s == "return"@ {
        TokenType::Return
    } else if s == "super"@ {
        TokenType::Super
    } else if s == "this"@ {
        TokenType::This
    } else if s == "true"@ {
        TokenType::True
    } else if s == "var"@ {
        TokenType::Var
    } else if s == "while"@ {
        TokenType::While
    } else {
        TokenType::Identifier
    }
}

fn text_is(text: &String, expected: &str) -> (r: bool)
    ensures
        r == (text@ == expected@),
{
    let owned = expected.to_owned();
    *text == owned
}

fn keyword_or_identifier_exec(text: &String) -> (t: TokenType)
    ensures
        t == keyword_or_identifier(text@),
{
    if text_is(text, "and") {
        TokenType::And
    } else if text_is(text, "class") {
        TokenType::Class
    } else if text_is(text, "else") {
        TokenType::Else
    } else if text_is(text, "false") {
        TokenType::False
    } else if text_is(text, "for") {
        TokenType::For
    } else if text_is(text, "fun") {
        TokenType::Fun
    } else if text_is(text, "if") {
        TokenType::If
    } else if text_is(text, "nil") {
        TokenType::Nil
    } else if text_is(text, "or") {
        TokenType::Or
    } else if text_is(text, "print") {
        TokenType::Print
    } else if text_is(text, "return") {
        TokenType::Return
    } else if text_is(text, "super") {
        TokenType::Super
    } else if text_is(text, "this") {
        TokenType::This
    } else if text_is(text, "true") {
        TokenType::True
    } else if text_is(text, "var") {
        TokenType::Var
    } else if text_is(text, "while") {
        TokenType::While
    } else {
        TokenType::Identifier
    }
}

// ---------------------------------------------------------------------------
// The mathematical model of a scan
// ---------------------------------------------------------------------------

/// Everything one scan produces: the tokens in order (without the final
/// end-of-input token), the lexical diagnostics in order, and the line
/// counter's final value.
pub struct ScanOut {
    pub tokens: Seq<TokenM>,
    pub errors: Seq<DiagnosticM>,
    pub end_line: int,
}

pub open spec fn with_token(t: TokenM, rest: ScanOut) -> ScanOut {
    ScanOut { tokens: seq![t] + rest.tokens, errors: rest.errors, end_line: rest.end_line }
}

pub open spec fn with_error(e: DiagnosticM, rest: ScanOut) -> ScanOut {
    ScanOut { tokens: rest.tokens, errors: seq![e] + rest.errors, end_line: rest.end_line }
}

/// A token with no literal payload whose lexeme spans `s[i..j)`.
pub open spec fn plain_token(t: TokenType, s: Seq<char>, i: int, j: int, line: int) -> TokenM {
    TokenM { token_type: t, lexeme: s.subrange(i, j), literal: Option::None, line: line as nat }
}

/// The kind of the two-character operator beginning with `c`.
pub open spec fn compound_kind(c: char) -> TokenType {
    if c == '!' {
        TokenType::BangEqual
    } else if c == '=' {
        TokenType::EqualEqual
    } else if c == '<' {
        TokenType::LessEqual
    } else {
        TokenType::GreaterEqual
    }
}

/// The kind of the one-character operator `c` among `!`, `=`, `<`, `>`.
pub open spec fn simple_kind(c: char) -> TokenType {
    if c == '!' {
        TokenType::Bang
    } else if c == '=' {
        TokenType::Equal
    } else if c == '<' {
        TokenType::Less
    } else {
        TokenType::Greater
    }
}

/// One left-to-right pass from position `i` on line `line`: the tokens and
/// lexical errors of the remainder of the text, in order.
pub open spec fn scan_rest(s: Seq<char>, i: int, line: int) -> ScanOut
    decreases s.len() - i,
        via scan_rest_decreases
{
    if i < 0 || i >= s.len() {
        ScanOut { tokens: Seq::empty(), errors: Seq::empty(), end_line: line }
    } else {
        let c = s[i];
        if c == '(' {
            with_token(plain_token(TokenType::LeftParen, s, i, i + 1, line), scan_rest(s, i + 1, line))
        } else if c == ')' {
            with_token(plain_token(TokenType::RightParen, s, i, i + 1, line), scan_rest(s, i + 1, line))
        } else if c == '{' {
            with_token(plain_token(TokenType::LeftBrace, s, i, i + 1, line), scan_rest(s, i + 1, line))
        } else if c == '}' {
            with_token(plain_token(TokenType::RightBrace, s, i, i + 1, line), scan_rest(s, i + 1, line))
        } else if c == ',' {
            with_token(plain_token(TokenType::Comma, s, i, i + 1, line), scan_rest(s, i + 1, line))
        } else if c == '.' {
            with_token(plain_token(TokenType::Dot, s, i, i + 1, line), scan_rest(s, i + 1, line))
        } else if c == '-' {
            with_token(plain_token(TokenType::Minus, s, i, i + 1, line), scan_rest(s, i + 1, line))
        } else if c == '+' {
            with_token(plain_token(TokenType::Plus, s, i, i + 1, line), scan_rest(s, i + 1, line))
        } else if c == ';' {
            with_token(plain_token(TokenType::Semicolon, s, i, i + 1, line), scan_rest(s, i + 1, line))
        } else if c == '*' {
            with_token(plain_token(TokenType::Star, s, i, i + 1, line), scan_rest(s, i + 1, line))
        } else if c == '!' || c == '=' || c == '<' || c == '>' {
            if i + 1 < s.len() && s[i + 1] == '=' {
                with_token(plain_token(compound_kind(c), s, i, i + 2, line), scan_rest(s, i + 2, line))
            } else {
                with_token(plain_token(simple_kind(c), s, i, i + 1, line), scan_rest(s, i + 1, line))
            }
        } else if c == '/' {
            if i + 1 < s.len() && s[i + 1] == '/' {
                scan_rest(s, i + 2 + comment_run_len(s, i + 2), line)
            } else {
                with_token(plain_token(TokenType::Slash, s, i, i + 1, line), scan_rest(s, i + 1, line))
            }
        } else if c == ' ' || c == '\r' || c == '\t' {
            scan_rest(s, i + 1, line)
        } else if c == '\n' {
            scan_rest(s, i + 1, line + 1)
        } else if c == '"' {
            let close = i + 1 + string_run_len(s, i + 1);
            let nl = nl_count(s, i + 1, close);
            if close >= s.len() {
                with_error(
                    DiagnosticM {
                        line: (line + nl) as nat,
                        location: ""@,
                        message: "Unterminated string."@,
                    },
                    scan_rest(s, close, line + nl),
                )
            } else {
                with_token(
                    TokenM {
                        token_type: TokenType::String,
                        lexeme: s.subrange(i, close + 1),
                        literal: Option::Some(s.subrange(i + 1, close)),
                        line: line as nat,
                    },
                    scan_rest(s, close + 1, line + nl),
                )
            }
        } else if is_digit(c) {
            let j = i + digit_run_len(s, i);
            if j < s.len() && s[j] == '.' && j + 1 < s.len() && is_digit(s[j + 1]) {
                let k = j + 1 + digit_run_len(s, j + 1);
                with_token(
                    TokenM {
                        token_type: TokenType::Number,
                        lexeme: s.subrange(i, k),
                        literal: Option::Some(s.subrange(i, k)),
                        line: line as nat,
                    },
                    scan_rest(s, k, line),
                )
            } else {
                with_token(
                    TokenM {
                        token_type: TokenType::Number,
                        lexeme: s.subrange(i, j),
                        literal: Option::Some(s.subrange(i, j)),
                        line: line as nat,
                    },
                    scan_rest(s, j, line),
                )
            }
        } else if is_alpha(c) {
            let j = i + ident_run_len(s, i);
            with_token(
                TokenM {
                    token_type: keyword_or_identifier(s.subrange(i, j)),
                    lexeme: s.subrange(i, j),
                    literal: Option::None,
                    line: line as nat,
                },
                scan_rest(s, j, line),
            )
        } else {
            with_error(
                DiagnosticM {
                    line: line as nat,
                    location: ""@,
                    message: "Unexpected character."@,
                },
                scan_rest(s, i + 1, line),
            )
        }
    }
}

#[via_fn]
proof fn scan_rest_decreases(s: Seq<char>, i: int, line: int) {
    if 0 <= i && i < s.len() {
        let c = s[i];
        if c == '/' && i + 1 < s.len() && s[i + 1] == '/' {
            lemma_comment_run(s, i + 2);
        }
        if c == '"' {
            lemma_string_run(s, i + 1);
        }
        if is_digit(c) {
            lemma_digit_run(s, i);
            let j = i + digit_run_len(s, i);
            if j < s.len() && s[j] == '.' && j + 1 < s.len() && is_digit(s[j + 1]) {
                lemma_digit_run(s, j + 1);
            }
        }
        if is_alpha(c) {
            lemma_ident_run(s, i);
        }
    }
}

/// The complete scan of a source text: its tokens terminated by exactly one
/// end-of-input token, and its lexical errors.
pub open spec fn scan_spec(s: Seq<char>) -> ScanOut {
    let out = scan_rest(s, 0, 1);
    ScanOut {
        tokens: out.tokens.push(
            TokenM {
                token_type: TokenType::Eof,
                lexeme: Seq::empty(),
                literal: Option::None,
                line: out.end_line as nat,
            },
        ),
        errors: out.errors,
        end_line: out.end_line,
    }
}

// ---------------------------------------------------------------------------
// The executable scanner
// ---------------------------------------------------------------------------

/// The scanner: a single left-to-right pass with a three-cursor window
/// (token start, current read position, current line).
pub struct Scanner {
    chars: Vec<char>,
    tokens: Vec<Token>,
    start: usize,
    current: usize,
    line: usize,
}

impl View for Scanner {
    type V = Seq<char>;

    closed spec fn view(&self) -> Seq<char> {
        self.chars@
    }
}

impl Scanner {
    /// Whether this scanner is still at its initial state, ready to scan.
    pub closed spec fn is_fresh(&self) -> bool {
        self.current == 0 && self.line == 1 && self.tokens@ == Seq::<Token>::empty()
    }

    pub fn new(source: String) -> (r: Scanner)
        requires
            source@.len() < usize::MAX,
        ensures
            r@ == source@,
            r.is_fresh(),
    {
        let text = source.as_str();
        let n = text.unicode_len();
        let mut chars: Vec<char> = Vec::new();
        let mut i: usize = 0;
        while i < n
            invariant
                i <= n,
                n == text@.len(),
                chars@ =~= text@.subrange(0, i as int),
            decreases n - i,
        {
            let c = text.get_char(i);
            chars.push(c);
            i = i + 1;
        }
        proof {
            assert(chars@ =~= source@);
        }
        Scanner { chars, tokens: Vec::new(), start: 0, current: 0, line: 1 }
    }

    fn is_at_end(&self) -> (r: bool)
        ensures
            r == (self.current >= self.chars@.len()),
    {
        self.current >= self.chars.len()
    }

    fn advance(&mut self) -> (c: char)
        requires
            old(self).current < old(self).chars@.len(),
        ensures
            final(self).chars == old(self).chars,
            final(self).tokens == old(self).tokens,
            final(self).start == old(self).start,
            final(self).line == old(self).line,
            final(self).current == old(self).current + 1,
            c == old(self).chars@[old(self).current as int],
    {
        let n = self.chars.len();
        let c = self.chars[self.current];
        proof {
            assert(self.current < n);
        }
        self.current = self.current + 1;
        c
    }

    fn peek(&self) -> (c: char)
        ensures
            c == (if self.current < self.chars@.len() {
                self.chars@[self.current as int]
            } else {
                '\0'
            }),
    {
        if self.current < self.chars.len() {
            self.chars[self.current]
        } else {
            '\0'
        }
    }

    fn peek_next(&self) -> (c: char)
        ensures
            c == (if self.current + 1 < self.chars@.len() {
                self.chars@[self.current + 1]
            } else {
                '\0'
            }),
    {
        let n = self.chars.len();
        if self.current < n && self.current + 1 < n {
            self.chars[self.current + 1]
        } else {
            '\0'
        }
    }

    fn match_char(&mut self, expected: char) -> (r: bool)
        ensures
            final(self).chars == old(self).chars,
            final(self).tokens == old(self).tokens,
            final(self).start == old(self).start,
            final(self).line == old(self).line,
            r == (old(self).current < old(self).chars@.len()
                && old(self).chars@[old(self).current as int] == expected),
            final(self).current == (if r {
                old(self).current + 1
            } else {
                old(self).current as int
            }),
    {
        if self.is_at_end() {
            return false;
        }
        let n = self.chars.len();
        if self.chars[self.current] != expected {
            return false;
        }
        proof {
            assert(self.current < n);
        }
        self.current = self.current + 1;
        true
    }

    /// The characters `self.chars[from..to)` gathered into a `String`.
    fn build_text(&self, from: usize, to: usize) -> (r: String)
        requires
            from <= to <= self.chars@.len(),
        ensures
            r@ == self.chars@.subrange(from as int, to as int),
    {
        let mut r = String::new();
        let mut k = from;
        while k < to
            invariant
                from <= k <= to <= self.chars@.len(),
                r@ =~= self.chars@.subrange(from as int, k as int),
            decreases to - k,
        {
            push_char(&mut r, self.chars[k]);
            k = k + 1;
            proof {
                assert(r@ =~= self.chars@.subrange(from as int, k as int));
            }
        }
        r
    }

    fn add_token(&mut self, token_type: TokenType, literal: Option<String>, line: usize)
        requires
            old(self).start <= old(self).current <= old(self).chars@.len(),
        ensures
            final(self).chars == old(self).chars,
            final(self).start == old(self).start,
            final(self).current == old(self).current,
            final(self).line == old(self).line,
            final(self).tokens.deep_view() == old(self).tokens.deep_view().push(
                TokenM {
                    token_type,
                    lexeme: old(self).chars@.subrange(old(self).start as int, old(self).current as int),
                    literal: match literal {
                        Option::Some(s) => Option::Some(s@),
                        Option::None => Option::None,
                    },
                    line: line as nat,
                },
            ),
    {
        let text = self.build_text(self.start, self.current);
        let token = Token::new(token_type, text, literal, line);
        self.tokens.push(token);
        proof {
            assert(self.tokens.deep_view() =~= old(self).tokens.deep_view().push(token@));
        }
    }
    /// Scan the whole source: every token of the text in order, terminated
    /// by exactly one end-of-input token. Lexical errors are reported to the
    /// collector and scanning continues past them.
    #[verifier::loop_isolation(false)]
    pub fn scan_tokens(&mut self, rox: &mut Rox) -> (r: Vec<Token>)
        requires
            old(self).is_fresh(),
            old(self)@.len() < usize::MAX,
        ensures
            final(self)@ == old(self)@,
            r.deep_view() == scan_spec(old(self)@).tokens,
            final(rox)@.diagnostics == old(rox)@.diagnostics + scan_spec(old(self)@).errors,
            final(rox)@.had_error == (old(rox)@.had_error || scan_spec(old(self)@).errors.len() > 0),
            final(rox)@.had_runtime_error == old(rox)@.had_runtime_error,
    {
        let ghost s = self.chars@;
        proof {
            assert(self.tokens.deep_view() + scan_rest(s, 0, 1).tokens =~= scan_rest(s, 0, 1).tokens);
            assert(rox@.diagnostics.skip(old(rox)@.diagnostics.len() as int) + scan_rest(s, 0, 1).errors
                =~= scan_rest(s, 0, 1).errors);
        }
        while !self.is_at_end()
            invariant
                self.chars@ == s,
                self.current <= self.chars@.len(),
                1 <= self.line,
                self.line <= 1 + self.current,
                self.tokens.deep_view() + scan_rest(s, self.current as int, self.line as int).tokens
                    == scan_rest(s, 0, 1).tokens,
                old(rox)@.diagnostics.is_prefix_of(rox@.diagnostics),
                rox@.diagnostics.skip(old(rox)@.diagnostics.len() as int)
                    + scan_rest(s, self.current as int, self.line as int).errors
                    == scan_rest(s, 0, 1).errors,
                scan_rest(s, self.current as int, self.line as int).end_line
                    == scan_rest(s, 0, 1).end_line,
                rox@.had_error == (old(rox)@.had_error
                    || rox@.diagnostics.len() > old(rox)@.diagnostics.len()),
                rox@.had_runtime_error == old(rox)@.had_runtime_error,
            decreases self.chars@.len() - self.current,
        {
            let ghost tokens_before = self.tokens.deep_view();
            let ghost diags_before = rox@.diagnostics;
            let ghost cur_before = self.current as int;
            let ghost line_before = self.line as int;
            self.scan_token(rox);
            proof {
                let t_new = self.tokens.deep_view();
                let d_new = rox@.diagnostics;
                let f_mid = scan_rest(s, cur_before, line_before);
                let f_now = scan_rest(s, self.current as int, self.line as int);
                assert(t_new =~= tokens_before + t_new.skip(tokens_before.len() as int));
                assert((tokens_before + t_new.skip(tokens_before.len() as int)) + f_now.tokens
                    =~= tokens_before + (t_new.skip(tokens_before.len() as int) + f_now.tokens));
                assert(d_new =~= diags_before + d_new.skip(diags_before.len() as int));
                assert((diags_before + d_new.skip(diags_before.len() as int)) + f_now.errors
                    =~= diags_before + (d_new.skip(diags_before.len() as int) + f_now.errors));
                assert(d_new.skip(old(rox)@.diagnostics.len() as int)
                    =~= diags_before.skip(old(rox)@.diagnostics.len() as int)
                        + d_new.skip(diags_before.len() as int));
                assert((diags_before.skip(old(rox)@.diagnostics.len() as int)
                    + d_new.skip(diags_before.len() as int)) + f_now.errors
                    =~= diags_before.skip(old(rox)@.diagnostics.len() as int)
                        + (d_new.skip(diags_before.len() as int) + f_now.errors));
            }
        }
        proof {
            assert(scan_rest(s, self.current as int, self.line as int).tokens =~= Seq::<TokenM>::empty());
            assert(self.tokens.deep_view() + Seq::<TokenM>::empty() =~= self.tokens.deep_view());
            assert(rox@.diagnostics.skip(old(rox)@.diagnostics.len() as int)
                + Seq::<DiagnosticM>::empty()
                =~= rox@.diagnostics.skip(old(rox)@.diagnostics.len() as int));
            assert(rox@.diagnostics =~= old(rox)@.diagnostics
                + rox@.diagnostics.skip(old(rox)@.diagnostics.len() as int));
        }
        let eof = Token::new(TokenType::Eof, String::new(), None, self.line);
        self.tokens.push(eof);
        proof {
            assert(self.tokens.deep_view() =~= scan_spec(s).tokens);
        }
        let n = self.tokens.len();
        let mut result: Vec<Token> = Vec::new();
        let mut idx: usize = 0;
        while idx < n
            invariant
                idx <= n,
                result.deep_view() =~= self.tokens.deep_view().subrange(0, idx as int),
            decreases n - idx,
        {
            let t = (&self.tokens[idx]).clone();
            result.push(t);
            idx = idx + 1;
            proof {
                assert(result.deep_view() =~= self.tokens.deep_view().subrange(0, idx as int));
            }
        }
        proof {
            assert(result.deep_view() =~= self.tokens.deep_view());
        }
        result
    }

    /// Scan one token (or one piece of discarded text) starting at the
    /// current read position.
    #[verifier::loop_isolation(false)]
    fn scan_token(&mut self, rox: &mut Rox)
        requires
            old(self).current < old(self).chars@.len(),
            old(self).chars@.len() < usize::MAX,
            1 <= old(self).line,
            old(self).line <= 1 + old(self).current,
        ensures
            final(self).chars == old(self).chars,
            old(self).current < final(self).current,
            final(self).current <= final(self).chars@.len(),
            old(self).line <= final(self).line,
            final(self).line <= 1 + final(self).current,
            old(self).tokens.deep_view().is_prefix_of(final(self).tokens.deep_view()),
            old(rox)@.diagnostics.is_prefix_of(final(rox)@.diagnostics),
            scan_rest(old(self).chars@, old(self).current as int, old(self).line as int).tokens
                == final(self).tokens.deep_view().skip(old(self).tokens.deep_view().len() as int)
                    + scan_rest(old(self).chars@, final(self).current as int, final(self).line as int).tokens,
            scan_rest(old(self).chars@, old(self).current as int, old(self).line as int).errors
                == final(rox)@.diagnostics.skip(old(rox)@.diagnostics.len() as int)
                    + scan_rest(old(self).chars@, final(self).current as int, final(self).line as int).errors,
            scan_rest(old(self).chars@, old(self).current as int, old(self).line as int).end_line
                == scan_rest(old(self).chars@, final(self).current as int, final(self).line as int).end_line,
            final(rox)@.had_error == (old(rox)@.had_error
                || final(rox)@.diagnostics.len() > old(rox)@.diagnostics.len()),
            final(rox)@.had_runtime_error == old(rox)@.had_runtime_error,
    {
        let ghost s = self.chars@;
        let ghost i0 = self.current as int;
        let ghost l0 = self.line as int;
        self.start = self.current;
        let line_start = self.line;
        let c = self.advance();
        if c == '(' {
            self.add_token(TokenType::LeftParen, None, line_start);
        } else if c == ')' {
            self.add_token(TokenType::RightParen, None, line_start);
        } else if c == '{' {
            self.add_token(TokenType::LeftBrace, None, line_start);
        } else if c == '}' {
            self.add_token(TokenType::RightBrace, None, line_start);
        } else if c == ',' {
            self.add_token(TokenType::Comma, None, line_start);
        } else if c == '.' {
            self.add_token(TokenType::Dot, None, line_start);
        } else if c == '-' {
            self.add_token(TokenType::Minus, None, line_start);
        } else if c == '+' {
            self.add_token(TokenType::Plus, None, line_start);
        } else if c == ';' {
            self.add_token(TokenType::Semicolon, None, line_start);
        } else if c == '*' {
            self.add_token(TokenType::Star, None, line_start);
        } else if c == '!' {
            let token_type = if self.match_char('=') {
                TokenType::BangEqual
            } else {
                TokenType::Bang
            };
            self.add_token(token_type, None, line_start);
        } else if c == '=' {
            let token_type = if self.match_char('=') {
                TokenType::EqualEqual
            } else {
                TokenType::Equal
            };
            self.add_token(token_type, None, line_start);
        } else if c == '<' {
            let token_type = if self.match_char('=') {
                TokenType::LessEqual
            } else {
                TokenType::Less
            };
            self.add_token(token_type, None, line_start);
        } else if c == '>' {
            let token_type = if self.match_char('=') {
                TokenType::GreaterEqual
            } else {
                TokenType::Greater
            };
            self.add_token(token_type, None, line_start);
        } else if c == '/' {
            if self.match_char('/') {
                while self.peek() != '\n' && !self.is_at_end()
                    invariant
                        i0 + 2 <= self.current <= self.chars@.len(),
                        self.current + comment_run_len(s, self.current as int)
                            == i0 + 2 + comment_run_len(s, i0 + 2),
                        self.chars == old(self).chars,
                        self.tokens == old(self).tokens,
                        self.start == old(self).current,
                        self.line == old(self).line,
                    decreases self.chars@.len() - self.current,
                {
                    self.advance();
                }
            } else {
                self.add_token(TokenType::Slash, None, line_start);
            }
        } else if c == ' ' || c == '\r' || c == '\t' {
            // discarded
        } else if c == '\n' {
            self.line = self.line + 1;
        } else if c == '"' {
            self.string(rox);
        } else if is_digit_char(c) {
            self.number();
        } else if is_alpha_char(c) {
            self.identifier();
        } else {
            rox.error(self.line, "Unexpected character.");
        }
        proof {
            lemma_digit_run(s, i0);
            let j = i0 + digit_run_len(s, i0);
            if j < s.len() {
                lemma_digit_run(s, j + 1);
            }
            lemma_ident_run(s, i0);
            lemma_string_run(s, i0 + 1);
            lemma_nl_count_bounds(s, i0 + 1, i0 + 1 + string_run_len(s, i0 + 1));
            if i0 + 2 <= s.len() {
                lemma_comment_run(s, i0 + 2);
            }
            let t0 = old(self).tokens.deep_view();
            let t1 = self.tokens.deep_view();
            let d0 = old(rox)@.diagnostics;
            let d1 = rox@.diagnostics;
            let rest = scan_rest(s, self.current as int, self.line as int);
            if t1.len() > t0.len() {
                assert(t1.skip(t0.len() as int) =~= seq![t1.last()]);
            } else {
                assert(t1.skip(t0.len() as int) =~= Seq::<TokenM>::empty());
                assert(Seq::<TokenM>::empty() + rest.tokens =~= rest.tokens);
            }
            if d1.len() > d0.len() {
                assert(d1.skip(d0.len() as int) =~= seq![d1.last()]);
            } else {
                assert(d1.skip(d0.len() as int) =~= Seq::<DiagnosticM>::empty());
                assert(Seq::<DiagnosticM>::empty() + rest.errors =~= rest.errors);
            }
        }
    }

    /// Scan the rest of a number literal, the leading digit already
    /// consumed: the maximal digit run, then a fractional part only when a
    /// `.` is immediately followed by another digit.
    #[verifier::loop_isolation(false)]
    fn number(&mut self)
        requires
            old(self).start + 1 == old(self).current,
            old(self).current <= old(self).chars@.len(),
            is_digit(old(self).chars@[old(self).start as int]),
        ensures
            final(self).chars == old(self).chars,
            final(self).start == old(self).start,
            final(self).line == old(self).line,
            ({
                let s = old(self).chars@;
                let b = old(self).start as int;
                let j = b + digit_run_len(s, b);
                let e = if j < s.len() && s[j] == '.' && j + 1 < s.len() && is_digit(s[j + 1]) {
                    j + 1 + digit_run_len(s, j + 1)
                } else {
                    j
                };
                &&& final(self).current == e
                &&& final(self).tokens.deep_view() == old(self).tokens.deep_view().push(
                    TokenM {
                        token_type: TokenType::Number,
                        lexeme: s.subrange(b, e),
                        literal: Option::Some(s.subrange(b, e)),
                        line: old(self).line as nat,
                    },
                )
            }),
    {
        let ghost s = self.chars@;
        let ghost b = self.start as int;
        let ghost j = b + digit_run_len(s, b);
        proof {
            lemma_digit_run(s, b);
        }
        let line_start = self.line;
        while is_digit_char(self.peek())
            invariant
                self.start + 1 <= self.current <= self.chars@.len(),
                self.current + digit_run_len(s, self.current as int) == j,
                self.chars == old(self).chars,
                self.tokens == old(self).tokens,
                self.start == old(self).start,
                self.line == old(self).line,
            decreases self.chars@.len() - self.current,
        {
            self.advance();
        }
        proof {
            assert(self.current == j);
        }
        let p = self.peek();
        let pn = self.peek_next();
        if p == '.' && is_digit_char(pn) {
            self.advance();
            let ghost k = j + 1 + digit_run_len(s, j + 1);
            proof {
                lemma_digit_run(s, j + 1);
            }
            while is_digit_char(self.peek())
                invariant
                    j + 1 <= self.current <= self.chars@.len(),
                    self.current + digit_run_len(s, self.current as int) == k,
                    self.chars == old(self).chars,
                    self.tokens == old(self).tokens,
                    self.start == old(self).start,
                    self.line == old(self).line,
                decreases self.chars@.len() - self.current,
            {
                self.advance();
            }
            proof {
                assert(self.current == k);
            }
        }
        let value = self.build_text(self.start, self.current);
        self.add_token(TokenType::Number, Some(value), line_start);
    }

    /// Scan the rest of an identifier or keyword, the leading character
    /// already consumed: the maximal run of alphanumerics and underscores,
    /// then the exact-match keyword lookup.
    #[verifier::loop_isolation(false)]
    fn identifier(&mut self)
        requires
            old(self).start + 1 == old(self).current,
            old(self).current <= old(self).chars@.len(),
            is_alpha(old(self).chars@[old(self).start as int]),
        ensures
            final(self).chars == old(self).chars,
            final(self).start == old(self).start,
            final(self).line == old(self).line,
            ({
                let s = old(self).chars@;
                let b = old(self).start as int;
                let e = b + ident_run_len(s, b);
                &&& final(self).current == e
                &&& final(self).tokens.deep_view() == old(self).tokens.deep_view().push(
                    TokenM {
                        token_type: keyword_or_identifier(s.subrange(b, e)),
                        lexeme: s.subrange(b, e),
                        literal: Option::None,
                        line: old(self).line as nat,
                    },
                )
            }),
    {
        let ghost s = self.chars@;
        let ghost b = self.start as int;
        let ghost e = b + ident_run_len(s, b);
        proof {
            lemma_ident_run(s, b);
        }
        let line_start = self.line;
        while is_alnum_char(self.peek())
            invariant
                self.start + 1 <= self.current <= self.chars@.len(),
                self.current + ident_run_len(s, self.current as int) == e,
                self.chars == old(self).chars,
                self.tokens == old(self).tokens,
                self.start == old(self).start,
                self.line == old(self).line,
            decreases self.chars@.len() - self.current,
        {
            self.advance();
        }
        proof {
            assert(self.current == e);
        }
        let text = self.build_text(self.start, self.current);
        let token_type = keyword_or_identifier_exec(&text);
        self.add_token(token_type, None, line_start);
    }

    /// Scan the rest of a string literal, the opening quote already
    /// consumed: everything up to the closing quote, tracking embedded
    /// newlines; an unterminated literal is reported and yields no token.
    #[verifier::loop_isolation(false)]
    fn string(&mut self, rox: &mut Rox)
        requires
            old(self).start + 1 == old(self).current,
            old(self).current <= old(self).chars@.len(),
            old(self).chars@.len() < usize::MAX,
            1 <= old(self).line,
            old(self).line <= 1 + old(self).start,
        ensures
            final(self).chars == old(self).chars,
            final(self).start == old(self).start,
            final(rox)@.had_runtime_error == old(rox)@.had_runtime_error,
            ({
                let s = old(self).chars@;
                let b = old(self).start as int;
                let l0 = old(self).line as int;
                let close = b + 1 + string_run_len(s, b + 1);
                let nl = nl_count(s, b + 1, close);
                if close >= s.len() {
                    &&& final(self).current == close
                    &&& final(self).line == l0 + nl
                    &&& final(self).tokens == old(self).tokens
                    &&& final(rox)@.diagnostics == old(rox)@.diagnostics.push(
                        DiagnosticM {
                            line: (l0 + nl) as nat,
                            location: ""@,
                            message: "Unterminated string."@,
                        },
                    )
                    &&& final(rox)@.had_error == true
                } else {
                    &&& final(self).current == close + 1
                    &&& final(self).line == l0 + nl
                    &&& final(self).tokens.deep_view() == old(self).tokens.deep_view().push(
                        TokenM {
                            token_type: TokenType::String,
                            lexeme: s.subrange(b, close + 1),
                            literal: Option::Some(s.subrange(b + 1, close)),
                            line: l0 as nat,
                        },
                    )
                    &&& final(rox)@ == old(rox)@
                }
            }),
    {
        let ghost s = self.chars@;
        let ghost b = self.start as int;
        let ghost l0 = self.line as int;
        let ghost close = b + 1 + string_run_len(s, b + 1);
        proof {
            lemma_string_run(s, b + 1);
        }
        let line_start = self.line;
        while self.peek() != '"' && !self.is_at_end()
            invariant
                self.start + 1 <= self.current <= self.chars@.len(),
                self.current + string_run_len(s, self.current as int) == close,
                self.line == l0 + nl_count(s, b + 1, self.current as int),
                self.line <= 1 + self.current,
                self.chars == old(self).chars,
                self.tokens == old(self).tokens,
                self.start == old(self).start,
            decreases self.chars@.len() - self.current,
        {
            proof {
                lemma_nl_count_snoc(s, b + 1, self.current as int);
            }
            if self.peek() == '\n' {
                self.line = self.line + 1;
            }
            self.advance();
        }
        proof {
            assert(self.current == close);
            lemma_nl_count_bounds(s, b + 1, close);
        }
        if self.is_at_end() {
            rox.error(self.line, "Unterminated string.");
            return ;
        }
        self.advance();
        let value = self.build_text(self.start + 1, self.current - 1);
        self.add_token(TokenType::String, Some(value), line_start);
    }
}

/// Relies on std's `String::push`: appends exactly the one character.
#[verifier::external_body]
pub(crate) fn push_char(s: &mut String, c: char)
    ensures
        final(s)@ == old(s)@.push(c),
{
    s.push(c);
}

} // verus!
