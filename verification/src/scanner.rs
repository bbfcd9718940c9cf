//! The lexer: from the characters of a program to its tokens.

use vstd::prelude::*;
use crate::text::{characters, decimal, push_decimal, slice};
use crate::tokens::{tokens_view, Literal, LiteralView, Token, TokenType, TokenView};

verus! {

/// What is wrong with a piece of source text.
#[derive(Debug, Clone, Copy, PartialEq, Eq, Structural)]
pub enum LexFault {
    UnexpectedCharacter(char),
    UnterminatedString,
}

/// A lexical error and the line it is on.
#[derive(Debug, Clone, Copy, PartialEq, Eq, Structural)]
pub struct LexError {
    pub line: usize,
    pub fault: LexFault,
}

/// What a report says of a lexical error.
pub open spec fn fault_message(fault: LexFault) -> Seq<char> {
    match fault {
        LexFault::UnexpectedCharacter(_) => "Unexpected character."@,
        LexFault::UnterminatedString => "Unterminated string."@,
    }
}

/// The line that reports a lexical error.
pub open spec fn lex_report(error: LexError) -> Seq<char> {
    "[line "@ + decimal(error.line as nat) + "] Error: "@ + fault_message(error.fault)
}

impl LexError {
    /// The line that reports the error.
    pub fn describe(&self) -> (line: String)
        ensures
            line@ == lex_report(*self),
    {
        let mut line = String::from_str("[line ");
        push_decimal(&mut line, self.line);
        line.append("] Error: ");
        match self.fault {
            LexFault::UnexpectedCharacter(_) => line.append("Unexpected character."),
            LexFault::UnterminatedString => line.append("Unterminated string."),
        }
        assert(line@ =~= lex_report(*self));
        line
    }
}

/// What the lexer has found so far, and the line it is on.
pub struct Lexing {
    pub tokens: Seq<TokenView>,
    pub errors: Seq<LexError>,
    pub line: usize,
}

/// What one piece of source text adds: the number of characters it spans.
pub struct Lexed {
    pub used: nat,
    pub state: Lexing,
}

pub open spec fn is_digit(c: char) -> bool {
    '0' <= c && c <= '9'
}

pub open spec fn is_alpha(c: char) -> bool {
    ('a' <= c && c <= 'z') || ('A' <= c && c <= 'Z') || c == '_'
}

pub open spec fn is_alphanumeric(c: char) -> bool {
    is_alpha(c) || is_digit(c)
}

/// The character at `pos`, where there is one.
pub open spec fn char_at(source: Seq<char>, pos: int) -> Option<char> {
    if 0 <= pos < source.len() {
        Some(source[pos])
    } else {
        None
    }
}

/// The offset of a token that starts at `start` of a source whose first
/// character has offset `base`; no larger than an offset can be.
pub open spec fn offset(base: usize, start: int) -> usize {
    if base + start <= usize::MAX {
        (base + start) as usize
    } else {
        usize::MAX
    }
}

/// The line `count` lines after `line`; no larger than a line can be.
pub open spec fn lines_on(line: usize, count: nat) -> usize {
    if line + count <= usize::MAX {
        (line + count) as usize
    } else {
        usize::MAX
    }
}

/// The number of digits from `pos` on.
pub open spec fn digits(source: Seq<char>, pos: int) -> nat
    decreases source.len() - pos,
{
    if 0 <= pos < source.len() && is_digit(source[pos]) {
        1 + digits(source, pos + 1)
    } else {
        0
    }
}

/// The number of letters, digits and underscores from `pos` on.
pub open spec fn word(source: Seq<char>, pos: int) -> nat
    decreases source.len() - pos,
{
    if 0 <= pos < source.len() && is_alphanumeric(source[pos]) {
        1 + word(source, pos + 1)
    } else {
        0
    }
}

/// The number of characters from `pos` up to the end of the line.
pub open spec fn to_line_end(source: Seq<char>, pos: int) -> nat
    decreases source.len() - pos,
{
    if 0 <= pos < source.len() && source[pos] != '\n' {
        1 + to_line_end(source, pos + 1)
    } else {
        0
    }
}

/// The number of characters from `pos` up to the next `"`.
pub open spec fn string_body(source: Seq<char>, pos: int) -> nat
    decreases source.len() - pos,
{
    if 0 <= pos < source.len() && source[pos] != '"' {
        1 + string_body(source, pos + 1)
    } else {
        0
    }
}

/// The number of newlines from `pos` up to the next `"`.
pub open spec fn string_lines(source: Seq<char>, pos: int) -> nat
    decreases source.len() - pos,
{
    if 0 <= pos < source.len() && source[pos] != '"' {
        (if source[pos] == '\n' {
            1nat
        } else {
            0nat
        }) + string_lines(source, pos + 1)
    } else {
        0
    }
}

/// The kind of the token that a word is: a keyword, or an identifier.
pub open spec fn keyword(lexeme: Seq<char>) -> TokenType {
    if lexeme == "and"@ {
        TokenType::AND
    } else if lexeme == "class"@ {
        TokenType::CLASS
    } else if lexeme == "else"@ {
        TokenType::ELSE
    } else if lexeme == "false"@ {
        TokenType::FALSE
    } else if lexeme == "for"@ {
        TokenType::FOR
    } else if lexeme == "fun"@ {
        TokenType::FUN
    } else if lexeme == "if"@ {
        TokenType::IF
    } else if lexeme == "nil"@ {
        TokenType::NIL
    } else if lexeme == "or"@ {
        TokenType::OR
    } else if lexeme == "print"@ {
        TokenType::PRINT
    } else if lexeme == "return"@ {
        TokenType::RETURN
    } else if lexeme == "super"@ {
        TokenType::SUPER
    } else if lexeme == "this"@ {
        TokenType::THIS
    } else if lexeme == "true"@ {
        TokenType::TRUE
    } else if lexeme == "var"@ {
        TokenType::VAR
    } else if lexeme == "while"@ {
        TokenType::WHILE
    } else {
        TokenType::IDENTIFIER
    }
}

/// The kind of the token that one character is by itself.
pub open spec fn single(c: char) -> Option<TokenType> {
    if c == '(' {
        Some(TokenType::LEFT_PAREN)
    } else if c == ')' {
        Some(TokenType::RIGHT_PAREN)
    } else if c == '{' {
        Some(TokenType::LEFT_BRACE)
    } else if c == '}' {
        Some(TokenType::RIGHT_BRACE)
    } else if c == ',' {
        Some(TokenType::COMMA)
    } else if c == '.' {
        Some(TokenType::DOT)
    } else if c == '-' {
        Some(TokenType::MINUS)
    } else if c == '+' {
        Some(TokenType::PLUS)
    } else if c == ';' {
        Some(TokenType::SEMICOLON)
    } else if c == '*' {
        Some(TokenType::STAR)
    } else {
        None
    }
}

/// The kinds of the tokens that a character begins: by itself, and with a
/// `=` behind it.
pub open spec fn operator(c: char) -> Option<(TokenType, TokenType)> {
    if c == '!' {
        Some((TokenType::BANG, TokenType::BANG_EQUAL))
    } else if c == '=' {
        Some((TokenType::EQUAL, TokenType::EQUAL_EQUAL))
    } else if c == '<' {
        Some((TokenType::LESS, TokenType::LESS_EQUAL))
    } else if c == '>' {
        Some((TokenType::GREATER, TokenType::GREATER_EQUAL))
    } else {
        None
    }
}

/// The token of kind `kind` that spans `source` from `start` up to `end`.
pub open spec fn token(
    kind: TokenType,
    source: Seq<char>,
    base: usize,
    start: int,
    end: int,
    literal: LiteralView,
    line: usize,
) -> TokenView {
    TokenView {
        token_type: kind,
        lexeme: source.subrange(start, end),
        literal,
        line,
        offset: offset(base, start),
    }
}

/// `state` with one more token, `used` characters long and without a value.
pub open spec fn emit(
    state: Lexing,
    kind: TokenType,
    source: Seq<char>,
    base: usize,
    pos: int,
    used: nat,
) -> Lexed {
    Lexed {
        used,
        state: Lexing {
            tokens: state.tokens.push(
                token(kind, source, base, pos, pos + used, LiteralView::Nil, state.line),
            ),
            ..state
        },
    }
}

/// A string literal, whose opening `"` is at `pos`: all up to the closing
/// `"`, over any number of lines. Without one the string is not terminated.
#[verifier::opaque]
pub open spec fn string(source: Seq<char>, base: usize, pos: int, state: Lexing) -> Lexed {
    let body = string_body(source, pos + 1);
    let line = lines_on(state.line, string_lines(source, pos + 1));
    if pos + 1 + body >= source.len() {
        Lexed {
            used: 1 + body,
            state: Lexing {
                errors: state.errors.push(LexError { line, fault: LexFault::UnterminatedString }),
                line,
                ..state
            },
        }
    } else {
        Lexed {
            used: body + 2,
            state: Lexing {
                tokens: state.tokens.push(
                    token(
                        TokenType::STRING,
                        source,
                        base,
                        pos,
                        pos + body + 2,
                        LiteralView::String(source.subrange(pos + 1, pos + 1 + body)),
                        line,
                    ),
                ),
                line,
                ..state
            },
        }
    }
}

/// The number of characters of the number literal at `pos`: digits, and
/// then, where a digit follows it, a `.` and more digits.
pub open spec fn numeral(source: Seq<char>, pos: int) -> nat {
    let whole = digits(source, pos);
    if char_at(source, pos + whole) == Some('.') && digits(source, pos + whole + 1) > 0 {
        whole + 1 + digits(source, pos + whole + 1)
    } else {
        whole
    }
}

/// A number literal at `pos`. Its value is its numeral.
#[verifier::opaque]
pub open spec fn number(source: Seq<char>, base: usize, pos: int, state: Lexing) -> Lexed {
    let used = numeral(source, pos);
    Lexed {
        used,
        state: Lexing {
            tokens: state.tokens.push(
                token(
                    TokenType::NUMBER,
                    source,
                    base,
                    pos,
                    pos + used,
                    LiteralView::Number(source.subrange(pos, pos + used)),
                    state.line,
                ),
            ),
            ..state
        },
    }
}

/// An identifier or a keyword at `pos`.
#[verifier::opaque]
pub open spec fn identifier(source: Seq<char>, base: usize, pos: int, state: Lexing) -> Lexed {
    let used = word(source, pos);
    emit(state, keyword(source.subrange(pos, pos + used)), source, base, pos, used)
}

/// What the character at `pos`, and what belongs to it, adds.
#[verifier::opaque]
pub open spec fn scan_token(source: Seq<char>, base: usize, pos: int, state: Lexing) -> Lexed {
    let c = source[pos];
    let follows = char_at(source, pos + 1);
    if let Some(kind) = single(c) {
        emit(state, kind, source, base, pos, 1)
    } else if let Some((alone, paired)) = operator(c) {
        if follows == Some('=') {
            emit(state, paired, source, base, pos, 2)
        } else {
            emit(state, alone, source, base, pos, 1)
        }
    } else if c == '/' {
        if follows == Some('/') {
            Lexed { used: 2 + to_line_end(source, pos + 2), state }
        } else {
            emit(state, TokenType::SLASH, source, base, pos, 1)
        }
    } else if c == ' ' || c == '\r' || c == '\t' {
        Lexed { used: 1, state }
    } else if c == '\n' {
        Lexed { used: 1, state: Lexing { line: lines_on(state.line, 1), ..state } }
    } else if c == '"' {
        string(source, base, pos, state)
    } else if is_digit(c) {
        number(source, base, pos, state)
    } else if is_alpha(c) {
        identifier(source, base, pos, state)
    } else {
        Lexed {
            used: 1,
            state: Lexing {
                errors: state.errors.push(
                    LexError { line: state.line, fault: LexFault::UnexpectedCharacter(c) },
                ),
                ..state
            },
        }
    }
}

pub open spec fn at_least_one(used: nat) -> nat {
    if used == 0 {
        1
    } else {
        used
    }
}

/// All that the source adds from `pos` on, and the `EOF` token at its end.
pub open spec fn scan(source: Seq<char>, base: usize, pos: int, state: Lexing) -> Lexing
    decreases
        (if pos < source.len() {
            source.len() - pos
        } else {
            0
        }),
{
    if 0 <= pos < source.len() {
        let next = scan_token(source, base, pos, state);
        scan(source, base, pos + at_least_one(next.used), next.state)
    } else {
        Lexing {
            tokens: state.tokens.push(
                TokenView {
                    token_type: TokenType::EOF,
                    lexeme: Seq::empty(),
                    literal: LiteralView::Nil,
                    line: state.line,
                    offset: offset(base, source.len() as int),
                },
            ),
            ..state
        }
    }
}

/// What a lexer starts from: nothing found, on line 1.
pub open spec fn start() -> Lexing {
    Lexing { tokens: Seq::empty(), errors: Seq::empty(), line: 1 }
}

fn digit(c: char) -> (yes: bool)
    ensures
        yes == is_digit(c),
{
    c >= '0' && c <= '9'
}

fn alpha(c: char) -> (yes: bool)
    ensures
        yes == is_alpha(c),
{
    (c >= 'a' && c <= 'z') || (c >= 'A' && c <= 'Z') || c == '_'
}

fn single_kind(c: char) -> (kind: Option<TokenType>)
    ensures
        kind == single(c),
{
    if c == '(' {
        Some(TokenType::LEFT_PAREN)
    } else if c == ')' {
        Some(TokenType::RIGHT_PAREN)
    } else if c == '{' {
        Some(TokenType::LEFT_BRACE)
    } else if c == '}' {
        Some(TokenType::RIGHT_BRACE)
    } else if c == ',' {
        Some(TokenType::COMMA)
    } else if c == '.' {
        Some(TokenType::DOT)
    } else if c == '-' {
        Some(TokenType::MINUS)
    } else if c == '+' {
        Some(TokenType::PLUS)
    } else if c == ';' {
        Some(TokenType::SEMICOLON)
    } else if c == '*' {
        Some(TokenType::STAR)
    } else {
        None
    }
}

fn operator_kinds(c: char) -> (kinds: Option<(TokenType, TokenType)>)
    ensures
        kinds == operator(c),
{
    if c == '!' {
        Some((TokenType::BANG, TokenType::BANG_EQUAL))
    } else if c == '=' {
        Some((TokenType::EQUAL, TokenType::EQUAL_EQUAL))
    } else if c == '<' {
        Some((TokenType::LESS, TokenType::LESS_EQUAL))
    } else if c == '>' {
        Some((TokenType::GREATER, TokenType::GREATER_EQUAL))
    } else {
        None
    }
}

/// The lexer of one source text.
#[derive(Debug)]
pub struct Scanner {
    source: Vec<char>,
    base: usize,
    tokens: Vec<Token>,
    errors: Vec<LexError>,
    line: usize,
}

impl Scanner {
    /// The characters of the source.
    pub closed spec fn source(&self) -> Seq<char> {
        self.source@
    }

    /// The offset of the first character of the source.
    pub closed spec fn base(&self) -> usize {
        self.base
    }

    /// What the lexer has found so far, and the line it is on.
    pub closed spec fn state(&self) -> Lexing {
        Lexing { tokens: tokens_view(self.tokens@), errors: self.errors@, line: self.line }
    }

    /// A lexer of `source`, whose tokens have their offsets in it.
    pub fn new(source: String) -> (scanner: Self)
        ensures
            scanner.source() == source@,
            scanner.base() == 0,
            scanner.state() == start(),
    {
        Scanner::based(source.as_str(), 0)
    }

    /// A lexer of `source`, whose first character has the offset `base`.
    pub fn based(source: &str, base: usize) -> (scanner: Self)
        ensures
            scanner.source() == source@,
            scanner.base() == base,
            scanner.state() == start(),
    {
        let scanner = Scanner {
            source: characters(source),
            base,
            tokens: Vec::new(),
            errors: Vec::new(),
            line: 1,
        };
        assert(scanner.state().tokens =~= start().tokens);
        scanner
    }

    /// The lexical errors found so far, oldest first.
    pub fn errors(&self) -> (errors: &Vec<LexError>)
        ensures
            errors@ == self.state().errors,
    {
        &self.errors
    }

    fn peek(&self, at: usize) -> (c: Option<char>)
        ensures
            c == char_at(self.source@, at as int),
    {
        if at < self.source.len() {
            Some(self.source[at])
        } else {
            None
        }
    }

    fn offset(&self, start: usize) -> (at: usize)
        ensures
            at == offset(self.base, start as int),
    {
        if start <= usize::MAX - self.base {
            self.base + start
        } else {
            usize::MAX
        }
    }

    fn digits(&self, from: usize) -> (count: usize)
        requires
            from <= self.source.len(),
        ensures
            count == digits(self.source@, from as int),
            from + count <= self.source.len(),
    {
        let mut at: usize = from;
        while at < self.source.len() && digit(self.source[at])
            invariant
                from <= at <= self.source.len(),
                digits(self.source@, from as int) == (at - from) + digits(self.source@, at as int),
            decreases self.source.len() - at,
        {
            at += 1;
        }
        at - from
    }

    fn word(&self, from: usize) -> (count: usize)
        requires
            from <= self.source.len(),
        ensures
            count == word(self.source@, from as int),
            from + count <= self.source.len(),
    {
        let mut at: usize = from;
        while at < self.source.len() && (alpha(self.source[at]) || digit(self.source[at]))
            invariant
                from <= at <= self.source.len(),
                word(self.source@, from as int) == (at - from) + word(self.source@, at as int),
            decreases self.source.len() - at,
        {
            at += 1;
        }
        at - from
    }

    fn to_line_end(&self, from: usize) -> (count: usize)
        requires
            from <= self.source.len(),
        ensures
            count == to_line_end(self.source@, from as int),
            from + count <= self.source.len(),
    {
        let mut at: usize = from;
        while at < self.source.len() && self.source[at] != '\n'
            invariant
                from <= at <= self.source.len(),
                to_line_end(self.source@, from as int) == (at - from) + to_line_end(
                    self.source@,
                    at as int,
                ),
            decreases self.source.len() - at,
        {
            at += 1;
        }
        at - from
    }

    /// The numbers of characters and of newlines from `from` up to the next
    /// `"`.
    fn string_body(&self, from: usize) -> (counts: (usize, usize))
        requires
            from <= self.source.len(),
        ensures
            counts.0 == string_body(self.source@, from as int),
            counts.1 == string_lines(self.source@, from as int),
            from + counts.0 <= self.source.len(),
    {
        let mut at: usize = from;
        let mut lines: usize = 0;
        while at < self.source.len() && self.source[at] != '"'
            invariant
                from <= at <= self.source.len(),
                lines <= at - from,
                string_body(self.source@, from as int) == (at - from) + string_body(
                    self.source@,
                    at as int,
                ),
                string_lines(self.source@, from as int) == lines + string_lines(
                    self.source@,
                    at as int,
                ),
            decreases self.source.len() - at,
        {
            if self.source[at] == '\n' {
                lines += 1;
            }
            at += 1;
        }
        (at - from, lines)
    }

    /// The characters from `start` up to `end` are those of `text`.
    fn is_word(&self, start: usize, end: usize, text: &str) -> (yes: bool)
        requires
            start <= end <= self.source.len(),
        ensures
            yes == (self.source@.subrange(start as int, end as int) == text@),
    {
        let length: usize = text.unicode_len();
        if length != end - start {
            return false;
        }
        let mut at: usize = 0;
        while at < length
            invariant
                at <= length,
                length == end - start,
                length == text@.len(),
                start <= end <= self.source.len(),
                forall|i: int| 0 <= i < at ==> self.source@[start + i] == text@[i],
            decreases length - at,
        {
            if self.source[start + at] != text.get_char(at) {
                assert(self.source@.subrange(start as int, end as int)[at as int] != text@[at as int]);
                return false;
            }
            at += 1;
        }
        assert(self.source@.subrange(start as int, end as int) =~= text@);
        true
    }

    /// The kind of the token that the word from `start` up to `end` is.
    fn keyword(&self, start: usize, end: usize) -> (kind: TokenType)
        requires
            start <= end <= self.source.len(),
        ensures
            kind == keyword(self.source@.subrange(start as int, end as int)),
    {
        if self.is_word(start, end, "and") {
            TokenType::AND
        } else if self.is_word(start, end, "class") {
            TokenType::CLASS
        } else if self.is_word(start, end, "else") {
            TokenType::ELSE
        } else if self.is_word(start, end, "false") {
            TokenType::FALSE
        } else if self.is_word(start, end, "for") {
            TokenType::FOR
        } else if self.is_word(start, end, "fun") {
            TokenType::FUN
        } else if self.is_word(start, end, "if") {
            TokenType::IF
        } else if self.is_word(start, end, "nil") {
            TokenType::NIL
        } else if self.is_word(start, end, "or") {
            TokenType::OR
        } else if self.is_word(start, end, "print") {
            TokenType::PRINT
        } else if self.is_word(start, end, "return") {
            TokenType::RETURN
        } else if self.is_word(start, end, "super") {
            TokenType::SUPER
        } else if self.is_word(start, end, "this") {
            TokenType::THIS
        } else if self.is_word(start, end, "true") {
            TokenType::TRUE
        } else if self.is_word(start, end, "var") {
            TokenType::VAR
        } else if self.is_word(start, end, "while") {
            TokenType::WHILE
        } else {
            TokenType::IDENTIFIER
        }
    }

    /// Adds the token of kind `kind` that spans the source from `start` up
    /// to `end`.
    fn add(&mut self, kind: TokenType, start: usize, end: usize, literal: Literal)
        requires
            start <= end <= old(self).source.len(),
        ensures
            final(self).source == old(self).source,
            final(self).base == old(self).base,
            final(self).state() == (Lexing {
                tokens: old(self).state().tokens.push(
                    token(
                        kind,
                        old(self).source@,
                        old(self).base,
                        start as int,
                        end as int,
                        literal@,
                        old(self).line,
                    ),
                ),
                ..old(self).state()
            }),
    {
        let token = Token {
            token_type: kind,
            lexeme: slice(&self.source, start, end),
            literal,
            line: self.line,
            offset: self.offset(start),
        };
        self.tokens.push(token);
        assert(tokens_view(self.tokens@) =~= tokens_view(old(self).tokens@).push(token@));
    }

    fn string(&mut self, pos: usize) -> (used: usize)
        requires
            pos < old(self).source.len(),
        ensures
            final(self).source == old(self).source,
            final(self).base == old(self).base,
            used == string(old(self).source@, old(self).base, pos as int, old(self).state()).used,
            final(self).state() == string(
                old(self).source@,
                old(self).base,
                pos as int,
                old(self).state(),
            ).state,
            pos + used <= old(self).source.len(),
            used >= 1,
    {
        proof {
            reveal(string);
        }
        let (body, lines) = self.string_body(pos + 1);
        self.line = if lines <= usize::MAX - self.line {
            self.line + lines
        } else {
            usize::MAX
        };
        if pos + 1 + body >= self.source.len() {
            self.errors.push(LexError { line: self.line, fault: LexFault::UnterminatedString });
            1 + body
        } else {
            let value = slice(&self.source, pos + 1, pos + 1 + body);
            self.add(TokenType::STRING, pos, pos + body + 2, Literal::String(value));
            body + 2
        }
    }

    fn number(&mut self, pos: usize) -> (used: usize)
        requires
            pos < old(self).source.len(),
            is_digit(old(self).source@[pos as int]),
        ensures
            final(self).source == old(self).source,
            final(self).base == old(self).base,
            used == number(old(self).source@, old(self).base, pos as int, old(self).state()).used,
            final(self).state() == number(
                old(self).source@,
                old(self).base,
                pos as int,
                old(self).state(),
            ).state,
            pos + used <= old(self).source.len(),
            used >= 1,
    {
        proof {
            reveal(number);
        }
        let whole: usize = self.digits(pos);
        let mut used: usize = whole;
        if self.peek(pos + whole) == Some('.') {
            let fraction: usize = self.digits(pos + whole + 1);
            if fraction > 0 {
                used = whole + 1 + fraction;
            }
        }
        let value = slice(&self.source, pos, pos + used);
        self.add(TokenType::NUMBER, pos, pos + used, Literal::Number(value));
        used
    }

    fn identifier(&mut self, pos: usize) -> (used: usize)
        requires
            pos < old(self).source.len(),
            is_alpha(old(self).source@[pos as int]),
        ensures
            final(self).source == old(self).source,
            final(self).base == old(self).base,
            used == identifier(
                old(self).source@,
                old(self).base,
                pos as int,
                old(self).state(),
            ).used,
            final(self).state() == identifier(
                old(self).source@,
                old(self).base,
                pos as int,
                old(self).state(),
            ).state,
            pos + used <= old(self).source.len(),
            used >= 1,
    {
        proof {
            reveal(identifier);
        }
        let used: usize = self.word(pos);
        let kind = self.keyword(pos, pos + used);
        self.add(kind, pos, pos + used, Literal::Nil);
        used
    }

    /// Scans what the character at `pos` begins.
    fn scan_token(&mut self, pos: usize) -> (used: usize)
        requires
            pos < old(self).source.len(),
        ensures
            final(self).source == old(self).source,
            final(self).base == old(self).base,
            used == scan_token(
                old(self).source@,
                old(self).base,
                pos as int,
                old(self).state(),
            ).used,
            final(self).state() == scan_token(
                old(self).source@,
                old(self).base,
                pos as int,
                old(self).state(),
            ).state,
            pos + used <= old(self).source.len(),
            used >= 1,
    {
        proof {
            reveal(scan_token);
        }
        let c: char = self.source[pos];
        let follows = self.peek(pos + 1);
        if let Some(kind) = single_kind(c) {
            self.add(kind, pos, pos + 1, Literal::Nil);
            1
        } else if let Some((alone, paired)) = operator_kinds(c) {
            if follows == Some('=') {
                self.add(paired, pos, pos + 2, Literal::Nil);
                2
            } else {
                self.add(alone, pos, pos + 1, Literal::Nil);
                1
            }
        } else if c == '/' {
            if follows == Some('/') {
                2 + self.to_line_end(pos + 2)
            } else {
                self.add(TokenType::SLASH, pos, pos + 1, Literal::Nil);
                1
            }
        } else if c == ' ' || c == '\r' || c == '\t' {
            1
        } else if c == '\n' {
            if self.line < usize::MAX {
                self.line += 1;
            }
            1
        } else if c == '"' {
            self.string(pos)
        } else if digit(c) {
            self.number(pos)
        } else if alpha(c) {
            self.identifier(pos)
        } else {
            self.errors.push(
                LexError { line: self.line, fault: LexFault::UnexpectedCharacter(c) },
            );
            1
        }
    }

    /// Scans the whole source and returns its tokens, which end in `EOF`.
    ///
    /// Whitespace and comments give no token. A character that begins no
    /// token and a string without its closing `"` are errors: each is noted,
    /// and the scan goes on behind it.
    pub fn scan_tokens(&mut self) -> (tokens: Vec<Token>)
        ensures
            final(self).source() == old(self).source(),
            final(self).base() == old(self).base(),
            final(self).state() == scan(
                old(self).source(),
                old(self).base(),
                0,
                old(self).state(),
            ),
            tokens_view(tokens@) == final(self).state().tokens,
            tokens@.len() > 0,
            tokens@.last().token_type == TokenType::EOF,
    {
        let ghost whole = scan(self.source@, self.base, 0, self.state());
        let mut pos: usize = 0;
        while pos < self.source.len()
            invariant
                pos <= self.source.len(),
                self.source == old(self).source,
                self.base == old(self).base,
                whole == scan(old(self).source@, old(self).base, 0, old(self).state()),
                whole == scan(self.source@, self.base, pos as int, self.state()),
            decreases self.source.len() - pos,
        {
            let used: usize = self.scan_token(pos);
            pos += used;
        }
        let end = Token {
            token_type: TokenType::EOF,
            lexeme: String::new(),
            literal: Literal::Nil,
            line: self.line,
            offset: self.offset(self.source.len()),
        };
        let ghost found = self.tokens@;
        self.tokens.push(end);
        assert(tokens_view(self.tokens@) =~= tokens_view(found).push(end@));
        let mut tokens: Vec<Token> = Vec::new();
        let mut at: usize = 0;
        while at < self.tokens.len()
            invariant
                at <= self.tokens.len(),
                tokens@ == self.tokens@.take(at as int),
            decreases self.tokens.len() - at,
        {
            tokens.push(self.tokens[at].clone());
            at += 1;
            assert(tokens@ =~= self.tokens@.take(at as int));
        }
        assert(tokens@ =~= self.tokens@);
        tokens
    }
}

} // verus!
