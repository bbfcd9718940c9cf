//! The lexer, token by token.

use rlox::lox::Lox;
use rlox::scanner::{LexError, LexFault, Scanner};
use rlox::tokens::{Literal, Token, TokenType};

fn scan(source: &str) -> (Vec<Token>, Vec<LexError>) {
    let mut scanner = Scanner::new(source.to_string());
    let tokens = scanner.scan_tokens();
    let errors = scanner.errors().clone();
    (tokens, errors)
}

fn kinds(source: &str) -> Vec<TokenType> {
    scan(source).0.iter().map(|token| token.token_type).collect()
}

fn lexemes(source: &str) -> Vec<String> {
    scan(source).0.iter().map(|token| token.lexeme.clone()).collect()
}

#[test]
fn empty_source_is_one_eof() {
    let (tokens, errors) = scan("");
    assert_eq!(tokens.len(), 1);
    assert_eq!(tokens[0].token_type, TokenType::EOF);
    assert_eq!(tokens[0].lexeme, "");
    assert_eq!(tokens[0].line, 1);
    assert!(errors.is_empty());
}

#[test]
fn punctuation_is_one_token_each() {
    assert_eq!(
        kinds("(){},.-+;/*"),
        vec![
            TokenType::LEFT_PAREN,
            TokenType::RIGHT_PAREN,
            TokenType::LEFT_BRACE,
            TokenType::RIGHT_BRACE,
            TokenType::COMMA,
            TokenType::DOT,
            TokenType::MINUS,
            TokenType::PLUS,
            TokenType::SEMICOLON,
            TokenType::SLASH,
            TokenType::STAR,
            TokenType::EOF,
        ]
    );
}

#[test]
fn operators_take_a_following_equals() {
    assert_eq!(
        kinds("! != = == > >= < <="),
        vec![
            TokenType::BANG,
            TokenType::BANG_EQUAL,
            TokenType::EQUAL,
            TokenType::EQUAL_EQUAL,
            TokenType::GREATER,
            TokenType::GREATER_EQUAL,
            TokenType::LESS,
            TokenType::LESS_EQUAL,
            TokenType::EOF,
        ]
    );
    assert_eq!(lexemes("a<=b"), vec!["a", "<=", "b", ""]);
    assert_eq!(kinds("==="), vec![TokenType::EQUAL_EQUAL, TokenType::EQUAL, TokenType::EOF]);
}

#[test]
fn keywords_are_recognized() {
    assert_eq!(
        kinds("and class else false fun for if nil or print return super this true var while"),
        vec![
            TokenType::AND,
            TokenType::CLASS,
            TokenType::ELSE,
            TokenType::FALSE,
            TokenType::FUN,
            TokenType::FOR,
            TokenType::IF,
            TokenType::NIL,
            TokenType::OR,
            TokenType::PRINT,
            TokenType::RETURN,
            TokenType::SUPER,
            TokenType::THIS,
            TokenType::TRUE,
            TokenType::VAR,
            TokenType::WHILE,
            TokenType::EOF,
        ]
    );
}

#[test]
fn identifiers_may_look_like_keywords() {
    assert_eq!(
        kinds("andy _or or_ For classes x1 _ a_b_9"),
        vec![
            TokenType::IDENTIFIER,
            TokenType::IDENTIFIER,
            TokenType::IDENTIFIER,
            TokenType::IDENTIFIER,
            TokenType::IDENTIFIER,
            TokenType::IDENTIFIER,
            TokenType::IDENTIFIER,
            TokenType::IDENTIFIER,
            TokenType::EOF,
        ]
    );
    assert_eq!(lexemes("andy _or x1"), vec!["andy", "_or", "x1", ""]);
}

#[test]
fn numbers_keep_their_numeral() {
    let (tokens, errors) = scan("12 3.75 4. .5 6.x");
    assert!(errors.is_empty());
    let found: Vec<(TokenType, String)> =
        tokens.iter().map(|token| (token.token_type, token.lexeme.clone())).collect();
    assert_eq!(
        found,
        vec![
            (TokenType::NUMBER, "12".to_string()),
            (TokenType::NUMBER, "3.75".to_string()),
            (TokenType::NUMBER, "4".to_string()),
            (TokenType::DOT, ".".to_string()),
            (TokenType::DOT, ".".to_string()),
            (TokenType::NUMBER, "5".to_string()),
            (TokenType::NUMBER, "6".to_string()),
            (TokenType::DOT, ".".to_string()),
            (TokenType::IDENTIFIER, "x".to_string()),
            (TokenType::EOF, "".to_string()),
        ]
    );
    assert!(matches!(&tokens[1].literal, Literal::Number(numeral) if numeral == "3.75"));
    assert!(matches!(&tokens[0].literal, Literal::Number(numeral) if numeral == "12"));
}

#[test]
fn strings_keep_their_text_without_quotes() {
    let (tokens, errors) = scan("\"hello world\" \"\"");
    assert!(errors.is_empty());
    assert_eq!(tokens[0].token_type, TokenType::STRING);
    assert_eq!(tokens[0].lexeme, "\"hello world\"");
    assert!(matches!(&tokens[0].literal, Literal::String(text) if text == "hello world"));
    assert_eq!(tokens[1].lexeme, "\"\"");
    assert!(matches!(&tokens[1].literal, Literal::String(text) if text.is_empty()));
    assert_eq!(tokens[2].token_type, TokenType::EOF);
}

#[test]
fn strings_may_span_lines() {
    let (tokens, errors) = scan("\"a\nb\nc\" x");
    assert!(errors.is_empty());
    assert!(matches!(&tokens[0].literal, Literal::String(text) if text == "a\nb\nc"));
    assert_eq!(tokens[0].line, 3);
    assert_eq!(tokens[1].lexeme, "x");
    assert_eq!(tokens[1].line, 3);
}

#[test]
fn strings_may_hold_any_character() {
    let (tokens, errors) = scan("\"h\u{e9}llo \u{4e16}\u{754c} // no comment\" + 1");
    assert!(errors.is_empty());
    assert!(
        matches!(&tokens[0].literal, Literal::String(text) if text == "h\u{e9}llo \u{4e16}\u{754c} // no comment")
    );
    assert_eq!(tokens[1].token_type, TokenType::PLUS);
    assert_eq!(tokens[1].offset, 25);
}

#[test]
fn an_unterminated_string_is_an_error() {
    let (tokens, errors) = scan("var a = \"open\nstill open");
    assert_eq!(errors, vec![LexError { line: 2, fault: LexFault::UnterminatedString }]);
    assert_eq!(
        tokens.iter().map(|token| token.token_type).collect::<Vec<_>>(),
        vec![TokenType::VAR, TokenType::IDENTIFIER, TokenType::EQUAL, TokenType::EOF]
    );
}

#[test]
fn an_unexpected_character_is_an_error_and_scanning_goes_on() {
    let (tokens, errors) = scan("a @ b # c");
    assert_eq!(
        errors,
        vec![
            LexError { line: 1, fault: LexFault::UnexpectedCharacter('@') },
            LexError { line: 1, fault: LexFault::UnexpectedCharacter('#') },
        ]
    );
    assert_eq!(
        tokens.iter().map(|token| token.lexeme.clone()).collect::<Vec<_>>(),
        vec!["a", "b", "c", ""]
    );
}

#[test]
fn a_character_outside_ascii_is_unexpected_outside_strings() {
    let (_, errors) = scan("\u{e9}");
    assert_eq!(errors, vec![LexError { line: 1, fault: LexFault::UnexpectedCharacter('\u{e9}') }]);
}

#[test]
fn comments_run_to_the_end_of_the_line() {
    assert_eq!(lexemes("a // b c\nd // e"), vec!["a", "d", ""]);
    assert_eq!(kinds("// only a comment"), vec![TokenType::EOF]);
    assert_eq!(kinds("1 / 2"), vec![
        TokenType::NUMBER,
        TokenType::SLASH,
        TokenType::NUMBER,
        TokenType::EOF
    ]);
}

#[test]
fn whitespace_is_skipped_and_newlines_count_lines() {
    let (tokens, _) = scan(" a\t\r\n\n  b\n");
    assert_eq!(tokens[0].lexeme, "a");
    assert_eq!(tokens[0].line, 1);
    assert_eq!(tokens[1].lexeme, "b");
    assert_eq!(tokens[1].line, 3);
    assert_eq!(tokens[2].token_type, TokenType::EOF);
    assert_eq!(tokens[2].line, 4);
}

#[test]
fn offsets_tell_occurrences_apart() {
    let (tokens, _) = scan("a = a + a;");
    let offsets: Vec<usize> = tokens.iter().map(|token| token.offset).collect();
    assert_eq!(offsets, vec![0, 2, 4, 6, 8, 9, 10]);
}

#[test]
fn offsets_start_at_the_base() {
    let mut scanner = Scanner::based("x y", 100);
    let tokens = scanner.scan_tokens();
    let offsets: Vec<usize> = tokens.iter().map(|token| token.offset).collect();
    assert_eq!(offsets, vec![100, 102, 103]);
}

#[test]
fn offsets_do_not_pass_the_largest() {
    let mut scanner = Scanner::based("x y", usize::MAX - 1);
    let tokens = scanner.scan_tokens();
    let offsets: Vec<usize> = tokens.iter().map(|token| token.offset).collect();
    assert_eq!(offsets, vec![usize::MAX - 1, usize::MAX, usize::MAX]);
}

#[test]
fn lexical_errors_are_described_by_line() {
    let (_, errors) = scan("\n\n@\n\"");
    assert_eq!(errors[0].describe(), "[line 3] Error: Unexpected character.");
    assert_eq!(errors[1].describe(), "[line 4] Error: Unterminated string.");
}

#[test]
fn the_tokens_of_a_source_text() {
    let tokens = Lox::tokens("print 1;");
    assert_eq!(
        tokens.iter().map(|token| token.token_type).collect::<Vec<_>>(),
        vec![TokenType::PRINT, TokenType::NUMBER, TokenType::SEMICOLON, TokenType::EOF]
    );
}

#[test]
fn a_token_is_made_at_offset_zero_and_moved() {
    let token = Token::new(TokenType::IDENTIFIER, "name".to_string(), Literal::Nil, 7);
    assert_eq!(token.offset, 0);
    assert_eq!(token.line, 7);
    assert_eq!(token.lexeme, "name");
    let moved = token.with_offset(42);
    assert_eq!(moved.offset, 42);
    assert_eq!(moved.line, 7);
    assert_eq!(moved.token_type, TokenType::IDENTIFIER);
}
