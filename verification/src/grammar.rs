//! The grammar, as functions from a token sequence and a position to the tree
//! that stands there, the number of tokens it spans, and the syntax errors
//! met on the way.
//!
//! ```text
//! program        → declaration* EOF
//! declaration    → classDecl | funDecl | varDecl | statement
//! classDecl      → "class" IDENT "{" function* "}"
//! funDecl        → "fun" function
//! function       → IDENT "(" params? ")" block
//! params         → IDENT ( "," IDENT )*
//! varDecl        → "var" IDENT ( "=" expression )? ";"
//! statement      → exprStmt | forStmt | ifStmt | printStmt
//!                | returnStmt | whileStmt | block
//! block          → "{" declaration* "}"
//! exprStmt       → expression ";"
//! printStmt      → "print" expression ";"
//! returnStmt     → "return" expression? ";"
//! ifStmt         → "if" "(" expression ")" statement ( "else" statement )?
//! whileStmt      → "while" "(" expression ")" statement
//! forStmt        → "for" "(" ( varDecl | exprStmt | ";" )
//!                          expression? ";" expression? ")" statement
//! expression     → assignment
//! assignment     → IDENT "=" assignment | logic_or
//! logic_or       → logic_and ( "or" logic_and )*
//! logic_and      → equality ( "and" equality )*
//! equality       → comparison ( ( "!=" | "==" ) comparison )*
//! comparison     → term       ( ( ">" | ">=" | "<" | "<=" ) term )*
//! term           → factor     ( ( "-" | "+" ) factor )*
//! factor         → unary      ( ( "/" | "*" ) unary )*
//! unary          → ( "!" | "-" ) unary | call
//! call           → primary ( "(" args? ")" | "." IDENT )*
//! primary        → "true" | "false" | "nil" | NUMBER | STRING
//!                | IDENT | "(" expression ")"
//! ```
//!
//! Every function counts the tokens it consumed in a `nat`, so a position
//! never moves backwards. Where a loop of the grammar repeats a production
//! that must consume a token, the count is taken to be at least one.

use vstd::prelude::*;
use crate::ast::ExprView;
use crate::statement::StmtView;
use crate::tokens::{LiteralView, TokenType, TokenView};

verus! {

/// What a function declaration declares.
#[derive(Debug, Clone, Copy, PartialEq, Eq, Structural)]
pub enum FunctionKind {
    Function,
    Method,
}

/// The rule of the grammar that a token sequence broke.
#[derive(Debug, Clone, Copy, PartialEq, Eq, Structural)]
pub enum Rule {
    ExpectExpression,
    ExpectParenAfterExpression,
    ExpectParenAfterArguments,
    ExpectPropertyName,
    TooManyArguments,
    InvalidAssignmentTarget,
    ExpectSemicolonAfterValue,
    ExpectSemicolonAfterExpression,
    ExpectSemicolonAfterDeclaration,
    ExpectSemicolonAfterReturn,
    ExpectSemicolonAfterLoopCondition,
    ExpectVariableName,
    ExpectParenAfterWhile,
    ExpectParenAfterCondition,
    ExpectParenAfterFor,
    ExpectParenAfterClauses,
    ExpectParenAfterIf,
    ExpectParenAfterIfCondition,
    ExpectBraceAfterBlock,
    ExpectClassName,
    ExpectBraceBeforeClassBody,
    ExpectBraceAfterClassBody,
    ExpectName(FunctionKind),
    ExpectParenAfterName(FunctionKind),
    ExpectBraceBeforeBody(FunctionKind),
    TooManyParameters,
    ExpectParameterName,
    ExpectParenAfterParameters,
}

/// What a report says of a broken rule.
pub open spec fn message(rule: Rule) -> Seq<char> {
    match rule {
        Rule::ExpectExpression => "Expect expression."@,
        Rule::ExpectParenAfterExpression => "Expect ')' after expression."@,
        Rule::ExpectParenAfterArguments => "Expect ')' after arguments."@,
        Rule::ExpectPropertyName => "Expect property name after '.'."@,
        Rule::TooManyArguments => "Can't have more than 255 arguments."@,
        Rule::InvalidAssignmentTarget => "Invalid assignment target."@,
        Rule::ExpectSemicolonAfterValue => "Expect ';' after value."@,
        Rule::ExpectSemicolonAfterExpression => "Expect ';' after expression."@,
        Rule::ExpectSemicolonAfterDeclaration => "Expect ';' after variable declaration."@,
        Rule::ExpectSemicolonAfterReturn => "Expect ';' after return value."@,
        Rule::ExpectSemicolonAfterLoopCondition => "Expect ';' after loop condition."@,
        Rule::ExpectVariableName => "Expect variable name."@,
        Rule::ExpectParenAfterWhile => "Expect '(' after 'while'."@,
        Rule::ExpectParenAfterCondition => "Expect ')' after condition."@,
        Rule::ExpectParenAfterFor => "Expect '(' after 'for'."@,
        Rule::ExpectParenAfterClauses => "Expect ')' after for clauses."@,
        Rule::ExpectParenAfterIf => "Expect '(' after 'if'."@,
        Rule::ExpectParenAfterIfCondition => "Expect ')' after if condition."@,
        Rule::ExpectBraceAfterBlock => "Expect '}' after block."@,
        Rule::ExpectClassName => "Expect class name."@,
        Rule::ExpectBraceBeforeClassBody => "Expect '{' before class body."@,
        Rule::ExpectBraceAfterClassBody => "Expect '}' after class body."@,
        Rule::ExpectName(FunctionKind::Function) => "Expect function name."@,
        Rule::ExpectName(FunctionKind::Method) => "Expect method name."@,
        Rule::ExpectParenAfterName(FunctionKind::Function) => "Expect '(' after function name."@,
        Rule::ExpectParenAfterName(FunctionKind::Method) => "Expect '(' after method name."@,
        Rule::ExpectBraceBeforeBody(FunctionKind::Function) => "Expect '{' before function body."@,
        Rule::ExpectBraceBeforeBody(FunctionKind::Method) => "Expect '{' before method body."@,
        Rule::TooManyParameters => "Can't have more than 255 parameters."@,
        Rule::ExpectParameterName => "Expect parameter name."@,
        Rule::ExpectParenAfterParameters => "Expect ')' after parameters."@,
    }
}

/// A syntax error: the index of the token at which a rule was broken.
#[derive(Debug, Clone, Copy, PartialEq, Eq, Structural)]
pub struct SyntaxError {
    pub position: usize,
    pub rule: Rule,
}

/// The most arguments a call, and the most parameters a function, may have.
pub const MAX_ARITY: usize = 255;

/// A level of left-associative binary operators, loosest first.
#[derive(Debug, Clone, Copy, PartialEq, Eq, Structural)]
pub enum Level {
    Or,
    And,
    Equality,
    Comparison,
    Term,
    Factor,
}

/// The outcome of a production without nested declarations.
pub struct Parse<T> {
    pub used: nat,
    pub result: Result<T, SyntaxError>,
}

/// The outcome of a production that may hold declarations: `errors` is the
/// list it was given, followed by those it recovered from.
pub struct Parsed<T> {
    pub used: nat,
    pub errors: Seq<SyntaxError>,
    pub result: Result<T, SyntaxError>,
}

/// The outcome of a run of declarations: the statements that parsed.
pub struct Items {
    pub used: nat,
    pub errors: Seq<SyntaxError>,
    pub statements: Seq<StmtView>,
}

/// The outcome of one declaration: `None` where an error was recovered from.
pub struct Declared {
    pub used: nat,
    pub errors: Seq<SyntaxError>,
    pub statement: Option<StmtView>,
}

pub open spec fn in_bounds(tokens: Seq<TokenView>, pos: int) -> bool {
    0 <= pos < tokens.len()
}

/// Nothing is left to parse at `pos`.
pub open spec fn at_end(tokens: Seq<TokenView>, pos: int) -> bool {
    !in_bounds(tokens, pos) || tokens[pos].token_type == TokenType::EOF
}

/// Something is left at `pos`, and the token there is of kind `kind`.
pub open spec fn check(tokens: Seq<TokenView>, pos: int, kind: TokenType) -> bool {
    !at_end(tokens, pos) && tokens[pos].token_type == kind
}

/// The number of tokens from `pos` on.
pub open spec fn remaining(tokens: Seq<TokenView>, pos: int) -> nat {
    if pos < tokens.len() {
        (tokens.len() - pos) as nat
    } else {
        0
    }
}

pub open spec fn fault(pos: int, rule: Rule) -> SyntaxError {
    SyntaxError { position: pos as usize, rule }
}

pub open spec fn done<T>(used: nat, value: T) -> Parse<T> {
    Parse { used, result: Ok(value) }
}

pub open spec fn failed<T>(used: nat, error: SyntaxError) -> Parse<T> {
    Parse { used, result: Err(error) }
}

/// The same outcome, `by` tokens further from where it is counted.
pub open spec fn shift<T>(by: nat, parse: Parse<T>) -> Parse<T> {
    Parse { used: by + parse.used, result: parse.result }
}

/// An outcome that recovered from nothing.
pub open spec fn quiet<T>(parse: Parse<T>, errors: Seq<SyntaxError>) -> Parsed<T> {
    Parsed { used: parse.used, errors, result: parse.result }
}

pub open spec fn shifted<T>(by: nat, parsed: Parsed<T>) -> Parsed<T> {
    Parsed { used: by + parsed.used, errors: parsed.errors, result: parsed.result }
}

pub open spec fn at_least_one(used: nat) -> nat {
    if used == 0 {
        1
    } else {
        used
    }
}

/// One token of kind `kind`, or the error of `rule`.
pub open spec fn expect(tokens: Seq<TokenView>, pos: int, kind: TokenType, rule: Rule) -> Parse<
    TokenView,
> {
    if check(tokens, pos, kind) {
        done(1, tokens[pos])
    } else {
        failed(0, fault(pos, rule))
    }
}

// ---------------------------------------------------------------------
// Expressions
// ---------------------------------------------------------------------
pub open spec fn rank(level: Level) -> nat {
    match level {
        Level::Or => 6,
        Level::And => 5,
        Level::Equality => 4,
        Level::Comparison => 3,
        Level::Term => 2,
        Level::Factor => 1,
    }
}

/// `kind` is an operator of `level`.
pub open spec fn operates(level: Level, kind: TokenType) -> bool {
    match level {
        Level::Or => kind == TokenType::OR,
        Level::And => kind == TokenType::AND,
        Level::Equality => kind == TokenType::BANG_EQUAL || kind == TokenType::EQUAL_EQUAL,
        Level::Comparison => kind == TokenType::GREATER || kind == TokenType::GREATER_EQUAL
            || kind == TokenType::LESS || kind == TokenType::LESS_EQUAL,
        Level::Term => kind == TokenType::MINUS || kind == TokenType::PLUS,
        Level::Factor => kind == TokenType::SLASH || kind == TokenType::STAR,
    }
}

/// The node that joins two operands of `level`.
pub open spec fn join(level: Level, left: ExprView, operator: TokenView, right: ExprView)
    -> ExprView {
    match level {
        Level::Or | Level::And => ExprView::Logical {
            left: Box::new(left),
            operator,
            right: Box::new(right),
        },
        _ => ExprView::Binary { left: Box::new(left), operator, right: Box::new(right) },
    }
}

/// primary → "true" | "false" | "nil" | NUMBER | STRING | IDENT | "(" expression ")"
pub open spec fn primary(tokens: Seq<TokenView>, pos: int) -> Parse<ExprView>
    decreases remaining(tokens, pos), 0nat,
{
    if check(tokens, pos, TokenType::FALSE) {
        done(1, ExprView::Literal { value: LiteralView::Boolean(false) })
    } else if check(tokens, pos, TokenType::TRUE) {
        done(1, ExprView::Literal { value: LiteralView::Boolean(true) })
    } else if check(tokens, pos, TokenType::NIL) {
        done(1, ExprView::Literal { value: LiteralView::Nil })
    } else if check(tokens, pos, TokenType::STRING) || check(tokens, pos, TokenType::NUMBER) {
        done(1, ExprView::Literal { value: tokens[pos].literal })
    } else if check(tokens, pos, TokenType::LEFT_PAREN) {
        let inner = expression(tokens, pos + 1);
        match inner.result {
            Err(error) => failed(1 + inner.used, error),
            Ok(expression) => if check(tokens, pos + 1 + inner.used, TokenType::RIGHT_PAREN) {
                done(2 + inner.used, ExprView::Grouping { expression: Box::new(expression) })
            } else {
                failed(
                    1 + inner.used,
                    fault(pos + 1 + inner.used, Rule::ExpectParenAfterExpression),
                )
            },
        }
    } else if check(tokens, pos, TokenType::IDENTIFIER) {
        done(1, ExprView::Variable { name: tokens[pos] })
    } else {
        failed(0, fault(pos, Rule::ExpectExpression))
    }
}

/// ( "(" args? ")" | "." IDENT )*, applied to `callee`.
pub open spec fn call_rest(tokens: Seq<TokenView>, pos: int, callee: ExprView) -> Parse<ExprView>
    decreases remaining(tokens, pos), 1nat,
{
    if check(tokens, pos, TokenType::LEFT_PAREN) {
        let call = finish_call(tokens, pos + 1, callee);
        match call.result {
            Err(error) => failed(1 + call.used, error),
            Ok(expr) => shift(1 + call.used, call_rest(tokens, pos + 1 + call.used, expr)),
        }
    } else if check(tokens, pos, TokenType::DOT) {
        if check(tokens, pos + 1, TokenType::IDENTIFIER) {
            shift(
                2,
                call_rest(
                    tokens,
                    pos + 2,
                    ExprView::Get { object: Box::new(callee), name: tokens[pos + 1] },
                ),
            )
        } else {
            failed(1, fault(pos + 1, Rule::ExpectPropertyName))
        }
    } else {
        done(0, callee)
    }
}

/// call → primary ( "(" args? ")" | "." IDENT )*
pub open spec fn call(tokens: Seq<TokenView>, pos: int) -> Parse<ExprView>
    decreases remaining(tokens, pos), 2nat,
{
    let head = primary(tokens, pos);
    match head.result {
        Err(error) => head,
        Ok(callee) => shift(head.used, call_rest(tokens, pos + head.used, callee)),
    }
}

/// expression ( "," expression )*, after the arguments in `found`; at most
/// [`MAX_ARITY`] in all.
pub open spec fn arguments(tokens: Seq<TokenView>, pos: int, found: Seq<ExprView>) -> Parse<
    Seq<ExprView>,
>
    decreases remaining(tokens, pos), 41nat,
{
    if found.len() >= MAX_ARITY {
        failed(0, fault(pos, Rule::TooManyArguments))
    } else {
        let argument = expression(tokens, pos);
        match argument.result {
            Err(error) => failed(argument.used, error),
            Ok(expr) => if check(tokens, pos + argument.used, TokenType::COMMA) {
                shift(
                    argument.used + 1,
                    arguments(tokens, pos + argument.used + 1, found.push(expr)),
                )
            } else {
                done(argument.used, found.push(expr))
            },
        }
    }
}

/// args?, before a ")".
pub open spec fn argument_list(tokens: Seq<TokenView>, pos: int) -> Parse<Seq<ExprView>>
    decreases remaining(tokens, pos), 42nat,
{
    if check(tokens, pos, TokenType::RIGHT_PAREN) {
        done(0, Seq::empty())
    } else {
        arguments(tokens, pos, Seq::empty())
    }
}

/// args? ")", after the "(" that follows `callee`.
pub open spec fn finish_call(tokens: Seq<TokenView>, pos: int, callee: ExprView) -> Parse<
    ExprView,
>
    decreases remaining(tokens, pos), 43nat,
{
    let list = argument_list(tokens, pos);
    match list.result {
        Err(error) => failed(list.used, error),
        Ok(arguments) => if check(tokens, pos + list.used, TokenType::RIGHT_PAREN) {
            done(
                list.used + 1,
                ExprView::Call {
                    callee: Box::new(callee),
                    paren: tokens[pos + list.used],
                    arguments,
                },
            )
        } else {
            failed(list.used, fault(pos + list.used, Rule::ExpectParenAfterArguments))
        },
    }
}

/// unary → ( "!" | "-" ) unary | call
pub open spec fn unary(tokens: Seq<TokenView>, pos: int) -> Parse<ExprView>
    decreases remaining(tokens, pos), 3nat,
{
    if check(tokens, pos, TokenType::BANG) || check(tokens, pos, TokenType::MINUS) {
        let operand = unary(tokens, pos + 1);
        match operand.result {
            Err(error) => failed(1 + operand.used, error),
            Ok(right) => done(
                1 + operand.used,
                ExprView::Unary { operator: tokens[pos], right: Box::new(right) },
            ),
        }
    } else {
        call(tokens, pos)
    }
}

/// An operand of `level`: an expression of the next tighter level.
pub open spec fn operand(tokens: Seq<TokenView>, pos: int, level: Level) -> Parse<ExprView>
    decreases remaining(tokens, pos), 3 * rank(level) + 1,
{
    match level {
        Level::Or => binary(tokens, pos, Level::And),
        Level::And => binary(tokens, pos, Level::Equality),
        Level::Equality => binary(tokens, pos, Level::Comparison),
        Level::Comparison => binary(tokens, pos, Level::Term),
        Level::Term => binary(tokens, pos, Level::Factor),
        Level::Factor => unary(tokens, pos),
    }
}

/// ( operator operand )* of `level`, applied to `left`: the operators
/// associate to the left.
pub open spec fn binary_rest(tokens: Seq<TokenView>, pos: int, level: Level, left: ExprView)
    -> Parse<ExprView>
    decreases remaining(tokens, pos), 3 * rank(level) + 2,
{
    if in_bounds(tokens, pos) && operates(level, tokens[pos].token_type) {
        let right = operand(tokens, pos + 1, level);
        match right.result {
            Err(error) => failed(1 + right.used, error),
            Ok(expr) => shift(
                1 + right.used,
                binary_rest(
                    tokens,
                    pos + 1 + right.used,
                    level,
                    join(level, left, tokens[pos], expr),
                ),
            ),
        }
    } else {
        done(0, left)
    }
}

/// operand ( operator operand )* of `level`.
pub open spec fn binary(tokens: Seq<TokenView>, pos: int, level: Level) -> Parse<ExprView>
    decreases remaining(tokens, pos), 3 * rank(level) + 3,
{
    let first = operand(tokens, pos, level);
    match first.result {
        Err(error) => first,
        Ok(left) => shift(first.used, binary_rest(tokens, pos + first.used, level, left)),
    }
}

/// assignment → IDENT "=" assignment | logic_or
///
/// The left side is parsed as an expression; before "=" it must be a
/// variable.
pub open spec fn assignment(tokens: Seq<TokenView>, pos: int) -> Parse<ExprView>
    decreases remaining(tokens, pos), 30nat,
{
    let target = binary(tokens, pos, Level::Or);
    match target.result {
        Err(error) => target,
        Ok(left) => if check(tokens, pos + target.used, TokenType::EQUAL) {
            let value = assignment(tokens, pos + target.used + 1);
            match value.result {
                Err(error) => failed(target.used + 1 + value.used, error),
                Ok(right) => match left {
                    ExprView::Variable { name } => done(
                        target.used + 1 + value.used,
                        ExprView::Assign { name, value: Box::new(right) },
                    ),
                    _ => failed(
                        target.used + 1 + value.used,
                        fault(pos + target.used, Rule::InvalidAssignmentTarget),
                    ),
                },
            }
        } else {
            target
        },
    }
}

/// expression → assignment
pub open spec fn expression(tokens: Seq<TokenView>, pos: int) -> Parse<ExprView>
    decreases remaining(tokens, pos), 31nat,
{
    assignment(tokens, pos)
}

// ---------------------------------------------------------------------
// Statements
// ---------------------------------------------------------------------
pub open spec fn fail<T>(used: nat, errors: Seq<SyntaxError>, error: SyntaxError) -> Parsed<T> {
    Parsed { used, errors, result: Err(error) }
}

/// `head`, which began at `pos`, followed by one token of kind `kind`.
pub open spec fn then_expect<T>(
    tokens: Seq<TokenView>,
    pos: int,
    head: Parse<T>,
    kind: TokenType,
    rule: Rule,
) -> Parse<T> {
    match head.result {
        Err(error) => head,
        Ok(value) => if check(tokens, pos + head.used, kind) {
            Parse { used: head.used + 1, result: head.result }
        } else {
            failed(head.used, fault(pos + head.used, rule))
        },
    }
}

/// expression? closer
#[verifier::opaque]
pub open spec fn clause(tokens: Seq<TokenView>, pos: int, closer: TokenType, rule: Rule) -> Parse<
    Option<ExprView>,
> {
    if check(tokens, pos, closer) {
        done(1, None)
    } else {
        let value = then_expect(tokens, pos, expression(tokens, pos), closer, rule);
        match value.result {
            Err(error) => failed(value.used, error),
            Ok(expr) => done(value.used, Some(expr)),
        }
    }
}

/// "(" expression ")"
#[verifier::opaque]
pub open spec fn condition(tokens: Seq<TokenView>, pos: int, open: Rule, close: Rule) -> Parse<
    ExprView,
> {
    if !check(tokens, pos, TokenType::LEFT_PAREN) {
        failed(0, fault(pos, open))
    } else {
        shift(
            1,
            then_expect(
                tokens,
                pos + 1,
                expression(tokens, pos + 1),
                TokenType::RIGHT_PAREN,
                close,
            ),
        )
    }
}

/// exprStmt → expression ";"
#[verifier::opaque]
pub open spec fn expr_statement(tokens: Seq<TokenView>, pos: int) -> Parse<StmtView> {
    let value = then_expect(
        tokens,
        pos,
        expression(tokens, pos),
        TokenType::SEMICOLON,
        Rule::ExpectSemicolonAfterExpression,
    );
    match value.result {
        Err(error) => failed(value.used, error),
        Ok(expr) => done(value.used, StmtView::Expression(expr)),
    }
}

/// expression ";", after "print".
#[verifier::opaque]
pub open spec fn print_statement(tokens: Seq<TokenView>, pos: int) -> Parse<StmtView> {
    let value = then_expect(
        tokens,
        pos,
        expression(tokens, pos),
        TokenType::SEMICOLON,
        Rule::ExpectSemicolonAfterValue,
    );
    match value.result {
        Err(error) => failed(value.used, error),
        Ok(expr) => done(value.used, StmtView::Print(expr)),
    }
}

/// expression? ";", after the "return" at `pos - 1`.
#[verifier::opaque]
pub open spec fn return_statement(tokens: Seq<TokenView>, pos: int) -> Parse<StmtView> {
    let value = clause(tokens, pos, TokenType::SEMICOLON, Rule::ExpectSemicolonAfterReturn);
    match value.result {
        Err(error) => failed(value.used, error),
        Ok(value_expr) => done(
            value.used,
            StmtView::Return { keyword: tokens[pos - 1], value: value_expr },
        ),
    }
}

/// IDENT ( "=" expression )? ";", after "var".
#[verifier::opaque]
pub open spec fn var_declaration(tokens: Seq<TokenView>, pos: int) -> Parse<StmtView> {
    if !check(tokens, pos, TokenType::IDENTIFIER) {
        failed(0, fault(pos, Rule::ExpectVariableName))
    } else if check(tokens, pos + 1, TokenType::EQUAL) {
        let value = then_expect(
            tokens,
            pos + 2,
            expression(tokens, pos + 2),
            TokenType::SEMICOLON,
            Rule::ExpectSemicolonAfterDeclaration,
        );
        match value.result {
            Err(error) => failed(2 + value.used, error),
            Ok(expr) => done(
                2 + value.used,
                StmtView::Variable { name: tokens[pos], initializer: Some(expr) },
            ),
        }
    } else if check(tokens, pos + 1, TokenType::SEMICOLON) {
        done(2, StmtView::Variable { name: tokens[pos], initializer: None })
    } else {
        failed(1, fault(pos + 1, Rule::ExpectSemicolonAfterDeclaration))
    }
}

/// The first clause of a `for`: varDecl | exprStmt | ";"
#[verifier::opaque]
pub open spec fn for_initializer(tokens: Seq<TokenView>, pos: int) -> Parse<Option<StmtView>> {
    if check(tokens, pos, TokenType::SEMICOLON) {
        done(1, None)
    } else {
        let first = if check(tokens, pos, TokenType::VAR) {
            shift(1, var_declaration(tokens, pos + 1))
        } else {
            expr_statement(tokens, pos)
        };
        match first.result {
            Err(error) => failed(first.used, error),
            Ok(stmt) => done(first.used, Some(stmt)),
        }
    }
}

/// The statement that a `for` loop stands for:
/// `for (I; C; U) B` is `{ I; while (C) { B; U; } }`, without the outer block
/// where `I` is absent, with `true` where `C` is absent, and without the
/// inner block where `U` is absent.
#[verifier::opaque]
pub open spec fn desugar_for(
    initializer: Option<StmtView>,
    condition: Option<ExprView>,
    increment: Option<ExprView>,
    body: StmtView,
) -> StmtView {
    let stepped = match increment {
        Some(expr) => StmtView::Block { statements: seq![body, StmtView::Expression(expr)] },
        None => body,
    };
    let test = match condition {
        Some(expr) => expr,
        None => ExprView::Literal { value: LiteralView::Boolean(true) },
    };
    let looped = StmtView::While { condition: test, body: Box::new(stepped) };
    match initializer {
        Some(first) => StmtView::Block { statements: seq![first, looped] },
        None => looped,
    }
}

/// The tokens at which parsing resumes after an error: the end, the token
/// after a ";", or the first token of a declaration or statement.
pub open spec fn boundary(tokens: Seq<TokenView>, pos: int) -> bool {
    at_end(tokens, pos) || (pos >= 1 && tokens[pos - 1].token_type == TokenType::SEMICOLON) || {
        let kind = tokens[pos].token_type;
        kind == TokenType::CLASS || kind == TokenType::FUN || kind == TokenType::VAR || kind
            == TokenType::FOR || kind == TokenType::IF || kind == TokenType::WHILE || kind
            == TokenType::PRINT || kind == TokenType::RETURN
    }
}

/// The number of tokens from `pos` to the next boundary.
#[verifier::opaque]
pub open spec fn skip(tokens: Seq<TokenView>, pos: int) -> nat
    decreases remaining(tokens, pos),
{
    if boundary(tokens, pos) {
        0
    } else {
        1 + skip(tokens, pos + 1)
    }
}

/// The number of tokens that recovery discards from `pos`: one, unless at
/// the end, and then all up to the next boundary.
#[verifier::opaque]
pub open spec fn synchronize(tokens: Seq<TokenView>, pos: int) -> nat {
    if at_end(tokens, pos) {
        0
    } else {
        1 + skip(tokens, pos + 1)
    }
}

/// IDENT ( "," IDENT )*, after the parameters in `found`; at most
/// [`MAX_ARITY`] in all.
#[verifier::opaque]
pub open spec fn parameters(tokens: Seq<TokenView>, pos: int, found: Seq<TokenView>) -> Parse<
    Seq<TokenView>,
>
    decreases remaining(tokens, pos),
{
    if found.len() >= MAX_ARITY {
        failed(0, fault(pos, Rule::TooManyParameters))
    } else if !check(tokens, pos, TokenType::IDENTIFIER) {
        failed(0, fault(pos, Rule::ExpectParameterName))
    } else if check(tokens, pos + 1, TokenType::COMMA) {
        shift(2, parameters(tokens, pos + 2, found.push(tokens[pos])))
    } else {
        done(1, found.push(tokens[pos]))
    }
}

/// params?, before a ")".
#[verifier::opaque]
pub open spec fn parameter_list(tokens: Seq<TokenView>, pos: int) -> Parse<Seq<TokenView>> {
    if check(tokens, pos, TokenType::RIGHT_PAREN) {
        done(0, Seq::empty())
    } else {
        parameters(tokens, pos, Seq::empty())
    }
}

/// statement → exprStmt | forStmt | ifStmt | printStmt | returnStmt | whileStmt | block
pub open spec fn statement(tokens: Seq<TokenView>, pos: int, errors: Seq<SyntaxError>) -> Parsed<
    StmtView,
>
    decreases remaining(tokens, pos), 60nat,
{
    if check(tokens, pos, TokenType::PRINT) {
        quiet(shift(1, print_statement(tokens, pos + 1)), errors)
    } else if check(tokens, pos, TokenType::RETURN) {
        quiet(shift(1, return_statement(tokens, pos + 1)), errors)
    } else if check(tokens, pos, TokenType::WHILE) {
        shifted(1, while_statement(tokens, pos + 1, errors))
    } else if check(tokens, pos, TokenType::FOR) {
        shifted(1, for_statement(tokens, pos + 1, errors))
    } else if check(tokens, pos, TokenType::LEFT_BRACE) {
        let body = block(tokens, pos + 1, errors);
        Parsed {
            used: 1 + body.used,
            errors: body.errors,
            result: match body.result {
                Err(error) => Err(error),
                Ok(statements) => Ok(StmtView::Block { statements }),
            },
        }
    } else if check(tokens, pos, TokenType::IF) {
        shifted(1, if_statement(tokens, pos + 1, errors))
    } else {
        quiet(expr_statement(tokens, pos), errors)
    }
}

/// "(" expression ")" statement, after "while".
pub open spec fn while_statement(tokens: Seq<TokenView>, pos: int, errors: Seq<SyntaxError>)
    -> Parsed<StmtView>
    decreases remaining(tokens, pos), 63nat,
{
    let condition = condition(
        tokens,
        pos,
        Rule::ExpectParenAfterWhile,
        Rule::ExpectParenAfterCondition,
    );
    match condition.result {
        Err(error) => fail(condition.used, errors, error),
        Ok(test) => {
            let body = statement(tokens, pos + condition.used, errors);
            Parsed {
                used: condition.used + body.used,
                errors: body.errors,
                result: match body.result {
                    Err(error) => Err(error),
                    Ok(stmt) => Ok(StmtView::While { condition: test, body: Box::new(stmt) }),
                },
            }
        },
    }
}

/// ( "else" statement )?
pub open spec fn else_branch(tokens: Seq<TokenView>, pos: int, errors: Seq<SyntaxError>)
    -> Parsed<Option<StmtView>>
    decreases remaining(tokens, pos), 61nat,
{
    if check(tokens, pos, TokenType::ELSE) {
        let branch = statement(tokens, pos + 1, errors);
        Parsed {
            used: 1 + branch.used,
            errors: branch.errors,
            result: match branch.result {
                Err(error) => Err(error),
                Ok(stmt) => Ok(Some(stmt)),
            },
        }
    } else {
        Parsed { used: 0, errors, result: Ok(None) }
    }
}

/// "(" expression ")" statement ( "else" statement )?, after "if".
pub open spec fn if_statement(tokens: Seq<TokenView>, pos: int, errors: Seq<SyntaxError>)
    -> Parsed<StmtView>
    decreases remaining(tokens, pos), 64nat,
{
    let condition = condition(
        tokens,
        pos,
        Rule::ExpectParenAfterIf,
        Rule::ExpectParenAfterIfCondition,
    );
    match condition.result {
        Err(error) => fail(condition.used, errors, error),
        Ok(test) => {
            let first = statement(tokens, pos + condition.used, errors);
            let used = condition.used + first.used;
            match first.result {
                Err(error) => fail(used, first.errors, error),
                Ok(then_branch) => {
                    let second = else_branch(tokens, pos + used, first.errors);
                    Parsed {
                        used: used + second.used,
                        errors: second.errors,
                        result: match second.result {
                            Err(error) => Err(error),
                            Ok(other) => Ok(
                                StmtView::If {
                                    condition: test,
                                    then_branch: Box::new(then_branch),
                                    else_branch: match other {
                                        Some(stmt) => Some(Box::new(stmt)),
                                        None => None,
                                    },
                                },
                            ),
                        },
                    }
                },
            }
        },
    }
}

/// "(" ( varDecl | exprStmt | ";" ) expression? ";" expression? ")" statement,
/// after "for": the loop it stands for.
pub open spec fn for_statement(tokens: Seq<TokenView>, pos: int, errors: Seq<SyntaxError>)
    -> Parsed<StmtView>
    decreases remaining(tokens, pos), 55nat,
{
    if !check(tokens, pos, TokenType::LEFT_PAREN) {
        fail(0, errors, fault(pos, Rule::ExpectParenAfterFor))
    } else {
        let initializer = for_initializer(tokens, pos + 1);
        match initializer.result {
            Err(error) => fail(1 + initializer.used, errors, error),
            Ok(first) => {
                let at_condition = 1 + initializer.used;
                let condition = clause(
                    tokens,
                    pos + at_condition,
                    TokenType::SEMICOLON,
                    Rule::ExpectSemicolonAfterLoopCondition,
                );
                match condition.result {
                    Err(error) => fail(at_condition + condition.used, errors, error),
                    Ok(test) => {
                        let at_increment = at_condition + condition.used;
                        let increment = clause(
                            tokens,
                            pos + at_increment,
                            TokenType::RIGHT_PAREN,
                            Rule::ExpectParenAfterClauses,
                        );
                        match increment.result {
                            Err(error) => fail(at_increment + increment.used, errors, error),
                            Ok(step) => {
                                let at_body = at_increment + increment.used;
                                let body = statement(tokens, pos + at_body, errors);
                                Parsed {
                                    used: at_body + body.used,
                                    errors: body.errors,
                                    result: match body.result {
                                        Err(error) => Err(error),
                                        Ok(stmt) => Ok(desugar_for(first, test, step, stmt)),
                                    },
                                }
                            },
                        }
                    },
                }
            },
        }
    }
}

/// declaration* "}", after "{".
pub open spec fn block(tokens: Seq<TokenView>, pos: int, errors: Seq<SyntaxError>) -> Parsed<
    Seq<StmtView>,
>
    decreases remaining(tokens, pos), 81nat,
{
    let items = block_items(tokens, pos, Seq::empty(), errors);
    if check(tokens, pos + items.used, TokenType::RIGHT_BRACE) {
        Parsed { used: items.used + 1, errors: items.errors, result: Ok(items.statements) }
    } else {
        fail(items.used, items.errors, fault(pos + items.used, Rule::ExpectBraceAfterBlock))
    }
}

/// declaration*, up to a "}" or the end, after the statements in `found`.
pub open spec fn block_items(
    tokens: Seq<TokenView>,
    pos: int,
    found: Seq<StmtView>,
    errors: Seq<SyntaxError>,
) -> Items
    decreases remaining(tokens, pos), 80nat,
{
    if check(tokens, pos, TokenType::RIGHT_BRACE) || at_end(tokens, pos) {
        Items { used: 0, errors, statements: found }
    } else {
        let item = declaration(tokens, pos, errors);
        let step = at_least_one(item.used);
        let rest = block_items(
            tokens,
            pos + step,
            match item.statement {
                Some(stmt) => found.push(stmt),
                None => found,
            },
            item.errors,
        );
        Items { used: step + rest.used, errors: rest.errors, statements: rest.statements }
    }
}

/// function → IDENT "(" params? ")" block
pub open spec fn function(
    tokens: Seq<TokenView>,
    pos: int,
    kind: FunctionKind,
    errors: Seq<SyntaxError>,
) -> Parsed<StmtView>
    decreases remaining(tokens, pos), 65nat,
{
    if !check(tokens, pos, TokenType::IDENTIFIER) {
        fail(0, errors, fault(pos, Rule::ExpectName(kind)))
    } else if !check(tokens, pos + 1, TokenType::LEFT_PAREN) {
        fail(1, errors, fault(pos + 1, Rule::ExpectParenAfterName(kind)))
    } else {
        let list = parameter_list(tokens, pos + 2);
        match list.result {
            Err(error) => fail(2 + list.used, errors, error),
            Ok(params) => {
                let close = 2 + list.used;
                if !check(tokens, pos + close, TokenType::RIGHT_PAREN) {
                    fail(close, errors, fault(pos + close, Rule::ExpectParenAfterParameters))
                } else if !check(tokens, pos + close + 1, TokenType::LEFT_BRACE) {
                    fail(
                        close + 1,
                        errors,
                        fault(pos + close + 1, Rule::ExpectBraceBeforeBody(kind)),
                    )
                } else {
                    let body = block(tokens, pos + close + 2, errors);
                    Parsed {
                        used: close + 2 + body.used,
                        errors: body.errors,
                        result: match body.result {
                            Err(error) => Err(error),
                            Ok(statements) => Ok(
                                StmtView::Function { name: tokens[pos], params, body: statements },
                            ),
                        },
                    }
                }
            },
        }
    }
}

/// function*, up to a "}" or the end, after the methods in `found`.
pub open spec fn methods(
    tokens: Seq<TokenView>,
    pos: int,
    found: Seq<StmtView>,
    errors: Seq<SyntaxError>,
) -> Parsed<Seq<StmtView>>
    decreases remaining(tokens, pos), 66nat,
{
    if check(tokens, pos, TokenType::RIGHT_BRACE) || at_end(tokens, pos) {
        Parsed { used: 0, errors, result: Ok(found) }
    } else {
        let method = function(tokens, pos, FunctionKind::Method, errors);
        match method.result {
            Err(error) => fail(method.used, method.errors, error),
            Ok(stmt) => {
                let step = at_least_one(method.used);
                shifted(step, methods(tokens, pos + step, found.push(stmt), method.errors))
            },
        }
    }
}

/// IDENT "{" function* "}", after "class".
pub open spec fn class_declaration(tokens: Seq<TokenView>, pos: int, errors: Seq<SyntaxError>)
    -> Parsed<StmtView>
    decreases remaining(tokens, pos), 68nat,
{
    if !check(tokens, pos, TokenType::IDENTIFIER) {
        fail(0, errors, fault(pos, Rule::ExpectClassName))
    } else if !check(tokens, pos + 1, TokenType::LEFT_BRACE) {
        fail(1, errors, fault(pos + 1, Rule::ExpectBraceBeforeClassBody))
    } else {
        let list = methods(tokens, pos + 2, Seq::empty(), errors);
        match list.result {
            Err(error) => fail(2 + list.used, list.errors, error),
            Ok(found) => if check(tokens, pos + 2 + list.used, TokenType::RIGHT_BRACE) {
                Parsed {
                    used: 3 + list.used,
                    errors: list.errors,
                    result: Ok(StmtView::Class { name: tokens[pos], methods: found }),
                }
            } else {
                fail(
                    2 + list.used,
                    list.errors,
                    fault(pos + 2 + list.used, Rule::ExpectBraceAfterClassBody),
                )
            },
        }
    }
}

/// classDecl | funDecl | varDecl | statement
pub open spec fn attempt(tokens: Seq<TokenView>, pos: int, errors: Seq<SyntaxError>) -> Parsed<
    StmtView,
>
    decreases remaining(tokens, pos), 69nat,
{
    if check(tokens, pos, TokenType::CLASS) {
        shifted(1, class_declaration(tokens, pos + 1, errors))
    } else if check(tokens, pos, TokenType::FUN) {
        shifted(1, function(tokens, pos + 1, FunctionKind::Function, errors))
    } else if check(tokens, pos, TokenType::VAR) {
        quiet(shift(1, var_declaration(tokens, pos + 1)), errors)
    } else {
        statement(tokens, pos, errors)
    }
}

/// declaration → classDecl | funDecl | varDecl | statement
///
/// A declaration that breaks a rule adds its error to the list and consumes
/// what recovery discards.
pub open spec fn declaration(tokens: Seq<TokenView>, pos: int, errors: Seq<SyntaxError>)
    -> Declared
    decreases remaining(tokens, pos), 70nat,
{
    let attempt = attempt(tokens, pos, errors);
    match attempt.result {
        Ok(stmt) => Declared { used: attempt.used, errors: attempt.errors, statement: Some(stmt) },
        Err(error) => Declared {
            used: attempt.used + synchronize(tokens, pos + attempt.used),
            errors: attempt.errors.push(error),
            statement: None,
        },
    }
}

/// program → declaration* EOF, after the statements in `found`.
#[verifier::opaque]
pub open spec fn program(
    tokens: Seq<TokenView>,
    pos: int,
    found: Seq<StmtView>,
    errors: Seq<SyntaxError>,
) -> Items
    decreases remaining(tokens, pos),
{
    if at_end(tokens, pos) {
        Items { used: 0, errors, statements: found }
    } else {
        let item = declaration(tokens, pos, errors);
        let step = at_least_one(item.used);
        let rest = program(
            tokens,
            pos + step,
            match item.statement {
                Some(stmt) => found.push(stmt),
                None => found,
            },
            item.errors,
        );
        Items { used: step + rest.used, errors: rest.errors, statements: rest.statements }
    }
}

} // verus!
