//! The recursive-descent parser: each function consumes the tokens of one
//! production of the grammar and builds its tree.

use vstd::prelude::*;
use crate::ast::{exprs_view, lemma_exprs_view, lemma_exprs_view_push, Expr, ExprView};
use crate::errors::{report, report_at, Error, ErrorView};
use crate::grammar;
use crate::grammar::{FunctionKind, Level, Rule, SyntaxError, MAX_ARITY};
use crate::statement::{
    lemma_methods_view_push, lemma_stmts_view, lemma_stmts_view_push, methods_view, stmts_view,
    Stmt, StmtView,
};
use crate::tokens::{tokens_view, Literal, Token, TokenType, TokenView};

verus! {

/// A parser over a token sequence that ends in `EOF`.
pub struct Parser {
    tokens: Vec<Token>,
    current: usize,
    errors: Vec<SyntaxError>,
}

pub open spec fn token_result(result: Result<Token, SyntaxError>) -> Result<
    TokenView,
    SyntaxError,
> {
    match result {
        Ok(token) => Ok(token@),
        Err(error) => Err(error),
    }
}

pub open spec fn expr_result(result: Result<Expr, SyntaxError>) -> Result<ExprView, SyntaxError> {
    match result {
        Ok(expr) => Ok(expr@),
        Err(error) => Err(error),
    }
}

pub open spec fn exprs_result(result: Result<Vec<Expr>, SyntaxError>) -> Result<
    Seq<ExprView>,
    SyntaxError,
> {
    match result {
        Ok(exprs) => Ok(exprs_view(exprs@)),
        Err(error) => Err(error),
    }
}

pub open spec fn stmt_result(result: Result<Stmt, SyntaxError>) -> Result<StmtView, SyntaxError> {
    match result {
        Ok(stmt) => Ok(stmt@),
        Err(error) => Err(error),
    }
}

pub open spec fn stmts_result(result: Result<Vec<Stmt>, SyntaxError>) -> Result<
    Seq<StmtView>,
    SyntaxError,
> {
    match result {
        Ok(stmts) => Ok(stmts_view(stmts@)),
        Err(error) => Err(error),
    }
}

pub open spec fn params_result(result: Result<Vec<Token>, SyntaxError>) -> Result<
    Seq<TokenView>,
    SyntaxError,
> {
    match result {
        Ok(params) => Ok(tokens_view(params@)),
        Err(error) => Err(error),
    }
}

pub open spec fn option_expr_view(value: Option<Expr>) -> Option<ExprView> {
    match value {
        Some(expr) => Some(expr@),
        None => None,
    }
}

pub open spec fn option_stmt_view(value: Option<Stmt>) -> Option<StmtView> {
    match value {
        Some(stmt) => Some(stmt@),
        None => None,
    }
}

pub open spec fn clause_result(result: Result<Option<Expr>, SyntaxError>) -> Result<
    Option<ExprView>,
    SyntaxError,
> {
    match result {
        Ok(value) => Ok(option_expr_view(value)),
        Err(error) => Err(error),
    }
}

pub open spec fn initializer_result(result: Result<Option<Stmt>, SyntaxError>) -> Result<
    Option<StmtView>,
    SyntaxError,
> {
    match result {
        Ok(value) => Ok(option_stmt_view(value)),
        Err(error) => Err(error),
    }
}

pub open spec fn methods_result(result: Result<Vec<Box<Stmt>>, SyntaxError>) -> Result<
    Seq<StmtView>,
    SyntaxError,
> {
    match result {
        Ok(methods) => Ok(methods_view(methods@)),
        Err(error) => Err(error),
    }
}

/// The statement that a `for` loop stands for.
fn desugar_for(
    initializer: Option<Stmt>,
    condition: Option<Expr>,
    increment: Option<Expr>,
    body: Stmt,
) -> (stmt: Stmt)
    ensures
        stmt@ == grammar::desugar_for(
            option_stmt_view(initializer),
            option_expr_view(condition),
            option_expr_view(increment),
            body@,
        ),
{
    proof {
        reveal(grammar::desugar_for);
    }
    let stepped = match increment {
        Some(expr) => pair(body, Stmt::Expression(expr)),
        None => body,
    };
    let test = match condition {
        Some(expr) => expr,
        None => Expr::Literal { value: Literal::Boolean(true) },
    };
    let looped = Stmt::While { condition: test, body: Box::new(stepped) };
    assert(looped@ == StmtView::While { condition: test@, body: Box::new(stepped@) });
    match initializer {
        Some(first) => pair(first, looped),
        None => looped,
    }
}

/// The block of two statements.
fn pair(first: Stmt, second: Stmt) -> (block: Stmt)
    ensures
        block@ == (StmtView::Block { statements: seq![first@, second@] }),
{
    let mut statements: Vec<Stmt> = Vec::new();
    statements.push(first);
    statements.push(second);
    proof {
        lemma_stmts_view(statements@);
        assert(stmts_view(statements@) =~= seq![first@, second@]);
    }
    Stmt::Block { statements }
}

/// The node that joins two operands of `level`.
fn join(level: Level, left: Expr, operator: Token, right: Expr) -> (expr: Expr)
    ensures
        expr@ == grammar::join(level, left@, operator@, right@),
{
    match level {
        Level::Or | Level::And => Expr::Logical {
            left: Box::new(left),
            operator,
            right: Box::new(right),
        },
        _ => Expr::Binary { left: Box::new(left), operator, right: Box::new(right) },
    }
}

/// What a report says of a broken rule.
pub fn message(rule: Rule) -> (text: &'static str)
    ensures
        text@ == grammar::message(rule),
{
    match rule {
        Rule::ExpectExpression => "Expect expression.",
        Rule::ExpectParenAfterExpression => "Expect ')' after expression.",
        Rule::ExpectParenAfterArguments => "Expect ')' after arguments.",
        Rule::ExpectPropertyName => "Expect property name after '.'.",
        Rule::TooManyArguments => "Can't have more than 255 arguments.",
        Rule::InvalidAssignmentTarget => "Invalid assignment target.",
        Rule::ExpectSemicolonAfterValue => "Expect ';' after value.",
        Rule::ExpectSemicolonAfterExpression => "Expect ';' after expression.",
        Rule::ExpectSemicolonAfterDeclaration => "Expect ';' after variable declaration.",
        Rule::ExpectSemicolonAfterReturn => "Expect ';' after return value.",
        Rule::ExpectSemicolonAfterLoopCondition => "Expect ';' after loop condition.",
        Rule::ExpectVariableName => "Expect variable name.",
        Rule::ExpectParenAfterWhile => "Expect '(' after 'while'.",
        Rule::ExpectParenAfterCondition => "Expect ')' after condition.",
        Rule::ExpectParenAfterFor => "Expect '(' after 'for'.",
        Rule::ExpectParenAfterClauses => "Expect ')' after for clauses.",
        Rule::ExpectParenAfterIf => "Expect '(' after 'if'.",
        Rule::ExpectParenAfterIfCondition => "Expect ')' after if condition.",
        Rule::ExpectBraceAfterBlock => "Expect '}' after block.",
        Rule::ExpectClassName => "Expect class name.",
        Rule::ExpectBraceBeforeClassBody => "Expect '{' before class body.",
        Rule::ExpectBraceAfterClassBody => "Expect '}' after class body.",
        Rule::ExpectName(FunctionKind::Function) => "Expect function name.",
        Rule::ExpectName(FunctionKind::Method) => "Expect method name.",
        Rule::ExpectParenAfterName(FunctionKind::Function) => "Expect '(' after function name.",
        Rule::ExpectParenAfterName(FunctionKind::Method) => "Expect '(' after method name.",
        Rule::ExpectBraceBeforeBody(FunctionKind::Function) => "Expect '{' before function body.",
        Rule::ExpectBraceBeforeBody(FunctionKind::Method) => "Expect '{' before method body.",
        Rule::TooManyParameters => "Can't have more than 255 parameters.",
        Rule::ExpectParameterName => "Expect parameter name.",
        Rule::ExpectParenAfterParameters => "Expect ')' after parameters.",
    }
}

/// `kind` is an operator of `level`.
fn operates(level: Level, kind: TokenType) -> (yes: bool)
    ensures
        yes == grammar::operates(level, kind),
{
    match level {
        Level::Or => kind == TokenType::OR,
        Level::And => kind == TokenType::AND,
        Level::Equality => kind == TokenType::BANG_EQUAL || kind == TokenType::EQUAL_EQUAL,
        Level::Comparison => kind == TokenType::GREATER || kind == TokenType::GREATER_EQUAL
            || kind == TokenType::LESS || kind == TokenType::LESS_EQUAL,
        Level::Term => kind == TokenType::MINUS || kind == TokenType::PLUS,
        Level::Factor => kind == TokenType::SLASH || kind == TokenType::STAR,
    }
}

impl Parser {
    /// The models of the tokens.
    pub closed spec fn tokens(&self) -> Seq<TokenView> {
        tokens_view(self.tokens@)
    }

    /// The index of the next token.
    pub closed spec fn position(&self) -> int {
        self.current as int
    }

    /// The syntax errors reported so far, oldest first.
    pub closed spec fn reported(&self) -> Seq<SyntaxError> {
        self.errors@
    }

    /// The position is that of a token, and the last token is `EOF`.
    pub closed spec fn wf(&self) -> bool {
        &&& self.current < self.tokens.len()
        &&& self.tokens@[self.tokens.len() - 1].token_type == TokenType::EOF
    }

    /// `self` is `before` after `used` more tokens, with nothing reported.
    spec fn advanced(&self, before: &Parser, used: nat) -> bool {
        &&& self.wf()
        &&& self.tokens == before.tokens
        &&& self.errors == before.errors
        &&& self.current == before.current + used
    }

    /// `self` is `before` after `used` more tokens, with `errors` reported.
    spec fn moved(&self, before: &Parser, used: nat, errors: Seq<SyntaxError>) -> bool {
        &&& self.wf()
        &&& self.tokens == before.tokens
        &&& self.errors@ == errors
        &&& self.current == before.current + used
    }

    /// `self` is `before` after the production `parsed`, which gave `result`.
    spec fn gives(
        &self,
        before: &Parser,
        result: Result<Stmt, SyntaxError>,
        parsed: grammar::Parsed<StmtView>,
    ) -> bool {
        &&& self.moved(before, parsed.used, parsed.errors)
        &&& stmt_result(result) == parsed.result
        &&& result is Ok ==> self.current > before.current
    }

    /// `self` is `before` after the production `parse`, which gave `result`
    /// and reported nothing.
    spec fn gives_quietly(
        &self,
        before: &Parser,
        result: Result<Stmt, SyntaxError>,
        parse: grammar::Parse<StmtView>,
    ) -> bool {
        &&& self.advanced(before, parse.used)
        &&& stmt_result(result) == parse.result
        &&& result is Ok ==> self.current > before.current
    }

    /// A parser at the first of `tokens`.
    pub fn new(tokens: Vec<Token>) -> (parser: Self)
        requires
            tokens@.len() > 0,
            tokens@.last().token_type == TokenType::EOF,
        ensures
            parser.wf(),
            parser.tokens() == tokens_view(tokens@),
            parser.position() == 0,
            parser.reported() == Seq::<SyntaxError>::empty(),
    {
        Parser { tokens, current: 0, errors: Vec::new() }
    }

    fn peek(&self) -> (token: &Token)
        requires
            self.wf(),
        ensures
            *token == self.tokens@[self.current as int],
            token@ == self.tokens()[self.position()],
    {
        &self.tokens[self.current]
    }

    fn previous(&self) -> (token: Token)
        requires
            self.wf(),
            self.current >= 1,
        ensures
            token == self.tokens@[self.current - 1],
            token@ == self.tokens()[self.position() - 1],
    {
        self.tokens[self.current - 1].clone()
    }

    fn is_at_end(&self) -> (yes: bool)
        requires
            self.wf(),
        ensures
            yes == grammar::at_end(self.tokens(), self.position()),
    {
        self.peek().token_type == TokenType::EOF
    }

    fn check(&self, kind: TokenType) -> (yes: bool)
        requires
            self.wf(),
        ensures
            yes == grammar::check(self.tokens(), self.position(), kind),
    {
        if self.is_at_end() {
            false
        } else {
            self.peek().token_type == kind
        }
    }

    fn advance(&mut self)
        requires
            old(self).wf(),
        ensures
            final(self).advanced(
                old(self),
                if grammar::at_end(old(self).tokens(), old(self).position()) {
                    0
                } else {
                    1
                },
            ),
    {
        if !self.is_at_end() {
            self.current += 1;
        }
    }

    fn matches(&mut self, kind: TokenType) -> (found: bool)
        requires
            old(self).wf(),
        ensures
            found == grammar::check(old(self).tokens(), old(self).position(), kind),
            final(self).advanced(old(self), if found { 1 } else { 0 }),
    {
        if self.check(kind) {
            self.advance();
            true
        } else {
            false
        }
    }

    fn consume(&mut self, kind: TokenType, rule: Rule) -> (result: Result<Token, SyntaxError>)
        requires
            old(self).wf(),
        ensures
            final(self).advanced(
                old(self),
                grammar::expect(old(self).tokens(), old(self).position(), kind, rule).used,
            ),
            token_result(result) == grammar::expect(
                old(self).tokens(),
                old(self).position(),
                kind,
                rule,
            ).result,
    {
        if self.check(kind) {
            self.advance();
            Ok(self.previous())
        } else {
            Err(SyntaxError { position: self.current, rule })
        }
    }

    /// `consume` without a copy of the token.
    fn demand(&mut self, kind: TokenType, rule: Rule) -> (result: Result<(), SyntaxError>)
        requires
            old(self).wf(),
        ensures
            final(self).advanced(
                old(self),
                grammar::expect(old(self).tokens(), old(self).position(), kind, rule).used,
            ),
            match result {
                Ok(_) => grammar::check(old(self).tokens(), old(self).position(), kind),
                Err(error) => !grammar::check(old(self).tokens(), old(self).position(), kind)
                    && error == grammar::fault(old(self).position(), rule),
            },
    {
        if self.check(kind) {
            self.advance();
            Ok(())
        } else {
            Err(SyntaxError { position: self.current, rule })
        }
    }

    fn expression(&mut self) -> (result: Result<Expr, SyntaxError>)
        requires
            old(self).wf(),
        ensures
            final(self).advanced(
                old(self),
                grammar::expression(old(self).tokens(), old(self).position()).used,
            ),
            expr_result(result) == grammar::expression(
                old(self).tokens(),
                old(self).position(),
            ).result,
            result is Ok ==> final(self).current > old(self).current,
        decreases grammar::remaining(old(self).tokens(), old(self).position()), 31nat,
    {
        self.assignment()
    }

    fn assignment(&mut self) -> (result: Result<Expr, SyntaxError>)
        requires
            old(self).wf(),
        ensures
            final(self).advanced(
                old(self),
                grammar::assignment(old(self).tokens(), old(self).position()).used,
            ),
            expr_result(result) == grammar::assignment(
                old(self).tokens(),
                old(self).position(),
            ).result,
            result is Ok ==> final(self).current > old(self).current,
        decreases grammar::remaining(old(self).tokens(), old(self).position()), 30nat,
    {
        let target = self.or()?;
        if self.check(TokenType::EQUAL) {
            let equals: usize = self.current;
            self.advance();
            let value = self.assignment()?;
            match target {
                Expr::Variable { name } => Ok(Expr::Assign { name, value: Box::new(value) }),
                _ => Err(SyntaxError { position: equals, rule: Rule::InvalidAssignmentTarget }),
            }
        } else {
            Ok(target)
        }
    }

    fn or(&mut self) -> (result: Result<Expr, SyntaxError>)
        requires
            old(self).wf(),
        ensures
            final(self).advanced(
                old(self),
                grammar::binary(old(self).tokens(), old(self).position(), Level::Or).used,
            ),
            expr_result(result) == grammar::binary(
                old(self).tokens(),
                old(self).position(),
                Level::Or,
            ).result,
            result is Ok ==> final(self).current > old(self).current,
        decreases grammar::remaining(old(self).tokens(), old(self).position()), 28nat,
    {
        self.binary(Level::Or)
    }

    fn and(&mut self) -> (result: Result<Expr, SyntaxError>)
        requires
            old(self).wf(),
        ensures
            final(self).advanced(
                old(self),
                grammar::binary(old(self).tokens(), old(self).position(), Level::And).used,
            ),
            expr_result(result) == grammar::binary(
                old(self).tokens(),
                old(self).position(),
                Level::And,
            ).result,
            result is Ok ==> final(self).current > old(self).current,
        decreases grammar::remaining(old(self).tokens(), old(self).position()), 24nat,
    {
        self.binary(Level::And)
    }

    fn equality(&mut self) -> (result: Result<Expr, SyntaxError>)
        requires
            old(self).wf(),
        ensures
            final(self).advanced(
                old(self),
                grammar::binary(old(self).tokens(), old(self).position(), Level::Equality).used,
            ),
            expr_result(result) == grammar::binary(
                old(self).tokens(),
                old(self).position(),
                Level::Equality,
            ).result,
            result is Ok ==> final(self).current > old(self).current,
        decreases grammar::remaining(old(self).tokens(), old(self).position()), 20nat,
    {
        self.binary(Level::Equality)
    }

    fn comparison(&mut self) -> (result: Result<Expr, SyntaxError>)
        requires
            old(self).wf(),
        ensures
            final(self).advanced(
                old(self),
                grammar::binary(old(self).tokens(), old(self).position(), Level::Comparison).used,
            ),
            expr_result(result) == grammar::binary(
                old(self).tokens(),
                old(self).position(),
                Level::Comparison,
            ).result,
            result is Ok ==> final(self).current > old(self).current,
        decreases grammar::remaining(old(self).tokens(), old(self).position()), 16nat,
    {
        self.binary(Level::Comparison)
    }

    fn term(&mut self) -> (result: Result<Expr, SyntaxError>)
        requires
            old(self).wf(),
        ensures
            final(self).advanced(
                old(self),
                grammar::binary(old(self).tokens(), old(self).position(), Level::Term).used,
            ),
            expr_result(result) == grammar::binary(
                old(self).tokens(),
                old(self).position(),
                Level::Term,
            ).result,
            result is Ok ==> final(self).current > old(self).current,
        decreases grammar::remaining(old(self).tokens(), old(self).position()), 12nat,
    {
        self.binary(Level::Term)
    }

    fn factor(&mut self) -> (result: Result<Expr, SyntaxError>)
        requires
            old(self).wf(),
        ensures
            final(self).advanced(
                old(self),
                grammar::binary(old(self).tokens(), old(self).position(), Level::Factor).used,
            ),
            expr_result(result) == grammar::binary(
                old(self).tokens(),
                old(self).position(),
                Level::Factor,
            ).result,
            result is Ok ==> final(self).current > old(self).current,
        decreases grammar::remaining(old(self).tokens(), old(self).position()), 8nat,
    {
        self.binary(Level::Factor)
    }

    /// An operand of `level`: an expression of the next tighter level.
    fn operand(&mut self, level: Level) -> (result: Result<Expr, SyntaxError>)
        requires
            old(self).wf(),
        ensures
            final(self).advanced(
                old(self),
                grammar::operand(old(self).tokens(), old(self).position(), level).used,
            ),
            expr_result(result) == grammar::operand(
                old(self).tokens(),
                old(self).position(),
                level,
            ).result,
            result is Ok ==> final(self).current > old(self).current,
        decreases
            grammar::remaining(old(self).tokens(), old(self).position()),
            4 * grammar::rank(level) + 1,
    {
        match level {
            Level::Or => self.and(),
            Level::And => self.equality(),
            Level::Equality => self.comparison(),
            Level::Comparison => self.term(),
            Level::Term => self.factor(),
            Level::Factor => self.unary(),
        }
    }

    /// operand ( operator operand )* of `level`, the operators associating
    /// to the left.
    fn binary(&mut self, level: Level) -> (result: Result<Expr, SyntaxError>)
        requires
            old(self).wf(),
        ensures
            final(self).advanced(
                old(self),
                grammar::binary(old(self).tokens(), old(self).position(), level).used,
            ),
            expr_result(result) == grammar::binary(
                old(self).tokens(),
                old(self).position(),
                level,
            ).result,
            result is Ok ==> final(self).current > old(self).current,
        decreases
            grammar::remaining(old(self).tokens(), old(self).position()),
            4 * grammar::rank(level) + 3,
    {
        let ghost whole = grammar::binary(old(self).tokens(), old(self).position(), level);
        let mut expr = self.operand(level)?;
        loop
            invariant
                self.wf(),
                self.tokens == old(self).tokens,
                self.errors == old(self).errors,
                self.current > old(self).current,
                whole == grammar::binary(old(self).tokens(), old(self).position(), level),
                whole == grammar::shift(
                    (self.current - old(self).current) as nat,
                    grammar::binary_rest(self.tokens(), self.position(), level, expr@),
                ),
            ensures
                self.advanced(old(self), whole.used),
                whole.result == Ok::<ExprView, SyntaxError>(expr@),
                self.current > old(self).current,
            decreases grammar::remaining(self.tokens(), self.position()),
        {
            if self.is_at_end() || !operates(level, self.peek().token_type) {
                break ;
            }
            let operator = self.peek().clone();
            self.advance();
            let right = self.operand(level)?;
            expr = join(level, expr, operator, right);
        }
        Ok(expr)
    }

    fn unary(&mut self) -> (result: Result<Expr, SyntaxError>)
        requires
            old(self).wf(),
        ensures
            final(self).advanced(
                old(self),
                grammar::unary(old(self).tokens(), old(self).position()).used,
            ),
            expr_result(result) == grammar::unary(old(self).tokens(), old(self).position()).result,
            result is Ok ==> final(self).current > old(self).current,
        decreases grammar::remaining(old(self).tokens(), old(self).position()), 3nat,
    {
        if self.check(TokenType::BANG) || self.check(TokenType::MINUS) {
            let operator = self.peek().clone();
            self.advance();
            let right = self.unary()?;
            Ok(Expr::Unary { operator, right: Box::new(right) })
        } else {
            self.call()
        }
    }

    #[verifier::rlimit(50)]
    fn call(&mut self) -> (result: Result<Expr, SyntaxError>)
        requires
            old(self).wf(),
        ensures
            final(self).advanced(
                old(self),
                grammar::call(old(self).tokens(), old(self).position()).used,
            ),
            expr_result(result) == grammar::call(old(self).tokens(), old(self).position()).result,
            result is Ok ==> final(self).current > old(self).current,
        decreases grammar::remaining(old(self).tokens(), old(self).position()), 2nat,
    {
        let callee = self.primary()?;
        self.call_rest(callee)
    }

    /// ( "(" args? ")" | "." IDENT )*, applied to `callee`.
    fn call_rest(&mut self, callee: Expr) -> (result: Result<Expr, SyntaxError>)
        requires
            old(self).wf(),
        ensures
            final(self).advanced(
                old(self),
                grammar::call_rest(old(self).tokens(), old(self).position(), callee@).used,
            ),
            expr_result(result) == grammar::call_rest(
                old(self).tokens(),
                old(self).position(),
                callee@,
            ).result,
        decreases grammar::remaining(old(self).tokens(), old(self).position()), 1nat,
    {
        if self.matches(TokenType::LEFT_PAREN) {
            let call = self.finish_call(callee)?;
            self.call_rest(call)
        } else if self.matches(TokenType::DOT) {
            let name = self.consume(TokenType::IDENTIFIER, Rule::ExpectPropertyName)?;
            self.call_rest(Expr::Get { object: Box::new(callee), name })
        } else {
            Ok(callee)
        }
    }

    #[verifier::rlimit(50)]
    fn finish_call(&mut self, callee: Expr) -> (result: Result<Expr, SyntaxError>)
        requires
            old(self).wf(),
        ensures
            final(self).advanced(
                old(self),
                grammar::finish_call(old(self).tokens(), old(self).position(), callee@).used,
            ),
            expr_result(result) == grammar::finish_call(
                old(self).tokens(),
                old(self).position(),
                callee@,
            ).result,
            result is Ok ==> final(self).current > old(self).current,
        decreases grammar::remaining(old(self).tokens(), old(self).position()), 43nat,
    {
        let arguments = self.argument_list()?;
        let paren = self.consume(TokenType::RIGHT_PAREN, Rule::ExpectParenAfterArguments)?;
        Ok(Expr::Call { callee: Box::new(callee), paren, arguments })
    }

    /// args?, before a ")".
    fn argument_list(&mut self) -> (result: Result<Vec<Expr>, SyntaxError>)
        requires
            old(self).wf(),
        ensures
            final(self).advanced(
                old(self),
                grammar::argument_list(old(self).tokens(), old(self).position()).used,
            ),
            exprs_result(result) == grammar::argument_list(
                old(self).tokens(),
                old(self).position(),
            ).result,
        decreases grammar::remaining(old(self).tokens(), old(self).position()), 42nat,
    {
        if self.check(TokenType::RIGHT_PAREN) {
            Ok(Vec::new())
        } else {
            self.arguments(Vec::new())
        }
    }

    /// expression ( "," expression )*, after the arguments in `found`.
    fn arguments(&mut self, found: Vec<Expr>) -> (result: Result<Vec<Expr>, SyntaxError>)
        requires
            old(self).wf(),
        ensures
            final(self).advanced(
                old(self),
                grammar::arguments(
                    old(self).tokens(),
                    old(self).position(),
                    exprs_view(found@),
                ).used,
            ),
            exprs_result(result) == grammar::arguments(
                old(self).tokens(),
                old(self).position(),
                exprs_view(found@),
            ).result,
        decreases grammar::remaining(old(self).tokens(), old(self).position()), 41nat,
    {
        proof {
            lemma_exprs_view(found@);
        }
        if found.len() >= MAX_ARITY {
            return Err(SyntaxError { position: self.current, rule: Rule::TooManyArguments });
        }
        let argument = self.expression()?;
        proof {
            lemma_exprs_view_push(found@, argument);
        }
        let mut found = found;
        found.push(argument);
        if self.matches(TokenType::COMMA) {
            self.arguments(found)
        } else {
            Ok(found)
        }
    }

    fn primary(&mut self) -> (result: Result<Expr, SyntaxError>)
        requires
            old(self).wf(),
        ensures
            final(self).advanced(
                old(self),
                grammar::primary(old(self).tokens(), old(self).position()).used,
            ),
            expr_result(result) == grammar::primary(
                old(self).tokens(),
                old(self).position(),
            ).result,
            result is Ok ==> final(self).current > old(self).current,
        decreases grammar::remaining(old(self).tokens(), old(self).position()), 0nat,
    {
        if self.matches(TokenType::FALSE) {
            return Ok(Expr::Literal { value: Literal::Boolean(false) });
        }
        if self.matches(TokenType::TRUE) {
            return Ok(Expr::Literal { value: Literal::Boolean(true) });
        }
        if self.matches(TokenType::NIL) {
            return Ok(Expr::Literal { value: Literal::Nil });
        }
        if self.check(TokenType::STRING) || self.check(TokenType::NUMBER) {
            let value = self.peek().literal.clone();
            self.advance();
            return Ok(Expr::Literal { value });
        }
        if self.matches(TokenType::LEFT_PAREN) {
            let inner = self.expression()?;
            self.demand(TokenType::RIGHT_PAREN, Rule::ExpectParenAfterExpression)?;
            return Ok(Expr::Grouping { expression: Box::new(inner) });
        }
        if self.check(TokenType::IDENTIFIER) {
            let name = self.peek().clone();
            self.advance();
            return Ok(Expr::Variable { name });
        }
        Err(SyntaxError { position: self.current, rule: Rule::ExpectExpression })
    }

    /// expression? closer
    fn clause(&mut self, closer: TokenType, rule: Rule) -> (result: Result<
        Option<Expr>,
        SyntaxError,
    >)
        requires
            old(self).wf(),
        ensures
            final(self).advanced(
                old(self),
                grammar::clause(old(self).tokens(), old(self).position(), closer, rule).used,
            ),
            clause_result(result) == grammar::clause(
                old(self).tokens(),
                old(self).position(),
                closer,
                rule,
            ).result,
            result is Ok ==> final(self).current > old(self).current,
    {
        proof {
            reveal(grammar::clause);
        }
        if self.matches(closer) {
            Ok(None)
        } else {
            let value = self.expression()?;
            self.demand(closer, rule)?;
            Ok(Some(value))
        }
    }

    fn expr_statement(&mut self) -> (result: Result<Stmt, SyntaxError>)
        requires
            old(self).wf(),
        ensures
            final(self).gives_quietly(
                old(self),
                result,
                grammar::expr_statement(old(self).tokens(), old(self).position()),
            ),
    {
        proof {
            reveal(grammar::expr_statement);
        }
        let value = self.expression()?;
        self.demand(TokenType::SEMICOLON, Rule::ExpectSemicolonAfterExpression)?;
        Ok(Stmt::Expression(value))
    }

    fn print_statement(&mut self) -> (result: Result<Stmt, SyntaxError>)
        requires
            old(self).wf(),
        ensures
            final(self).gives_quietly(
                old(self),
                result,
                grammar::print_statement(old(self).tokens(), old(self).position()),
            ),
    {
        proof {
            reveal(grammar::print_statement);
        }
        let value = self.expression()?;
        self.demand(TokenType::SEMICOLON, Rule::ExpectSemicolonAfterValue)?;
        Ok(Stmt::Print(value))
    }

    fn return_statement(&mut self) -> (result: Result<Stmt, SyntaxError>)
        requires
            old(self).wf(),
            old(self).current >= 1,
        ensures
            final(self).gives_quietly(
                old(self),
                result,
                grammar::return_statement(old(self).tokens(), old(self).position()),
            ),
    {
        proof {
            reveal(grammar::return_statement);
            reveal(grammar::clause);
        }
        let keyword = self.previous();
        let value = self.clause(TokenType::SEMICOLON, Rule::ExpectSemicolonAfterReturn)?;
        Ok(Stmt::Return { keyword, value })
    }

    fn var_declaration(&mut self) -> (result: Result<Stmt, SyntaxError>)
        requires
            old(self).wf(),
        ensures
            final(self).gives_quietly(
                old(self),
                result,
                grammar::var_declaration(old(self).tokens(), old(self).position()),
            ),
    {
        proof {
            reveal(grammar::var_declaration);
        }
        let name = self.consume(TokenType::IDENTIFIER, Rule::ExpectVariableName)?;
        let initializer = if self.matches(TokenType::EQUAL) {
            Some(self.expression()?)
        } else {
            None
        };
        self.demand(TokenType::SEMICOLON, Rule::ExpectSemicolonAfterDeclaration)?;
        Ok(Stmt::Variable { name, initializer })
    }

    /// The first clause of a `for`: varDecl | exprStmt | ";"
    #[verifier::rlimit(50)]
    fn for_initializer(&mut self) -> (result: Result<Option<Stmt>, SyntaxError>)
        requires
            old(self).wf(),
        ensures
            final(self).advanced(
                old(self),
                grammar::for_initializer(old(self).tokens(), old(self).position()).used,
            ),
            initializer_result(result) == grammar::for_initializer(
                old(self).tokens(),
                old(self).position(),
            ).result,
            result is Ok ==> final(self).current > old(self).current,
    {
        proof {
            reveal(grammar::for_initializer);
        }
        if self.matches(TokenType::SEMICOLON) {
            Ok(None)
        } else if self.matches(TokenType::VAR) {
            Ok(Some(self.var_declaration()?))
        } else {
            Ok(Some(self.expr_statement()?))
        }
    }

    /// params?, before a ")".
    fn parameter_list(&mut self) -> (result: Result<Vec<Token>, SyntaxError>)
        requires
            old(self).wf(),
        ensures
            final(self).advanced(
                old(self),
                grammar::parameter_list(old(self).tokens(), old(self).position()).used,
            ),
            params_result(result) == grammar::parameter_list(
                old(self).tokens(),
                old(self).position(),
            ).result,
    {
        proof {
            reveal(grammar::parameter_list);
        }
        if self.check(TokenType::RIGHT_PAREN) {
            let none: Vec<Token> = Vec::new();
            assert(tokens_view(none@) =~= Seq::<TokenView>::empty());
            Ok(none)
        } else {
            let none: Vec<Token> = Vec::new();
            assert(tokens_view(none@) =~= Seq::<TokenView>::empty());
            self.parameters(none)
        }
    }

    /// IDENT ( "," IDENT )*, after the parameters in `found`.
    fn parameters(&mut self, found: Vec<Token>) -> (result: Result<Vec<Token>, SyntaxError>)
        requires
            old(self).wf(),
        ensures
            final(self).advanced(
                old(self),
                grammar::parameters(
                    old(self).tokens(),
                    old(self).position(),
                    tokens_view(found@),
                ).used,
            ),
            params_result(result) == grammar::parameters(
                old(self).tokens(),
                old(self).position(),
                tokens_view(found@),
            ).result,
        decreases grammar::remaining(old(self).tokens(), old(self).position()),
    {
        proof {
            reveal(grammar::parameters);
        }
        if found.len() >= MAX_ARITY {
            return Err(SyntaxError { position: self.current, rule: Rule::TooManyParameters });
        }
        let name = self.consume(TokenType::IDENTIFIER, Rule::ExpectParameterName)?;
        let mut found = found;
        proof {
            assert(tokens_view(found@.push(name)) =~= tokens_view(found@).push(name@));
        }
        found.push(name);
        if self.matches(TokenType::COMMA) {
            self.parameters(found)
        } else {
            Ok(found)
        }
    }

    #[verifier::rlimit(50)]
    fn statement(&mut self) -> (result: Result<Stmt, SyntaxError>)
        requires
            old(self).wf(),
        ensures
            final(self).gives(
                old(self),
                result,
                grammar::statement(old(self).tokens(), old(self).position(), old(self).errors@),
            ),
        decreases grammar::remaining(old(self).tokens(), old(self).position()), 60nat,
    {
        if self.matches(TokenType::PRINT) {
            self.print_statement()
        } else if self.matches(TokenType::RETURN) {
            self.return_statement()
        } else if self.matches(TokenType::WHILE) {
            self.while_statement()
        } else if self.matches(TokenType::FOR) {
            self.for_statement()
        } else if self.matches(TokenType::LEFT_BRACE) {
            let statements = self.block()?;
            Ok(Stmt::Block { statements })
        } else if self.matches(TokenType::IF) {
            self.if_statement()
        } else {
            self.expr_statement()
        }
    }

    /// "(" expression ")"
    fn condition(&mut self, open: Rule, close: Rule) -> (result: Result<Expr, SyntaxError>)
        requires
            old(self).wf(),
        ensures
            final(self).advanced(
                old(self),
                grammar::condition(old(self).tokens(), old(self).position(), open, close).used,
            ),
            expr_result(result) == grammar::condition(
                old(self).tokens(),
                old(self).position(),
                open,
                close,
            ).result,
            result is Ok ==> final(self).current > old(self).current,
    {
        proof {
            reveal(grammar::condition);
        }
        self.demand(TokenType::LEFT_PAREN, open)?;
        let condition = self.expression()?;
        self.demand(TokenType::RIGHT_PAREN, close)?;
        Ok(condition)
    }

    #[verifier::rlimit(50)]
    fn while_statement(&mut self) -> (result: Result<Stmt, SyntaxError>)
        requires
            old(self).wf(),
        ensures
            final(self).gives(
                old(self),
                result,
                grammar::while_statement(
                    old(self).tokens(),
                    old(self).position(),
                    old(self).errors@,
                ),
            ),
        decreases grammar::remaining(old(self).tokens(), old(self).position()), 63nat,
    {
        let condition = self.condition(
            Rule::ExpectParenAfterWhile,
            Rule::ExpectParenAfterCondition,
        )?;
        let body = self.statement()?;
        Ok(Stmt::While { condition, body: Box::new(body) })
    }

    /// ( "else" statement )?
    #[verifier::rlimit(50)]
    fn else_branch(&mut self) -> (result: Result<Option<Box<Stmt>>, SyntaxError>)
        requires
            old(self).wf(),
        ensures
            final(self).moved(
                old(self),
                grammar::else_branch(
                    old(self).tokens(),
                    old(self).position(),
                    old(self).errors@,
                ).used,
                grammar::else_branch(
                    old(self).tokens(),
                    old(self).position(),
                    old(self).errors@,
                ).errors,
            ),
            match result {
                Ok(Some(stmt)) => grammar::else_branch(
                    old(self).tokens(),
                    old(self).position(),
                    old(self).errors@,
                ).result == Ok::<Option<StmtView>, SyntaxError>(Some((*stmt)@)),
                Ok(None) => grammar::else_branch(
                    old(self).tokens(),
                    old(self).position(),
                    old(self).errors@,
                ).result == Ok::<Option<StmtView>, SyntaxError>(None),
                Err(error) => grammar::else_branch(
                    old(self).tokens(),
                    old(self).position(),
                    old(self).errors@,
                ).result == Err::<Option<StmtView>, SyntaxError>(error),
            },
        decreases grammar::remaining(old(self).tokens(), old(self).position()), 61nat,
    {
        if self.matches(TokenType::ELSE) {
            Ok(Some(Box::new(self.statement()?)))
        } else {
            Ok(None)
        }
    }

    #[verifier::rlimit(50)]
    fn if_statement(&mut self) -> (result: Result<Stmt, SyntaxError>)
        requires
            old(self).wf(),
        ensures
            final(self).gives(
                old(self),
                result,
                grammar::if_statement(old(self).tokens(), old(self).position(), old(self).errors@),
            ),
        decreases grammar::remaining(old(self).tokens(), old(self).position()), 64nat,
    {
        let condition = self.condition(
            Rule::ExpectParenAfterIf,
            Rule::ExpectParenAfterIfCondition,
        )?;
        let then_branch = Box::new(self.statement()?);
        let else_branch = self.else_branch()?;
        Ok(Stmt::If { condition, then_branch, else_branch })
    }

    #[verifier::rlimit(50)]
    fn for_statement(&mut self) -> (result: Result<Stmt, SyntaxError>)
        requires
            old(self).wf(),
        ensures
            final(self).gives(
                old(self),
                result,
                grammar::for_statement(
                    old(self).tokens(),
                    old(self).position(),
                    old(self).errors@,
                ),
            ),
        decreases grammar::remaining(old(self).tokens(), old(self).position()), 55nat,
    {
        self.demand(TokenType::LEFT_PAREN, Rule::ExpectParenAfterFor)?;
        let initializer = self.for_initializer()?;
        let condition = self.clause(
            TokenType::SEMICOLON,
            Rule::ExpectSemicolonAfterLoopCondition,
        )?;
        let increment = self.clause(TokenType::RIGHT_PAREN, Rule::ExpectParenAfterClauses)?;
        let body = self.statement()?;
        Ok(desugar_for(initializer, condition, increment, body))
    }

    /// declaration* "}", after "{".
    #[verifier::rlimit(50)]
    fn block(&mut self) -> (result: Result<Vec<Stmt>, SyntaxError>)
        requires
            old(self).wf(),
        ensures
            final(self).moved(
                old(self),
                grammar::block(old(self).tokens(), old(self).position(), old(self).errors@).used,
                grammar::block(old(self).tokens(), old(self).position(), old(self).errors@).errors,
            ),
            stmts_result(result) == grammar::block(
                old(self).tokens(),
                old(self).position(),
                old(self).errors@,
            ).result,
            result is Ok ==> final(self).current > old(self).current,
        decreases grammar::remaining(old(self).tokens(), old(self).position()), 81nat,
    {
        let ghost whole = grammar::block_items(
            old(self).tokens(),
            old(self).position(),
            Seq::empty(),
            old(self).errors@,
        );
        let mut statements: Vec<Stmt> = Vec::new();
        while !self.check(TokenType::RIGHT_BRACE) && !self.is_at_end()
            invariant
                self.wf(),
                self.tokens == old(self).tokens,
                self.current >= old(self).current,
                whole == grammar::block_items(
                    old(self).tokens(),
                    old(self).position(),
                    Seq::empty(),
                    old(self).errors@,
                ),
                whole.used == (self.current - old(self).current) + grammar::block_items(
                    self.tokens(),
                    self.position(),
                    stmts_view(statements@),
                    self.errors@,
                ).used,
                whole.errors == grammar::block_items(
                    self.tokens(),
                    self.position(),
                    stmts_view(statements@),
                    self.errors@,
                ).errors,
                whole.statements == grammar::block_items(
                    self.tokens(),
                    self.position(),
                    stmts_view(statements@),
                    self.errors@,
                ).statements,
            decreases grammar::remaining(self.tokens(), self.position()),
        {
            match self.declaration() {
                Some(stmt) => {
                    proof {
                        lemma_stmts_view_push(statements@, stmt);
                    }
                    statements.push(stmt);
                },
                None => {},
            }
        }
        self.demand(TokenType::RIGHT_BRACE, Rule::ExpectBraceAfterBlock)?;
        Ok(statements)
    }

    #[verifier::rlimit(50)]
    fn function(&mut self, kind: FunctionKind) -> (result: Result<Stmt, SyntaxError>)
        requires
            old(self).wf(),
        ensures
            final(self).gives(
                old(self),
                result,
                grammar::function(
                    old(self).tokens(),
                    old(self).position(),
                    kind,
                    old(self).errors@,
                ),
            ),
        decreases grammar::remaining(old(self).tokens(), old(self).position()), 65nat,
    {
        let name = self.consume(TokenType::IDENTIFIER, Rule::ExpectName(kind))?;
        self.demand(TokenType::LEFT_PAREN, Rule::ExpectParenAfterName(kind))?;
        let params = self.parameter_list()?;
        self.demand(TokenType::RIGHT_PAREN, Rule::ExpectParenAfterParameters)?;
        self.demand(TokenType::LEFT_BRACE, Rule::ExpectBraceBeforeBody(kind))?;
        let body = self.block()?;
        Ok(Stmt::Function { name, params, body })
    }

    /// function*, up to a "}" or the end.
    #[verifier::rlimit(50)]
    fn methods(&mut self) -> (result: Result<Vec<Box<Stmt>>, SyntaxError>)
        requires
            old(self).wf(),
        ensures
            final(self).moved(
                old(self),
                grammar::methods(
                    old(self).tokens(),
                    old(self).position(),
                    Seq::empty(),
                    old(self).errors@,
                ).used,
                grammar::methods(
                    old(self).tokens(),
                    old(self).position(),
                    Seq::empty(),
                    old(self).errors@,
                ).errors,
            ),
            methods_result(result) == grammar::methods(
                old(self).tokens(),
                old(self).position(),
                Seq::empty(),
                old(self).errors@,
            ).result,
        decreases grammar::remaining(old(self).tokens(), old(self).position()), 66nat,
    {
        let ghost whole = grammar::methods(
            old(self).tokens(),
            old(self).position(),
            Seq::empty(),
            old(self).errors@,
        );
        let mut methods: Vec<Box<Stmt>> = Vec::new();
        while !self.check(TokenType::RIGHT_BRACE) && !self.is_at_end()
            invariant
                self.wf(),
                self.tokens == old(self).tokens,
                self.current >= old(self).current,
                whole == grammar::methods(
                    old(self).tokens(),
                    old(self).position(),
                    Seq::empty(),
                    old(self).errors@,
                ),
                whole == grammar::shifted(
                    (self.current - old(self).current) as nat,
                    grammar::methods(
                        self.tokens(),
                        self.position(),
                        methods_view(methods@),
                        self.errors@,
                    ),
                ),
            decreases grammar::remaining(self.tokens(), self.position()),
        {
            let method = Box::new(self.function(FunctionKind::Method)?);
            proof {
                lemma_methods_view_push(methods@, method);
            }
            methods.push(method);
        }
        Ok(methods)
    }

    #[verifier::rlimit(50)]
    fn class_declaration(&mut self) -> (result: Result<Stmt, SyntaxError>)
        requires
            old(self).wf(),
        ensures
            final(self).gives(
                old(self),
                result,
                grammar::class_declaration(
                    old(self).tokens(),
                    old(self).position(),
                    old(self).errors@,
                ),
            ),
        decreases grammar::remaining(old(self).tokens(), old(self).position()), 68nat,
    {
        let name = self.consume(TokenType::IDENTIFIER, Rule::ExpectClassName)?;
        self.demand(TokenType::LEFT_BRACE, Rule::ExpectBraceBeforeClassBody)?;
        let methods = self.methods()?;
        self.demand(TokenType::RIGHT_BRACE, Rule::ExpectBraceAfterClassBody)?;
        Ok(Stmt::Class { name, methods })
    }

    /// The next token is one at which parsing resumes after an error.
    fn boundary(&self) -> (yes: bool)
        requires
            self.wf(),
        ensures
            yes == grammar::boundary(self.tokens(), self.position()),
    {
        if self.is_at_end() {
            return true;
        }
        if self.current >= 1 && self.tokens[self.current - 1].token_type == TokenType::SEMICOLON {
            return true;
        }
        match self.peek().token_type {
            TokenType::CLASS
            | TokenType::FUN
            | TokenType::VAR
            | TokenType::FOR
            | TokenType::IF
            | TokenType::WHILE
            | TokenType::PRINT
            | TokenType::RETURN => true,
            _ => false,
        }
    }

    /// Discards tokens up to the next boundary of a statement.
    fn synchronize(&mut self)
        requires
            old(self).wf(),
        ensures
            final(self).advanced(
                old(self),
                grammar::synchronize(old(self).tokens(), old(self).position()),
            ),
    {
        proof {
            reveal(grammar::synchronize);
            reveal(grammar::skip);
        }
        if self.is_at_end() {
            return ;
        }
        self.advance();
        while !self.boundary()
            invariant
                self.wf(),
                self.tokens == old(self).tokens,
                self.errors == old(self).errors,
                self.current > old(self).current,
                grammar::synchronize(old(self).tokens(), old(self).position()) == (self.current
                    - old(self).current) + grammar::skip(self.tokens(), self.position()),
            decreases grammar::remaining(self.tokens(), self.position()),
        {
            proof {
                reveal(grammar::skip);
            }
            self.advance();
        }
    }

    /// classDecl | funDecl | varDecl | statement
    #[verifier::rlimit(50)]
    fn attempt(&mut self) -> (result: Result<Stmt, SyntaxError>)
        requires
            old(self).wf(),
        ensures
            final(self).gives(
                old(self),
                result,
                grammar::attempt(old(self).tokens(), old(self).position(), old(self).errors@),
            ),
        decreases grammar::remaining(old(self).tokens(), old(self).position()), 69nat,
    {
        if self.matches(TokenType::CLASS) {
            self.class_declaration()
        } else if self.matches(TokenType::FUN) {
            self.function(FunctionKind::Function)
        } else if self.matches(TokenType::VAR) {
            self.var_declaration()
        } else {
            self.statement()
        }
    }

    /// One declaration; `None` where it broke a rule, which is then
    /// reported and recovered from.
    #[verifier::rlimit(50)]
    fn declaration(&mut self) -> (statement: Option<Stmt>)
        requires
            old(self).wf(),
        ensures
            final(self).moved(
                old(self),
                grammar::declaration(
                    old(self).tokens(),
                    old(self).position(),
                    old(self).errors@,
                ).used,
                grammar::declaration(
                    old(self).tokens(),
                    old(self).position(),
                    old(self).errors@,
                ).errors,
            ),
            option_stmt_view(statement) == grammar::declaration(
                old(self).tokens(),
                old(self).position(),
                old(self).errors@,
            ).statement,
            !grammar::at_end(old(self).tokens(), old(self).position()) ==> final(self).current
                > old(self).current,
        decreases grammar::remaining(old(self).tokens(), old(self).position()), 70nat,
    {
        proof {
            reveal(grammar::synchronize);
        }
        match self.attempt() {
            Ok(stmt) => Some(stmt),
            Err(error) => {
                self.errors.push(error);
                self.synchronize();
                None
            },
        }
    }

    /// Parses the tokens from the current position to the end.
    ///
    /// Every declaration that breaks a rule is reported and skipped, and the
    /// parse goes on behind it. The statements are returned where nothing
    /// has been reported, now or before; else the parse fails.
    pub fn parse(&mut self) -> (result: Result<Vec<Stmt>, Error>)
        requires
            old(self).wf(),
        ensures
            final(self).wf(),
            final(self).tokens() == old(self).tokens(),
            final(self).position() == old(self).position() + grammar::program(
                old(self).tokens(),
                old(self).position(),
                Seq::empty(),
                old(self).reported(),
            ).used,
            final(self).reported() == grammar::program(
                old(self).tokens(),
                old(self).position(),
                Seq::empty(),
                old(self).reported(),
            ).errors,
            match result {
                Ok(statements) => final(self).reported().len() == 0 && stmts_view(statements@)
                    == grammar::program(
                    old(self).tokens(),
                    old(self).position(),
                    Seq::empty(),
                    old(self).reported(),
                ).statements,
                Err(error) => final(self).reported().len() > 0 && error@ == ErrorView::Parse,
            },
    {
        proof {
            reveal(grammar::program);
        }
        let ghost whole = grammar::program(
            old(self).tokens(),
            old(self).position(),
            Seq::empty(),
            old(self).errors@,
        );
        let mut statements: Vec<Stmt> = Vec::new();
        while !self.is_at_end()
            invariant
                self.wf(),
                self.tokens == old(self).tokens,
                self.current >= old(self).current,
                whole == grammar::program(
                    old(self).tokens(),
                    old(self).position(),
                    Seq::empty(),
                    old(self).errors@,
                ),
                whole.used == (self.current - old(self).current) + grammar::program(
                    self.tokens(),
                    self.position(),
                    stmts_view(statements@),
                    self.errors@,
                ).used,
                whole.errors == grammar::program(
                    self.tokens(),
                    self.position(),
                    stmts_view(statements@),
                    self.errors@,
                ).errors,
                whole.statements == grammar::program(
                    self.tokens(),
                    self.position(),
                    stmts_view(statements@),
                    self.errors@,
                ).statements,
            decreases grammar::remaining(self.tokens(), self.position()),
        {
            proof {
                reveal(grammar::program);
            }
            match self.declaration() {
                Some(stmt) => {
                    proof {
                        lemma_stmts_view_push(statements@, stmt);
                    }
                    statements.push(stmt);
                },
                None => {},
            }
        }
        if self.errors.len() > 0 {
            Err(Error::Parse)
        } else {
            Ok(statements)
        }
    }

    /// The token that a syntax error is at: the one at its position, or
    /// the last one where the position is behind it.
    pub open spec fn culprit(tokens: Seq<TokenView>, error: SyntaxError) -> TokenView {
        if error.position < tokens.len() {
            tokens[error.position as int]
        } else {
            tokens.last()
        }
    }

    /// The line that reports `error`.
    pub fn describe(&self, error: SyntaxError) -> (line: String)
        requires
            self.wf(),
        ensures
            line@ == report(Self::culprit(self.tokens(), error), grammar::message(error.rule)),
    {
        let at: usize = if error.position < self.tokens.len() {
            error.position
        } else {
            self.tokens.len() - 1
        };
        report_at(&self.tokens[at], message(error.rule))
    }

    /// The syntax errors reported so far, oldest first.
    pub fn errors(&self) -> (errors: &Vec<SyntaxError>)
        ensures
            errors@ == self.reported(),
    {
        &self.errors
    }
}

} // verus!
