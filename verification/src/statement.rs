//! Statement trees.

use vstd::prelude::*;
use crate::ast::{expr_view, printed, AstPrinter, Expr, ExprView};
use crate::errors::Error;
use crate::tokens::{tokens_view, Token, TokenView};

verus! {

/// A statement. A parent owns its children; nothing is shared.
#[derive(Debug)]
#[allow(inconsistent_fields)]
pub enum Stmt {
    Print(Expr),
    Expression(Expr),
    Variable { name: Token, initializer: Option<Expr> },
    Block { statements: Vec<Stmt> },
    If { condition: Expr, then_branch: Box<Stmt>, else_branch: Option<Box<Stmt>> },
    While { condition: Expr, body: Box<Stmt> },
    Function { name: Token, params: Vec<Token>, body: Vec<Stmt> },
    Return { keyword: Token, value: Option<Expr> },
    Class { name: Token, methods: Vec<Box<Stmt>> },
}

/// The mathematical model of a [`Stmt`].
#[allow(inconsistent_fields)]
pub enum StmtView {
    Print(ExprView),
    Expression(ExprView),
    Variable { name: TokenView, initializer: Option<ExprView> },
    Block { statements: Seq<StmtView> },
    If { condition: ExprView, then_branch: Box<StmtView>, else_branch: Option<Box<StmtView>> },
    While { condition: ExprView, body: Box<StmtView> },
    Function { name: TokenView, params: Seq<TokenView>, body: Seq<StmtView> },
    Return { keyword: TokenView, value: Option<ExprView> },
    Class { name: TokenView, methods: Seq<StmtView> },
}

/// The model of one statement.
pub open spec fn stmt_view(stmt: Stmt) -> StmtView
    decreases stmt,
{
    match stmt {
        Stmt::Print(expr) => StmtView::Print(expr_view(expr)),
        Stmt::Expression(expr) => StmtView::Expression(expr_view(expr)),
        Stmt::Variable { name, initializer } => StmtView::Variable {
            name: name@,
            initializer: match initializer {
                Some(expr) => Some(expr_view(expr)),
                None => None,
            },
        },
        Stmt::Block { statements } => StmtView::Block { statements: stmts_view(statements@) },
        Stmt::If { condition, then_branch, else_branch } => StmtView::If {
            condition: expr_view(condition),
            then_branch: Box::new(stmt_view(*then_branch)),
            else_branch: match else_branch {
                Some(branch) => Some(Box::new(stmt_view(*branch))),
                None => None,
            },
        },
        Stmt::While { condition, body } => StmtView::While {
            condition: expr_view(condition),
            body: Box::new(stmt_view(*body)),
        },
        Stmt::Function { name, params, body } => StmtView::Function {
            name: name@,
            params: tokens_view(params@),
            body: stmts_view(body@),
        },
        Stmt::Return { keyword, value } => StmtView::Return {
            keyword: keyword@,
            value: match value {
                Some(expr) => Some(expr_view(expr)),
                None => None,
            },
        },
        Stmt::Class { name, methods } => StmtView::Class {
            name: name@,
            methods: methods_view(methods@),
        },
    }
}

/// The models of a sequence of statements, one for one.
pub open spec fn stmts_view(stmts: Seq<Stmt>) -> Seq<StmtView>
    decreases stmts,
{
    if stmts.len() == 0 {
        Seq::empty()
    } else {
        stmts_view(stmts.drop_last()).push(stmt_view(stmts.last()))
    }
}

/// The models of a class's methods, one for one.
pub open spec fn methods_view(methods: Seq<Box<Stmt>>) -> Seq<StmtView>
    decreases methods,
{
    if methods.len() == 0 {
        Seq::empty()
    } else {
        methods_view(methods.drop_last()).push(stmt_view(*methods.last()))
    }
}

impl View for Stmt {
    type V = StmtView;

    open spec fn view(&self) -> StmtView {
        stmt_view(*self)
    }
}

/// `stmts_view` keeps the length and maps each element to its model.
pub proof fn lemma_stmts_view(stmts: Seq<Stmt>)
    ensures
        stmts_view(stmts).len() == stmts.len(),
        forall|i: int| 0 <= i < stmts.len() ==> #[trigger] stmts_view(stmts)[i] == stmts[i]@,
    decreases stmts.len(),
{
    if stmts.len() > 0 {
        lemma_stmts_view(stmts.drop_last());
    }
}

/// `stmts_view` of a sequence with one more element at its end.
pub proof fn lemma_stmts_view_push(stmts: Seq<Stmt>, last: Stmt)
    ensures
        stmts_view(stmts.push(last)) == stmts_view(stmts).push(last@),
{
    assert(stmts.push(last).drop_last() =~= stmts);
}

/// `methods_view` keeps the length and maps each element to its model.
pub proof fn lemma_methods_view(methods: Seq<Box<Stmt>>)
    ensures
        methods_view(methods).len() == methods.len(),
        forall|i: int|
            0 <= i < methods.len() ==> #[trigger] methods_view(methods)[i] == (*methods[i])@,
    decreases methods.len(),
{
    if methods.len() > 0 {
        lemma_methods_view(methods.drop_last());
    }
}

/// `methods_view` of a sequence with one more element at its end.
pub proof fn lemma_methods_view_push(methods: Seq<Box<Stmt>>, last: Box<Stmt>)
    ensures
        methods_view(methods.push(last)) == methods_view(methods).push((*last)@),
{
    assert(methods.push(last).drop_last() =~= methods);
}

/// A computation over statements, one method for each kind of statement.
/// A visit may change the visitor.
pub trait Visitor<T> {
    /// `result` and `after` are what the visitor `self` may give, and be
    /// afterwards, for `statement`. A visitor that does not say promises
    /// nothing.
    open spec fn visits(&self, after: &Self, statement: StmtView, result: Result<T, Error>) -> bool {
        true
    }

    fn visit_print_statement(&mut self, statement: &Stmt) -> (result: Result<T, Error>)
        requires
            statement is Print,
        ensures
            old(self).visits(final(self), statement@, result),
    ;

    fn visit_expression_statement(&mut self, statement: &Stmt) -> (result: Result<T, Error>)
        requires
            statement is Expression,
        ensures
            old(self).visits(final(self), statement@, result),
    ;

    fn visit_variable_statement(&mut self, statement: &Stmt) -> (result: Result<T, Error>)
        requires
            statement is Variable,
        ensures
            old(self).visits(final(self), statement@, result),
    ;

    fn visit_block_statement(&mut self, statements: &Vec<Stmt>) -> (result: Result<T, Error>)
        ensures
            old(self).visits(
                final(self),
                StmtView::Block { statements: stmts_view(statements@) },
                result,
            ),
    ;

    fn visit_if_statement(&mut self, statement: &Stmt) -> (result: Result<T, Error>)
        requires
            statement is If,
        ensures
            old(self).visits(final(self), statement@, result),
    ;

    fn visit_while_statement(&mut self, statement: &Stmt) -> (result: Result<T, Error>)
        requires
            statement is While,
        ensures
            old(self).visits(final(self), statement@, result),
    ;

    fn visit_function_statement(&mut self, statement: &Stmt) -> (result: Result<T, Error>)
        requires
            statement is Function,
        ensures
            old(self).visits(final(self), statement@, result),
    ;

    fn visit_return_statement(&mut self, statement: &Stmt) -> (result: Result<T, Error>)
        requires
            statement is Return,
        ensures
            old(self).visits(final(self), statement@, result),
    ;

    fn visit_class_statement(&mut self, statement: &Stmt) -> (result: Result<T, Error>)
        requires
            statement is Class,
        ensures
            old(self).visits(final(self), statement@, result),
    ;
}

impl Stmt {
    /// Hands the statement to the method of `visitor` that is for its kind,
    /// and returns what the method gives.
    pub fn accept<T, V: Visitor<T>>(&self, visitor: &mut V) -> (result: Result<T, Error>)
        ensures
            old(visitor).visits(final(visitor), self@, result),
    {
        match self {
            Stmt::Print(_) => visitor.visit_print_statement(self),
            Stmt::Expression(_) => visitor.visit_expression_statement(self),
            Stmt::Variable { .. } => visitor.visit_variable_statement(self),
            Stmt::Block { statements } => visitor.visit_block_statement(statements),
            Stmt::If { .. } => visitor.visit_if_statement(self),
            Stmt::While { .. } => visitor.visit_while_statement(self),
            Stmt::Function { .. } => visitor.visit_function_statement(self),
            Stmt::Return { .. } => visitor.visit_return_statement(self),
            Stmt::Class { .. } => visitor.visit_class_statement(self),
        }
    }
}

/// The lexemes of the first `count` of `names`, a space between two.
pub open spec fn printed_names(names: Seq<TokenView>, count: nat) -> Seq<char>
    decreases count,
{
    if count == 0 || count > names.len() {
        Seq::empty()
    } else if count == 1 {
        names[0].lexeme
    } else {
        printed_names(names, (count - 1) as nat) + " "@ + names[count - 1].lexeme
    }
}

/// A statement in prefix form: its keyword before its parts, in
/// parentheses.
pub open spec fn printed_stmt(stmt: StmtView) -> Seq<char>
    decreases stmt, 0nat,
{
    match stmt {
        StmtView::Print(expr) => "(print "@ + printed(expr) + ")"@,
        StmtView::Expression(expr) => "(; "@ + printed(expr) + ")"@,
        StmtView::Variable { name, initializer } => match initializer {
            Some(expr) => "(var "@ + name.lexeme + " = "@ + printed(expr) + ")"@,
            None => "(var "@ + name.lexeme + ")"@,
        },
        StmtView::Block { statements } => "(block"@ + printed_stmts(statements, statements.len())
            + ")"@,
        StmtView::If { condition, then_branch, else_branch } => match else_branch {
            Some(branch) => "(if "@ + printed(condition) + " "@ + printed_stmt(*then_branch)
                + " "@ + printed_stmt(*branch) + ")"@,
            None => "(if "@ + printed(condition) + " "@ + printed_stmt(*then_branch) + ")"@,
        },
        StmtView::While { condition, body } => "(while "@ + printed(condition) + " "@
            + printed_stmt(*body) + ")"@,
        StmtView::Function { name, params, body } => "(fun "@ + name.lexeme + "("@
            + printed_names(params, params.len()) + ")"@ + printed_stmts(body, body.len()) + ")"@,
        StmtView::Return { value, .. } => match value {
            Some(expr) => "(return "@ + printed(expr) + ")"@,
            None => "(return)"@,
        },
        StmtView::Class { name, methods } => "(class "@ + name.lexeme + printed_stmts(
            methods,
            methods.len(),
        ) + ")"@,
    }
}

/// The first `count` of `stmts` in prefix form, a space before each.
pub open spec fn printed_stmts(stmts: Seq<StmtView>, count: nat) -> Seq<char>
    decreases stmts, count,
{
    if count == 0 || count > stmts.len() {
        Seq::empty()
    } else {
        printed_stmts(stmts, (count - 1) as nat) + " "@ + printed_stmt(stmts[count - 1])
    }
}

impl AstPrinter {
    /// Appends the lexemes of `names` to `text`, a space between two.
    fn write_names(&self, text: &mut String, names: &Vec<Token>)
        ensures
            final(text)@ == old(text)@ + printed_names(tokens_view(names@), names@.len()),
    {
        let mut next: usize = 0;
        while next < names.len()
            invariant
                next <= names.len(),
                text@ == old(text)@ + printed_names(tokens_view(names@), next as nat),
            decreases names.len() - next,
        {
            if next > 0 {
                text.append(" ");
            }
            text.append(names[next].lexeme.as_str());
            next += 1;
            assert(text@ =~= old(text)@ + printed_names(tokens_view(names@), next as nat));
        }
    }

    /// Appends `stmt` in prefix form to `text`.
    fn write_statement(&self, text: &mut String, stmt: &Stmt)
        ensures
            final(text)@ == old(text)@ + printed_stmt(stmt@),
        decreases stmt, 0nat,
    {
        match stmt {
            Stmt::Print(expr) => {
                text.append("(print ");
                text.append(self.print(expr).as_str());
                text.append(")");
            },
            Stmt::Expression(expr) => {
                text.append("(; ");
                text.append(self.print(expr).as_str());
                text.append(")");
            },
            Stmt::Variable { name, initializer } => {
                text.append("(var ");
                text.append(name.lexeme.as_str());
                match initializer {
                    Some(expr) => {
                        text.append(" = ");
                        text.append(self.print(expr).as_str());
                    },
                    None => {},
                }
                text.append(")");
            },
            Stmt::Block { statements } => {
                text.append("(block");
                self.write_statements(text, statements);
                text.append(")");
                proof {
                    lemma_stmts_view(statements@);
                }
            },
            Stmt::If { condition, then_branch, else_branch } => {
                text.append("(if ");
                text.append(self.print(condition).as_str());
                text.append(" ");
                self.write_statement(text, &**then_branch);
                match else_branch {
                    Some(branch) => {
                        text.append(" ");
                        self.write_statement(text, &**branch);
                    },
                    None => {},
                }
                text.append(")");
            },
            Stmt::While { condition, body } => {
                text.append("(while ");
                text.append(self.print(condition).as_str());
                text.append(" ");
                self.write_statement(text, &**body);
                text.append(")");
            },
            Stmt::Function { name, params, body } => {
                text.append("(fun ");
                text.append(name.lexeme.as_str());
                text.append("(");
                self.write_names(text, params);
                text.append(")");
                self.write_statements(text, body);
                text.append(")");
                proof {
                    lemma_stmts_view(body@);
                }
            },
            Stmt::Return { value, .. } => {
                match value {
                    Some(expr) => {
                        text.append("(return ");
                        text.append(self.print(expr).as_str());
                        text.append(")");
                    },
                    None => {
                        text.append("(return)");
                    },
                }
            },
            Stmt::Class { name, methods } => {
                text.append("(class ");
                text.append(name.lexeme.as_str());
                self.write_methods(text, methods);
                text.append(")");
                proof {
                    lemma_methods_view(methods@);
                }
            },
        }
        assert(text@ =~= old(text)@ + printed_stmt(stmt@));
    }

    /// Appends each of `stmts` in prefix form to `text`, a space before
    /// each.
    fn write_statements(&self, text: &mut String, stmts: &Vec<Stmt>)
        ensures
            final(text)@ == old(text)@ + printed_stmts(stmts_view(stmts@), stmts@.len()),
        decreases stmts, 0nat,
    {
        let mut next: usize = 0;
        proof {
            lemma_stmts_view(stmts@);
        }
        while next < stmts.len()
            invariant
                next <= stmts.len(),
                stmts_view(stmts@).len() == stmts.len(),
                forall|i: int|
                    0 <= i < stmts.len() ==> #[trigger] stmts_view(stmts@)[i] == stmts[i]@,
                text@ == old(text)@ + printed_stmts(stmts_view(stmts@), next as nat),
            decreases stmts.len() - next,
        {
            text.append(" ");
            self.write_statement(text, &stmts[next]);
            next += 1;
            assert(text@ =~= old(text)@ + printed_stmts(stmts_view(stmts@), next as nat));
        }
    }

    /// Appends each of `methods` in prefix form to `text`, a space before
    /// each.
    fn write_methods(&self, text: &mut String, methods: &Vec<Box<Stmt>>)
        ensures
            final(text)@ == old(text)@ + printed_stmts(methods_view(methods@), methods@.len()),
        decreases methods, 0nat,
    {
        let mut next: usize = 0;
        proof {
            lemma_methods_view(methods@);
        }
        while next < methods.len()
            invariant
                next <= methods.len(),
                methods_view(methods@).len() == methods.len(),
                forall|i: int|
                    0 <= i < methods.len() ==> #[trigger] methods_view(methods@)[i]
                        == (*methods[i])@,
                text@ == old(text)@ + printed_stmts(methods_view(methods@), next as nat),
            decreases methods.len() - next,
        {
            text.append(" ");
            self.write_statement(text, &*methods[next]);
            next += 1;
            assert(text@ =~= old(text)@ + printed_stmts(methods_view(methods@), next as nat));
        }
    }

    /// `stmt` in prefix form.
    pub fn print_statement(&self, stmt: &Stmt) -> (text: String)
        ensures
            text@ == printed_stmt(stmt@),
    {
        let mut text = String::new();
        self.write_statement(&mut text, stmt);
        assert(text@ =~= printed_stmt(stmt@));
        text
    }
}

impl Visitor<String> for AstPrinter {
    /// The printer gives the prefix form of what it visits.
    open spec fn visits(&self, after: &Self, statement: StmtView, result: Result<String, Error>)
        -> bool {
        result matches Ok(text) && text@ == printed_stmt(statement)
    }

    fn visit_print_statement(&mut self, statement: &Stmt) -> (result: Result<String, Error>)
        ensures
            result matches Ok(text) && text@ == printed_stmt(statement@),
    {
        Ok(self.print_statement(statement))
    }

    fn visit_expression_statement(&mut self, statement: &Stmt) -> (result: Result<String, Error>)
        ensures
            result matches Ok(text) && text@ == printed_stmt(statement@),
    {
        Ok(self.print_statement(statement))
    }

    fn visit_variable_statement(&mut self, statement: &Stmt) -> (result: Result<String, Error>)
        ensures
            result matches Ok(text) && text@ == printed_stmt(statement@),
    {
        Ok(self.print_statement(statement))
    }

    fn visit_block_statement(&mut self, statements: &Vec<Stmt>) -> (result: Result<String, Error>)
        ensures
            result matches Ok(text) && text@ == printed_stmt(
                StmtView::Block { statements: stmts_view(statements@) },
            ),
    {
        let mut text = String::from_str("(block");
        self.write_statements(&mut text, statements);
        text.append(")");
        proof {
            lemma_stmts_view(statements@);
        }
        assert(text@ =~= printed_stmt(StmtView::Block { statements: stmts_view(statements@) }));
        Ok(text)
    }

    fn visit_if_statement(&mut self, statement: &Stmt) -> (result: Result<String, Error>)
        ensures
            result matches Ok(text) && text@ == printed_stmt(statement@),
    {
        Ok(self.print_statement(statement))
    }

    fn visit_while_statement(&mut self, statement: &Stmt) -> (result: Result<String, Error>)
        ensures
            result matches Ok(text) && text@ == printed_stmt(statement@),
    {
        Ok(self.print_statement(statement))
    }

    fn visit_function_statement(&mut self, statement: &Stmt) -> (result: Result<String, Error>)
        ensures
            result matches Ok(text) && text@ == printed_stmt(statement@),
    {
        Ok(self.print_statement(statement))
    }

    fn visit_return_statement(&mut self, statement: &Stmt) -> (result: Result<String, Error>)
        ensures
            result matches Ok(text) && text@ == printed_stmt(statement@),
    {
        Ok(self.print_statement(statement))
    }

    fn visit_class_statement(&mut self, statement: &Stmt) -> (result: Result<String, Error>)
        ensures
            result matches Ok(text) && text@ == printed_stmt(statement@),
    {
        Ok(self.print_statement(statement))
    }
}

} // verus!
