//! Expression trees.

use vstd::prelude::*;
use crate::errors::Error;
use crate::tokens::{Literal, LiteralView, Token, TokenView};

verus! {

/// An expression. A parent owns its children; nothing is shared.
#[derive(Debug)]
#[allow(inconsistent_fields)]
pub enum Expr {
    Binary { left: Box<Expr>, operator: Token, right: Box<Expr> },
    Unary { operator: Token, right: Box<Expr> },
    Grouping { expression: Box<Expr> },
    Literal { value: Literal },
    Variable { name: Token },
    Assign { name: Token, value: Box<Expr> },
    Logical { left: Box<Expr>, operator: Token, right: Box<Expr> },
    Call { callee: Box<Expr>, paren: Token, arguments: Vec<Expr> },
    Get { object: Box<Expr>, name: Token },
}

/// The mathematical model of an [`Expr`].
#[allow(inconsistent_fields)]
pub enum ExprView {
    Binary { left: Box<ExprView>, operator: TokenView, right: Box<ExprView> },
    Unary { operator: TokenView, right: Box<ExprView> },
    Grouping { expression: Box<ExprView> },
    Literal { value: LiteralView },
    Variable { name: TokenView },
    Assign { name: TokenView, value: Box<ExprView> },
    Logical { left: Box<ExprView>, operator: TokenView, right: Box<ExprView> },
    Call { callee: Box<ExprView>, paren: TokenView, arguments: Seq<ExprView> },
    Get { object: Box<ExprView>, name: TokenView },
}

/// The model of one expression.
pub open spec fn expr_view(expr: Expr) -> ExprView
    decreases expr,
{
    match expr {
        Expr::Binary { left, operator, right } => ExprView::Binary {
            left: Box::new(expr_view(*left)),
            operator: operator@,
            right: Box::new(expr_view(*right)),
        },
        Expr::Unary { operator, right } => ExprView::Unary {
            operator: operator@,
            right: Box::new(expr_view(*right)),
        },
        Expr::Grouping { expression } => ExprView::Grouping {
            expression: Box::new(expr_view(*expression)),
        },
        Expr::Literal { value } => ExprView::Literal { value: value@ },
        Expr::Variable { name } => ExprView::Variable { name: name@ },
        Expr::Assign { name, value } => ExprView::Assign {
            name: name@,
            value: Box::new(expr_view(*value)),
        },
        Expr::Logical { left, operator, right } => ExprView::Logical {
            left: Box::new(expr_view(*left)),
            operator: operator@,
            right: Box::new(expr_view(*right)),
        },
        Expr::Call { callee, paren, arguments } => ExprView::Call {
            callee: Box::new(expr_view(*callee)),
            paren: paren@,
            arguments: exprs_view(arguments@),
        },
        Expr::Get { object, name } => ExprView::Get {
            object: Box::new(expr_view(*object)),
            name: name@,
        },
    }
}

/// The models of a sequence of expressions, one for one.
pub open spec fn exprs_view(exprs: Seq<Expr>) -> Seq<ExprView>
    decreases exprs,
{
    if exprs.len() == 0 {
        Seq::empty()
    } else {
        exprs_view(exprs.drop_last()).push(expr_view(exprs.last()))
    }
}

impl View for Expr {
    type V = ExprView;

    open spec fn view(&self) -> ExprView {
        expr_view(*self)
    }
}

/// `exprs_view` keeps the length and maps each element to its model.
pub proof fn lemma_exprs_view(exprs: Seq<Expr>)
    ensures
        exprs_view(exprs).len() == exprs.len(),
        forall|i: int| 0 <= i < exprs.len() ==> #[trigger] exprs_view(exprs)[i] == exprs[i]@,
    decreases exprs.len(),
{
    if exprs.len() > 0 {
        lemma_exprs_view(exprs.drop_last());
    }
}

/// `exprs_view` of a sequence with one more element at its end.
pub proof fn lemma_exprs_view_push(exprs: Seq<Expr>, last: Expr)
    ensures
        exprs_view(exprs.push(last)) == exprs_view(exprs).push(last@),
{
    assert(exprs.push(last).drop_last() =~= exprs);
}

/// A computation over expressions, one method for each kind of expression.
pub trait Visitor<T> {
    /// `result` is what the visitor may give for `expr`. A visitor that
    /// does not say promises nothing.
    open spec fn visits(&self, expr: ExprView, result: Result<T, Error>) -> bool {
        true
    }

    fn visit_binary_expr(&self, left: &Expr, operator: &Token, right: &Expr) -> (result: Result<
        T,
        Error,
    >)
        ensures
            self.visits(
                ExprView::Binary {
                    left: Box::new(left@),
                    operator: operator@,
                    right: Box::new(right@),
                },
                result,
            ),
    ;

    fn visit_unary_expr(&self, operator: &Token, right: &Expr) -> (result: Result<T, Error>)
        ensures
            self.visits(ExprView::Unary { operator: operator@, right: Box::new(right@) }, result),
    ;

    fn visit_grouping_expr(&self, expr: &Expr) -> (result: Result<T, Error>)
        ensures
            self.visits(ExprView::Grouping { expression: Box::new(expr@) }, result),
    ;

    fn visit_literal_expr(&self, value: &Literal) -> (result: Result<T, Error>)
        ensures
            self.visits(ExprView::Literal { value: value@ }, result),
    ;

    fn visit_variable_expr(&self, name: &Token) -> (result: Result<T, Error>)
        ensures
            self.visits(ExprView::Variable { name: name@ }, result),
    ;

    fn visit_variable_assignment_expr(&self, expr: &Expr) -> (result: Result<T, Error>)
        requires
            expr is Assign,
        ensures
            self.visits(expr@, result),
    ;

    fn visit_logical_expr(&self, expr: &Expr) -> (result: Result<T, Error>)
        requires
            expr is Logical,
        ensures
            self.visits(expr@, result),
    ;

    fn visit_call_expr(&self, expr: &Expr) -> (result: Result<T, Error>)
        requires
            expr is Call,
        ensures
            self.visits(expr@, result),
    ;

    fn visit_get_expr(&self, expr: &Expr) -> (result: Result<T, Error>)
        requires
            expr is Get,
        ensures
            self.visits(expr@, result),
    ;
}

impl Expr {
    /// Hands the expression to the method of `visitor` that is for its
    /// kind, and returns what the method gives.
    pub fn accept<T, V: Visitor<T>>(&self, visitor: &V) -> (result: Result<T, Error>)
        ensures
            visitor.visits(self@, result),
    {
        match self {
            Expr::Binary { left, operator, right } => visitor.visit_binary_expr(
                &**left,
                operator,
                &**right,
            ),
            Expr::Unary { operator, right } => visitor.visit_unary_expr(operator, &**right),
            Expr::Grouping { expression } => visitor.visit_grouping_expr(&**expression),
            Expr::Literal { value } => visitor.visit_literal_expr(value),
            Expr::Variable { name } => visitor.visit_variable_expr(name),
            Expr::Assign { .. } => visitor.visit_variable_assignment_expr(self),
            Expr::Logical { .. } => visitor.visit_logical_expr(self),
            Expr::Call { .. } => visitor.visit_call_expr(self),
            Expr::Get { .. } => visitor.visit_get_expr(self),
        }
    }
}

/// The text of a literal: a string and a numeral as they are, `true`,
/// `false`, `nil`.
pub open spec fn literal_text(value: LiteralView) -> Seq<char> {
    match value {
        LiteralView::String(text) => text,
        LiteralView::Number(numeral) => numeral,
        LiteralView::Boolean(value) => if value {
            "true"@
        } else {
            "false"@
        },
        LiteralView::Nil => "nil"@,
    }
}

/// An expression in prefix form: an operator before its operands, in
/// parentheses.
pub open spec fn printed(expr: ExprView) -> Seq<char>
    decreases expr, 0nat,
{
    match expr {
        ExprView::Binary { left, operator, right } => "("@ + operator.lexeme + " "@ + printed(
            *left,
        ) + " "@ + printed(*right) + ")"@,
        ExprView::Logical { left, operator, right } => "("@ + operator.lexeme + " "@ + printed(
            *left,
        ) + " "@ + printed(*right) + ")"@,
        ExprView::Unary { operator, right } => "("@ + operator.lexeme + " "@ + printed(*right)
            + ")"@,
        ExprView::Grouping { expression } => "(group "@ + printed(*expression) + ")"@,
        ExprView::Literal { value } => literal_text(value),
        ExprView::Variable { name } => name.lexeme,
        ExprView::Assign { name, value } => "(= "@ + name.lexeme + " "@ + printed(*value) + ")"@,
        ExprView::Call { callee, arguments, .. } => "(call "@ + printed(*callee) + printed_each(
            arguments,
            arguments.len(),
        ) + ")"@,
        ExprView::Get { object, name } => "(. "@ + printed(*object) + " "@ + name.lexeme + ")"@,
    }
}

/// The first `count` of `exprs` in prefix form, a space before each.
pub open spec fn printed_each(exprs: Seq<ExprView>, count: nat) -> Seq<char>
    decreases exprs, count,
{
    if count == 0 || count > exprs.len() {
        Seq::empty()
    } else {
        printed_each(exprs, (count - 1) as nat) + " "@ + printed(exprs[count - 1])
    }
}

/// Writes expressions in prefix form.
#[derive(Debug, Clone, Copy)]
pub struct AstPrinter {}

impl AstPrinter {
    /// Appends `expr` in prefix form to `text`.
    fn write(&self, text: &mut String, expr: &Expr)
        ensures
            final(text)@ == old(text)@ + printed(expr@),
        decreases expr, 0nat,
    {
        match expr {
            Expr::Binary { left, operator, right } => {
                text.append("(");
                text.append(operator.lexeme.as_str());
                text.append(" ");
                self.write(text, &**left);
                text.append(" ");
                self.write(text, &**right);
                text.append(")");
                assert(text@ =~= old(text)@ + printed(expr@));
            },
            Expr::Logical { left, operator, right } => {
                text.append("(");
                text.append(operator.lexeme.as_str());
                text.append(" ");
                self.write(text, &**left);
                text.append(" ");
                self.write(text, &**right);
                text.append(")");
                assert(text@ =~= old(text)@ + printed(expr@));
            },
            Expr::Unary { operator, right } => {
                text.append("(");
                text.append(operator.lexeme.as_str());
                text.append(" ");
                self.write(text, &**right);
                text.append(")");
                assert(text@ =~= old(text)@ + printed(expr@));
            },
            Expr::Grouping { expression } => {
                text.append("(group ");
                self.write(text, &**expression);
                text.append(")");
                assert(text@ =~= old(text)@ + printed(expr@));
            },
            Expr::Literal { value } => {
                match value {
                    Literal::String(string) => text.append(string.as_str()),
                    Literal::Number(numeral) => text.append(numeral.as_str()),
                    Literal::Boolean(true) => text.append("true"),
                    Literal::Boolean(false) => text.append("false"),
                    Literal::Nil => text.append("nil"),
                }
            },
            Expr::Variable { name } => {
                text.append(name.lexeme.as_str());
            },
            Expr::Assign { name, value } => {
                text.append("(= ");
                text.append(name.lexeme.as_str());
                text.append(" ");
                self.write(text, &**value);
                text.append(")");
                assert(text@ =~= old(text)@ + printed(expr@));
            },
            Expr::Call { callee, arguments, .. } => {
                text.append("(call ");
                self.write(text, &**callee);
                self.write_each(text, arguments);
                text.append(")");
                proof {
                    lemma_exprs_view(arguments@);
                }
                assert(text@ =~= old(text)@ + printed(expr@));
            },
            Expr::Get { object, name } => {
                text.append("(. ");
                self.write(text, &**object);
                text.append(" ");
                text.append(name.lexeme.as_str());
                text.append(")");
                assert(text@ =~= old(text)@ + printed(expr@));
            },
        }
    }

    /// Appends each of `exprs` in prefix form to `text`, a space before
    /// each.
    fn write_each(&self, text: &mut String, exprs: &Vec<Expr>)
        ensures
            final(text)@ == old(text)@ + printed_each(exprs_view(exprs@), exprs@.len()),
        decreases exprs, 0nat,
    {
        let mut next: usize = 0;
        proof {
            lemma_exprs_view(exprs@);
        }
        while next < exprs.len()
            invariant
                next <= exprs.len(),
                exprs_view(exprs@).len() == exprs.len(),
                forall|i: int|
                    0 <= i < exprs.len() ==> #[trigger] exprs_view(exprs@)[i] == exprs[i]@,
                text@ == old(text)@ + printed_each(exprs_view(exprs@), next as nat),
            decreases exprs.len() - next,
        {
            text.append(" ");
            self.write(text, &exprs[next]);
            next += 1;
            assert(text@ =~= old(text)@ + printed_each(exprs_view(exprs@), next as nat));
        }
    }

    /// `expr` in prefix form.
    pub fn print(&self, expr: &Expr) -> (text: String)
        ensures
            text@ == printed(expr@),
    {
        let mut text = String::new();
        self.write(&mut text, expr);
        assert(text@ =~= printed(expr@));
        text
    }
}

impl Visitor<String> for AstPrinter {
    /// The printer gives the prefix form of what it visits.
    open spec fn visits(&self, expr: ExprView, result: Result<String, Error>) -> bool {
        result matches Ok(text) && text@ == printed(expr)
    }

    fn visit_binary_expr(&self, left: &Expr, operator: &Token, right: &Expr) -> (result: Result<
        String,
        Error,
    >)
        ensures
            result matches Ok(text) && text@ == printed(
                ExprView::Binary {
                    left: Box::new(left@),
                    operator: operator@,
                    right: Box::new(right@),
                },
            ),
    {
        let mut text = String::from_str("(");
        text.append(operator.lexeme.as_str());
        text.append(" ");
        self.write(&mut text, left);
        text.append(" ");
        self.write(&mut text, right);
        text.append(")");
        assert(text@ =~= printed(
            ExprView::Binary {
                left: Box::new(left@),
                operator: operator@,
                right: Box::new(right@),
            },
        ));
        Ok(text)
    }

    fn visit_unary_expr(&self, operator: &Token, right: &Expr) -> (result: Result<String, Error>)
        ensures
            result matches Ok(text) && text@ == printed(
                ExprView::Unary { operator: operator@, right: Box::new(right@) },
            ),
    {
        let mut text = String::from_str("(");
        text.append(operator.lexeme.as_str());
        text.append(" ");
        self.write(&mut text, right);
        text.append(")");
        assert(text@ =~= printed(
            ExprView::Unary { operator: operator@, right: Box::new(right@) },
        ));
        Ok(text)
    }

    fn visit_grouping_expr(&self, expr: &Expr) -> (result: Result<String, Error>)
        ensures
            result matches Ok(text) && text@ == printed(
                ExprView::Grouping { expression: Box::new(expr@) },
            ),
    {
        let mut text = String::from_str("(group ");
        self.write(&mut text, expr);
        text.append(")");
        assert(text@ =~= printed(ExprView::Grouping { expression: Box::new(expr@) }));
        Ok(text)
    }

    fn visit_literal_expr(&self, value: &Literal) -> (result: Result<String, Error>)
        ensures
            result matches Ok(text) && text@ == literal_text(value@),
    {
        let text = match value {
            Literal::String(string) => string.clone(),
            Literal::Number(numeral) => numeral.clone(),
            Literal::Boolean(true) => String::from_str("true"),
            Literal::Boolean(false) => String::from_str("false"),
            Literal::Nil => String::from_str("nil"),
        };
        Ok(text)
    }

    fn visit_variable_expr(&self, name: &Token) -> (result: Result<String, Error>)
        ensures
            result matches Ok(text) && text@ == name@.lexeme,
    {
        Ok(name.lexeme.clone())
    }

    fn visit_variable_assignment_expr(&self, expr: &Expr) -> (result: Result<String, Error>)
        ensures
            result matches Ok(text) && text@ == printed(expr@),
    {
        Ok(self.print(expr))
    }

    fn visit_logical_expr(&self, expr: &Expr) -> (result: Result<String, Error>)
        ensures
            result matches Ok(text) && text@ == printed(expr@),
    {
        Ok(self.print(expr))
    }

    fn visit_call_expr(&self, expr: &Expr) -> (result: Result<String, Error>)
        ensures
            result matches Ok(text) && text@ == printed(expr@),
    {
        Ok(self.print(expr))
    }

    fn visit_get_expr(&self, expr: &Expr) -> (result: Result<String, Error>)
        ensures
            result matches Ok(text) && text@ == printed(expr@),
    {
        Ok(self.print(expr))
    }
}

} // verus!
