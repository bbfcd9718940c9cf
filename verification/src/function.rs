//! Function handles.

use vstd::prelude::*;
use crate::statement::{stmts_view, Stmt, StmtView};
use crate::tokens::{tokens_view, Token, TokenView};

verus! {

/// The functions that the interpreter itself provides.
#[derive(Debug, Clone, Copy, PartialEq, Eq, Structural)]
pub enum Native {
    /// The wall clock, in seconds.
    Clock,
}

/// A function: one that a program declared, with the scope it was declared
/// in, or one that the interpreter provides.
#[derive(Debug, Clone, Copy)]
#[allow(inconsistent_fields)]
pub enum Function<'a> {
    User { name: &'a Token, params: &'a Vec<Token>, body: &'a Vec<Stmt>, closure: usize },
    Native { body: Native, arity: usize },
}

/// The mathematical model of a [`Function`].
#[allow(inconsistent_fields)]
pub enum FunctionView {
    User { name: TokenView, params: Seq<TokenView>, body: Seq<StmtView>, closure: usize },
    Native { body: Native, arity: usize },
}

impl FunctionView {
    /// The number of arguments that a call must give.
    pub open spec fn arity(self) -> nat {
        match self {
            FunctionView::User { params, .. } => params.len(),
            FunctionView::Native { arity, .. } => arity as nat,
        }
    }

    /// Two handles are the same function: declared by the same name token in
    /// the same scope, or the same native function.
    pub open spec fn same(self, other: FunctionView) -> bool {
        match (self, other) {
            (
                FunctionView::User { name, closure, .. },
                FunctionView::User { name: other_name, closure: other_closure, .. },
            ) => name.offset == other_name.offset && name.line == other_name.line && name.lexeme
                == other_name.lexeme && closure == other_closure,
            (
                FunctionView::Native { body, arity },
                FunctionView::Native { body: other_body, arity: other_arity },
            ) => body == other_body && arity == other_arity,
            _ => false,
        }
    }
}

impl<'a> View for Function<'a> {
    type V = FunctionView;

    open spec fn view(&self) -> FunctionView {
        match self {
            Function::User { name, params, body, closure } => FunctionView::User {
                name: name@,
                params: tokens_view(params@),
                body: stmts_view(body@),
                closure: *closure,
            },
            Function::Native { body, arity } => FunctionView::Native {
                body: *body,
                arity: *arity,
            },
        }
    }
}

impl<'a> Function<'a> {
    /// The number of arguments that a call must give.
    pub fn arity(&self) -> (count: usize)
        ensures
            count == self@.arity(),
    {
        match self {
            Function::Native { arity, .. } => *arity,
            Function::User { params, .. } => params.len(),
        }
    }

    /// The two handles are the same function.
    pub fn same(&self, other: &Function<'a>) -> (yes: bool)
        ensures
            yes == self@.same(other@),
    {
        match (self, other) {
            (
                Function::User { name, closure, .. },
                Function::User { name: other_name, closure: other_closure, .. },
            ) => name.offset == other_name.offset && name.line == other_name.line && name.lexeme
                == other_name.lexeme && *closure == *other_closure,
            (
                Function::Native { body, arity },
                Function::Native { body: other_body, arity: other_arity },
            ) => *body == *other_body && *arity == *other_arity,
            _ => false,
        }
    }
}

} // verus!
