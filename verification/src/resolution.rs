//! Static resolution, as a walk over the tree.
//!
//! The walk keeps a stack of block scopes. A scope maps a name to `false`
//! while the name is declared but its initializer is not done, and to `true`
//! from then on. Each use of a variable that some scope of the stack
//! declares is noted with the number of scopes between the use and the
//! declaration; a use that no scope declares is left for the global scope.

use vstd::prelude::*;
use crate::ast::ExprView;
use crate::errors::{report, ErrorView};
use crate::statement::StmtView;
use crate::tokens::TokenView;

verus! {

/// The state of the walk.
pub struct Resolving {
    /// The block scopes around the place of the walk, innermost last.
    pub scopes: Seq<Map<Seq<char>, bool>>,
    /// The depths noted so far, by the offset of the use.
    pub locals: Map<usize, usize>,
    /// The place of the walk is inside the body of a function.
    pub inside_function: bool,
}

/// The state after a walk, and the error that stopped it, if one did.
pub struct Resolved {
    pub state: Resolving,
    pub error: Option<ErrorView>,
}

pub open spec fn done(state: Resolving) -> Resolved {
    Resolved { state, error: None }
}

pub open spec fn failed(state: Resolving, at: TokenView, message: Seq<char>) -> Resolved {
    Resolved { state, error: Some(ErrorView::Syntax(report(at, message))) }
}

/// The number of scopes between the innermost one and the innermost one
/// that declares `name`.
pub open spec fn depth(scopes: Seq<Map<Seq<char>, bool>>, name: Seq<char>) -> Option<nat>
    decreases scopes.len(),
{
    if scopes.len() == 0 {
        None
    } else if scopes.last().contains_key(name) {
        Some(0)
    } else {
        match depth(scopes.drop_last(), name) {
            Some(outer) => Some(outer + 1),
            None => None,
        }
    }
}

/// Notes the depth of the use `name`, where a scope declares it.
pub open spec fn resolve_local(state: Resolving, name: TokenView) -> Resolving {
    match depth(state.scopes, name.lexeme) {
        Some(distance) => Resolving {
            locals: state.locals.insert(name.offset, distance as usize),
            ..state
        },
        None => state,
    }
}

pub open spec fn begin_scope(state: Resolving) -> Resolving {
    Resolving { scopes: state.scopes.push(Map::empty()), ..state }
}

pub open spec fn end_scope(state: Resolving) -> Resolving {
    if state.scopes.len() == 0 {
        state
    } else {
        Resolving { scopes: state.scopes.drop_last(), ..state }
    }
}

/// The innermost scope with `name` mapped to `defined`; nothing where there
/// is no scope.
pub open spec fn put(state: Resolving, name: Seq<char>, defined: bool) -> Resolving {
    if state.scopes.len() == 0 {
        state
    } else {
        Resolving {
            scopes: state.scopes.update(
                state.scopes.len() - 1,
                state.scopes.last().insert(name, defined),
            ),
            ..state
        }
    }
}

/// Declares `name` in the innermost scope: an error where that scope
/// declares it already.
pub open spec fn declare(state: Resolving, name: TokenView) -> Resolved {
    if state.scopes.len() > 0 && state.scopes.last().contains_key(name.lexeme) {
        failed(state, name, "Already a variable with this name in this scope."@)
    } else {
        done(put(state, name.lexeme, false))
    }
}

/// Marks `name` as ready for use.
pub open spec fn define(state: Resolving, name: TokenView) -> Resolving {
    put(state, name.lexeme, true)
}

/// `name` is declared in the innermost scope, and its initializer is not
/// done.
pub open spec fn in_own_initializer(state: Resolving, name: Seq<char>) -> bool {
    state.scopes.len() > 0 && state.scopes.last().contains_key(name) && !state.scopes.last()[name]
}

/// The walk over an expression.
pub open spec fn resolve_expr(state: Resolving, expr: ExprView) -> Resolved
    decreases expr, 0nat,
{
    match expr {
        ExprView::Literal { .. } => done(state),
        ExprView::Grouping { expression } => resolve_expr(state, *expression),
        ExprView::Unary { right, .. } => resolve_expr(state, *right),
        ExprView::Binary { left, right, .. } => {
            let first = resolve_expr(state, *left);
            if first.error is Some {
                first
            } else {
                resolve_expr(first.state, *right)
            }
        },
        ExprView::Logical { left, right, .. } => {
            let first = resolve_expr(state, *left);
            if first.error is Some {
                first
            } else {
                resolve_expr(first.state, *right)
            }
        },
        ExprView::Variable { name } => if in_own_initializer(state, name.lexeme) {
            failed(state, name, "Can't read local variable in its own initializer."@)
        } else {
            done(resolve_local(state, name))
        },
        ExprView::Assign { name, value } => {
            let first = resolve_expr(state, *value);
            if first.error is Some {
                first
            } else {
                done(resolve_local(first.state, name))
            }
        },
        ExprView::Call { callee, arguments, .. } => {
            let first = resolve_expr(state, *callee);
            if first.error is Some {
                first
            } else {
                resolve_exprs(first.state, arguments, 0)
            }
        },
        ExprView::Get { object, .. } => resolve_expr(state, *object),
    }
}

/// The walk over the expressions from `from` on, in order.
pub open spec fn resolve_exprs(state: Resolving, exprs: Seq<ExprView>, from: nat) -> Resolved
    decreases exprs, exprs.len() - from,
{
    if from >= exprs.len() {
        done(state)
    } else {
        let first = resolve_expr(state, exprs[from as int]);
        if first.error is Some {
            first
        } else {
            resolve_exprs(first.state, exprs, from + 1)
        }
    }
}

/// Declares and defines the parameters from `from` on, in order.
pub open spec fn declare_params(state: Resolving, params: Seq<TokenView>, from: nat) -> Resolved
    decreases params.len() - from,
{
    if from >= params.len() {
        done(state)
    } else {
        let first = declare(state, params[from as int]);
        if first.error is Some {
            first
        } else {
            declare_params(define(first.state, params[from as int]), params, from + 1)
        }
    }
}

/// The walk over an optional expression.
pub open spec fn resolve_option(state: Resolving, expr: Option<ExprView>) -> Resolved {
    match expr {
        Some(expr) => resolve_expr(state, expr),
        None => done(state),
    }
}

/// The walk over a statement.
pub open spec fn resolve_stmt(state: Resolving, stmt: StmtView) -> Resolved
    decreases stmt, 0nat,
{
    match stmt {
        StmtView::Print(expr) => resolve_expr(state, expr),
        StmtView::Expression(expr) => resolve_expr(state, expr),
        StmtView::Variable { name, initializer } => {
            let declared = declare(state, name);
            if declared.error is Some {
                declared
            } else {
                let initialized = resolve_option(declared.state, initializer);
                if initialized.error is Some {
                    initialized
                } else {
                    done(define(initialized.state, name))
                }
            }
        },
        StmtView::Block { statements } => {
            let inner = resolve_stmts(begin_scope(state), statements, 0);
            if inner.error is Some {
                inner
            } else {
                done(end_scope(inner.state))
            }
        },
        StmtView::If { condition, then_branch, else_branch } => {
            let first = resolve_expr(state, condition);
            if first.error is Some {
                first
            } else {
                let second = resolve_stmt(first.state, *then_branch);
                if second.error is Some {
                    second
                } else {
                    match else_branch {
                        Some(branch) => resolve_stmt(second.state, *branch),
                        None => second,
                    }
                }
            }
        },
        StmtView::While { condition, body } => {
            let first = resolve_expr(state, condition);
            if first.error is Some {
                first
            } else {
                resolve_stmt(first.state, *body)
            }
        },
        StmtView::Function { name, params, body } => {
            let declared = declare(state, name);
            if declared.error is Some {
                declared
            } else {
                resolve_function(define(declared.state, name), params, body)
            }
        },
        StmtView::Return { keyword, value } => if !state.inside_function {
            failed(state, keyword, "Can't return from top-level code."@)
        } else {
            resolve_option(state, value)
        },
        StmtView::Class { name, methods } => {
            let declared = declare(state, name);
            if declared.error is Some {
                declared
            } else {
                resolve_methods(define(declared.state, name), methods, 0)
            }
        },
    }
}

/// The walk over the statements from `from` on, in order.
pub open spec fn resolve_stmts(state: Resolving, stmts: Seq<StmtView>, from: nat) -> Resolved
    decreases stmts, stmts.len() - from,
{
    if from >= stmts.len() {
        done(state)
    } else {
        let first = resolve_stmt(state, stmts[from as int]);
        if first.error is Some {
            first
        } else {
            resolve_stmts(first.state, stmts, from + 1)
        }
    }
}

/// The walk over the parameters and the body of a function, in a scope of
/// their own.
pub open spec fn resolve_function(state: Resolving, params: Seq<TokenView>, body: Seq<StmtView>)
    -> Resolved
    decreases body, body.len() + 1,
{
    let entered = Resolving { inside_function: true, ..begin_scope(state) };
    let declared = declare_params(entered, params, 0);
    if declared.error is Some {
        declared
    } else {
        let inner = resolve_stmts(declared.state, body, 0);
        if inner.error is Some {
            inner
        } else {
            done(Resolving { inside_function: state.inside_function, ..end_scope(inner.state) })
        }
    }
}

/// The walk over the methods of a class from `from` on: each as a function.
pub open spec fn resolve_methods(state: Resolving, methods: Seq<StmtView>, from: nat) -> Resolved
    decreases methods, methods.len() - from,
{
    if from >= methods.len() {
        done(state)
    } else {
        let first = match methods[from as int] {
            StmtView::Function { params, body, .. } => resolve_function(state, params, body),
            other => resolve_stmt(state, other),
        };
        if first.error is Some {
            first
        } else {
            resolve_methods(first.state, methods, from + 1)
        }
    }
}

} // verus!
