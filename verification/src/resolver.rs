//! The resolver: the walk of [`crate::resolution`], which notes in the
//! interpreter how deep each use of a variable is.

use vstd::prelude::*;
use crate::ast::{exprs_view, lemma_exprs_view, Expr};
use crate::environment::{
    bindings_map, lemma_bindings_contains, lemma_bindings_update, lemma_bindings_value,
};
use crate::errors::{report_at, Error};
use crate::interpreter::Interpreter;
use crate::machine::State;
use crate::resolution;
use crate::resolution::{Resolved, Resolving};
use crate::statement::{
    lemma_methods_view, lemma_stmts_view, methods_view, stmts_view, Stmt,
};
use crate::tokens::{tokens_view, Token};

verus! {

/// The names that one block scope declares: `false` while a name's
/// initializer is not done, `true` from then on.
#[derive(Debug)]
struct Declarations {
    names: Vec<String>,
    defined: Vec<bool>,
}

impl View for Declarations {
    type V = Map<Seq<char>, bool>;

    closed spec fn view(&self) -> Map<Seq<char>, bool> {
        bindings_map(self.names(), self.defined@)
    }
}

impl Declarations {
    spec fn names(&self) -> Seq<Seq<char>> {
        self.names@.map_values(|name: String| name@)
    }

    spec fn wf(&self) -> bool {
        self.names.len() == self.defined.len()
    }

    fn new() -> (declarations: Self)
        ensures
            declarations.wf(),
            declarations@ == Map::<Seq<char>, bool>::empty(),
    {
        Declarations { names: Vec::new(), defined: Vec::new() }
    }

    /// The last place of `name` in the list.
    fn find(&self, name: &String) -> (place: Option<usize>)
        requires
            self.wf(),
        ensures
            match place {
                Some(at) => at < self.names.len() && self.names()[at as int] == name@ && forall|
                    j: int,
                |
                    at < j < self.names.len() ==> self.names()[j] != name@,
                None => forall|j: int| 0 <= j < self.names.len() ==> self.names()[j] != name@,
            },
    {
        let mut at: usize = self.names.len();
        while at > 0
            invariant
                at <= self.names.len(),
                forall|j: int| at <= j < self.names.len() ==> self.names()[j] != name@,
            decreases at,
        {
            at -= 1;
            if self.names[at] == *name {
                return Some(at);
            }
        }
        None
    }

    /// What `name` is mapped to, where it is declared.
    fn get(&self, name: &String) -> (state: Option<bool>)
        requires
            self.wf(),
        ensures
            match state {
                Some(defined) => self@.contains_key(name@) && defined == self@[name@],
                None => !self@.contains_key(name@),
            },
    {
        proof {
            lemma_bindings_contains(self.names(), self.defined@, name@);
        }
        match self.find(name) {
            Some(at) => {
                proof {
                    lemma_bindings_value(self.names(), self.defined@, name@, at as int);
                }
                Some(self.defined[at])
            },
            None => None,
        }
    }

    /// Maps `name` to `defined`.
    fn put(&mut self, name: &String, defined: bool)
        requires
            old(self).wf(),
        ensures
            final(self).wf(),
            final(self)@ == old(self)@.insert(name@, defined),
    {
        match self.find(name) {
            Some(at) => {
                proof {
                    lemma_bindings_update(self.names(), self.defined@, at as int, defined);
                }
                self.defined.set(at, defined);
            },
            None => {
                self.names.push(name.clone());
                self.defined.push(defined);
                assert(self.names().drop_last() =~= old(self).names());
                assert(self.defined@.drop_last() =~= old(self).defined@);
            },
        }
    }
}

/// The depth `found`, from `passed` scopes further in.
pub open spec fn deeper(found: Option<nat>, passed: nat) -> Option<nat> {
    match found {
        Some(distance) => Some(distance + passed),
        None => None,
    }
}

/// The resolver.
#[derive(Debug)]
pub struct Resolver {
    scopes: Vec<Declarations>,
    inside_function: bool,
}

impl View for Resolver {
    type V = Seq<Map<Seq<char>, bool>>;

    closed spec fn view(&self) -> Seq<Map<Seq<char>, bool>> {
        self.scopes@.map_values(|scope: Declarations| scope@)
    }
}

impl Resolver {
    /// Every scope's list of declarations is well formed.
    pub closed spec fn wf(&self) -> bool {
        forall|i: int| 0 <= i < self.scopes.len() ==> (#[trigger] self.scopes[i]).wf()
    }

    /// The walk is inside the body of a function.
    pub closed spec fn inside_function(&self) -> bool {
        self.inside_function
    }

    /// The state of the walk, with the depths noted so far.
    pub open spec fn resolving(&self, locals: Map<usize, usize>) -> Resolving {
        Resolving { scopes: self@, locals, inside_function: self.inside_function() }
    }

    /// `self` and `interpreter` are what the walk `resolved` left, and
    /// `result` is how it ended.
    pub open spec fn walked<'a>(
        &self,
        interpreter: &Interpreter<'a>,
        before: &Interpreter<'a>,
        result: Result<(), Error>,
        resolved: Resolved,
    ) -> bool {
        &&& self.wf()
        &&& interpreter.wf()
        &&& self.resolving(interpreter@.locals) == resolved.state
        &&& interpreter@ == (State { locals: resolved.state.locals, ..before@ })
        &&& match result {
            Ok(_) => resolved.error is None,
            Err(error) => resolved.error == Some(error@),
        }
    }

    /// A resolver at the top of a program: no block scope, no function.
    pub fn new() -> (resolver: Self)
        ensures
            resolver.wf(),
            resolver@ == Seq::<Map<Seq<char>, bool>>::empty(),
            !resolver.inside_function(),
    {
        let resolver = Resolver { scopes: Vec::new(), inside_function: false };
        assert(resolver@ =~= Seq::<Map<Seq<char>, bool>>::empty());
        resolver
    }

    fn begin_scope(&mut self)
        requires
            old(self).wf(),
        ensures
            final(self).wf(),
            final(self)@ == old(self)@.push(Map::empty()),
            final(self).inside_function() == old(self).inside_function(),
    {
        self.scopes.push(Declarations::new());
        assert(self@ =~= old(self)@.push(Map::empty()));
    }

    fn end_scope(&mut self)
        requires
            old(self).wf(),
        ensures
            final(self).wf(),
            forall|locals: Map<usize, usize>| #[trigger]
                final(self).resolving(locals) == resolution::end_scope(
                    old(self).resolving(locals),
                ),
    {
        if self.scopes.len() > 0 {
            self.scopes.pop();
            assert(self@ =~= old(self)@.drop_last());
        }
    }

    /// Maps `name` to `defined` in the innermost scope.
    fn put(&mut self, name: &String, defined: bool)
        requires
            old(self).wf(),
        ensures
            final(self).wf(),
            forall|locals: Map<usize, usize>| #[trigger]
                final(self).resolving(locals) == resolution::put(
                    old(self).resolving(locals),
                    name@,
                    defined,
                ),
    {
        let count: usize = self.scopes.len();
        if count > 0 {
            let ghost before = self.scopes@;
            let mut scope = Declarations::new();
            core::mem::swap(&mut self.scopes[count - 1], &mut scope);
            scope.put(name, defined);
            self.scopes.set(count - 1, scope);
            assert(self@ =~= old(self)@.update(
                count - 1,
                old(self)@.last().insert(name@, defined),
            ));
            assert forall|i: int| 0 <= i < self.scopes.len() implies (
            #[trigger] self.scopes[i]).wf() by {
                if i != count - 1 {
                    assert(self.scopes[i] == before[i]);
                }
            }
        }
    }

    /// What the innermost scope maps `name` to.
    fn innermost(&self, name: &String) -> (state: Option<bool>)
        requires
            self.wf(),
        ensures
            match state {
                Some(defined) => self@.len() > 0 && self@.last().contains_key(name@) && defined
                    == self@.last()[name@],
                None => self@.len() == 0 || !self@.last().contains_key(name@),
            },
    {
        let count: usize = self.scopes.len();
        if count > 0 {
            assert(self@.last() == self.scopes[count - 1]@);
            self.scopes[count - 1].get(name)
        } else {
            None
        }
    }

    fn declare<'a>(&mut self, interpreter: &Interpreter<'a>, name: &Token) -> (result: Result<
        (),
        Error,
    >)
        requires
            old(self).wf(),
            interpreter.wf(),
        ensures
            final(self).walked(
                interpreter,
                interpreter,
                result,
                resolution::declare(old(self).resolving(interpreter@.locals), name@),
            ),
    {
        match self.innermost(&name.lexeme) {
            Some(_) => Err(
                Error::Syntax(report_at(name, "Already a variable with this name in this scope.")),
            ),
            None => {
                self.put(&name.lexeme, false);
                Ok(())
            },
        }
    }

    fn define(&mut self, name: &Token)
        requires
            old(self).wf(),
        ensures
            final(self).wf(),
            forall|locals: Map<usize, usize>| #[trigger]
                final(self).resolving(locals) == resolution::define(
                    old(self).resolving(locals),
                    name@,
                ),
    {
        self.put(&name.lexeme, true);
    }

    /// The number of scopes between the innermost one and the innermost one
    /// that declares `name`.
    fn depth(&self, name: &String) -> (found: Option<usize>)
        requires
            self.wf(),
        ensures
            match found {
                Some(distance) => resolution::depth(self@, name@) == Some(distance as nat),
                None => resolution::depth(self@, name@) is None,
            },
    {
        let count: usize = self.scopes.len();
        let mut passed: usize = 0;
        assert(self@.take(count as int) =~= self@);
        while passed < count
            invariant
                self.wf(),
                count == self.scopes.len(),
                passed <= count,
                resolution::depth(self@, name@) == deeper(
                    resolution::depth(self@.take(count - passed), name@),
                    passed as nat,
                ),
            decreases count - passed,
        {
            let ghost prefix = self@.take(count - passed);
            assert(prefix.last() == self.scopes[count - passed - 1]@);
            assert(prefix.drop_last() =~= self@.take(count - passed - 1));
            if self.scopes[count - 1 - passed].get(name).is_some() {
                return Some(passed);
            }
            passed += 1;
        }
        None
    }

    fn resolve_local<'a>(&self, interpreter: &mut Interpreter<'a>, name: &Token)
        requires
            self.wf(),
            old(interpreter).wf(),
        ensures
            self.walked(
                final(interpreter),
                old(interpreter),
                Ok(()),
                resolution::done(
                    resolution::resolve_local(self.resolving(old(interpreter)@.locals), name@),
                ),
            ),
    {
        match self.depth(&name.lexeme) {
            Some(distance) => {
                interpreter.resolve(name, distance);
            },
            None => {},
        }
    }

    fn resolve_expression<'a>(&mut self, interpreter: &mut Interpreter<'a>, expr: &Expr) -> (result:
        Result<(), Error>)
        requires
            old(self).wf(),
            old(interpreter).wf(),
        ensures
            final(self).walked(
                final(interpreter),
                old(interpreter),
                result,
                resolution::resolve_expr(old(self).resolving(old(interpreter)@.locals), expr@),
            ),
        decreases expr, 0nat,
    {
        match expr {
            Expr::Literal { .. } => Ok(()),
            Expr::Grouping { expression } => self.resolve_expression(interpreter, &**expression),
            Expr::Unary { right, .. } => self.resolve_expression(interpreter, &**right),
            Expr::Binary { left, right, .. } => {
                self.resolve_expression(interpreter, &**left)?;
                self.resolve_expression(interpreter, &**right)
            },
            Expr::Logical { left, right, .. } => {
                self.resolve_expression(interpreter, &**left)?;
                self.resolve_expression(interpreter, &**right)
            },
            Expr::Variable { name } => {
                match self.innermost(&name.lexeme) {
                    Some(false) => {
                        return Err(
                            Error::Syntax(
                                report_at(
                                    name,
                                    "Can't read local variable in its own initializer.",
                                ),
                            ),
                        );
                    },
                    _ => {},
                }
                self.resolve_local(interpreter, name);
                Ok(())
            },
            Expr::Assign { name, value } => {
                self.resolve_expression(interpreter, &**value)?;
                self.resolve_local(interpreter, name);
                Ok(())
            },
            Expr::Call { callee, arguments, .. } => {
                self.resolve_expression(interpreter, &**callee)?;
                self.resolve_expressions(interpreter, arguments)
            },
            Expr::Get { object, .. } => self.resolve_expression(interpreter, &**object),
        }
    }

    fn resolve_expressions<'a>(&mut self, interpreter: &mut Interpreter<'a>, exprs: &Vec<Expr>)
        -> (result: Result<(), Error>)
        requires
            old(self).wf(),
            old(interpreter).wf(),
        ensures
            final(self).walked(
                final(interpreter),
                old(interpreter),
                result,
                resolution::resolve_exprs(
                    old(self).resolving(old(interpreter)@.locals),
                    exprs_view(exprs@),
                    0,
                ),
            ),
        decreases exprs, 0nat,
    {
        let ghost whole = resolution::resolve_exprs(
            old(self).resolving(old(interpreter)@.locals),
            exprs_view(exprs@),
            0,
        );
        let mut next: usize = 0;
        while next < exprs.len()
            invariant
                whole == resolution::resolve_exprs(
                    old(self).resolving(old(interpreter)@.locals),
                    exprs_view(exprs@),
                    0,
                ),
                self.wf(),
                interpreter.wf(),
                next <= exprs.len(),
                interpreter@ == (State { locals: interpreter@.locals, ..old(interpreter)@ }),
                whole == resolution::resolve_exprs(
                    self.resolving(interpreter@.locals),
                    exprs_view(exprs@),
                    next as nat,
                ),
            decreases exprs.len() - next,
        {
            proof {
                lemma_exprs_view(exprs@);
            }
            self.resolve_expression(interpreter, &exprs[next])?;
            next += 1;
        }
        proof {
            lemma_exprs_view(exprs@);
        }
        Ok(())
    }

    fn resolve_option<'a>(&mut self, interpreter: &mut Interpreter<'a>, expr: &Option<Expr>) -> (result:
        Result<(), Error>)
        requires
            old(self).wf(),
            old(interpreter).wf(),
        ensures
            final(self).walked(
                final(interpreter),
                old(interpreter),
                result,
                resolution::resolve_option(
                    old(self).resolving(old(interpreter)@.locals),
                    match expr {
                        Some(expr) => Some(expr@),
                        None => None,
                    },
                ),
            ),
    {
        match expr {
            Some(expr) => self.resolve_expression(interpreter, expr),
            None => Ok(()),
        }
    }

    /// Declares and defines the parameters, in order.
    fn declare_params<'a>(&mut self, interpreter: &Interpreter<'a>, params: &Vec<Token>) -> (result:
        Result<(), Error>)
        requires
            old(self).wf(),
            interpreter.wf(),
        ensures
            final(self).walked(
                interpreter,
                interpreter,
                result,
                resolution::declare_params(
                    old(self).resolving(interpreter@.locals),
                    tokens_view(params@),
                    0,
                ),
            ),
    {
        let ghost whole = resolution::declare_params(
            old(self).resolving(interpreter@.locals),
            tokens_view(params@),
            0,
        );
        let mut next: usize = 0;
        while next < params.len()
            invariant
                whole == resolution::declare_params(
                    old(self).resolving(interpreter@.locals),
                    tokens_view(params@),
                    0,
                ),
                self.wf(),
                interpreter.wf(),
                next <= params.len(),
                whole == resolution::declare_params(
                    self.resolving(interpreter@.locals),
                    tokens_view(params@),
                    next as nat,
                ),
            decreases params.len() - next,
        {
            self.declare(interpreter, &params[next])?;
            self.define(&params[next]);
            next += 1;
        }
        Ok(())
    }

    fn resolve_statement<'a>(&mut self, interpreter: &mut Interpreter<'a>, statement: &Stmt) -> (result:
        Result<(), Error>)
        requires
            old(self).wf(),
            old(interpreter).wf(),
        ensures
            final(self).walked(
                final(interpreter),
                old(interpreter),
                result,
                resolution::resolve_stmt(
                    old(self).resolving(old(interpreter)@.locals),
                    statement@,
                ),
            ),
        decreases statement, 0nat,
    {
        match statement {
            Stmt::Print(expr) => self.resolve_expression(interpreter, expr),
            Stmt::Expression(expr) => self.resolve_expression(interpreter, expr),
            Stmt::Variable { name, initializer } => {
                self.declare(interpreter, name)?;
                self.resolve_option(interpreter, initializer)?;
                self.define(name);
                Ok(())
            },
            Stmt::Block { statements } => {
                self.begin_scope();
                self.resolve_statements(interpreter, statements)?;
                self.end_scope();
                Ok(())
            },
            Stmt::If { condition, then_branch, else_branch } => {
                self.resolve_expression(interpreter, condition)?;
                self.resolve_statement(interpreter, &**then_branch)?;
                match else_branch {
                    Some(branch) => self.resolve_statement(interpreter, &**branch),
                    None => Ok(()),
                }
            },
            Stmt::While { condition, body } => {
                self.resolve_expression(interpreter, condition)?;
                self.resolve_statement(interpreter, &**body)
            },
            Stmt::Function { name, params, body } => {
                self.declare(interpreter, name)?;
                self.define(name);
                self.resolve_function(interpreter, params, body)
            },
            Stmt::Return { keyword, value } => {
                if !self.inside_function {
                    return Err(
                        Error::Syntax(report_at(keyword, "Can't return from top-level code.")),
                    );
                }
                self.resolve_option(interpreter, value)
            },
            Stmt::Class { name, methods } => {
                self.declare(interpreter, name)?;
                self.define(name);
                self.resolve_methods(interpreter, methods)
            },
        }
    }

    /// Walks over `statements`, in order, and notes in `interpreter` the
    /// depth of every use of a variable that a block scope declares.
    ///
    /// The walk stops at the first error: a variable read in its own
    /// initializer, a name declared twice in one block scope, or a `return`
    /// outside any function.
    pub fn resolve_statements<'a>(
        &mut self,
        interpreter: &mut Interpreter<'a>,
        statements: &Vec<Stmt>,
    ) -> (result: Result<(), Error>)
        requires
            old(self).wf(),
            old(interpreter).wf(),
        ensures
            final(self).walked(
                final(interpreter),
                old(interpreter),
                result,
                resolution::resolve_stmts(
                    old(self).resolving(old(interpreter)@.locals),
                    stmts_view(statements@),
                    0,
                ),
            ),
        decreases statements, 0nat,
    {
        let ghost whole = resolution::resolve_stmts(
            old(self).resolving(old(interpreter)@.locals),
            stmts_view(statements@),
            0,
        );
        let mut next: usize = 0;
        while next < statements.len()
            invariant
                whole == resolution::resolve_stmts(
                    old(self).resolving(old(interpreter)@.locals),
                    stmts_view(statements@),
                    0,
                ),
                self.wf(),
                interpreter.wf(),
                next <= statements.len(),
                interpreter@ == (State { locals: interpreter@.locals, ..old(interpreter)@ }),
                whole == resolution::resolve_stmts(
                    self.resolving(interpreter@.locals),
                    stmts_view(statements@),
                    next as nat,
                ),
            decreases statements.len() - next,
        {
            proof {
                lemma_stmts_view(statements@);
            }
            self.resolve_statement(interpreter, &statements[next])?;
            next += 1;
        }
        proof {
            lemma_stmts_view(statements@);
        }
        Ok(())
    }

    fn resolve_function<'a>(
        &mut self,
        interpreter: &mut Interpreter<'a>,
        params: &Vec<Token>,
        body: &Vec<Stmt>,
    ) -> (result: Result<(), Error>)
        requires
            old(self).wf(),
            old(interpreter).wf(),
        ensures
            final(self).walked(
                final(interpreter),
                old(interpreter),
                result,
                resolution::resolve_function(
                    old(self).resolving(old(interpreter)@.locals),
                    tokens_view(params@),
                    stmts_view(body@),
                ),
            ),
        decreases body, 1nat,
    {
        let enclosing: bool = self.inside_function;
        self.begin_scope();
        self.inside_function = true;
        self.declare_params(interpreter, params)?;
        self.resolve_statements(interpreter, body)?;
        self.end_scope();
        assert(self.resolving(interpreter@.locals).scopes == self@);
        self.inside_function = enclosing;
        Ok(())
    }

    /// Walks over the methods of a class: each as a function.
    fn resolve_methods<'a>(&mut self, interpreter: &mut Interpreter<'a>, methods: &Vec<Box<Stmt>>)
        -> (result: Result<(), Error>)
        requires
            old(self).wf(),
            old(interpreter).wf(),
        ensures
            final(self).walked(
                final(interpreter),
                old(interpreter),
                result,
                resolution::resolve_methods(
                    old(self).resolving(old(interpreter)@.locals),
                    methods_view(methods@),
                    0,
                ),
            ),
        decreases methods, 0nat,
    {
        let ghost whole = resolution::resolve_methods(
            old(self).resolving(old(interpreter)@.locals),
            methods_view(methods@),
            0,
        );
        let mut next: usize = 0;
        while next < methods.len()
            invariant
                whole == resolution::resolve_methods(
                    old(self).resolving(old(interpreter)@.locals),
                    methods_view(methods@),
                    0,
                ),
                self.wf(),
                interpreter.wf(),
                next <= methods.len(),
                interpreter@ == (State { locals: interpreter@.locals, ..old(interpreter)@ }),
                whole == resolution::resolve_methods(
                    self.resolving(interpreter@.locals),
                    methods_view(methods@),
                    next as nat,
                ),
            decreases methods.len() - next,
        {
            proof {
                lemma_methods_view(methods@);
            }
            match &*methods[next] {
                Stmt::Function { params, body, .. } => {
                    self.resolve_function(interpreter, params, body)?;
                },
                other => {
                    self.resolve_statement(interpreter, other)?;
                },
            }
            next += 1;
        }
        proof {
            lemma_methods_view(methods@);
        }
        Ok(())
    }
}

} // verus!
