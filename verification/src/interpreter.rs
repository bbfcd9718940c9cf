//! The interpreter: the machine of [`crate::machine`], on real data.

use std::collections::HashMap;
use vstd::prelude::*;
use crate::ast::{exprs_view, lemma_exprs_view, Expr, ExprView};
use crate::class::{Class, ClassView, Instance, InstanceView};
use crate::environment;
use crate::environment::{Bindings, Environment};
use crate::errors::{undefined_property, undefined_variable, Error, ErrorView};
use crate::function::{Function, FunctionView, Native};
use crate::laws::lemma_bind;
use crate::machine;
use crate::machine::{
    frames_view, Action, ActionView, Control, ControlView, Event, Frame, FrameView, Request, State,
    Step,
};
use crate::numbers;
use crate::object::{objects_view, Object, ObjectView};
use crate::statement::{lemma_stmts_view, stmts_view, Stmt};
use crate::text::push_decimal;
use crate::tokens::{tokens_view, Literal, Token, TokenType};

verus! {

/// The interpreter. It owns every scope; a program is lent to it for as
/// long as it lives.
#[derive(Debug)]
pub struct Interpreter<'a> {
    environment: usize,
    scopes: Environment<'a>,
    fields: Vec<Bindings<'a>>,
    locals: HashMap<usize, usize>,
    control: Control<'a>,
    stack: Vec<Frame<'a>>,
}

impl<'a> View for Interpreter<'a> {
    type V = State;

    closed spec fn view(&self) -> State {
        State {
            environment: self.environment,
            scopes: self.scopes@,
            fields: self.fields@.map_values(|fields: Bindings<'a>| fields@),
            locals: self.locals@,
            control: self.control@,
            stack: frames_view(self.stack@),
        }
    }
}

/// The error for a call with the wrong number of arguments.
fn arity_mismatch(expected: usize, got: usize) -> (error: Error)
    ensures
        error@ == ErrorView::Runtime(machine::arity_mismatch(expected as nat, got as nat)),
{
    let mut text = String::from_str("Expected ");
    push_decimal(&mut text, expected);
    text.append(" arguments but got ");
    push_decimal(&mut text, got);
    text.append(".");
    Error::Runtime(text)
}

impl<'a> Interpreter<'a> {
    /// The scopes and the fields are well formed, and so is the state.
    pub closed spec fn wf(&self) -> bool {
        &&& self.scopes.wf()
        &&& forall|i: int| 0 <= i < self.fields.len() ==> (#[trigger] self.fields[i]).wf()
        &&& self@.wf()
    }

    /// `self` and `action` are what `step` says.
    spec fn took(&self, action: Action<'a>, step: Step) -> bool {
        &&& self.wf()
        &&& self@ == step.state
        &&& action@ == step.action
    }

    /// An interpreter whose global scope binds `clock`.
    pub fn new() -> (interpreter: Self)
        ensures
            interpreter.wf(),
            interpreter@ == machine::initial(),
    {
        let mut scopes = Environment::new();
        scopes.define(
            0,
            String::from_str("clock"),
            Object::Callable(Function::Native { body: Native::Clock, arity: 0 }),
        );
        proof {
            scopes.lemma_wf();
        }
        let interpreter = Interpreter {
            environment: 0,
            scopes,
            fields: Vec::new(),
            locals: HashMap::new(),
            control: Control::Idle,
            stack: Vec::new(),
        };
        assert(interpreter@.scopes =~= machine::initial().scopes);
        assert(interpreter@.fields =~= machine::initial().fields);
        assert(interpreter@.stack =~= machine::initial().stack);
        interpreter
    }

    /// What well-formedness says of the state.
    pub proof fn lemma_wf(&self)
        requires
            self.wf(),
        ensures
            self@.wf(),
    {
    }

    /// The global scope.
    pub fn globals(&self) -> (scope: usize)
        ensures
            scope == 0,
    {
        0
    }

    /// The current scope.
    pub fn environment(&self) -> (scope: usize)
        ensures
            scope == self@.environment,
    {
        self.environment
    }

    /// Every value but `nil` and `false` is truthy.
    pub fn is_truthy(&self, literal: &Object<'a>) -> (yes: bool)
        ensures
            yes == literal@.truthy(),
    {
        literal.is_truthy()
    }

    /// Records that the variable used at `name` is declared `depth` scopes
    /// outwards from its use.
    pub fn resolve(&mut self, name: &Token, depth: usize)
        requires
            old(self).wf(),
        ensures
            final(self).wf(),
            final(self)@ == (State {
                locals: old(self)@.locals.insert(name@.offset, depth),
                ..old(self)@
            }),
    {
        broadcast use vstd::std_specs::hash::group_hash_axioms;

        self.locals.insert(name.offset, depth);
    }

    /// Goes on with `control`.
    fn go(&mut self, control: Control<'a>) -> (action: Action<'a>)
        requires
            old(self).wf(),
        ensures
            final(self).took(action, machine::proceed(old(self)@, control@)),
    {
        self.control = control;
        Action::Continue
    }

    /// Pushes `frame`.
    fn push(&mut self, frame: Frame<'a>)
        requires
            old(self).wf(),
            old(self)@.restores(frame@),
        ensures
            final(self).wf(),
            final(self)@ == old(self)@.push(frame@),
    {
        self.stack.push(frame);
        assert(self@.stack =~= old(self)@.stack.push(frame@));
    }

    /// Pushes `frame` and goes on with `control`.
    fn descend(&mut self, frame: Frame<'a>, control: Control<'a>) -> (action: Action<'a>)
        requires
            old(self).wf(),
            old(self)@.restores(frame@),
        ensures
            final(self).took(action, machine::descend(old(self)@, frame@, control@)),
    {
        self.push(frame);
        self.go(control)
    }

    /// Asks the caller for a number.
    fn ask(&mut self, request: Request) -> (action: Action<'a>)
        requires
            old(self).wf(),
        ensures
            final(self).took(action, machine::ask(old(self)@, request@)),
    {
        let pending = request.clone();
        self.control = Control::Pending(pending);
        Action::Request(request)
    }

    /// Ends the run with `error`.
    fn fail(&mut self, error: Error) -> (action: Action<'a>)
        requires
            old(self).wf(),
        ensures
            final(self).took(action, machine::fail(old(self)@, error@)),
    {
        proof {
            self.scopes.lemma_wf();
        }
        self.control = Control::Idle;
        self.stack.clear();
        self.environment = 0;
        assert(self@.stack =~= Seq::<FrameView>::empty());
        Action::Failed(error)
    }

    /// Ends the run with a runtime error that says `text`.
    fn runtime(&mut self, text: &str) -> (action: Action<'a>)
        requires
            old(self).wf(),
        ensures
            final(self).took(action, machine::runtime(old(self)@, text@)),
    {
        self.fail(Error::runtime(text))
    }

    /// Binds `name` to `value` in `scope`.
    fn define_in(&mut self, scope: usize, name: String, value: Object<'a>)
        requires
            old(self).wf(),
        ensures
            final(self).wf(),
            final(self)@ == (State {
                scopes: environment::define(old(self)@.scopes, scope, name@, value@),
                ..old(self)@
            }),
    {
        self.scopes.define(scope, name, value);
        proof {
            self.scopes.lemma_wf();
        }
    }

    /// Binds `name` to `value` in the current scope.
    fn define(&mut self, name: String, value: Object<'a>)
        requires
            old(self).wf(),
        ensures
            final(self).wf(),
            final(self)@ == old(self)@.define(name@, value@),
    {
        self.define_in(self.environment, name, value);
    }

    /// Makes `scope` the current scope.
    fn move_to(&mut self, scope: usize)
        requires
            old(self).wf(),
            scope < old(self)@.scopes.len(),
        ensures
            final(self).wf(),
            final(self)@ == (State { environment: scope, ..old(self)@ }),
    {
        self.environment = scope;
    }

    /// The value of the variable used at `name`.
    fn lookup_variable(&self, name: &Token) -> (result: Result<Object<'a>, Error>)
        requires
            self.wf(),
        ensures
            match result {
                Ok(value) => self@.lookup(name@) == Some(value@),
                Err(error) => self@.lookup(name@) is None && error@ == ErrorView::Runtime(
                    undefined_variable(name@.lexeme),
                ),
            },
    {
        broadcast use vstd::std_specs::hash::group_hash_axioms;

        match self.locals.get(&name.offset) {
            Some(distance) => self.scopes.get_at(self.environment, *distance, name),
            None => self.scopes.get(0, name),
        }
    }

    /// Assigns `value` to the variable used at `name`.
    fn assign_variable(&mut self, name: &Token, value: Object<'a>) -> (result: Result<
        Object<'a>,
        Error,
    >)
        requires
            old(self).wf(),
        ensures
            final(self).wf(),
            match result {
                Ok(assigned) => assigned@ == value@ && old(self)@.assign(name@, value@)
                    == Some(final(self)@.scopes) && final(self)@ == (State {
                    scopes: final(self)@.scopes,
                    ..old(self)@
                }),
                Err(error) => old(self)@.assign(name@, value@) is None && final(self)@ == old(self)@ && error@ == ErrorView::Runtime(undefined_variable(name@.lexeme)),
            },
    {
        broadcast use vstd::std_specs::hash::group_hash_axioms;

        let found = match self.locals.get(&name.offset) {
            Some(distance) => Some(*distance),
            None => None,
        };
        let result = match found {
            Some(distance) => self.scopes.assign_at(self.environment, distance, name, value),
            None => self.scopes.assign(0, name, value),
        };
        proof {
            self.scopes.lemma_wf();
            environment::lemma_assign_keeps_length(
                old(self)@.scopes,
                old(self)@.environment,
                name@.lexeme,
                value@,
            );
        }
        result
    }

    /// Takes up the control.
    fn take(&mut self) -> (control: Control<'a>)
        requires
            old(self).wf(),
        ensures
            final(self).wf(),
            final(self)@ == old(self)@.with(ControlView::Idle),
            control@ == old(self)@.control,
    {
        let mut control = Control::Idle;
        core::mem::swap(&mut self.control, &mut control);
        control
    }

    /// Takes the top frame from the stack.
    fn pop(&mut self) -> (frame: Option<Frame<'a>>)
        requires
            old(self).wf(),
        ensures
            final(self).wf(),
            match frame {
                Some(top) => old(self)@.stack.len() > 0 && top@ == old(self)@.stack.last()
                    && old(self)@.restores(top@) && final(self)@ == (State {
                    stack: old(self)@.stack.drop_last(),
                    ..old(self)@
                }),
                None => old(self)@.stack.len() == 0 && final(self)@ == old(self)@,
            },
    {
        let frame = self.stack.pop();
        proof {
            if frame is Some {
                assert(self@.stack =~= old(self)@.stack.drop_last());
                assert(old(self)@.restores(old(self)@.stack[old(self)@.stack.len() - 1]));
            }
        }
        frame
    }

    /// A new scope enclosed by `enclosing`.
    fn enclose(&mut self, enclosing: usize) -> (scope: Option<usize>)
        requires
            old(self).wf(),
        ensures
            final(self).wf(),
            match scope {
                Some(id) => enclosing < old(self)@.scopes.len() && id == old(self)@.scopes.len()
                    && final(self)@ == (State {
                    scopes: environment::enclose(old(self)@.scopes, enclosing),
                    ..old(self)@
                }),
                None => enclosing >= old(self)@.scopes.len() && final(self)@ == old(self)@,
            },
    {
        let scope = self.scopes.enclose(enclosing);
        proof {
            self.scopes.lemma_wf();
        }
        scope
    }

    /// A new scope enclosed by the current one.
    fn nest(&mut self) -> (scope: usize)
        requires
            old(self).wf(),
        ensures
            final(self).wf(),
            scope == old(self)@.scopes.len(),
            final(self)@ == (State {
                scopes: environment::enclose(old(self)@.scopes, old(self)@.environment),
                ..old(self)@
            }),
    {
        proof {
            self.scopes.lemma_wf();
        }
        let scope = self.scopes.nest(self.environment);
        proof {
            self.scopes.lemma_wf();
        }
        scope
    }

    /// Enters a block of `statements` whose scope is `scope`.
    fn enter(&mut self, statements: &'a Vec<Stmt>, scope: usize)
        requires
            old(self).wf(),
            scope < old(self)@.scopes.len(),
        ensures
            final(self).wf(),
            final(self)@ == machine::enter(old(self)@, stmts_view(statements@), scope),
    {
        self.push(Frame::Scope { previous: self.environment });
        self.push(Frame::Sequence { statements, next: 0 });
        self.environment = scope;
        self.control = Control::Value(Object::Nil);
    }

    /// A literal is its value; the double of a numeral is asked of the caller.
    fn visit_literal_expr(&mut self, value: &'a Literal) -> (action: Action<'a>)
        requires
            old(self).wf(),
        ensures
            final(self).took(
                action,
                machine::evaluate(old(self)@, ExprView::Literal { value: value@ }),
            ),
    {
        proof {
            reveal(machine::evaluate);
        }
        match value {
            Literal::Boolean(flag) => self.go(Control::Value(Object::Boolean(*flag))),
            Literal::Nil => self.go(Control::Value(Object::Nil)),
            Literal::Number(numeral) => self.ask(Request::Decode(numeral.clone())),
            Literal::String(text) => self.go(Control::Value(Object::String(text.clone()))),
        }
    }

    /// A grouping is what it holds.
    fn visit_grouping_expr(&mut self, expr: &'a Expr) -> (action: Action<'a>)
        requires
            old(self).wf(),
        ensures
            final(self).took(action, machine::proceed(old(self)@, ControlView::Eval(expr@))),
    {
        self.go(Control::Eval(expr))
    }

    /// The operand first, then the operator.
    fn visit_unary_expr(&mut self, operator: &'a Token, right: &'a Expr) -> (action: Action<'a>)
        requires
            old(self).wf(),
        ensures
            final(self).took(
                action,
                machine::descend(
                    old(self)@,
                    FrameView::Unary { operator: operator@ },
                    ControlView::Eval(right@),
                ),
            ),
    {
        self.descend(Frame::Unary { operator }, Control::Eval(right))
    }

    /// The left operand first, then the right one, then the operator.
    fn visit_binary_expr(&mut self, left: &'a Expr, operator: &'a Token, right: &'a Expr) -> (action:
        Action<'a>)
        requires
            old(self).wf(),
        ensures
            final(self).took(
                action,
                machine::descend(
                    old(self)@,
                    FrameView::BinaryLeft { operator: operator@, right: right@ },
                    ControlView::Eval(left@),
                ),
            ),
    {
        self.descend(Frame::BinaryLeft { operator, right }, Control::Eval(left))
    }

    /// The left operand first; it decides whether the right one is evaluated.
    fn visit_logical_expr(&mut self, left: &'a Expr, operator: &'a Token, right: &'a Expr) -> (action:
        Action<'a>)
        requires
            old(self).wf(),
        ensures
            final(self).took(
                action,
                machine::descend(
                    old(self)@,
                    FrameView::Logical { operator: operator@, right: right@ },
                    ControlView::Eval(left@),
                ),
            ),
    {
        self.descend(Frame::Logical { operator, right }, Control::Eval(left))
    }

    /// The value of a variable, or an error where it has none.
    fn visit_variable_expr(&mut self, name: &'a Token) -> (action: Action<'a>)
        requires
            old(self).wf(),
        ensures
            final(self).took(
                action,
                match old(self)@.lookup(name@) {
                    Some(value) => machine::proceed(old(self)@, ControlView::Value(value)),
                    None => machine::runtime(old(self)@, undefined_variable(name@.lexeme)),
                },
            ),
    {
        match self.lookup_variable(name) {
            Ok(value) => self.go(Control::Value(value)),
            Err(error) => self.fail(error),
        }
    }

    /// The value first, then the assignment.
    fn visit_variable_assignment_expr(&mut self, name: &'a Token, value: &'a Expr) -> (action:
        Action<'a>)
        requires
            old(self).wf(),
        ensures
            final(self).took(
                action,
                machine::descend(
                    old(self)@,
                    FrameView::Assign { name: name@ },
                    ControlView::Eval(value@),
                ),
            ),
    {
        self.descend(Frame::Assign { name }, Control::Eval(value))
    }

    /// What is called first, then the arguments in order, then the call.
    fn visit_call_expr(&mut self, callee: &'a Expr, paren: &'a Token, arguments: &'a Vec<Expr>)
        -> (action: Action<'a>)
        requires
            old(self).wf(),
        ensures
            final(self).took(
                action,
                machine::descend(
                    old(self)@,
                    FrameView::Callee { paren: paren@, arguments: exprs_view(arguments@) },
                    ControlView::Eval(callee@),
                ),
            ),
    {
        self.descend(Frame::Callee { paren, arguments }, Control::Eval(callee))
    }

    /// The object first, then its property.
    fn visit_get_expr(&mut self, object: &'a Expr, name: &'a Token) -> (action: Action<'a>)
        requires
            old(self).wf(),
        ensures
            final(self).took(
                action,
                machine::descend(
                    old(self)@,
                    FrameView::Get { name: name@ },
                    ControlView::Eval(object@),
                ),
            ),
    {
        self.descend(Frame::Get { name }, Control::Eval(object))
    }

    /// The step of an expression.
    fn eval_step(&mut self, expr: &'a Expr) -> (action: Action<'a>)
        requires
            old(self).wf(),
        ensures
            final(self).took(action, machine::evaluate(old(self)@, expr@)),
    {
        proof {
            reveal(machine::evaluate);
        }
        match expr {
            Expr::Literal { value } => self.visit_literal_expr(value),
            Expr::Grouping { expression } => self.visit_grouping_expr(&**expression),
            Expr::Unary { operator, right } => self.visit_unary_expr(operator, &**right),
            Expr::Binary { left, operator, right } => self.visit_binary_expr(
                &**left,
                operator,
                &**right,
            ),
            Expr::Logical { left, operator, right } => self.visit_logical_expr(
                &**left,
                operator,
                &**right,
            ),
            Expr::Variable { name } => self.visit_variable_expr(name),
            Expr::Assign { name, value } => self.visit_variable_assignment_expr(name, &**value),
            Expr::Call { callee, paren, arguments } => self.visit_call_expr(
                &**callee,
                paren,
                arguments,
            ),
            Expr::Get { object, name } => self.visit_get_expr(&**object, name),
        }
    }

    /// The value first, then it is written.
    fn visit_print_statement(&mut self, expr: &'a Expr) -> (action: Action<'a>)
        requires
            old(self).wf(),
        ensures
            final(self).took(
                action,
                machine::descend(old(self)@, FrameView::Print, ControlView::Eval(expr@)),
            ),
    {
        self.descend(Frame::Print, Control::Eval(expr))
    }

    /// The value of the expression is computed and dropped.
    fn visit_expression_statement(&mut self, expr: &'a Expr) -> (action: Action<'a>)
        requires
            old(self).wf(),
        ensures
            final(self).took(
                action,
                machine::descend(old(self)@, FrameView::Discard, ControlView::Eval(expr@)),
            ),
    {
        self.descend(Frame::Discard, Control::Eval(expr))
    }

    /// The initializer first, or `nil` without one; then the variable is
    /// declared.
    fn visit_variable_statement(&mut self, name: &'a Token, initializer: &'a Option<Expr>) -> (action:
        Action<'a>)
        requires
            old(self).wf(),
        ensures
            final(self).took(
                action,
                match initializer {
                    Some(expr) => machine::descend(
                        old(self)@,
                        FrameView::Define { name: name@ },
                        ControlView::Eval(expr@),
                    ),
                    None => machine::proceed(
                        old(self)@.define(name@.lexeme, ObjectView::Nil),
                        ControlView::Value(ObjectView::Nil),
                    ),
                },
            ),
    {
        match initializer {
            Some(expr) => self.descend(Frame::Define { name }, Control::Eval(expr)),
            None => {
                self.define(name.lexeme.clone(), Object::Nil);
                self.go(Control::Value(Object::Nil))
            },
        }
    }

    /// The statements of a block run in a new scope, enclosed by the current
    /// one.
    fn visit_block_statement(&mut self, statements: &'a Vec<Stmt>) -> (action: Action<'a>)
        requires
            old(self).wf(),
        ensures
            final(self).took(
                action,
                Step {
                    state: machine::enter(
                        State {
                            scopes: environment::enclose(
                                old(self)@.scopes,
                                old(self)@.environment,
                            ),
                            ..old(self)@
                        },
                        stmts_view(statements@),
                        old(self)@.scopes.len() as usize,
                    ),
                    action: ActionView::Continue,
                },
            ),
    {
        let scope = self.nest();
        self.enter(statements, scope);
        Action::Continue
    }

    /// The condition first; it decides which branch runs.
    fn visit_if_statement(
        &mut self,
        condition: &'a Expr,
        then_branch: &'a Stmt,
        else_branch: &'a Option<Box<Stmt>>,
    ) -> (action: Action<'a>)
        requires
            old(self).wf(),
        ensures
            final(self).took(
                action,
                machine::descend(
                    old(self)@,
                    FrameView::Branch {
                        then_branch: then_branch@,
                        else_branch: match else_branch {
                            Some(branch) => Some((**branch)@),
                            None => None,
                        },
                    },
                    ControlView::Eval(condition@),
                ),
            ),
    {
        let other: Option<&'a Stmt> = match else_branch {
            Some(branch) => Some(&**branch),
            None => None,
        };
        self.descend(Frame::Branch { then_branch, else_branch: other }, Control::Eval(condition))
    }

    /// The condition first; the body runs for as long as it is truthy.
    fn visit_while_statement(&mut self, condition: &'a Expr, body: &'a Stmt) -> (action: Action<
        'a,
    >)
        requires
            old(self).wf(),
        ensures
            final(self).took(
                action,
                machine::descend(
                    old(self)@,
                    FrameView::LoopTest { condition: condition@, body: body@ },
                    ControlView::Eval(condition@),
                ),
            ),
    {
        self.descend(Frame::LoopTest { condition, body }, Control::Eval(condition))
    }

    /// A function is declared with the current scope as its closure.
    fn visit_function_statement(
        &mut self,
        name: &'a Token,
        params: &'a Vec<Token>,
        body: &'a Vec<Stmt>,
    ) -> (action: Action<'a>)
        requires
            old(self).wf(),
        ensures
            final(self).took(
                action,
                machine::proceed(
                    old(self)@.define(
                        name@.lexeme,
                        ObjectView::Callable(
                            FunctionView::User {
                                name: name@,
                                params: tokens_view(params@),
                                body: stmts_view(body@),
                                closure: old(self)@.environment,
                            },
                        ),
                    ),
                    ControlView::Value(ObjectView::Nil),
                ),
            ),
    {
        let function = Object::Callable(
            Function::User { name, params, body, closure: self.environment },
        );
        self.define(name.lexeme.clone(), function);
        self.go(Control::Value(Object::Nil))
    }

    /// The value first, or `nil` without one; then it travels to the call.
    fn visit_return_statement(&mut self, value: &'a Option<Expr>) -> (action: Action<'a>)
        requires
            old(self).wf(),
        ensures
            final(self).took(
                action,
                match value {
                    Some(expr) => machine::descend(
                        old(self)@,
                        FrameView::Return,
                        ControlView::Eval(expr@),
                    ),
                    None => machine::proceed(old(self)@, ControlView::Unwind(ObjectView::Nil)),
                },
            ),
    {
        match value {
            Some(expr) => self.descend(Frame::Return, Control::Eval(expr)),
            None => self.go(Control::Unwind(Object::Nil)),
        }
    }

    /// A class is declared under its name.
    fn visit_class_statement(&mut self, name: &'a Token) -> (action: Action<'a>)
        requires
            old(self).wf(),
        ensures
            final(self).took(
                action,
                machine::proceed(
                    old(self)@.define(
                        name@.lexeme,
                        ObjectView::Class(ClassView { name: name@.lexeme }),
                    ),
                    ControlView::Value(ObjectView::Nil),
                ),
            ),
    {
        let class = Object::Class(Class::new(name.lexeme.clone()));
        self.define(name.lexeme.clone(), class);
        self.go(Control::Value(Object::Nil))
    }

    /// The step of a statement.
    fn exec_step(&mut self, stmt: &'a Stmt) -> (action: Action<'a>)
        requires
            old(self).wf(),
        ensures
            final(self).took(action, machine::execute(old(self)@, stmt@)),
    {
        proof {
            reveal(machine::execute);
        }
        match stmt {
            Stmt::Print(expr) => self.visit_print_statement(expr),
            Stmt::Expression(expr) => self.visit_expression_statement(expr),
            Stmt::Variable { name, initializer } => self.visit_variable_statement(
                name,
                initializer,
            ),
            Stmt::Block { statements } => self.visit_block_statement(statements),
            Stmt::If { condition, then_branch, else_branch } => self.visit_if_statement(
                condition,
                &**then_branch,
                else_branch,
            ),
            Stmt::While { condition, body } => self.visit_while_statement(condition, &**body),
            Stmt::Function { name, params, body } => self.visit_function_statement(
                name,
                params,
                body,
            ),
            Stmt::Return { value, .. } => self.visit_return_statement(value),
            Stmt::Class { name, .. } => self.visit_class_statement(name),
        }
    }

    /// `<`, `<=`, `>` or `>=` on two operands, which must be numbers.
    fn compare(&mut self, operator: TokenType, left: &Object<'a>, right: &Object<'a>) -> (action:
        Action<'a>)
        requires
            old(self).wf(),
            operator == TokenType::GREATER || operator == TokenType::GREATER_EQUAL || operator
                == TokenType::LESS || operator == TokenType::LESS_EQUAL,
        ensures
            final(self).took(action, machine::binary(old(self)@, operator, left@, right@)),
    {
        proof {
            reveal(machine::binary);
        }
        match (left, right) {
            (Object::Number(a), Object::Number(b)) => {
                let holds = match operator {
                    TokenType::GREATER => numbers::lt(*b, *a),
                    TokenType::GREATER_EQUAL => numbers::le(*b, *a),
                    TokenType::LESS => numbers::lt(*a, *b),
                    _ => numbers::le(*a, *b),
                };
                self.go(Control::Value(Object::Boolean(holds)))
            },
            _ => self.runtime("Operands must be numbers."),
        }
    }

    /// `-`, `*` or `/` on two operands, which must be numbers.
    fn arithmetic(&mut self, operator: TokenType, left: &Object<'a>, right: &Object<'a>) -> (action:
        Action<'a>)
        requires
            old(self).wf(),
            operator == TokenType::MINUS || operator == TokenType::SLASH || operator
                == TokenType::STAR,
        ensures
            final(self).took(action, machine::binary(old(self)@, operator, left@, right@)),
    {
        proof {
            reveal(machine::binary);
        }
        match (left, right) {
            (Object::Number(a), Object::Number(b)) => self.ask(
                Request::Arithmetic { operator, left: *a, right: *b },
            ),
            _ => self.runtime("Operands must be numbers."),
        }
    }

    /// `+` on two numbers or two strings.
    fn plus(&mut self, left: Object<'a>, right: Object<'a>) -> (action: Action<'a>)
        requires
            old(self).wf(),
        ensures
            final(self).took(action, machine::binary(old(self)@, TokenType::PLUS, left@, right@)),
    {
        proof {
            reveal(machine::binary);
        }
        match (left, right) {
            (Object::Number(a), Object::Number(b)) => self.ask(
                Request::Arithmetic { operator: TokenType::PLUS, left: a, right: b },
            ),
            (Object::String(a), Object::String(b)) => {
                let mut text = a;
                text.append(b.as_str());
                self.go(Control::Value(Object::String(text)))
            },
            _ => self.runtime("Operands must be two numbers or two strings."),
        }
    }

    /// The step of a binary operator on its two operands.
    fn binary(&mut self, operator: TokenType, left: Object<'a>, right: Object<'a>) -> (action:
        Action<'a>)
        requires
            old(self).wf(),
        ensures
            final(self).took(action, machine::binary(old(self)@, operator, left@, right@)),
    {
        match operator {
            TokenType::EQUAL_EQUAL => {
                proof {
                    reveal(machine::binary);
                }
                let same = left.equals(&right);
                self.go(Control::Value(Object::Boolean(same)))
            },
            TokenType::BANG_EQUAL => {
                proof {
                    reveal(machine::binary);
                }
                let same = left.equals(&right);
                self.go(Control::Value(Object::Boolean(!same)))
            },
            TokenType::GREATER
            | TokenType::GREATER_EQUAL
            | TokenType::LESS
            | TokenType::LESS_EQUAL => self.compare(operator, &left, &right),
            TokenType::MINUS | TokenType::SLASH | TokenType::STAR => self.arithmetic(
                operator,
                &left,
                &right,
            ),
            TokenType::PLUS => self.plus(left, right),
            _ => {
                proof {
                    reveal(machine::binary);
                }
                self.runtime("Unknown binary operator.")
            },
        }
    }

    /// The step of a unary operator on its operand.
    fn unary(&mut self, operator: TokenType, operand: Object<'a>) -> (action: Action<'a>)
        requires
            old(self).wf(),
        ensures
            final(self).took(action, machine::unary(old(self)@, operator, operand@)),
    {
        proof {
            reveal(machine::unary);
        }
        match operator {
            TokenType::MINUS => match operand {
                Object::Number(bits) => self.go(Control::Value(Object::Number(numbers::neg(bits)))),
                _ => self.runtime("Operand must be a number."),
            },
            TokenType::BANG => {
                let truthy = operand.is_truthy();
                self.go(Control::Value(Object::Boolean(!truthy)))
            },
            _ => self.runtime("Unknown unary operator."),
        }
    }

    /// The step of `and` or `or` on its left operand.
    fn logical(&mut self, operator: &'a Token, right: &'a Expr, left: Object<'a>) -> (action:
        Action<'a>)
        requires
            old(self).wf(),
        ensures
            final(self).took(
                action,
                if machine::short_circuits(operator@.token_type, left@) {
                    machine::proceed(old(self)@, ControlView::Value(left@))
                } else {
                    machine::proceed(old(self)@, ControlView::Eval(right@))
                },
            ),
    {
        let truthy = left.is_truthy();
        let decided = if operator.token_type == TokenType::OR {
            truthy
        } else {
            !truthy
        };
        if decided {
            self.go(Control::Value(left))
        } else {
            self.go(Control::Eval(right))
        }
    }

    /// Binds the parameters to the arguments in `scope`.
    fn bind(&mut self, scope: usize, params: &'a Vec<Token>, arguments: &Vec<Object<'a>>)
        requires
            old(self).wf(),
            params.len() == arguments.len(),
        ensures
            final(self).wf(),
            final(self)@ == (State {
                scopes: machine::bind(
                    old(self)@.scopes,
                    scope,
                    tokens_view(params@),
                    objects_view(arguments@),
                    params.len() as nat,
                ),
                ..old(self)@
            }),
    {
        let mut bound: usize = 0;
        while bound < params.len()
            invariant
                self.wf(),
                bound <= params.len(),
                params.len() == arguments.len(),
                self@ == (State {
                    scopes: machine::bind(
                        old(self)@.scopes,
                        scope,
                        tokens_view(params@),
                        objects_view(arguments@),
                        bound as nat,
                    ),
                    ..old(self)@
                }),
            decreases params.len() - bound,
        {
            self.define_in(scope, params[bound].lexeme.clone(), arguments[bound].clone());
            bound += 1;
        }
    }

    /// The step of a call of `function` with `arguments`.
    fn invoke(&mut self, function: Function<'a>, arguments: Vec<Object<'a>>) -> (action: Action<
        'a,
    >)
        requires
            old(self).wf(),
        ensures
            final(self).took(
                action,
                machine::invoke(old(self)@, function@, objects_view(arguments@)),
            ),
    {
        proof {
            reveal(machine::invoke);
        }
        if arguments.len() != function.arity() {
            return self.fail(arity_mismatch(function.arity(), arguments.len()));
        }
        match function {
            Function::Native { body, .. } => match body {
                Native::Clock => self.ask(Request::Clock),
            },
            Function::User { params, body, closure, .. } => {
                let previous: usize = self.environment;
                match self.enclose(closure) {
                    None => self.runtime("The scope of the function is gone."),
                    Some(scope) => {
                        self.bind(scope, params, &arguments);
                        proof {
                            lemma_bind(
                                environment::enclose(old(self)@.scopes, closure),
                                scope,
                                tokens_view(params@),
                                objects_view(arguments@),
                                params.len() as nat,
                            );
                        }
                        self.push(Frame::Call { previous });
                        self.push(Frame::Sequence { statements: body, next: 0 });
                        self.move_to(scope);
                        self.go(Control::Value(Object::Nil))
                    },
                }
            },
        }
    }

    /// Makes an instance of `class`, without fields.
    fn instantiate(&mut self, class: Class) -> (instance: Instance)
        requires
            old(self).wf(),
        ensures
            final(self).wf(),
            final(self)@ == machine::instantiate(old(self)@),
            instance@ == (InstanceView { class: class@, id: old(self)@.fields.len() as usize }),
    {
        let id: usize = self.fields.len();
        self.fields.push(Bindings::new());
        assert(self@.fields =~= old(self)@.fields.push(Map::empty()));
        Instance::new(class, id)
    }

    /// The step of a call of `callee` with `arguments`.
    fn call(&mut self, callee: Object<'a>, arguments: Vec<Object<'a>>) -> (action: Action<'a>)
        requires
            old(self).wf(),
        ensures
            final(self).took(
                action,
                machine::call(old(self)@, callee@, objects_view(arguments@)),
            ),
    {
        proof {
            reveal(machine::call);
        }
        match callee {
            Object::Callable(function) => self.invoke(function, arguments),
            Object::Class(class) => {
                let instance = self.instantiate(class);
                self.go(Control::Value(Object::Instance(instance)))
            },
            _ => self.runtime("Can only call functions and classes."),
        }
    }

    /// The value of the field `name` of `instance`.
    fn field(&self, instance: &Instance, name: &String) -> (value: Option<Object<'a>>)
        requires
            self.wf(),
        ensures
            match value {
                Some(found) => machine::field(self@, instance@, name@) == Some(found@),
                None => machine::field(self@, instance@, name@) is None,
            },
    {
        if instance.id() < self.fields.len() {
            self.fields[instance.id()].get(name)
        } else {
            None
        }
    }

    /// The step of a property access on `object`.
    fn get(&mut self, object: Object<'a>, name: &'a Token) -> (action: Action<'a>)
        requires
            old(self).wf(),
        ensures
            final(self).took(action, machine::get(old(self)@, object@, name@)),
    {
        proof {
            reveal(machine::get);
        }
        match object {
            Object::Instance(instance) => match self.field(&instance, &name.lexeme) {
                Some(value) => self.go(Control::Value(value)),
                None => self.fail(Error::undefined_property(&name.lexeme)),
            },
            _ => self.runtime("Only instances have properties."),
        }
    }

    /// The step that hands the value to be assigned to the variable.
    fn after_assign(&mut self, name: &'a Token, value: Object<'a>) -> (action: Action<'a>)
        requires
            old(self).wf(),
        ensures
            final(self).took(
                action,
                match old(self)@.assign(name@, value@) {
                    Some(scopes) => machine::proceed(
                        State { scopes, ..old(self)@ },
                        ControlView::Value(value@),
                    ),
                    None => machine::runtime(old(self)@, undefined_variable(name@.lexeme)),
                },
            ),
    {
        match self.assign_variable(name, value) {
            Ok(assigned) => self.go(Control::Value(assigned)),
            Err(error) => self.fail(error),
        }
    }

    /// The step that hands a call what it calls.
    fn after_callee(&mut self, paren: &'a Token, arguments: &'a Vec<Expr>, callee: Object<'a>)
        -> (action: Action<'a>)
        requires
            old(self).wf(),
        ensures
            final(self).took(
                action,
                if exprs_view(arguments@).len() == 0 {
                    machine::call(old(self)@, callee@, Seq::empty())
                } else {
                    machine::descend(
                        old(self)@,
                        FrameView::Argument {
                            paren: paren@,
                            callee: callee@,
                            arguments: exprs_view(arguments@),
                            values: Seq::empty(),
                        },
                        ControlView::Eval(exprs_view(arguments@)[0]),
                    )
                },
            ),
    {
        proof {
            lemma_exprs_view(arguments@);
        }
        if arguments.len() == 0 {
            let none: Vec<Object<'a>> = Vec::new();
            assert(objects_view(none@) =~= Seq::<ObjectView>::empty());
            self.call(callee, none)
        } else {
            let values: Vec<Object<'a>> = Vec::new();
            assert(objects_view(values@) =~= Seq::<ObjectView>::empty());
            self.descend(
                Frame::Argument { paren, callee, arguments, values },
                Control::Eval(&arguments[0]),
            )
        }
    }

    /// The step that hands a call its next argument.
    fn after_argument(
        &mut self,
        paren: &'a Token,
        callee: Object<'a>,
        arguments: &'a Vec<Expr>,
        values: Vec<Object<'a>>,
        value: Object<'a>,
    ) -> (action: Action<'a>)
        requires
            old(self).wf(),
        ensures
            final(self).took(
                action,
                if objects_view(values@).len() + 1 < exprs_view(arguments@).len() {
                    machine::descend(
                        old(self)@,
                        FrameView::Argument {
                            paren: paren@,
                            callee: callee@,
                            arguments: exprs_view(arguments@),
                            values: objects_view(values@).push(value@),
                        },
                        ControlView::Eval(
                            exprs_view(arguments@)[objects_view(values@).len() as int + 1],
                        ),
                    )
                } else {
                    machine::call(old(self)@, callee@, objects_view(values@).push(value@))
                },
            ),
    {
        proof {
            lemma_exprs_view(arguments@);
        }
        let mut values = values;
        assert(objects_view(values@.push(value)) =~= objects_view(values@).push(value@));
        values.push(value);
        if values.len() < arguments.len() {
            let next: &'a Expr = &arguments[values.len()];
            self.descend(Frame::Argument { paren, callee, arguments, values }, Control::Eval(next))
        } else {
            self.call(callee, values)
        }
    }

    /// The step that goes on with the next of a sequence of statements.
    fn after_sequence(&mut self, statements: &'a Vec<Stmt>, next: usize) -> (action: Action<'a>)
        requires
            old(self).wf(),
        ensures
            final(self).took(
                action,
                if next < stmts_view(statements@).len() {
                    machine::descend(
                        old(self)@,
                        FrameView::Sequence {
                            statements: stmts_view(statements@),
                            next: (next + 1) as usize,
                        },
                        ControlView::Exec(stmts_view(statements@)[next as int]),
                    )
                } else {
                    machine::proceed(old(self)@, ControlView::Value(ObjectView::Nil))
                },
            ),
    {
        proof {
            lemma_stmts_view(statements@);
        }
        if next < statements.len() {
            self.descend(
                Frame::Sequence { statements, next: next + 1 },
                Control::Exec(&statements[next]),
            )
        } else {
            self.go(Control::Value(Object::Nil))
        }
    }

    /// The step that hands an `if` its condition.
    fn after_branch(
        &mut self,
        then_branch: &'a Stmt,
        else_branch: Option<&'a Stmt>,
        value: Object<'a>,
    ) -> (action: Action<'a>)
        requires
            old(self).wf(),
        ensures
            final(self).took(
                action,
                if value@.truthy() {
                    machine::proceed(old(self)@, ControlView::Exec(then_branch@))
                } else {
                    match else_branch {
                        Some(branch) => machine::proceed(old(self)@, ControlView::Exec(branch@)),
                        None => machine::proceed(old(self)@, ControlView::Value(ObjectView::Nil)),
                    }
                },
            ),
    {
        if value.is_truthy() {
            self.go(Control::Exec(then_branch))
        } else {
            match else_branch {
                Some(branch) => self.go(Control::Exec(branch)),
                None => self.go(Control::Value(Object::Nil)),
            }
        }
    }

    /// The step that hands a `while` its condition.
    fn after_loop_test(&mut self, condition: &'a Expr, body: &'a Stmt, value: Object<'a>) -> (action:
        Action<'a>)
        requires
            old(self).wf(),
        ensures
            final(self).took(
                action,
                if value@.truthy() {
                    machine::descend(
                        old(self)@,
                        FrameView::LoopBody { condition: condition@, body: body@ },
                        ControlView::Exec(body@),
                    )
                } else {
                    machine::proceed(old(self)@, ControlView::Value(ObjectView::Nil))
                },
            ),
    {
        if value.is_truthy() {
            self.descend(Frame::LoopBody { condition, body }, Control::Exec(body))
        } else {
            self.go(Control::Value(Object::Nil))
        }
    }

    /// The step that writes a value.
    fn after_print(&mut self, value: Object<'a>) -> (action: Action<'a>)
        requires
            old(self).wf(),
        ensures
            final(self).took(
                action,
                Step {
                    state: old(self)@.with(ControlView::Value(ObjectView::Nil)),
                    action: ActionView::Print(value@.text()),
                },
            ),
    {
        let text = value.text();
        self.control = Control::Value(Object::Nil);
        Action::Print(text)
    }

    /// The step that restores the scope `previous` and goes on with
    /// `control`.
    fn restore(&mut self, previous: usize, control: Control<'a>) -> (action: Action<'a>)
        requires
            old(self).wf(),
            previous < old(self)@.scopes.len(),
        ensures
            final(self).took(
                action,
                machine::proceed(State { environment: previous, ..old(self)@ }, control@),
            ),
    {
        self.move_to(previous);
        self.go(control)
    }

    /// The step that hands `value` to `frame`, which has left the stack.
    fn resume(&mut self, frame: Frame<'a>, value: Object<'a>) -> (action: Action<'a>)
        requires
            old(self).wf(),
            old(self)@.restores(frame@),
        ensures
            final(self).took(action, machine::resume(old(self)@, frame@, value@)),
    {
        proof {
            reveal(machine::resume);
        }
        match frame {
            Frame::BinaryLeft { operator, right } => self.descend(
                Frame::BinaryRight { operator, left: value },
                Control::Eval(right),
            ),
            Frame::BinaryRight { operator, left } => self.binary(operator.token_type, left, value),
            Frame::Unary { operator } => self.unary(operator.token_type, value),
            Frame::Logical { operator, right } => self.logical(operator, right, value),
            Frame::Assign { name } => self.after_assign(name, value),
            Frame::Callee { paren, arguments } => self.after_callee(paren, arguments, value),
            Frame::Argument { paren, callee, arguments, values } => self.after_argument(
                paren,
                callee,
                arguments,
                values,
                value,
            ),
            Frame::Get { name } => self.get(value, name),
            Frame::Print => self.after_print(value),
            Frame::Discard => self.go(Control::Value(Object::Nil)),
            Frame::Define { name } => {
                self.define(name.lexeme.clone(), value);
                self.go(Control::Value(Object::Nil))
            },
            Frame::Sequence { statements, next } => self.after_sequence(statements, next),
            Frame::Scope { previous } => self.restore(previous, Control::Value(Object::Nil)),
            Frame::Branch { then_branch, else_branch } => self.after_branch(
                then_branch,
                else_branch,
                value,
            ),
            Frame::LoopTest { condition, body } => self.after_loop_test(condition, body, value),
            Frame::LoopBody { condition, body } => self.descend(
                Frame::LoopTest { condition, body },
                Control::Eval(condition),
            ),
            Frame::Return => self.go(Control::Unwind(value)),
            Frame::Call { previous } => self.restore(previous, Control::Value(Object::Nil)),
        }
    }

    /// The step that carries the value of a `return` past `frame`.
    fn unwind(&mut self, frame: Frame<'a>, value: Object<'a>) -> (action: Action<'a>)
        requires
            old(self).wf(),
            old(self)@.restores(frame@),
        ensures
            final(self).took(action, machine::unwind(old(self)@, frame@, value@)),
    {
        match frame {
            Frame::Call { previous } => self.restore(previous, Control::Value(value)),
            Frame::Scope { previous } => self.restore(previous, Control::Unwind(value)),
            _ => self.go(Control::Unwind(value)),
        }
    }

    /// One step of the machine.
    ///
    /// `event` answers the request of the step before, where that step made
    /// one. The action says what the caller is to do before the next step.
    pub fn step(&mut self, event: Event) -> (action: Action<'a>)
        requires
            old(self).wf(),
        ensures
            final(self).wf(),
            final(self)@ == machine::step(old(self)@, event).state,
            action@ == machine::step(old(self)@, event).action,
    {
        let control = self.take();
        match control {
            Control::Idle => Action::Finished(Object::Nil),
            Control::Eval(expr) => self.eval_step(expr),
            Control::Exec(stmt) => self.exec_step(stmt),
            Control::Value(value) => match self.pop() {
                None => Action::Finished(value),
                Some(frame) => self.resume(frame, value),
            },
            Control::Unwind(value) => match self.pop() {
                None => Action::Finished(value),
                Some(frame) => self.unwind(frame, value),
            },
            Control::Pending(request) => match event {
                Event::Number(bits) => self.go(Control::Value(Object::Number(bits))),
                Event::Resume => self.ask(request),
            },
        }
    }

    /// Drops what is left to do and returns to the global scope.
    fn reset(&mut self)
        requires
            old(self).wf(),
        ensures
            final(self).wf(),
            final(self)@ == machine::reset(old(self)@),
    {
        proof {
            self.scopes.lemma_wf();
        }
        self.control = Control::Idle;
        self.stack.clear();
        self.environment = 0;
        assert(self@.stack =~= Seq::<FrameView>::empty());
    }

    /// Gets ready to run `statements` in the global scope, in place of what
    /// was left to do. The steps that follow run them.
    pub fn interpret(&mut self, statements: &'a Vec<Stmt>)
        requires
            old(self).wf(),
        ensures
            final(self).wf(),
            final(self)@ == machine::load(old(self)@, stmts_view(statements@)),
    {
        self.reset();
        self.push(Frame::Sequence { statements, next: 0 });
        self.control = Control::Value(Object::Nil);
    }

    /// Gets ready to evaluate `expr` in the global scope, in place of what
    /// was left to do. The steps that follow end with its value.
    pub fn evaluate(&mut self, expr: &'a Expr)
        requires
            old(self).wf(),
        ensures
            final(self).wf(),
            final(self)@ == machine::reset(old(self)@).with(ControlView::Eval(expr@)),
    {
        self.reset();
        self.control = Control::Eval(expr);
    }

    /// Gets ready to execute `statement` in the global scope, in place of
    /// what was left to do.
    pub fn execute(&mut self, statement: &'a Stmt)
        requires
            old(self).wf(),
        ensures
            final(self).wf(),
            final(self)@ == machine::reset(old(self)@).with(ControlView::Exec(statement@)),
    {
        self.reset();
        self.control = Control::Exec(statement);
    }

    /// Gets ready to execute `statements` in the scope `environment`, before
    /// what was left to do, and to restore the current scope after them:
    /// when the last of them has run, and when a `return` leaves them. A
    /// failure ends the run in the global scope. Nothing changes where
    /// `environment` is no scope.
    pub fn execute_block(&mut self, statements: &'a Vec<Stmt>, environment: usize) -> (entered:
        bool)
        requires
            old(self).wf(),
        ensures
            final(self).wf(),
            entered == (environment < old(self)@.scopes.len()),
            final(self)@ == if entered {
                machine::enter(old(self)@, stmts_view(statements@), environment)
            } else {
                old(self)@
            },
    {
        if environment < self.scopes.len() {
            self.enter(statements, environment);
            true
        } else {
            false
        }
    }
}

impl<'a> Function<'a> {
    /// Calls the function: the step of the machine that does so.
    pub fn call(&self, interpreter: &mut Interpreter<'a>, arguments: Vec<Object<'a>>) -> (action:
        Action<'a>)
        requires
            old(interpreter).wf(),
        ensures
            final(interpreter).wf(),
            final(interpreter)@ == machine::invoke(
                old(interpreter)@,
                self@,
                objects_view(arguments@),
            ).state,
            action@ == machine::invoke(old(interpreter)@, self@, objects_view(arguments@)).action,
    {
        interpreter.invoke(*self, arguments)
    }
}

impl Class {
    /// Calls the class: makes an instance of it, without fields. The
    /// arguments are not looked at.
    pub fn call<'a>(self, interpreter: &mut Interpreter<'a>, arguments: &Vec<Object<'a>>) -> (instance:
        Instance)
        requires
            old(interpreter).wf(),
        ensures
            final(interpreter).wf(),
            final(interpreter)@ == machine::instantiate(old(interpreter)@),
            instance@ == (InstanceView {
                class: self@,
                id: old(interpreter)@.fields.len() as usize,
            }),
    {
        interpreter.instantiate(self)
    }
}

impl Instance {
    /// The value of the field that `name` names.
    pub fn get<'a>(&self, interpreter: &Interpreter<'a>, name: &Token) -> (result: Result<
        Object<'a>,
        Error,
    >)
        requires
            interpreter.wf(),
        ensures
            match result {
                Ok(value) => machine::field(interpreter@, self@, name@.lexeme) == Some(value@),
                Err(error) => machine::field(interpreter@, self@, name@.lexeme) is None && error@
                    == ErrorView::Runtime(undefined_property(name@.lexeme)),
            },
    {
        match interpreter.field(self, &name.lexeme) {
            Some(value) => Ok(value),
            None => Err(Error::undefined_property(&name.lexeme)),
        }
    }
}

} // verus!
