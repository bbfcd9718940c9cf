//! The evaluator as an abstract machine.
//!
//! A state holds what is being evaluated (the control), what remains to be
//! done with its result (the stack of frames), and the scopes. One step
//! takes a state to the next and says what the caller is to do: go on,
//! write a line, answer a request for a number, or stop.
//!
//! The machine asks the caller for what it cannot compute on the bits of a
//! double: a sum, difference, product or quotient, the double that a
//! numeral denotes, and the time. The answer comes with the next step.

use vstd::prelude::*;
use crate::ast::{Expr, ExprView, exprs_view};
use crate::class::{ClassView, InstanceView};
use crate::environment;
use crate::environment::ScopeView;
use crate::errors::{undefined_property, undefined_variable, ErrorView};
use crate::function::{FunctionView, Native};
use crate::numbers;
use crate::object::{objects_view, Object, ObjectView, Text, TextView};
use crate::statement::{stmts_view, Stmt, StmtView};
use crate::text::decimal;
use crate::tokens::{LiteralView, Token, TokenType, TokenView};

verus! {

/// What the machine asks of its caller: a double, as its bits.
#[derive(Debug)]
pub enum Request {
    /// `left operator right`, where the operator is `+`, `-`, `*` or `/`.
    Arithmetic { operator: TokenType, left: u64, right: u64 },
    /// The double nearest to the decimal numeral.
    Decode(String),
    /// The time of the wall clock, in seconds.
    Clock,
}

/// The mathematical model of a [`Request`].
pub enum RequestView {
    Arithmetic { operator: TokenType, left: u64, right: u64 },
    Decode(Seq<char>),
    Clock,
}

impl View for Request {
    type V = RequestView;

    open spec fn view(&self) -> RequestView {
        match self {
            Request::Arithmetic { operator, left, right } => RequestView::Arithmetic {
                operator: *operator,
                left: *left,
                right: *right,
            },
            Request::Decode(numeral) => RequestView::Decode(numeral@),
            Request::Clock => RequestView::Clock,
        }
    }
}

impl Clone for Request {
    fn clone(&self) -> (copy: Self)
        ensures
            copy == *self,
    {
        match self {
            Request::Arithmetic { operator, left, right } => Request::Arithmetic {
                operator: *operator,
                left: *left,
                right: *right,
            },
            Request::Decode(numeral) => Request::Decode(numeral.clone()),
            Request::Clock => Request::Clock,
        }
    }
}

/// What the caller hands to a step.
#[derive(Debug, Clone, Copy)]
pub enum Event {
    /// Nothing: go on.
    Resume,
    /// The answer to the request that is pending.
    Number(u64),
}

/// What a step tells the caller to do.
#[derive(Debug)]
pub enum Action<'a> {
    /// Step again.
    Continue,
    /// Compute the number asked for and hand it to the next step.
    Request(Request),
    /// Write the text and a newline, then step again.
    Print(Text),
    /// The run has ended with this value.
    Finished(Object<'a>),
    /// The run has failed.
    Failed(crate::errors::Error),
}

/// The mathematical model of an [`Action`].
pub enum ActionView {
    Continue,
    Request(RequestView),
    Print(TextView),
    Finished(ObjectView),
    Failed(ErrorView),
}

impl<'a> View for Action<'a> {
    type V = ActionView;

    open spec fn view(&self) -> ActionView {
        match self {
            Action::Continue => ActionView::Continue,
            Action::Request(request) => ActionView::Request(request@),
            Action::Print(text) => ActionView::Print(text@),
            Action::Finished(value) => ActionView::Finished(value@),
            Action::Failed(error) => ActionView::Failed(error@),
        }
    }
}

/// What the machine is doing.
#[derive(Debug)]
pub enum Control<'a> {
    /// Nothing.
    Idle,
    /// Evaluating an expression.
    Eval(&'a Expr),
    /// Executing a statement.
    Exec(&'a Stmt),
    /// Handing a value to the frame on top of the stack. A statement hands
    /// on `nil`.
    Value(Object<'a>),
    /// Carrying the value of a `return` to the nearest call.
    Unwind(Object<'a>),
    /// Waiting for the answer to a request.
    Pending(Request),
}

/// The mathematical model of a [`Control`].
pub enum ControlView {
    Idle,
    Eval(ExprView),
    Exec(StmtView),
    Value(ObjectView),
    Unwind(ObjectView),
    Pending(RequestView),
}

impl<'a> View for Control<'a> {
    type V = ControlView;

    open spec fn view(&self) -> ControlView {
        match self {
            Control::Idle => ControlView::Idle,
            Control::Eval(expr) => ControlView::Eval(expr@),
            Control::Exec(stmt) => ControlView::Exec(stmt@),
            Control::Value(value) => ControlView::Value(value@),
            Control::Unwind(value) => ControlView::Unwind(value@),
            Control::Pending(request) => ControlView::Pending(request@),
        }
    }
}

/// What remains to be done with a value.
#[derive(Debug)]
pub enum Frame<'a> {
    /// The value is the left operand; the right one is still to evaluate.
    BinaryLeft { operator: &'a Token, right: &'a Expr },
    /// The value is the right operand.
    BinaryRight { operator: &'a Token, left: Object<'a> },
    /// The value is the operand.
    Unary { operator: &'a Token },
    /// The value is the left operand of `and` or `or`.
    Logical { operator: &'a Token, right: &'a Expr },
    /// The value is to be assigned.
    Assign { name: &'a Token },
    /// The value is what a call calls.
    Callee { paren: &'a Token, arguments: &'a Vec<Expr> },
    /// The value is the next argument of a call.
    Argument {
        paren: &'a Token,
        callee: Object<'a>,
        arguments: &'a Vec<Expr>,
        values: Vec<Object<'a>>,
    },
    /// The value is the object of a property access.
    Get { name: &'a Token },
    /// The value is to be printed.
    Print,
    /// The value is that of an expression statement.
    Discard,
    /// The value initializes a variable.
    Define { name: &'a Token },
    /// The statements from `next` on are still to execute.
    Sequence { statements: &'a Vec<Stmt>, next: usize },
    /// A block ends: `previous` is the scope around it.
    Scope { previous: usize },
    /// The value is the condition of an `if`.
    Branch { then_branch: &'a Stmt, else_branch: Option<&'a Stmt> },
    /// The value is the condition of a `while`.
    LoopTest { condition: &'a Expr, body: &'a Stmt },
    /// The body of a `while` has run once more.
    LoopBody { condition: &'a Expr, body: &'a Stmt },
    /// The value is that of a `return`.
    Return,
    /// A call ends: `previous` is the scope of the caller.
    Call { previous: usize },
}

/// The mathematical model of a [`Frame`].
pub enum FrameView {
    BinaryLeft { operator: TokenView, right: ExprView },
    BinaryRight { operator: TokenView, left: ObjectView },
    Unary { operator: TokenView },
    Logical { operator: TokenView, right: ExprView },
    Assign { name: TokenView },
    Callee { paren: TokenView, arguments: Seq<ExprView> },
    Argument {
        paren: TokenView,
        callee: ObjectView,
        arguments: Seq<ExprView>,
        values: Seq<ObjectView>,
    },
    Get { name: TokenView },
    Print,
    Discard,
    Define { name: TokenView },
    Sequence { statements: Seq<StmtView>, next: usize },
    Scope { previous: usize },
    Branch { then_branch: StmtView, else_branch: Option<StmtView> },
    LoopTest { condition: ExprView, body: StmtView },
    LoopBody { condition: ExprView, body: StmtView },
    Return,
    Call { previous: usize },
}

impl<'a> View for Frame<'a> {
    type V = FrameView;

    open spec fn view(&self) -> FrameView {
        match self {
            Frame::BinaryLeft { operator, right } => FrameView::BinaryLeft {
                operator: operator@,
                right: right@,
            },
            Frame::BinaryRight { operator, left } => FrameView::BinaryRight {
                operator: operator@,
                left: left@,
            },
            Frame::Unary { operator } => FrameView::Unary { operator: operator@ },
            Frame::Logical { operator, right } => FrameView::Logical {
                operator: operator@,
                right: right@,
            },
            Frame::Assign { name } => FrameView::Assign { name: name@ },
            Frame::Callee { paren, arguments } => FrameView::Callee {
                paren: paren@,
                arguments: exprs_view(arguments@),
            },
            Frame::Argument { paren, callee, arguments, values } => FrameView::Argument {
                paren: paren@,
                callee: callee@,
                arguments: exprs_view(arguments@),
                values: objects_view(values@),
            },
            Frame::Get { name } => FrameView::Get { name: name@ },
            Frame::Print => FrameView::Print,
            Frame::Discard => FrameView::Discard,
            Frame::Define { name } => FrameView::Define { name: name@ },
            Frame::Sequence { statements, next } => FrameView::Sequence {
                statements: stmts_view(statements@),
                next: *next,
            },
            Frame::Scope { previous } => FrameView::Scope { previous: *previous },
            Frame::Branch { then_branch, else_branch } => FrameView::Branch {
                then_branch: then_branch@,
                else_branch: match else_branch {
                    Some(branch) => Some(branch@),
                    None => None,
                },
            },
            Frame::LoopTest { condition, body } => FrameView::LoopTest {
                condition: condition@,
                body: body@,
            },
            Frame::LoopBody { condition, body } => FrameView::LoopBody {
                condition: condition@,
                body: body@,
            },
            Frame::Return => FrameView::Return,
            Frame::Call { previous } => FrameView::Call { previous: *previous },
        }
    }
}

/// The models of a stack of frames, one for one.
pub open spec fn frames_view<'a>(frames: Seq<Frame<'a>>) -> Seq<FrameView> {
    frames.map_values(|frame: Frame<'a>| frame@)
}

/// A state of the machine.
pub struct State {
    /// The current scope.
    pub environment: usize,
    /// All scopes; scope 0 is the global one.
    pub scopes: Seq<ScopeView>,
    /// The fields of every instance made so far.
    pub fields: Seq<Map<Seq<char>, ObjectView>>,
    /// For the use of a variable, by its token's offset: how many scopes
    /// outwards its declaration is. A use that is not in the map is global.
    pub locals: Map<usize, usize>,
    pub control: ControlView,
    pub stack: Seq<FrameView>,
}

/// The outcome of a step.
pub struct Step {
    pub state: State,
    pub action: ActionView,
}

impl State {
    /// The scope that a frame restores is a scope.
    pub open spec fn restores(self, frame: FrameView) -> bool {
        match frame {
            FrameView::Scope { previous } => previous < self.scopes.len(),
            FrameView::Call { previous } => previous < self.scopes.len(),
            _ => true,
        }
    }

    /// The current scope and the scopes that the frames restore are scopes,
    /// and no chain of scopes is a cycle.
    pub open spec fn wf(self) -> bool {
        &&& self.environment < self.scopes.len()
        &&& environment::acyclic(self.scopes)
        &&& forall|i: int| 0 <= i < self.stack.len() ==> self.restores(#[trigger] self.stack[i])
    }

    /// The same state with another control.
    pub open spec fn with(self, control: ControlView) -> State {
        State { control, ..self }
    }

    /// The same state with one more frame.
    pub open spec fn push(self, frame: FrameView) -> State {
        State { stack: self.stack.push(frame), ..self }
    }

    /// The same state with `name` bound to `value` in the current scope.
    pub open spec fn define(self, name: Seq<char>, value: ObjectView) -> State {
        State { scopes: environment::define(self.scopes, self.environment, name, value), ..self }
    }

    /// The value of a variable at the use `name`: where the use is resolved,
    /// in the scope so many steps outwards; else in the global scope.
    pub open spec fn lookup(self, name: TokenView) -> Option<ObjectView> {
        if self.locals.contains_key(name.offset) {
            environment::read_at(
                self.scopes,
                self.environment,
                self.locals[name.offset] as nat,
                name.lexeme,
            )
        } else {
            environment::read(self.scopes, 0, name.lexeme)
        }
    }

    /// The scopes after an assignment at the use `name`.
    pub open spec fn assign(self, name: TokenView, value: ObjectView) -> Option<Seq<ScopeView>> {
        if self.locals.contains_key(name.offset) {
            environment::write_at(
                self.scopes,
                self.environment,
                self.locals[name.offset] as nat,
                name.lexeme,
                value,
            )
        } else {
            environment::write(self.scopes, 0, name.lexeme, value)
        }
    }
}

/// The step that goes on with `control`.
pub open spec fn proceed(state: State, control: ControlView) -> Step {
    Step { state: state.with(control), action: ActionView::Continue }
}

/// The step that pushes `frame` and goes on with `control`.
pub open spec fn descend(state: State, frame: FrameView, control: ControlView) -> Step {
    Step { state: state.push(frame).with(control), action: ActionView::Continue }
}

/// The step that asks the caller for a number.
pub open spec fn ask(state: State, request: RequestView) -> Step {
    Step { state: state.with(ControlView::Pending(request)), action: ActionView::Request(request) }
}

/// The step that ends the run with an error: nothing remains to be done,
/// and the current scope is the global one again.
pub open spec fn fail(state: State, error: ErrorView) -> Step {
    Step {
        state: State {
            control: ControlView::Idle,
            stack: Seq::empty(),
            environment: 0,
            ..state
        },
        action: ActionView::Failed(error),
    }
}

pub open spec fn runtime(state: State, text: Seq<char>) -> Step {
    fail(state, ErrorView::Runtime(text))
}

/// The text of the error for a call with the wrong number of arguments.
pub open spec fn arity_mismatch(expected: nat, got: nat) -> Seq<char> {
    "Expected "@ + decimal(expected) + " arguments but got "@ + decimal(got) + "."@
}

/// The step of an expression.
#[verifier::opaque]
pub open spec fn evaluate(state: State, expr: ExprView) -> Step {
    match expr {
        ExprView::Literal { value } => match value {
            LiteralView::Boolean(value) => proceed(
                state,
                ControlView::Value(ObjectView::Boolean(value)),
            ),
            LiteralView::Nil => proceed(state, ControlView::Value(ObjectView::Nil)),
            LiteralView::String(text) => proceed(
                state,
                ControlView::Value(ObjectView::String(text)),
            ),
            LiteralView::Number(numeral) => ask(state, RequestView::Decode(numeral)),
        },
        ExprView::Grouping { expression } => proceed(state, ControlView::Eval(*expression)),
        ExprView::Unary { operator, right } => descend(
            state,
            FrameView::Unary { operator },
            ControlView::Eval(*right),
        ),
        ExprView::Binary { left, operator, right } => descend(
            state,
            FrameView::BinaryLeft { operator, right: *right },
            ControlView::Eval(*left),
        ),
        ExprView::Logical { left, operator, right } => descend(
            state,
            FrameView::Logical { operator, right: *right },
            ControlView::Eval(*left),
        ),
        ExprView::Variable { name } => match state.lookup(name) {
            Some(value) => proceed(state, ControlView::Value(value)),
            None => runtime(state, undefined_variable(name.lexeme)),
        },
        ExprView::Assign { name, value } => descend(
            state,
            FrameView::Assign { name },
            ControlView::Eval(*value),
        ),
        ExprView::Call { callee, paren, arguments } => descend(
            state,
            FrameView::Callee { paren, arguments },
            ControlView::Eval(*callee),
        ),
        ExprView::Get { object, name } => descend(
            state,
            FrameView::Get { name },
            ControlView::Eval(*object),
        ),
    }
}

/// The step that enters a block of `statements` whose scope is `scope`: the
/// scope around it is restored when the block ends.
pub open spec fn enter(state: State, statements: Seq<StmtView>, scope: usize) -> State {
    State {
        environment: scope,
        stack: state.stack.push(FrameView::Scope { previous: state.environment }).push(
            FrameView::Sequence { statements, next: 0 },
        ),
        control: ControlView::Value(ObjectView::Nil),
        ..state
    }
}

/// The step of a statement.
#[verifier::opaque]
pub open spec fn execute(state: State, stmt: StmtView) -> Step {
    match stmt {
        StmtView::Print(expr) => descend(state, FrameView::Print, ControlView::Eval(expr)),
        StmtView::Expression(expr) => descend(state, FrameView::Discard, ControlView::Eval(expr)),
        StmtView::Variable { name, initializer } => match initializer {
            Some(expr) => descend(state, FrameView::Define { name }, ControlView::Eval(expr)),
            None => proceed(
                state.define(name.lexeme, ObjectView::Nil),
                ControlView::Value(ObjectView::Nil),
            ),
        },
        StmtView::Block { statements } => Step {
            state: enter(
                State { scopes: environment::enclose(state.scopes, state.environment), ..state },
                statements,
                state.scopes.len() as usize,
            ),
            action: ActionView::Continue,
        },
        StmtView::If { condition, then_branch, else_branch } => descend(
            state,
            FrameView::Branch {
                then_branch: *then_branch,
                else_branch: match else_branch {
                    Some(branch) => Some(*branch),
                    None => None,
                },
            },
            ControlView::Eval(condition),
        ),
        StmtView::While { condition, body } => descend(
            state,
            FrameView::LoopTest { condition, body: *body },
            ControlView::Eval(condition),
        ),
        StmtView::Function { name, params, body } => proceed(
            state.define(
                name.lexeme,
                ObjectView::Callable(
                    FunctionView::User { name, params, body, closure: state.environment },
                ),
            ),
            ControlView::Value(ObjectView::Nil),
        ),
        StmtView::Return { keyword, value } => match value {
            Some(expr) => descend(state, FrameView::Return, ControlView::Eval(expr)),
            None => proceed(state, ControlView::Unwind(ObjectView::Nil)),
        },
        StmtView::Class { name, methods } => proceed(
            state.define(name.lexeme, ObjectView::Class(ClassView { name: name.lexeme })),
            ControlView::Value(ObjectView::Nil),
        ),
    }
}

/// The step of a binary operator on its two operands.
#[verifier::opaque]
pub open spec fn binary(state: State, operator: TokenType, left: ObjectView, right: ObjectView)
    -> Step {
    match operator {
        TokenType::EQUAL_EQUAL => proceed(
            state,
            ControlView::Value(ObjectView::Boolean(left.equals(right))),
        ),
        TokenType::BANG_EQUAL => proceed(
            state,
            ControlView::Value(ObjectView::Boolean(!left.equals(right))),
        ),
        TokenType::GREATER | TokenType::GREATER_EQUAL | TokenType::LESS | TokenType::LESS_EQUAL => {
            match (left, right) {
                (ObjectView::Number(a), ObjectView::Number(b)) => proceed(
                    state,
                    ControlView::Value(
                        ObjectView::Boolean(
                            match operator {
                                TokenType::GREATER => numbers::less_than(b, a),
                                TokenType::GREATER_EQUAL => numbers::at_most(b, a),
                                TokenType::LESS => numbers::less_than(a, b),
                                _ => numbers::at_most(a, b),
                            },
                        ),
                    ),
                ),
                _ => runtime(state, "Operands must be numbers."@),
            }
        },
        TokenType::MINUS | TokenType::SLASH | TokenType::STAR => match (left, right) {
            (ObjectView::Number(a), ObjectView::Number(b)) => ask(
                state,
                RequestView::Arithmetic { operator, left: a, right: b },
            ),
            _ => runtime(state, "Operands must be numbers."@),
        },
        TokenType::PLUS => match (left, right) {
            (ObjectView::Number(a), ObjectView::Number(b)) => ask(
                state,
                RequestView::Arithmetic { operator, left: a, right: b },
            ),
            (ObjectView::String(a), ObjectView::String(b)) => proceed(
                state,
                ControlView::Value(ObjectView::String(a + b)),
            ),
            _ => runtime(state, "Operands must be two numbers or two strings."@),
        },
        _ => runtime(state, "Unknown binary operator."@),
    }
}

/// The step of a unary operator on its operand.
#[verifier::opaque]
pub open spec fn unary(state: State, operator: TokenType, operand: ObjectView) -> Step {
    match operator {
        TokenType::MINUS => match operand {
            ObjectView::Number(bits) => proceed(
                state,
                ControlView::Value(ObjectView::Number(numbers::negation(bits))),
            ),
            _ => runtime(state, "Operand must be a number."@),
        },
        TokenType::BANG => proceed(
            state,
            ControlView::Value(ObjectView::Boolean(!operand.truthy())),
        ),
        _ => runtime(state, "Unknown unary operator."@),
    }
}

/// `and` and `or` stop at their left operand where it decides the result:
/// `or` where it is truthy, `and` where it is not.
pub open spec fn short_circuits(operator: TokenType, left: ObjectView) -> bool {
    if operator == TokenType::OR {
        left.truthy()
    } else {
        !left.truthy()
    }
}

/// The scopes after the first `count` of `params` are bound to the first
/// `count` of `arguments` in `scope`.
pub open spec fn bind(
    scopes: Seq<ScopeView>,
    scope: usize,
    params: Seq<TokenView>,
    arguments: Seq<ObjectView>,
    count: nat,
) -> Seq<ScopeView>
    decreases count,
{
    if count == 0 {
        scopes
    } else {
        environment::define(
            bind(scopes, scope, params, arguments, (count - 1) as nat),
            scope,
            params[count - 1].lexeme,
            arguments[count - 1],
        )
    }
}

/// The bindings `values` after the first `count` of `params` are bound to
/// the first `count` of `arguments`, in order.
pub open spec fn bound(
    values: Map<Seq<char>, ObjectView>,
    params: Seq<TokenView>,
    arguments: Seq<ObjectView>,
    count: nat,
) -> Map<Seq<char>, ObjectView>
    decreases count,
{
    if count == 0 {
        values
    } else {
        bound(values, params, arguments, (count - 1) as nat).insert(
            params[count - 1].lexeme,
            arguments[count - 1],
        )
    }
}

/// The step of a call of `function` with `arguments`: their number must be
/// that of the parameters. A declared function runs its body in a new scope,
/// enclosed by the scope it was declared in, that binds the parameters to
/// the arguments; what is left of the call restores the caller's scope.
#[verifier::opaque]
pub open spec fn invoke(state: State, function: FunctionView, arguments: Seq<ObjectView>)
    -> Step {
    if arguments.len() != function.arity() {
        runtime(state, arity_mismatch(function.arity(), arguments.len()))
    } else {
        match function {
            FunctionView::Native { body: Native::Clock, .. } => ask(state, RequestView::Clock),
            FunctionView::User { name, params, body, closure } => if closure < state.scopes.len() {
                Step {
                    state: State {
                        environment: state.scopes.len() as usize,
                        scopes: bind(
                            environment::enclose(state.scopes, closure),
                            state.scopes.len() as usize,
                            params,
                            arguments,
                            params.len(),
                        ),
                        stack: state.stack.push(
                            FrameView::Call { previous: state.environment },
                        ).push(FrameView::Sequence { statements: body, next: 0 }),
                        control: ControlView::Value(ObjectView::Nil),
                        ..state
                    },
                    action: ActionView::Continue,
                }
            } else {
                runtime(state, "The scope of the function is gone."@)
            },
        }
    }
}

/// The state after an instance of a class is made: it has no fields yet.
pub open spec fn instantiate(state: State) -> State {
    State { fields: state.fields.push(Map::empty()), ..state }
}

/// The step of a call of `callee` with `arguments`.
#[verifier::opaque]
pub open spec fn call(state: State, callee: ObjectView, arguments: Seq<ObjectView>) -> Step {
    match callee {
        ObjectView::Callable(function) => invoke(state, function, arguments),
        ObjectView::Class(class) => proceed(
            instantiate(state),
            ControlView::Value(
                ObjectView::Instance(InstanceView { class, id: state.fields.len() as usize }),
            ),
        ),
        _ => runtime(state, "Can only call functions and classes."@),
    }
}

/// The value of the field `name` of `instance`.
pub open spec fn field(state: State, instance: InstanceView, name: Seq<char>) -> Option<
    ObjectView,
> {
    if instance.id < state.fields.len() && state.fields[instance.id as int].contains_key(name) {
        Some(state.fields[instance.id as int][name])
    } else {
        None
    }
}

/// The step of a property access on `object`.
#[verifier::opaque]
pub open spec fn get(state: State, object: ObjectView, name: TokenView) -> Step {
    match object {
        ObjectView::Instance(instance) => match field(state, instance, name.lexeme) {
            Some(value) => proceed(state, ControlView::Value(value)),
            None => runtime(state, undefined_property(name.lexeme)),
        },
        _ => runtime(state, "Only instances have properties."@),
    }
}

/// The step that hands `value` to `frame`, which has left the stack.
#[verifier::opaque]
pub open spec fn resume(state: State, frame: FrameView, value: ObjectView) -> Step {
    let nil = ControlView::Value(ObjectView::Nil);
    match frame {
        FrameView::BinaryLeft { operator, right } => descend(
            state,
            FrameView::BinaryRight { operator, left: value },
            ControlView::Eval(right),
        ),
        FrameView::BinaryRight { operator, left } => binary(
            state,
            operator.token_type,
            left,
            value,
        ),
        FrameView::Unary { operator } => unary(state, operator.token_type, value),
        FrameView::Logical { operator, right } => if short_circuits(operator.token_type, value) {
            proceed(state, ControlView::Value(value))
        } else {
            proceed(state, ControlView::Eval(right))
        },
        FrameView::Assign { name } => match state.assign(name, value) {
            Some(scopes) => proceed(State { scopes, ..state }, ControlView::Value(value)),
            None => runtime(state, undefined_variable(name.lexeme)),
        },
        FrameView::Callee { paren, arguments } => if arguments.len() == 0 {
            call(state, value, Seq::empty())
        } else {
            descend(
                state,
                FrameView::Argument { paren, callee: value, arguments, values: Seq::empty() },
                ControlView::Eval(arguments[0]),
            )
        },
        FrameView::Argument { paren, callee, arguments, values } => if values.len() + 1
            < arguments.len() {
            descend(
                state,
                FrameView::Argument { paren, callee, arguments, values: values.push(value) },
                ControlView::Eval(arguments[values.len() as int + 1]),
            )
        } else {
            call(state, callee, values.push(value))
        },
        FrameView::Get { name } => get(state, value, name),
        FrameView::Print => Step { state: state.with(nil), action: ActionView::Print(value.text()) },
        FrameView::Discard => proceed(state, nil),
        FrameView::Define { name } => proceed(state.define(name.lexeme, value), nil),
        FrameView::Sequence { statements, next } => if next < statements.len() {
            descend(
                state,
                FrameView::Sequence { statements, next: (next + 1) as usize },
                ControlView::Exec(statements[next as int]),
            )
        } else {
            proceed(state, nil)
        },
        FrameView::Scope { previous } => proceed(State { environment: previous, ..state }, nil),
        FrameView::Branch { then_branch, else_branch } => if value.truthy() {
            proceed(state, ControlView::Exec(then_branch))
        } else {
            match else_branch {
                Some(branch) => proceed(state, ControlView::Exec(branch)),
                None => proceed(state, nil),
            }
        },
        FrameView::LoopTest { condition, body } => if value.truthy() {
            descend(state, FrameView::LoopBody { condition, body }, ControlView::Exec(body))
        } else {
            proceed(state, nil)
        },
        FrameView::LoopBody { condition, body } => descend(
            state,
            FrameView::LoopTest { condition, body },
            ControlView::Eval(condition),
        ),
        FrameView::Return => proceed(state, ControlView::Unwind(value)),
        FrameView::Call { previous } => proceed(State { environment: previous, ..state }, nil),
    }
}

/// The step that carries the value of a `return` past `frame`, which has
/// left the stack. A block that is left this way restores the scope around
/// it, as it does when it ends; a call restores the scope of the caller and
/// takes the value as its result.
pub open spec fn unwind(state: State, frame: FrameView, value: ObjectView) -> Step {
    match frame {
        FrameView::Call { previous } => proceed(
            State { environment: previous, ..state },
            ControlView::Value(value),
        ),
        FrameView::Scope { previous } => proceed(
            State { environment: previous, ..state },
            ControlView::Unwind(value),
        ),
        _ => proceed(state, ControlView::Unwind(value)),
    }
}

/// The step that ends the run with `value`.
pub open spec fn finish(state: State, value: ObjectView) -> Step {
    Step { state: state.with(ControlView::Idle), action: ActionView::Finished(value) }
}

/// One step of the machine. The control is taken up; what the step does
/// with it says what comes next.
pub open spec fn step(state: State, event: Event) -> Step {
    let rest = state.with(ControlView::Idle);
    let popped = State { stack: state.stack.drop_last(), ..rest };
    match state.control {
        ControlView::Idle => finish(rest, ObjectView::Nil),
        ControlView::Eval(expr) => evaluate(rest, expr),
        ControlView::Exec(stmt) => execute(rest, stmt),
        ControlView::Value(value) => if state.stack.len() == 0 {
            finish(rest, value)
        } else {
            resume(popped, state.stack.last(), value)
        },
        ControlView::Unwind(value) => if state.stack.len() == 0 {
            finish(rest, value)
        } else {
            unwind(popped, state.stack.last(), value)
        },
        ControlView::Pending(request) => match event {
            Event::Number(bits) => proceed(rest, ControlView::Value(ObjectView::Number(bits))),
            Event::Resume => ask(rest, request),
        },
    }
}

/// The state of a new interpreter: one scope, which binds `clock`.
pub open spec fn initial() -> State {
    State {
        environment: 0,
        scopes: seq![
            ScopeView {
                enclosing: None,
                values: Map::<Seq<char>, ObjectView>::empty().insert(
                    "clock"@,
                    ObjectView::Callable(FunctionView::Native { body: Native::Clock, arity: 0 }),
                ),
            },
        ],
        fields: Seq::empty(),
        locals: Map::empty(),
        control: ControlView::Idle,
        stack: Seq::empty(),
    }
}

/// The state with nothing left to do, in the global scope.
pub open spec fn reset(state: State) -> State {
    State { environment: 0, stack: Seq::empty(), control: ControlView::Idle, ..state }
}

/// The state that is about to run `statements` in the global scope.
pub open spec fn load(state: State, statements: Seq<StmtView>) -> State {
    reset(state).push(FrameView::Sequence { statements, next: 0 }).with(
        ControlView::Value(ObjectView::Nil),
    )
}

} // verus!
