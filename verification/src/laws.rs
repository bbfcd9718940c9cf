//! What holds of the machine and the grammar in every state and on every
//! input.

use vstd::prelude::*;
use crate::ast::ExprView;
use crate::environment;
use crate::errors::ErrorView;
use crate::function::FunctionView;
use crate::grammar;
use crate::machine;
use crate::machine::{ActionView, ControlView, Event, FrameView, State};
use crate::object::ObjectView;
use crate::resolution;
use crate::resolution::Resolving;
use crate::scanner;
use crate::scanner::Lexing;
use crate::statement::StmtView;
use crate::tokens::{LiteralView, TokenType, TokenView};

verus! {

/// In `a or b`, `b` is evaluated exactly where `a` is not truthy, and in
/// `a and b` exactly where `a` is truthy. Where `b` is not evaluated, the
/// value of `a` is the value of the whole, and nothing of `b` is left on
/// the stack.
pub proof fn short_circuit(state: State, operator: TokenView, right: ExprView, left: ObjectView)
    ensures
        ({
            let next = machine::resume(state, FrameView::Logical { operator, right }, left);
            let evaluates_right = next.state.control == ControlView::Eval(right);
            &&& operator.token_type == TokenType::OR ==> (evaluates_right <==> !left.truthy())
            &&& operator.token_type == TokenType::AND ==> (evaluates_right <==> left.truthy())
            &&& !evaluates_right ==> next.state.control == ControlView::Value(left)
            &&& next.state.stack == state.stack
            &&& next.state.scopes == state.scopes
            &&& next.action == ActionView::Continue
        }),
{
    reveal(machine::resume);
}

/// `!v` is `true` exactly where `v` is `nil` or `false`, so `!!v` is `true`
/// exactly where `v` is neither.
pub proof fn double_negation(state: State, value: ObjectView)
    ensures
        ({
            let once = machine::unary(state, TokenType::BANG, value);
            let negated = ObjectView::Boolean(!value.truthy());
            let twice = machine::unary(once.state, TokenType::BANG, negated);
            &&& once.state.control == ControlView::Value(negated)
            &&& twice.state.control == ControlView::Value(ObjectView::Boolean(value.truthy()))
            &&& value.truthy() <==> !(value is Nil) && value != ObjectView::Boolean(false)
        }),
{
    reveal(machine::unary);
}

/// `==` gives what [`ObjectView::equals`] says, and `!=` the opposite,
/// whatever the operands are.
pub proof fn equality_operators(state: State, left: ObjectView, right: ObjectView)
    ensures
        machine::binary(state, TokenType::EQUAL_EQUAL, left, right).state.control
            == ControlView::Value(ObjectView::Boolean(left.equals(right))),
        machine::binary(state, TokenType::BANG_EQUAL, left, right).state.control
            == ControlView::Value(ObjectView::Boolean(!left.equals(right))),
        left.equals(right) == right.equals(left),
        !left.is_nan() ==> left.equals(left),
        !left.same_kind(right) ==> !left.equals(right),
        ObjectView::Nil.equals(ObjectView::Nil),
{
    reveal(machine::binary);
}

/// A call with another number of arguments than the function has
/// parameters fails, and the error names both numbers in decimal.
pub proof fn arity_is_checked(state: State, function: FunctionView, arguments: Seq<ObjectView>)
    requires
        arguments.len() != function.arity(),
    ensures
        machine::invoke(state, function, arguments).action == ActionView::Failed(
            ErrorView::Runtime(machine::arity_mismatch(function.arity(), arguments.len())),
        ),
        machine::arity_mismatch(function.arity(), arguments.len()) == "Expected "@
            + crate::text::decimal(function.arity()) + " arguments but got "@
            + crate::text::decimal(arguments.len()) + "."@,
{
    reveal(machine::invoke);
}

/// The value of a `return` passes every frame but that of a call, which
/// takes it as the result of the call. On its way every block that it
/// leaves, and the call itself, restore the scope that was current around
/// them; no other frame changes the current scope.
pub proof fn return_unwinds_to_the_call(state: State, frame: FrameView, value: ObjectView)
    ensures
        ({
            let next = machine::unwind(state, frame, value);
            &&& frame matches FrameView::Call { previous } ==> next.state.control
                == ControlView::Value(value) && next.state.environment == previous
            &&& frame matches FrameView::Scope { previous } ==> next.state.control
                == ControlView::Unwind(value) && next.state.environment == previous
            &&& !(frame is Call) && !(frame is Scope) ==> next.state.control
                == ControlView::Unwind(value) && next.state.environment == state.environment
            &&& next.state.stack == state.stack
            &&& next.state.scopes == state.scopes
            &&& next.action == ActionView::Continue
        }),
{
}

/// A block restores the scope around it however it is left: the frame of
/// a block hands on the same scope when the block ends and when a `return`
/// passes it, and so does the frame of a call.
pub proof fn blocks_restore_their_scope(state: State, previous: usize, value: ObjectView)
    ensures
        machine::resume(state, FrameView::Scope { previous }, value).state.environment
            == previous,
        machine::unwind(state, FrameView::Scope { previous }, value).state.environment
            == previous,
        machine::resume(state, FrameView::Call { previous }, value).state.environment == previous,
        machine::unwind(state, FrameView::Call { previous }, value).state.environment == previous,
        machine::resume(state, FrameView::Call { previous }, value).state.control
            == ControlView::Value(ObjectView::Nil),
{
    reveal(machine::resume);
}

/// A function remembers the scope that it was declared in: the value that
/// its declaration binds has the current scope as its closure.
pub proof fn functions_capture_their_scope(
    state: State,
    name: TokenView,
    params: Seq<TokenView>,
    body: Seq<StmtView>,
)
    requires
        state.wf(),
    ensures
        ({
            let next = machine::execute(state, StmtView::Function { name, params, body });
            let function = ObjectView::Callable(
                FunctionView::User { name, params, body, closure: state.environment },
            );
            &&& next.state.scopes == environment::define(
                state.scopes,
                state.environment,
                name.lexeme,
                function,
            )
            &&& next.state.scopes[state.environment as int].values[name.lexeme] == function
            &&& next.state.scopes.len() == state.scopes.len()
            &&& forall|i: int|
                0 <= i < state.scopes.len() && i != state.environment
                    ==> #[trigger] next.state.scopes[i] == state.scopes[i]
            &&& forall|other: Seq<char>|
                other != name.lexeme ==> (#[trigger] next.state.scopes[state.environment as int].values.contains_key(
                    other,
                ) <==> state.scopes[state.environment as int].values.contains_key(other))
            &&& forall|other: Seq<char>|
                other != name.lexeme
                    ==> #[trigger] next.state.scopes[state.environment as int].values[other]
                    == state.scopes[state.environment as int].values[other]
            &&& next.state.environment == state.environment
            &&& next.state.stack == state.stack
            &&& next.state.control == ControlView::Value(ObjectView::Nil)
            &&& next.action == ActionView::Continue
        }),
{
    reveal(machine::execute);
}

/// A call of a declared function runs its body in a new scope whose
/// enclosing scope is the one the function was declared in, whatever the
/// scope of the caller is. The new scope binds the parameters to the
/// arguments, in order, and nothing else; no older scope changes; and what
/// is left of the call restores the scope of the caller.
pub proof fn calls_run_in_the_scope_of_the_declaration(
    state: State,
    name: TokenView,
    params: Seq<TokenView>,
    body: Seq<StmtView>,
    closure: usize,
    arguments: Seq<ObjectView>,
)
    requires
        state.wf(),
        state.scopes.len() <= usize::MAX,
        closure < state.scopes.len(),
        arguments.len() == params.len(),
    ensures
        ({
            let function = FunctionView::User { name, params, body, closure };
            let next = machine::invoke(state, function, arguments).state;
            &&& machine::invoke(state, function, arguments).action == ActionView::Continue
            &&& next.environment == state.scopes.len()
            &&& next.scopes.len() == state.scopes.len() + 1
            &&& next.scopes[next.environment as int].enclosing == Some(closure)
            &&& next.scopes[next.environment as int].values == machine::bound(
                Map::empty(),
                params,
                arguments,
                params.len(),
            )
            &&& forall|i: int|
                #![trigger params[i]]
                0 <= i < params.len() && (forall|j: int|
                    i < j < params.len() ==> params[j].lexeme != params[i].lexeme)
                    ==> next.scopes[next.environment as int].values.contains_key(
                    params[i].lexeme,
                ) && next.scopes[next.environment as int].values[params[i].lexeme] == arguments[i]
            &&& forall|i: int|
                0 <= i < state.scopes.len() ==> #[trigger] next.scopes[i] == state.scopes[i]
            &&& next.stack == state.stack.push(FrameView::Call { previous: state.environment }).push(
                FrameView::Sequence { statements: body, next: 0 },
            )
            &&& next.control == ControlView::Value(ObjectView::Nil)
        }),
{
    reveal(machine::invoke);
    let grown = environment::enclose(state.scopes, closure);
    let id = state.scopes.len() as usize;
    bind_binds_in_one_scope(grown, id, params, arguments, params.len());
    let next = machine::invoke(
        state,
        FunctionView::User { name, params, body, closure },
        arguments,
    ).state;
    assert(next.scopes == machine::bind(grown, id, params, arguments, params.len()));
    assert(grown[id as int].values == Map::<Seq<char>, ObjectView>::empty());
    assert(grown[id as int].enclosing == Some(closure));
    assert forall|i: int| 0 <= i < state.scopes.len() implies #[trigger] next.scopes[i]
        == state.scopes[i] by {
        assert(grown[i] == state.scopes[i]);
    }
    assert forall|i: int|
        #![trigger params[i]]
        0 <= i < params.len() && (forall|j: int|
            i < j < params.len() ==> params[j].lexeme != params[i].lexeme)
            implies next.scopes[next.environment as int].values.contains_key(params[i].lexeme)
        && next.scopes[next.environment as int].values[params[i].lexeme] == arguments[i] by {
        bound_holds_the_last_of_a_name(Map::empty(), params, arguments, params.len(), i);
    }
}

/// Binding parameters in a scope changes the values of that scope as
/// [`machine::bound`] says, and nothing else.
pub proof fn bind_binds_in_one_scope(
    scopes: Seq<environment::ScopeView>,
    scope: usize,
    params: Seq<TokenView>,
    arguments: Seq<ObjectView>,
    count: nat,
)
    requires
        scope < scopes.len(),
    ensures
        machine::bind(scopes, scope, params, arguments, count).len() == scopes.len(),
        machine::bind(scopes, scope, params, arguments, count)[scope as int].enclosing
            == scopes[scope as int].enclosing,
        machine::bind(scopes, scope, params, arguments, count)[scope as int].values
            == machine::bound(scopes[scope as int].values, params, arguments, count),
        forall|i: int|
            0 <= i < scopes.len() && i != scope ==> #[trigger] machine::bind(
                scopes,
                scope,
                params,
                arguments,
                count,
            )[i] == scopes[i],
    decreases count,
{
    if count > 0 {
        bind_binds_in_one_scope(scopes, scope, params, arguments, (count - 1) as nat);
    }
}

/// A parameter is bound to its argument, unless a later parameter has its
/// name.
pub proof fn bound_holds_the_last_of_a_name(
    values: Map<Seq<char>, ObjectView>,
    params: Seq<TokenView>,
    arguments: Seq<ObjectView>,
    count: nat,
    at: int,
)
    requires
        0 <= at < count,
        forall|j: int| at < j < count ==> params[j].lexeme != params[at].lexeme,
    ensures
        machine::bound(values, params, arguments, count).contains_key(params[at].lexeme),
        machine::bound(values, params, arguments, count)[params[at].lexeme] == arguments[at],
    decreases count,
{
    if at < count - 1 {
        bound_holds_the_last_of_a_name(values, params, arguments, (count - 1) as nat, at);
        assert(params[count - 1].lexeme != params[at].lexeme);
    }
}

/// Binding parameters changes nothing but the values of one scope.
pub proof fn lemma_bind(
    scopes: Seq<environment::ScopeView>,
    scope: usize,
    params: Seq<TokenView>,
    arguments: Seq<ObjectView>,
    count: nat,
)
    ensures
        machine::bind(scopes, scope, params, arguments, count).len() == scopes.len(),
        forall|i: int|
            0 <= i < scopes.len() ==> (#[trigger] machine::bind(
                scopes,
                scope,
                params,
                arguments,
                count,
            )[i]).enclosing == scopes[i].enclosing,
    decreases count,
{
    if count > 0 {
        lemma_bind(scopes, scope, params, arguments, (count - 1) as nat);
    }
}

/// `for (I; C; U) B` stands for `{ I; while (C) { B; U; } }`; without `I`
/// there is no outer block, without `C` the condition is `true`, and
/// without `U` there is no inner block.
pub proof fn for_desugaring(
    initializer: StmtView,
    condition: ExprView,
    increment: ExprView,
    body: StmtView,
)
    ensures
        grammar::desugar_for(Some(initializer), Some(condition), Some(increment), body)
            == (StmtView::Block {
            statements: seq![
                initializer,
                StmtView::While {
                    condition,
                    body: Box::new(
                        StmtView::Block { statements: seq![body, StmtView::Expression(increment)] },
                    ),
                },
            ],
        }),
        grammar::desugar_for(None, Some(condition), Some(increment), body) == (StmtView::While {
            condition,
            body: Box::new(
                StmtView::Block { statements: seq![body, StmtView::Expression(increment)] },
            ),
        }),
        grammar::desugar_for(None, None, None, body) == (StmtView::While {
            condition: ExprView::Literal { value: LiteralView::Boolean(true) },
            body: Box::new(body),
        }),
        grammar::desugar_for(Some(initializer), None, None, body) == (StmtView::Block {
            statements: seq![
                initializer,
                StmtView::While {
                    condition: ExprView::Literal { value: LiteralView::Boolean(true) },
                    body: Box::new(body),
                },
            ],
        }),
        grammar::desugar_for(None, Some(condition), None, body) == (StmtView::While {
            condition,
            body: Box::new(body),
        }),
{
    reveal(grammar::desugar_for);
}

/// No step makes a cycle of scopes, loses a scope, or leaves the machine in
/// a scope that is none.
pub proof fn step_keeps_the_scopes_sound(state: State, event: Event)
    requires
        state.wf(),
    ensures
        machine::step(state, event).state.wf(),
        machine::step(state, event).state.scopes.len() >= state.scopes.len(),
{
    let rest = state.with(ControlView::Idle);
    let popped = State { stack: state.stack.drop_last(), ..rest };
    assert(rest.wf());
    match state.control {
        ControlView::Idle => {},
        ControlView::Eval(expr) => {
            evaluate_keeps_the_scopes_sound(rest, expr);
        },
        ControlView::Exec(stmt) => {
            execute_keeps_the_scopes_sound(rest, stmt);
        },
        ControlView::Value(value) => {
            if state.stack.len() > 0 {
                assert(popped.wf()) by {
                    assert forall|i: int| 0 <= i < popped.stack.len() implies popped.restores(
                        #[trigger] popped.stack[i],
                    ) by {
                        assert(state.restores(state.stack[i]));
                    }
                }
                assert(state.restores(state.stack[state.stack.len() - 1]));
                resume_keeps_the_scopes_sound(popped, state.stack.last(), value);
            }
        },
        ControlView::Unwind(value) => {
            if state.stack.len() > 0 {
                assert(popped.wf()) by {
                    assert forall|i: int| 0 <= i < popped.stack.len() implies popped.restores(
                        #[trigger] popped.stack[i],
                    ) by {
                        assert(state.restores(state.stack[i]));
                    }
                }
                assert(state.restores(state.stack[state.stack.len() - 1]));
            }
        },
        ControlView::Pending(request) => {},
    }
}

/// A state stays sound with one more frame that restores a scope.
proof fn push_keeps_the_scopes_sound(state: State, frame: FrameView)
    requires
        state.wf(),
        state.restores(frame),
    ensures
        state.push(frame).wf(),
{
    let next = state.push(frame);
    assert forall|i: int| 0 <= i < next.stack.len() implies next.restores(
        #[trigger] next.stack[i],
    ) by {
        if i < state.stack.len() {
            assert(state.restores(state.stack[i]));
        }
    }
}

/// A state stays sound when a name is bound in a scope.
proof fn define_keeps_the_scopes_sound(
    state: State,
    scope: usize,
    name: Seq<char>,
    value: ObjectView,
)
    requires
        state.wf(),
    ensures
        (State { scopes: environment::define(state.scopes, scope, name, value), ..state }).wf(),
{
    let next = State { scopes: environment::define(state.scopes, scope, name, value), ..state };
    environment::lemma_define_keeps_chains(state.scopes, scope, name, value);
    assert forall|i: int| 0 <= i < next.stack.len() implies next.restores(
        #[trigger] next.stack[i],
    ) by {
        assert(state.restores(state.stack[i]));
    }
}

/// A state stays sound with one more scope, enclosed by a scope.
proof fn enclose_keeps_the_scopes_sound(state: State, enclosing: usize)
    requires
        state.wf(),
        enclosing < state.scopes.len(),
    ensures
        (State { scopes: environment::enclose(state.scopes, enclosing), ..state }).wf(),
{
    let next = State { scopes: environment::enclose(state.scopes, enclosing), ..state };
    environment::lemma_enclose_keeps_chains(state.scopes, enclosing);
    assert forall|i: int| 0 <= i < next.stack.len() implies next.restores(
        #[trigger] next.stack[i],
    ) by {
        assert(state.restores(state.stack[i]));
    }
}

proof fn evaluate_keeps_the_scopes_sound(state: State, expr: ExprView)
    requires
        state.wf(),
    ensures
        machine::evaluate(state, expr).state.wf(),
        machine::evaluate(state, expr).state.scopes == state.scopes,
{
    reveal(machine::evaluate);
    match expr {
        ExprView::Unary { operator, right } => {
            push_keeps_the_scopes_sound(state, FrameView::Unary { operator });
        },
        ExprView::Binary { left, operator, right } => {
            push_keeps_the_scopes_sound(state, FrameView::BinaryLeft { operator, right: *right });
        },
        ExprView::Logical { left, operator, right } => {
            push_keeps_the_scopes_sound(state, FrameView::Logical { operator, right: *right });
        },
        ExprView::Assign { name, value } => {
            push_keeps_the_scopes_sound(state, FrameView::Assign { name });
        },
        ExprView::Call { callee, paren, arguments } => {
            push_keeps_the_scopes_sound(state, FrameView::Callee { paren, arguments });
        },
        ExprView::Get { object, name } => {
            push_keeps_the_scopes_sound(state, FrameView::Get { name });
        },
        _ => {},
    }
}

proof fn execute_keeps_the_scopes_sound(state: State, stmt: StmtView)
    requires
        state.wf(),
    ensures
        machine::execute(state, stmt).state.wf(),
        machine::execute(state, stmt).state.scopes.len() >= state.scopes.len(),
{
    reveal(machine::execute);
    match stmt {
        StmtView::Print(expr) => {
            push_keeps_the_scopes_sound(state, FrameView::Print);
        },
        StmtView::Expression(expr) => {
            push_keeps_the_scopes_sound(state, FrameView::Discard);
        },
        StmtView::Variable { name, initializer } => {
            push_keeps_the_scopes_sound(state, FrameView::Define { name });
            define_keeps_the_scopes_sound(state, state.environment, name.lexeme, ObjectView::Nil);
        },
        StmtView::Block { statements } => {
            enclose_keeps_the_scopes_sound(state, state.environment);
            let grown = State {
                scopes: environment::enclose(state.scopes, state.environment),
                ..state
            };
            push_keeps_the_scopes_sound(grown, FrameView::Scope { previous: state.environment });
            push_keeps_the_scopes_sound(
                grown.push(FrameView::Scope { previous: state.environment }),
                FrameView::Sequence { statements, next: 0 },
            );
        },
        StmtView::If { condition, then_branch, else_branch } => {
            push_keeps_the_scopes_sound(
                state,
                FrameView::Branch {
                    then_branch: *then_branch,
                    else_branch: match else_branch {
                        Some(branch) => Some(*branch),
                        None => None,
                    },
                },
            );
        },
        StmtView::While { condition, body } => {
            push_keeps_the_scopes_sound(state, FrameView::LoopTest { condition, body: *body });
        },
        StmtView::Function { name, params, body } => {
            define_keeps_the_scopes_sound(
                state,
                state.environment,
                name.lexeme,
                ObjectView::Callable(
                    FunctionView::User { name, params, body, closure: state.environment },
                ),
            );
        },
        StmtView::Return { keyword, value } => {
            push_keeps_the_scopes_sound(state, FrameView::Return);
        },
        StmtView::Class { name, methods } => {
            define_keeps_the_scopes_sound(
                state,
                state.environment,
                name.lexeme,
                ObjectView::Class(crate::class::ClassView { name: name.lexeme }),
            );
        },
    }
}

proof fn invoke_keeps_the_scopes_sound(
    state: State,
    function: FunctionView,
    arguments: Seq<ObjectView>,
)
    requires
        state.wf(),
    ensures
        machine::invoke(state, function, arguments).state.wf(),
        machine::invoke(state, function, arguments).state.scopes.len() >= state.scopes.len(),
{
    reveal(machine::invoke);
    if arguments.len() == function.arity() {
        match function {
            FunctionView::User { name, params, body, closure } => {
                if closure < state.scopes.len() {
                    let grown = environment::enclose(state.scopes, closure);
                    let id = state.scopes.len() as usize;
                    environment::lemma_enclose_keeps_chains(state.scopes, closure);
                    lemma_bind(grown, id, params, arguments, params.len());
                    let next = machine::invoke(state, function, arguments).state;
                    assert forall|i: int| 0 <= i < next.scopes.len() implies ((
                    #[trigger] next.scopes[i]).enclosing matches Some(outer) ==> outer < i) by {
                        assert(next.scopes[i].enclosing == grown[i].enclosing);
                    }
                    assert forall|i: int| 0 <= i < next.stack.len() implies next.restores(
                        #[trigger] next.stack[i],
                    ) by {
                        if i < state.stack.len() {
                            assert(state.restores(state.stack[i]));
                        }
                    }
                }
            },
            _ => {},
        }
    }
}

proof fn call_keeps_the_scopes_sound(state: State, callee: ObjectView, arguments: Seq<ObjectView>)
    requires
        state.wf(),
    ensures
        machine::call(state, callee, arguments).state.wf(),
        machine::call(state, callee, arguments).state.scopes.len() >= state.scopes.len(),
{
    reveal(machine::call);
    match callee {
        ObjectView::Callable(function) => {
            invoke_keeps_the_scopes_sound(state, function, arguments);
        },
        ObjectView::Class(class) => {
            let next = machine::instantiate(state);
            assert forall|i: int| 0 <= i < next.stack.len() implies next.restores(
                #[trigger] next.stack[i],
            ) by {
                assert(state.restores(state.stack[i]));
            }
        },
        _ => {},
    }
}

proof fn resume_keeps_the_scopes_sound(state: State, frame: FrameView, value: ObjectView)
    requires
        state.wf(),
        state.restores(frame),
    ensures
        machine::resume(state, frame, value).state.wf(),
        machine::resume(state, frame, value).state.scopes.len() >= state.scopes.len(),
{
    reveal(machine::resume);
    reveal(machine::binary);
    reveal(machine::unary);
    reveal(machine::get);
    match frame {
        FrameView::BinaryLeft { operator, right } => {
            push_keeps_the_scopes_sound(state, FrameView::BinaryRight { operator, left: value });
        },
        FrameView::Assign { name } => {
            match state.assign(name, value) {
                Some(scopes) => {
                    if state.locals.contains_key(name.offset) {
                        let found = environment::ancestor(
                            state.scopes,
                            state.environment,
                            state.locals[name.offset] as nat,
                        );
                        define_keeps_the_scopes_sound(state, found->0, name.lexeme, value);
                    } else {
                        let found = environment::holder(state.scopes, 0, name.lexeme);
                        define_keeps_the_scopes_sound(state, found->0, name.lexeme, value);
                    }
                },
                None => {},
            }
        },
        FrameView::Callee { paren, arguments } => {
            call_keeps_the_scopes_sound(state, value, Seq::empty());
            push_keeps_the_scopes_sound(
                state,
                FrameView::Argument { paren, callee: value, arguments, values: Seq::empty() },
            );
        },
        FrameView::Argument { paren, callee, arguments, values } => {
            call_keeps_the_scopes_sound(state, callee, values.push(value));
            push_keeps_the_scopes_sound(
                state,
                FrameView::Argument { paren, callee, arguments, values: values.push(value) },
            );
        },
        FrameView::Define { name } => {
            define_keeps_the_scopes_sound(state, state.environment, name.lexeme, value);
        },
        FrameView::Sequence { statements, next } => {
            push_keeps_the_scopes_sound(
                state,
                FrameView::Sequence { statements, next: (next + 1) as usize },
            );
        },
        FrameView::LoopTest { condition, body } => {
            push_keeps_the_scopes_sound(state, FrameView::LoopBody { condition, body });
        },
        FrameView::LoopBody { condition, body } => {
            push_keeps_the_scopes_sound(state, FrameView::LoopTest { condition, body });
        },
        _ => {},
    }
}

/// A function has at most 255 parameters: a parameter list that parses
/// holds no more, and a 256th parameter breaks the rule.
pub proof fn parameters_are_capped(tokens: Seq<TokenView>, pos: int, found: Seq<TokenView>)
    ensures
        found.len() >= grammar::MAX_ARITY ==> grammar::parameters(tokens, pos, found).result
            == Err::<Seq<TokenView>, grammar::SyntaxError>(
            grammar::fault(pos, grammar::Rule::TooManyParameters),
        ),
        grammar::parameters(tokens, pos, found).result matches Ok(list) ==> list.len()
            <= grammar::MAX_ARITY,
    decreases grammar::remaining(tokens, pos),
{
    reveal(grammar::parameters);
    if found.len() < grammar::MAX_ARITY && grammar::check(tokens, pos, TokenType::IDENTIFIER)
        && grammar::check(tokens, pos + 1, TokenType::COMMA) {
        parameters_are_capped(tokens, pos + 2, found.push(tokens[pos]));
    }
}

/// A call has at most 255 arguments: an argument list that parses holds no
/// more, and a 256th argument breaks the rule.
pub proof fn arguments_are_capped(tokens: Seq<TokenView>, pos: int, found: Seq<ExprView>)
    ensures
        found.len() >= grammar::MAX_ARITY ==> grammar::arguments(tokens, pos, found).result
            == Err::<Seq<ExprView>, grammar::SyntaxError>(
            grammar::fault(pos, grammar::Rule::TooManyArguments),
        ),
        grammar::arguments(tokens, pos, found).result matches Ok(list) ==> list.len()
            <= grammar::MAX_ARITY,
    decreases grammar::remaining(tokens, pos),
{
    if found.len() < grammar::MAX_ARITY {
        let argument = grammar::expression(tokens, pos);
        match argument.result {
            Ok(expr) => {
                if grammar::check(tokens, pos + argument.used, TokenType::COMMA) {
                    arguments_are_capped(tokens, pos + argument.used + 1, found.push(expr));
                }
            },
            Err(_) => {},
        }
    }
}

/// Recovery from a syntax error ends at the end of the tokens, behind a
/// `;`, or before a token that begins a declaration or a statement.
pub proof fn recovery_ends_at_a_boundary(tokens: Seq<TokenView>, pos: int)
    requires
        0 <= pos,
    ensures
        grammar::boundary(tokens, pos + grammar::synchronize(tokens, pos)),
{
    reveal(grammar::synchronize);
    if !grammar::at_end(tokens, pos) {
        skip_ends_at_a_boundary(tokens, pos + 1);
    }
}

proof fn skip_ends_at_a_boundary(tokens: Seq<TokenView>, pos: int)
    ensures
        grammar::boundary(tokens, pos + grammar::skip(tokens, pos)),
    decreases grammar::remaining(tokens, pos),
{
    reveal(grammar::skip);
    if !grammar::boundary(tokens, pos) {
        skip_ends_at_a_boundary(tokens, pos + 1);
    }
}

/// `longer` begins with `shorter`.
pub open spec fn begins_with<T>(longer: Seq<T>, shorter: Seq<T>) -> bool {
    shorter.len() <= longer.len() && longer.subrange(0, shorter.len() as int) == shorter
}

proof fn begins_with_itself_and_more<T>(found: Seq<T>)
    ensures
        begins_with(found, found),
        forall|more: T| begins_with(#[trigger] found.push(more), found),
{
    assert(found.subrange(0, found.len() as int) =~= found);
    assert forall|more: T| begins_with(#[trigger] found.push(more), found) by {
        assert(found.push(more).subrange(0, found.len() as int) =~= found);
    }
}

proof fn begins_with_is_transitive<T>(longest: Seq<T>, longer: Seq<T>, shorter: Seq<T>)
    requires
        begins_with(longest, longer),
        begins_with(longer, shorter),
    ensures
        begins_with(longest, shorter),
{
    assert(longest.subrange(0, shorter.len() as int) =~= longest.subrange(
        0,
        longer.len() as int,
    ).subrange(0, shorter.len() as int));
}

/// The tokens that one piece of source text adds come behind those found
/// before.
proof fn scan_token_keeps_what_was_found(source: Seq<char>, base: usize, pos: int, state: Lexing)
    ensures
        begins_with(scanner::scan_token(source, base, pos, state).state.tokens, state.tokens),
{
    reveal(scanner::scan_token);
    reveal(scanner::string);
    reveal(scanner::number);
    reveal(scanner::identifier);
    begins_with_itself_and_more(state.tokens);
}

/// The lexer loses no token that it has found, and the last token of a
/// scan is `EOF`.
pub proof fn scan_ends_with_eof(source: Seq<char>, base: usize, pos: int, state: Lexing)
    ensures
        ({
            let scanned = scanner::scan(source, base, pos, state);
            &&& scanned.tokens.len() > state.tokens.len()
            &&& begins_with(scanned.tokens, state.tokens)
            &&& scanned.tokens.last().token_type == TokenType::EOF
        }),
    decreases
        (if pos < source.len() {
            source.len() - pos
        } else {
            0
        }),
{
    let scanned = scanner::scan(source, base, pos, state);
    if 0 <= pos < source.len() {
        let next = scanner::scan_token(source, base, pos, state);
        scan_token_keeps_what_was_found(source, base, pos, state);
        scan_ends_with_eof(source, base, pos + scanner::at_least_one(next.used), next.state);
        begins_with_is_transitive(scanned.tokens, next.state.tokens, state.tokens);
    } else {
        begins_with_itself_and_more(state.tokens);
    }
}

/// A variable may not be read in its own initializer: the use of a name
/// that the innermost scope has declared and not yet defined is an error,
/// and every other use of a variable is none.
pub proof fn own_initializer_is_rejected(state: Resolving, name: TokenView)
    ensures
        resolution::resolve_expr(state, ExprView::Variable { name }).error is Some
            <==> resolution::in_own_initializer(state, name.lexeme),
{
}

/// A name may be declared once in a block scope; outside every block scope
/// it may be declared again and again.
pub proof fn redeclaration_is_rejected_in_blocks_only(state: Resolving, name: TokenView)
    ensures
        resolution::declare(state, name).error is Some <==> state.scopes.len() > 0
            && state.scopes.last().contains_key(name.lexeme),
        resolution::declare(resolution::declare(state, name).state, name).error is Some
            <==> state.scopes.len() > 0,
{
}

/// The depth noted for a use is the number of scopes between the use and
/// the innermost scope that declares its name; a use whose name no scope
/// declares is noted nowhere.
pub proof fn depth_is_the_distance_to_the_declaration(
    scopes: Seq<Map<Seq<char>, bool>>,
    name: Seq<char>,
)
    ensures
        match resolution::depth(scopes, name) {
            Some(distance) => {
                &&& distance < scopes.len()
                &&& scopes[scopes.len() - 1 - distance].contains_key(name)
                &&& forall|nearer: int|
                    0 <= nearer < distance ==> !(#[trigger] scopes[scopes.len() - 1
                        - nearer]).contains_key(name)
            },
            None => forall|i: int| 0 <= i < scopes.len() ==> !(#[trigger] scopes[i]).contains_key(
                name,
            ),
        },
    decreases scopes.len(),
{
    if scopes.len() > 0 && !scopes.last().contains_key(name) {
        let outer = scopes.drop_last();
        depth_is_the_distance_to_the_declaration(outer, name);
        match resolution::depth(outer, name) {
            Some(distance) => {
                assert(outer[outer.len() - 1 - distance] == scopes[scopes.len() - 1 - (distance
                    + 1)]);
                assert forall|nearer: int| 0 <= nearer < distance + 1 implies !(
                #[trigger] scopes[scopes.len() - 1 - nearer]).contains_key(name) by {
                    if nearer > 0 {
                        assert(outer[outer.len() - 1 - (nearer - 1)] == scopes[scopes.len() - 1
                            - nearer]);
                    }
                }
            },
            None => {
                assert forall|i: int| 0 <= i < scopes.len() implies !(
                #[trigger] scopes[i]).contains_key(name) by {
                    if i < outer.len() {
                        assert(outer[i] == scopes[i]);
                    }
                }
            },
        }
    }
}

/// A syntax error, once reported, stays reported: whatever follows in the
/// tokens, the parse of a program ends with all the errors that it began
/// with, in their order, before any that it adds.
pub proof fn reported_errors_stay(
    tokens: Seq<TokenView>,
    pos: int,
    found: Seq<StmtView>,
    errors: Seq<grammar::SyntaxError>,
)
    ensures
        begins_with(grammar::program(tokens, pos, found, errors).errors, errors),
    decreases grammar::remaining(tokens, pos),
{
    reveal(grammar::program);
    begins_with_itself_and_more(errors);
    if !grammar::at_end(tokens, pos) {
        let item = grammar::declaration(tokens, pos, errors);
        declaration_keeps_errors(tokens, pos, errors);
        let step = grammar::at_least_one(item.used);
        let next = match item.statement {
            Some(stmt) => found.push(stmt),
            None => found,
        };
        reported_errors_stay(tokens, pos + step, next, item.errors);
        begins_with_is_transitive(
            grammar::program(tokens, pos, found, errors).errors,
            item.errors,
            errors,
        );
    }
}

/// A declaration that breaks a rule makes the parse fail, whatever follows
/// it: the parse of a program that holds one ends with more errors than it
/// began with.
pub proof fn a_broken_declaration_fails_the_parse(
    tokens: Seq<TokenView>,
    pos: int,
    found: Seq<StmtView>,
    errors: Seq<grammar::SyntaxError>,
)
    requires
        !grammar::at_end(tokens, pos),
        grammar::declaration(tokens, pos, errors).statement is None,
    ensures
        grammar::program(tokens, pos, found, errors).errors.len() > errors.len(),
{
    reveal(grammar::program);
    let item = grammar::declaration(tokens, pos, errors);
    declaration_keeps_errors(tokens, pos, errors);
    attempt_keeps_errors(tokens, pos, errors);
    let step = grammar::at_least_one(item.used);
    reported_errors_stay(tokens, pos + step, found, item.errors);
}

proof fn declaration_keeps_errors(
    tokens: Seq<TokenView>,
    pos: int,
    errors: Seq<grammar::SyntaxError>,
)
    ensures
        begins_with(grammar::declaration(tokens, pos, errors).errors, errors),
        grammar::declaration(tokens, pos, errors).statement is None ==> grammar::declaration(
            tokens,
            pos,
            errors,
        ).errors.len() > errors.len(),
    decreases grammar::remaining(tokens, pos), 70nat,
{
    let attempt = grammar::attempt(tokens, pos, errors);
    attempt_keeps_errors(tokens, pos, errors);
    begins_with_itself_and_more(attempt.errors);
    match attempt.result {
        Ok(_) => {},
        Err(error) => {
            begins_with_is_transitive(attempt.errors.push(error), attempt.errors, errors);
        },
    }
}

proof fn attempt_keeps_errors(tokens: Seq<TokenView>, pos: int, errors: Seq<grammar::SyntaxError>)
    ensures
        begins_with(grammar::attempt(tokens, pos, errors).errors, errors),
    decreases grammar::remaining(tokens, pos), 69nat,
{
    begins_with_itself_and_more(errors);
    if grammar::check(tokens, pos, TokenType::CLASS) {
        class_keeps_errors(tokens, pos + 1, errors);
    } else if grammar::check(tokens, pos, TokenType::FUN) {
        function_keeps_errors(tokens, pos + 1, grammar::FunctionKind::Function, errors);
    } else if grammar::check(tokens, pos, TokenType::VAR) {
    } else {
        statement_keeps_errors(tokens, pos, errors);
    }
}

proof fn statement_keeps_errors(
    tokens: Seq<TokenView>,
    pos: int,
    errors: Seq<grammar::SyntaxError>,
)
    ensures
        begins_with(grammar::statement(tokens, pos, errors).errors, errors),
    decreases grammar::remaining(tokens, pos), 60nat,
{
    begins_with_itself_and_more(errors);
    if grammar::check(tokens, pos, TokenType::PRINT) {
    } else if grammar::check(tokens, pos, TokenType::RETURN) {
    } else if grammar::check(tokens, pos, TokenType::WHILE) {
        while_keeps_errors(tokens, pos + 1, errors);
    } else if grammar::check(tokens, pos, TokenType::FOR) {
        for_keeps_errors(tokens, pos + 1, errors);
    } else if grammar::check(tokens, pos, TokenType::LEFT_BRACE) {
        block_keeps_errors(tokens, pos + 1, errors);
    } else if grammar::check(tokens, pos, TokenType::IF) {
        if_keeps_errors(tokens, pos + 1, errors);
    }
}

proof fn while_keeps_errors(tokens: Seq<TokenView>, pos: int, errors: Seq<grammar::SyntaxError>)
    ensures
        begins_with(grammar::while_statement(tokens, pos, errors).errors, errors),
    decreases grammar::remaining(tokens, pos), 63nat,
{
    begins_with_itself_and_more(errors);
    let condition = grammar::condition(
        tokens,
        pos,
        grammar::Rule::ExpectParenAfterWhile,
        grammar::Rule::ExpectParenAfterCondition,
    );
    if condition.result is Ok {
        statement_keeps_errors(tokens, pos + condition.used, errors);
    }
}

proof fn else_keeps_errors(tokens: Seq<TokenView>, pos: int, errors: Seq<grammar::SyntaxError>)
    ensures
        begins_with(grammar::else_branch(tokens, pos, errors).errors, errors),
    decreases grammar::remaining(tokens, pos), 61nat,
{
    begins_with_itself_and_more(errors);
    if grammar::check(tokens, pos, TokenType::ELSE) {
        statement_keeps_errors(tokens, pos + 1, errors);
    }
}

proof fn if_keeps_errors(tokens: Seq<TokenView>, pos: int, errors: Seq<grammar::SyntaxError>)
    ensures
        begins_with(grammar::if_statement(tokens, pos, errors).errors, errors),
    decreases grammar::remaining(tokens, pos), 64nat,
{
    begins_with_itself_and_more(errors);
    let condition = grammar::condition(
        tokens,
        pos,
        grammar::Rule::ExpectParenAfterIf,
        grammar::Rule::ExpectParenAfterIfCondition,
    );
    if condition.result is Ok {
        let first = grammar::statement(tokens, pos + condition.used, errors);
        statement_keeps_errors(tokens, pos + condition.used, errors);
        if first.result is Ok {
            let used = condition.used + first.used;
            else_keeps_errors(tokens, pos + used, first.errors);
            begins_with_is_transitive(
                grammar::else_branch(tokens, pos + used, first.errors).errors,
                first.errors,
                errors,
            );
        }
    }
}

proof fn for_keeps_errors(tokens: Seq<TokenView>, pos: int, errors: Seq<grammar::SyntaxError>)
    ensures
        begins_with(grammar::for_statement(tokens, pos, errors).errors, errors),
    decreases grammar::remaining(tokens, pos), 55nat,
{
    begins_with_itself_and_more(errors);
    if grammar::check(tokens, pos, TokenType::LEFT_PAREN) {
        let initializer = grammar::for_initializer(tokens, pos + 1);
        if initializer.result is Ok {
            let at_condition = 1 + initializer.used;
            let condition = grammar::clause(
                tokens,
                pos + at_condition,
                TokenType::SEMICOLON,
                grammar::Rule::ExpectSemicolonAfterLoopCondition,
            );
            if condition.result is Ok {
                let at_increment = at_condition + condition.used;
                let increment = grammar::clause(
                    tokens,
                    pos + at_increment,
                    TokenType::RIGHT_PAREN,
                    grammar::Rule::ExpectParenAfterClauses,
                );
                if increment.result is Ok {
                    statement_keeps_errors(tokens, pos + at_increment + increment.used, errors);
                }
            }
        }
    }
}

proof fn block_keeps_errors(tokens: Seq<TokenView>, pos: int, errors: Seq<grammar::SyntaxError>)
    ensures
        begins_with(grammar::block(tokens, pos, errors).errors, errors),
    decreases grammar::remaining(tokens, pos), 81nat,
{
    items_keep_errors(tokens, pos, Seq::empty(), errors);
}

proof fn items_keep_errors(
    tokens: Seq<TokenView>,
    pos: int,
    found: Seq<StmtView>,
    errors: Seq<grammar::SyntaxError>,
)
    ensures
        begins_with(grammar::block_items(tokens, pos, found, errors).errors, errors),
    decreases grammar::remaining(tokens, pos), 80nat,
{
    begins_with_itself_and_more(errors);
    if !(grammar::check(tokens, pos, TokenType::RIGHT_BRACE) || grammar::at_end(tokens, pos)) {
        let item = grammar::declaration(tokens, pos, errors);
        declaration_keeps_errors(tokens, pos, errors);
        let step = grammar::at_least_one(item.used);
        let next = match item.statement {
            Some(stmt) => found.push(stmt),
            None => found,
        };
        items_keep_errors(tokens, pos + step, next, item.errors);
        begins_with_is_transitive(
            grammar::block_items(tokens, pos, found, errors).errors,
            item.errors,
            errors,
        );
    }
}

proof fn function_keeps_errors(
    tokens: Seq<TokenView>,
    pos: int,
    kind: grammar::FunctionKind,
    errors: Seq<grammar::SyntaxError>,
)
    ensures
        begins_with(grammar::function(tokens, pos, kind, errors).errors, errors),
    decreases grammar::remaining(tokens, pos), 65nat,
{
    begins_with_itself_and_more(errors);
    if grammar::check(tokens, pos, TokenType::IDENTIFIER) && grammar::check(
        tokens,
        pos + 1,
        TokenType::LEFT_PAREN,
    ) {
        let list = grammar::parameter_list(tokens, pos + 2);
        if list.result is Ok {
            let close = 2 + list.used;
            if grammar::check(tokens, pos + close, TokenType::RIGHT_PAREN) && grammar::check(
                tokens,
                pos + close + 1,
                TokenType::LEFT_BRACE,
            ) {
                block_keeps_errors(tokens, pos + close + 2, errors);
            }
        }
    }
}

proof fn methods_keep_errors(
    tokens: Seq<TokenView>,
    pos: int,
    found: Seq<StmtView>,
    errors: Seq<grammar::SyntaxError>,
)
    ensures
        begins_with(grammar::methods(tokens, pos, found, errors).errors, errors),
    decreases grammar::remaining(tokens, pos), 66nat,
{
    begins_with_itself_and_more(errors);
    if !(grammar::check(tokens, pos, TokenType::RIGHT_BRACE) || grammar::at_end(tokens, pos)) {
        let method = grammar::function(tokens, pos, grammar::FunctionKind::Method, errors);
        function_keeps_errors(tokens, pos, grammar::FunctionKind::Method, errors);
        match method.result {
            Ok(stmt) => {
                let step = grammar::at_least_one(method.used);
                methods_keep_errors(tokens, pos + step, found.push(stmt), method.errors);
                begins_with_is_transitive(
                    grammar::methods(tokens, pos + step, found.push(stmt), method.errors).errors,
                    method.errors,
                    errors,
                );
            },
            Err(_) => {},
        }
    }
}

proof fn class_keeps_errors(tokens: Seq<TokenView>, pos: int, errors: Seq<grammar::SyntaxError>)
    ensures
        begins_with(grammar::class_declaration(tokens, pos, errors).errors, errors),
    decreases grammar::remaining(tokens, pos), 68nat,
{
    begins_with_itself_and_more(errors);
    if grammar::check(tokens, pos, TokenType::IDENTIFIER) && grammar::check(
        tokens,
        pos + 1,
        TokenType::LEFT_BRACE,
    ) {
        methods_keep_errors(tokens, pos + 2, Seq::empty(), errors);
    }
}

/// The walk over an expression declares nothing: it leaves every scope as
/// it found it.
pub proof fn expressions_declare_nothing(state: Resolving, expr: ExprView)
    ensures
        resolution::resolve_expr(state, expr).state.scopes == state.scopes,
        resolution::resolve_expr(state, expr).state.inside_function == state.inside_function,
    decreases expr, 0nat,
{
    match expr {
        ExprView::Grouping { expression } => {
            expressions_declare_nothing(state, *expression);
        },
        ExprView::Unary { right, .. } => {
            expressions_declare_nothing(state, *right);
        },
        ExprView::Binary { left, right, .. } => {
            expressions_declare_nothing(state, *left);
            expressions_declare_nothing(resolution::resolve_expr(state, *left).state, *right);
        },
        ExprView::Logical { left, right, .. } => {
            expressions_declare_nothing(state, *left);
            expressions_declare_nothing(resolution::resolve_expr(state, *left).state, *right);
        },
        ExprView::Assign { value, .. } => {
            expressions_declare_nothing(state, *value);
        },
        ExprView::Call { callee, arguments, .. } => {
            expressions_declare_nothing(state, *callee);
            expression_lists_declare_nothing(
                resolution::resolve_expr(state, *callee).state,
                arguments,
                0,
            );
        },
        ExprView::Get { object, .. } => {
            expressions_declare_nothing(state, *object);
        },
        _ => {},
    }
}

proof fn expression_lists_declare_nothing(state: Resolving, exprs: Seq<ExprView>, from: nat)
    ensures
        resolution::resolve_exprs(state, exprs, from).state.scopes == state.scopes,
        resolution::resolve_exprs(state, exprs, from).state.inside_function
            == state.inside_function,
    decreases exprs, exprs.len() - from,
{
    if from < exprs.len() {
        let first = resolution::resolve_expr(state, exprs[from as int]);
        expressions_declare_nothing(state, exprs[from as int]);
        if first.error is None {
            expression_lists_declare_nothing(first.state, exprs, from + 1);
        }
    }
}

proof fn parameters_keep_the_depth(state: Resolving, params: Seq<TokenView>, from: nat)
    ensures
        resolution::declare_params(state, params, from).state.scopes.len() == state.scopes.len(),
        resolution::declare_params(state, params, from).state.inside_function
            == state.inside_function,
    decreases params.len() - from,
{
    if from < params.len() {
        let first = resolution::declare(state, params[from as int]);
        if first.error is None {
            parameters_keep_the_depth(
                resolution::define(first.state, params[from as int]),
                params,
                from + 1,
            );
        }
    }
}

/// Scopes are opened and closed in pairs: a walk over a statement that
/// ends without an error leaves as many scopes as it found, and is inside
/// a function exactly where it was before.
pub proof fn scopes_are_balanced(state: Resolving, stmt: StmtView)
    ensures
        ({
            let walked = resolution::resolve_stmt(state, stmt);
            walked.error is None ==> walked.state.scopes.len() == state.scopes.len()
                && walked.state.inside_function == state.inside_function
        }),
    decreases stmt, 0nat,
{
    match stmt {
        StmtView::Print(expr) => {
            expressions_declare_nothing(state, expr);
        },
        StmtView::Expression(expr) => {
            expressions_declare_nothing(state, expr);
        },
        StmtView::Variable { name, initializer } => {
            let declared = resolution::declare(state, name);
            match initializer {
                Some(expr) => {
                    expressions_declare_nothing(declared.state, expr);
                },
                None => {},
            }
        },
        StmtView::Block { statements } => {
            statement_lists_are_balanced(resolution::begin_scope(state), statements, 0);
        },
        StmtView::If { condition, then_branch, else_branch } => {
            let first = resolution::resolve_expr(state, condition);
            expressions_declare_nothing(state, condition);
            let second = resolution::resolve_stmt(first.state, *then_branch);
            scopes_are_balanced(first.state, *then_branch);
            match else_branch {
                Some(branch) => {
                    scopes_are_balanced(second.state, *branch);
                },
                None => {},
            }
        },
        StmtView::While { condition, body } => {
            expressions_declare_nothing(state, condition);
            scopes_are_balanced(resolution::resolve_expr(state, condition).state, *body);
        },
        StmtView::Function { name, params, body } => {
            let declared = resolution::declare(state, name);
            functions_are_balanced(resolution::define(declared.state, name), params, body);
        },
        StmtView::Return { keyword, value } => {
            match value {
                Some(expr) => {
                    expressions_declare_nothing(state, expr);
                },
                None => {},
            }
        },
        StmtView::Class { name, methods } => {
            let declared = resolution::declare(state, name);
            methods_are_balanced(resolution::define(declared.state, name), methods, 0);
        },
    }
}

proof fn statement_lists_are_balanced(state: Resolving, stmts: Seq<StmtView>, from: nat)
    ensures
        ({
            let walked = resolution::resolve_stmts(state, stmts, from);
            walked.error is None ==> walked.state.scopes.len() == state.scopes.len()
                && walked.state.inside_function == state.inside_function
        }),
    decreases stmts, stmts.len() - from,
{
    if from < stmts.len() {
        let first = resolution::resolve_stmt(state, stmts[from as int]);
        scopes_are_balanced(state, stmts[from as int]);
        if first.error is None {
            statement_lists_are_balanced(first.state, stmts, from + 1);
        }
    }
}

proof fn functions_are_balanced(state: Resolving, params: Seq<TokenView>, body: Seq<StmtView>)
    ensures
        ({
            let walked = resolution::resolve_function(state, params, body);
            walked.error is None ==> walked.state.scopes.len() == state.scopes.len()
                && walked.state.inside_function == state.inside_function
        }),
    decreases body, body.len() + 1,
{
    let entered = Resolving { inside_function: true, ..resolution::begin_scope(state) };
    let declared = resolution::declare_params(entered, params, 0);
    parameters_keep_the_depth(entered, params, 0);
    if declared.error is None {
        statement_lists_are_balanced(declared.state, body, 0);
    }
}

proof fn methods_are_balanced(state: Resolving, methods: Seq<StmtView>, from: nat)
    ensures
        ({
            let walked = resolution::resolve_methods(state, methods, from);
            walked.error is None ==> walked.state.scopes.len() == state.scopes.len()
                && walked.state.inside_function == state.inside_function
        }),
    decreases methods, methods.len() - from,
{
    if from < methods.len() {
        let first = match methods[from as int] {
            StmtView::Function { params, body, .. } => resolution::resolve_function(
                state,
                params,
                body,
            ),
            other => resolution::resolve_stmt(state, other),
        };
        match methods[from as int] {
            StmtView::Function { params, body, .. } => {
                functions_are_balanced(state, params, body);
            },
            other => {
                scopes_are_balanced(state, other);
            },
        }
        if first.error is None {
            methods_are_balanced(first.state, methods, from + 1);
        }
    }
}

/// Noting a use changes one entry of the table and no scope, and nothing
/// that the walk does to the scopes changes the table: an entry once noted
/// is not altered by a declaration that is resolved later.
pub proof fn a_noted_depth_stays(state: Resolving, name: TokenView, later: TokenView)
    ensures
        resolution::resolve_local(state, name).scopes == state.scopes,
        resolution::resolve_local(state, name).inside_function == state.inside_function,
        resolution::resolve_local(state, name).locals == match resolution::depth(
            state.scopes,
            name.lexeme,
        ) {
            Some(distance) => state.locals.insert(name.offset, distance as usize),
            None => state.locals,
        },
        forall|offset: usize|
            offset != name.offset ==> (#[trigger] resolution::resolve_local(
                state,
                name,
            ).locals.contains_key(offset) <==> state.locals.contains_key(offset)),
        forall|offset: usize|
            offset != name.offset ==> #[trigger] resolution::resolve_local(
                state,
                name,
            ).locals[offset] == state.locals[offset],
        resolution::declare(state, later).state.locals == state.locals,
        resolution::define(state, later).locals == state.locals,
        resolution::begin_scope(state).locals == state.locals,
        resolution::end_scope(state).locals == state.locals,
{
}

/// A use that the resolver has noted is read in the scope at the noted
/// depth and in no other, whatever nearer scopes bind the name; a use that
/// it has not noted is read in the global scope. Where the name is not
/// bound there, the variable is undefined.
pub proof fn lookup_reads_at_the_noted_depth(state: State, name: TokenView)
    ensures
        state.locals.contains_key(name.offset) ==> state.lookup(name) == match environment::ancestor(
            state.scopes,
            state.environment,
            state.locals[name.offset] as nat,
        ) {
            Some(found) => if state.scopes[found as int].values.contains_key(name.lexeme) {
                Some(state.scopes[found as int].values[name.lexeme])
            } else {
                None
            },
            None => None,
        },
        !state.locals.contains_key(name.offset) ==> state.lookup(name) == environment::read(
            state.scopes,
            0,
            name.lexeme,
        ),
        machine::evaluate(state, ExprView::Variable { name }) == match state.lookup(name) {
            Some(value) => machine::proceed(state, ControlView::Value(value)),
            None => machine::fail(
                state,
                ErrorView::Runtime(crate::errors::undefined_variable(name.lexeme)),
            ),
        },
{
    reveal(machine::evaluate);
}

/// Recovery from a syntax error discards at least one token, unless none
/// is left, and stops at the first boundary behind it: at no position
/// between would parsing resume.
pub proof fn recovery_stops_at_the_first_boundary(tokens: Seq<TokenView>, pos: int)
    requires
        0 <= pos,
        !grammar::at_end(tokens, pos),
    ensures
        grammar::synchronize(tokens, pos) >= 1,
        grammar::boundary(tokens, pos + grammar::synchronize(tokens, pos)),
        forall|between: int|
            pos < between < pos + grammar::synchronize(tokens, pos) ==> !grammar::boundary(
                tokens,
                between,
            ),
{
    reveal(grammar::synchronize);
    skip_ends_at_a_boundary(tokens, pos + 1);
    assert forall|between: int|
        pos < between < pos + grammar::synchronize(tokens, pos) implies !grammar::boundary(
        tokens,
        between,
    ) by {
        skip_passes_no_boundary(tokens, pos + 1, between);
    }
}

proof fn skip_passes_no_boundary(tokens: Seq<TokenView>, pos: int, between: int)
    requires
        pos <= between < pos + grammar::skip(tokens, pos),
    ensures
        !grammar::boundary(tokens, between),
    decreases grammar::remaining(tokens, pos),
{
    reveal(grammar::skip);
    if between > pos {
        skip_passes_no_boundary(tokens, pos + 1, between);
    }
}

/// A `for` loop that parses is the loop that its parts stand for: the
/// parse of the initializer, of the condition, of the increment and of the
/// body, put together as [`grammar::desugar_for`] says, and it spans the
/// parenthesis and its parts.
pub proof fn for_statement_builds_the_loop(
    tokens: Seq<TokenView>,
    pos: int,
    errors: Seq<grammar::SyntaxError>,
)
    requires
        grammar::for_statement(tokens, pos, errors).result is Ok,
    ensures
        ({
            let initializer = grammar::for_initializer(tokens, pos + 1);
            let condition = grammar::clause(
                tokens,
                pos + 1 + initializer.used,
                TokenType::SEMICOLON,
                grammar::Rule::ExpectSemicolonAfterLoopCondition,
            );
            let increment = grammar::clause(
                tokens,
                pos + 1 + initializer.used + condition.used,
                TokenType::RIGHT_PAREN,
                grammar::Rule::ExpectParenAfterClauses,
            );
            let body = grammar::statement(
                tokens,
                pos + 1 + initializer.used + condition.used + increment.used,
                errors,
            );
            let parsed = grammar::for_statement(tokens, pos, errors);
            &&& grammar::check(tokens, pos, TokenType::LEFT_PAREN)
            &&& initializer.result is Ok
            &&& condition.result is Ok
            &&& increment.result is Ok
            &&& body.result is Ok
            &&& parsed.result == Ok::<StmtView, grammar::SyntaxError>(
                grammar::desugar_for(
                    initializer.result->Ok_0,
                    condition.result->Ok_0,
                    increment.result->Ok_0,
                    body.result->Ok_0,
                ),
            )
            &&& parsed.used == 1 + initializer.used + condition.used + increment.used + body.used
            &&& parsed.errors == body.errors
        }),
{
}

/// The scope that is current when all of `stack` has been left, from the
/// top down, beginning in `environment`: every block and every call on the
/// way restores the scope around it.
pub open spec fn scope_at_the_end(stack: Seq<FrameView>, environment: usize) -> usize
    decreases stack.len(),
{
    if stack.len() == 0 {
        environment
    } else {
        match stack.last() {
            FrameView::Scope { previous } => scope_at_the_end(stack.drop_last(), previous),
            FrameView::Call { previous } => scope_at_the_end(stack.drop_last(), previous),
            _ => scope_at_the_end(stack.drop_last(), environment),
        }
    }
}

/// The run that the state is in began in the global scope and will end
/// there; a machine that does nothing has nothing left to do.
pub open spec fn grounded(state: State) -> bool {
    &&& scope_at_the_end(state.stack, state.environment) == 0
    &&& state.control is Idle ==> state.stack.len() == 0
}

/// A new interpreter, an interpreter that has been given a program, and one
/// that has been reset are in the global scope.
pub proof fn runs_begin_in_the_global_scope(state: State, statements: Seq<StmtView>)
    ensures
        grounded(machine::initial()),
        grounded(machine::reset(state)),
        grounded(machine::load(state, statements)),
        forall|control: ControlView|
            !(control is Idle) ==> grounded(#[trigger] machine::reset(state).with(control)),
{
    let loaded = machine::load(state, statements);
    assert(loaded.stack.drop_last() =~= Seq::<FrameView>::empty());
}

/// A block entered in any scope, and a call of any function, leave the
/// scope at the end of the run as it was.
pub proof fn blocks_and_calls_keep_the_end(
    state: State,
    statements: Seq<StmtView>,
    scope: usize,
    function: FunctionView,
    arguments: Seq<ObjectView>,
)
    requires
        grounded(state),
    ensures
        grounded(machine::enter(state, statements, scope)),
        grounded(machine::invoke(state, function, arguments).state),
{
    entering_keeps_the_end(state, statements, scope);
    reveal(machine::invoke);
    let next = machine::invoke(state, function, arguments).state;
    if arguments.len() == function.arity() {
        match function {
            FunctionView::User { name, params, body, closure } => {
                if closure < state.scopes.len() {
                    a_restoring_frame_ends_where_it_restores(
                        state.stack,
                        FrameView::Call { previous: state.environment },
                        state.environment,
                        body,
                        next.environment,
                    );
                }
            },
            _ => {},
        }
    }
}

/// A frame that restores `previous`, with a sequence of statements above
/// it, ends where the stack below ends from `previous`.
proof fn a_restoring_frame_ends_where_it_restores(
    stack: Seq<FrameView>,
    frame: FrameView,
    previous: usize,
    statements: Seq<StmtView>,
    environment: usize,
)
    requires
        frame == (FrameView::Scope { previous }) || frame == (FrameView::Call { previous }),
    ensures
        scope_at_the_end(
            stack.push(frame).push(FrameView::Sequence { statements, next: 0 }),
            environment,
        ) == scope_at_the_end(stack, previous),
{
    let first = stack.push(frame);
    let second = first.push(FrameView::Sequence { statements, next: 0 });
    assert(second.drop_last() =~= first);
    assert(scope_at_the_end(second, environment) == scope_at_the_end(first, environment));
    assert(first.drop_last() =~= stack);
    assert(scope_at_the_end(first, environment) == scope_at_the_end(stack, previous));
}

proof fn entering_keeps_the_end(state: State, statements: Seq<StmtView>, scope: usize)
    ensures
        scope_at_the_end(
            machine::enter(state, statements, scope).stack,
            machine::enter(state, statements, scope).environment,
        ) == scope_at_the_end(state.stack, state.environment),
        !(machine::enter(state, statements, scope).control is Idle),
{
    a_restoring_frame_ends_where_it_restores(
        state.stack,
        FrameView::Scope { previous: state.environment },
        state.environment,
        statements,
        scope,
    );
}

/// A frame that restores no scope leaves the scope at the end as it is.
proof fn pushing_keeps_the_end(state: State, frame: FrameView)
    requires
        !(frame is Scope),
        !(frame is Call),
    ensures
        scope_at_the_end(state.push(frame).stack, state.environment) == scope_at_the_end(
            state.stack,
            state.environment,
        ),
{
    assert(state.push(frame).stack.drop_last() =~= state.stack);
}

proof fn evaluate_keeps_the_end(state: State, expr: ExprView)
    requires
        scope_at_the_end(state.stack, state.environment) == 0,
    ensures
        grounded(machine::evaluate(state, expr).state) || machine::evaluate(
            state,
            expr,
        ).state.control is Idle,
        scope_at_the_end(
            machine::evaluate(state, expr).state.stack,
            machine::evaluate(state, expr).state.environment,
        ) == 0,
        machine::evaluate(state, expr).state.control is Idle ==> machine::evaluate(
            state,
            expr,
        ).state.stack.len() == 0,
{
    reveal(machine::evaluate);
    match expr {
        ExprView::Unary { operator, right } => {
            pushing_keeps_the_end(state, FrameView::Unary { operator });
        },
        ExprView::Binary { left, operator, right } => {
            pushing_keeps_the_end(state, FrameView::BinaryLeft { operator, right: *right });
        },
        ExprView::Logical { left, operator, right } => {
            pushing_keeps_the_end(state, FrameView::Logical { operator, right: *right });
        },
        ExprView::Assign { name, value } => {
            pushing_keeps_the_end(state, FrameView::Assign { name });
        },
        ExprView::Call { callee, paren, arguments } => {
            pushing_keeps_the_end(state, FrameView::Callee { paren, arguments });
        },
        ExprView::Get { object, name } => {
            pushing_keeps_the_end(state, FrameView::Get { name });
        },
        _ => {},
    }
}

proof fn execute_keeps_the_end(state: State, stmt: StmtView)
    requires
        scope_at_the_end(state.stack, state.environment) == 0,
    ensures
        scope_at_the_end(
            machine::execute(state, stmt).state.stack,
            machine::execute(state, stmt).state.environment,
        ) == 0,
        !(machine::execute(state, stmt).state.control is Idle),
{
    reveal(machine::execute);
    match stmt {
        StmtView::Print(expr) => {
            pushing_keeps_the_end(state, FrameView::Print);
        },
        StmtView::Expression(expr) => {
            pushing_keeps_the_end(state, FrameView::Discard);
        },
        StmtView::Variable { name, initializer } => {
            pushing_keeps_the_end(state, FrameView::Define { name });
        },
        StmtView::Block { statements } => {
            entering_keeps_the_end(
                State { scopes: environment::enclose(state.scopes, state.environment), ..state },
                statements,
                state.scopes.len() as usize,
            );
        },
        StmtView::If { condition, then_branch, else_branch } => {
            pushing_keeps_the_end(
                state,
                FrameView::Branch {
                    then_branch: *then_branch,
                    else_branch: match else_branch {
                        Some(branch) => Some(*branch),
                        None => None,
                    },
                },
            );
        },
        StmtView::While { condition, body } => {
            pushing_keeps_the_end(state, FrameView::LoopTest { condition, body: *body });
        },
        StmtView::Return { keyword, value } => {
            pushing_keeps_the_end(state, FrameView::Return);
        },
        _ => {},
    }
}

proof fn call_keeps_the_end(state: State, callee: ObjectView, arguments: Seq<ObjectView>)
    requires
        scope_at_the_end(state.stack, state.environment) == 0,
    ensures
        scope_at_the_end(
            machine::call(state, callee, arguments).state.stack,
            machine::call(state, callee, arguments).state.environment,
        ) == 0,
        machine::call(state, callee, arguments).state.control is Idle ==> machine::call(
            state,
            callee,
            arguments,
        ).state.stack.len() == 0,
{
    reveal(machine::call);
    reveal(machine::invoke);
    match callee {
        ObjectView::Callable(function) => {
            let next = machine::invoke(state, function, arguments).state;
            if arguments.len() == function.arity() {
                match function {
                    FunctionView::User { name, params, body, closure } => {
                        if closure < state.scopes.len() {
                            a_restoring_frame_ends_where_it_restores(
                                state.stack,
                                FrameView::Call { previous: state.environment },
                                state.environment,
                                body,
                                next.environment,
                            );
                        }
                    },
                    _ => {},
                }
            }
        },
        _ => {},
    }
}

proof fn resume_keeps_the_end(state: State, frame: FrameView, value: ObjectView)
    requires
        scope_at_the_end(state.stack.push(frame), state.environment) == 0,
    ensures
        scope_at_the_end(
            machine::resume(state, frame, value).state.stack,
            machine::resume(state, frame, value).state.environment,
        ) == 0,
        machine::resume(state, frame, value).state.control is Idle ==> machine::resume(
            state,
            frame,
            value,
        ).state.stack.len() == 0,
{
    reveal(machine::resume);
    reveal(machine::binary);
    reveal(machine::unary);
    reveal(machine::get);
    assert(state.stack.push(frame).drop_last() =~= state.stack);
    match frame {
        FrameView::BinaryLeft { operator, right } => {
            pushing_keeps_the_end(state, FrameView::BinaryRight { operator, left: value });
        },
        FrameView::Callee { paren, arguments } => {
            call_keeps_the_end(state, value, Seq::empty());
            pushing_keeps_the_end(
                state,
                FrameView::Argument { paren, callee: value, arguments, values: Seq::empty() },
            );
        },
        FrameView::Argument { paren, callee, arguments, values } => {
            call_keeps_the_end(state, callee, values.push(value));
            pushing_keeps_the_end(
                state,
                FrameView::Argument { paren, callee, arguments, values: values.push(value) },
            );
        },
        FrameView::Sequence { statements, next } => {
            pushing_keeps_the_end(
                state,
                FrameView::Sequence { statements, next: (next + 1) as usize },
            );
        },
        FrameView::LoopTest { condition, body } => {
            pushing_keeps_the_end(state, FrameView::LoopBody { condition, body });
        },
        FrameView::LoopBody { condition, body } => {
            pushing_keeps_the_end(state, FrameView::LoopTest { condition, body });
        },
        _ => {},
    }
}

/// Every run ends in the scope it began in. A step keeps what the scope at
/// the end of the run will be, so when a run that began in the global scope
/// is finished, by its last statement, by a `return` or by a failure,
/// nothing is left on the stack and the global scope is current.
pub proof fn runs_end_in_the_global_scope(state: State, event: Event)
    requires
        grounded(state),
    ensures
        grounded(machine::step(state, event).state),
        machine::step(state, event).action is Finished || machine::step(state, event).action
            is Failed ==> machine::step(state, event).state.environment == 0 && machine::step(
            state,
            event,
        ).state.stack.len() == 0 && machine::step(state, event).state.control is Idle,
{
    let rest = state.with(ControlView::Idle);
    let popped = State { stack: state.stack.drop_last(), ..rest };
    reveal(machine::evaluate);
    reveal(machine::execute);
    reveal(machine::resume);
    reveal(machine::binary);
    reveal(machine::unary);
    reveal(machine::get);
    reveal(machine::call);
    reveal(machine::invoke);
    match state.control {
        ControlView::Idle => {},
        ControlView::Eval(expr) => {
            evaluate_keeps_the_end(rest, expr);
        },
        ControlView::Exec(stmt) => {
            execute_keeps_the_end(rest, stmt);
        },
        ControlView::Value(value) => {
            if state.stack.len() > 0 {
                assert(popped.stack.push(state.stack.last()) =~= state.stack);
                resume_keeps_the_end(popped, state.stack.last(), value);
            }
        },
        ControlView::Unwind(value) => {
            if state.stack.len() > 0 {
                assert(popped.stack.push(state.stack.last()) =~= state.stack);
            }
        },
        ControlView::Pending(request) => {},
    }
}

} // verus!
