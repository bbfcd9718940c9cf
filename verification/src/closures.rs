//! Function values and the scopes they were declared in.
//!
//! The arena of scopes only grows, so the scope that a function captured
//! when it was declared is there whenever the function is called. This is
//! shown here of every state that the machine reaches by its own steps from
//! a state of which it holds.

use vstd::prelude::*;
use crate::ast::ExprView;
use crate::class::ClassView;
use crate::environment;
use crate::environment::ScopeView;
use crate::function::FunctionView;
use crate::laws::lemma_bind;
use crate::machine;
use crate::machine::{ControlView, Event, FrameView, State};
use crate::object::ObjectView;
use crate::statement::StmtView;
use crate::tokens::TokenView;

verus! {

/// Where `value` is a declared function, the scope it captured is one of
/// the first `count` scopes.
pub open spec fn closes_in(value: ObjectView, count: nat) -> bool {
    match value {
        ObjectView::Callable(FunctionView::User { closure, .. }) => closure < count,
        _ => true,
    }
}

pub open spec fn bindings_close_in(values: Map<Seq<char>, ObjectView>, count: nat) -> bool {
    forall|name: Seq<char>| values.contains_key(name) ==> closes_in(#[trigger] values[name], count)
}

pub open spec fn all_close_in(values: Seq<ObjectView>, count: nat) -> bool {
    forall|i: int| 0 <= i < values.len() ==> closes_in(#[trigger] values[i], count)
}

pub open spec fn frame_closes_in(frame: FrameView, count: nat) -> bool {
    match frame {
        FrameView::BinaryRight { left, .. } => closes_in(left, count),
        FrameView::Argument { callee, values, .. } => closes_in(callee, count) && all_close_in(
            values,
            count,
        ),
        _ => true,
    }
}

pub open spec fn control_closes_in(control: ControlView, count: nat) -> bool {
    match control {
        ControlView::Value(value) => closes_in(value, count),
        ControlView::Unwind(value) => closes_in(value, count),
        _ => true,
    }
}

pub open spec fn scopes_close_in(scopes: Seq<ScopeView>, count: nat) -> bool {
    forall|i: int| 0 <= i < scopes.len() ==> bindings_close_in((#[trigger] scopes[i]).values, count)
}

pub open spec fn fields_close_in(fields: Seq<Map<Seq<char>, ObjectView>>, count: nat) -> bool {
    forall|i: int| 0 <= i < fields.len() ==> bindings_close_in(#[trigger] fields[i], count)
}

pub open spec fn stack_closes_in(stack: Seq<FrameView>, count: nat) -> bool {
    forall|i: int| 0 <= i < stack.len() ==> frame_closes_in(#[trigger] stack[i], count)
}

/// Every function value that the state holds, in a scope, in a field, on
/// the stack or as the control, captured a scope that the state has.
pub open spec fn closed(state: State) -> bool {
    &&& scopes_close_in(state.scopes, state.scopes.len())
    &&& fields_close_in(state.fields, state.scopes.len())
    &&& stack_closes_in(state.stack, state.scopes.len())
    &&& control_closes_in(state.control, state.scopes.len())
}

/// The state of a new interpreter holds no declared function.
pub proof fn initial_state_is_closed()
    ensures
        closed(machine::initial()),
        machine::initial().wf(),
{
    let state = machine::initial();
    assert forall|i: int| 0 <= i < state.scopes.len() implies bindings_close_in(
        (#[trigger] state.scopes[i]).values,
        state.scopes.len(),
    ) by {
        assert forall|name: Seq<char>| state.scopes[i].values.contains_key(name) implies closes_in(
            #[trigger] state.scopes[i].values[name],
            state.scopes.len(),
        ) by {}
    }
}

/// A call of a function whose scope is there, with as many arguments as it
/// has parameters, does not fail.
pub proof fn calls_of_live_functions_start(
    state: State,
    function: FunctionView,
    arguments: Seq<ObjectView>,
)
    requires
        closes_in(ObjectView::Callable(function), state.scopes.len()),
        arguments.len() == function.arity(),
    ensures
        !(machine::invoke(state, function, arguments).action is Failed),
{
    reveal(machine::invoke);
}

/// What is closed in some scopes is closed in more.
proof fn more_scopes_keep_closed(state: State, count: nat)
    requires
        closed(state),
        count >= state.scopes.len(),
    ensures
        scopes_close_in(state.scopes, count),
        fields_close_in(state.fields, count),
        stack_closes_in(state.stack, count),
        control_closes_in(state.control, count),
{
    let before = state.scopes.len();
    assert forall|i: int| 0 <= i < state.scopes.len() implies bindings_close_in(
        (#[trigger] state.scopes[i]).values,
        count,
    ) by {
        assert(bindings_close_in(state.scopes[i].values, before));
        assert forall|name: Seq<char>| state.scopes[i].values.contains_key(name) implies closes_in(
            #[trigger] state.scopes[i].values[name],
            count,
        ) by {
            assert(closes_in(state.scopes[i].values[name], before));
        }
    }
    assert forall|i: int| 0 <= i < state.fields.len() implies bindings_close_in(
        #[trigger] state.fields[i],
        count,
    ) by {
        assert(bindings_close_in(state.fields[i], before));
        assert forall|name: Seq<char>| state.fields[i].contains_key(name) implies closes_in(
            #[trigger] state.fields[i][name],
            count,
        ) by {
            assert(closes_in(state.fields[i][name], before));
        }
    }
    assert forall|i: int| 0 <= i < state.stack.len() implies frame_closes_in(
        #[trigger] state.stack[i],
        count,
    ) by {
        assert(frame_closes_in(state.stack[i], before));
        match state.stack[i] {
            FrameView::Argument { values, .. } => {
                assert forall|j: int| 0 <= j < values.len() implies closes_in(
                    #[trigger] values[j],
                    count,
                ) by {
                    assert(closes_in(values[j], before));
                }
            },
            _ => {},
        }
    }
}

/// Binding a value that is closed keeps the scopes closed.
proof fn define_keeps_closed(
    scopes: Seq<ScopeView>,
    scope: usize,
    name: Seq<char>,
    value: ObjectView,
    count: nat,
)
    requires
        scopes_close_in(scopes, count),
        closes_in(value, count),
    ensures
        scopes_close_in(environment::define(scopes, scope, name, value), count),
        environment::define(scopes, scope, name, value).len() == scopes.len(),
{
    let after = environment::define(scopes, scope, name, value);
    assert forall|i: int| 0 <= i < after.len() implies bindings_close_in(
        (#[trigger] after[i]).values,
        count,
    ) by {
        assert(bindings_close_in(scopes[i].values, count));
        assert forall|other: Seq<char>| after[i].values.contains_key(other) implies closes_in(
            #[trigger] after[i].values[other],
            count,
        ) by {
            if i == scope && other == name {
            } else {
                assert(scopes[i].values.contains_key(other));
                assert(closes_in(scopes[i].values[other], count));
            }
        }
    }
}

/// What a state reads from its scopes or fields is closed.
proof fn reads_are_closed(state: State, name: TokenView)
    requires
        closed(state),
    ensures
        state.lookup(name) matches Some(value) ==> closes_in(value, state.scopes.len()),
{
    if state.locals.contains_key(name.offset) {
        match environment::ancestor(
            state.scopes,
            state.environment,
            state.locals[name.offset] as nat,
        ) {
            Some(found) => {
                ancestor_is_a_scope(
                    state.scopes,
                    state.environment,
                    state.locals[name.offset] as nat,
                );
                if state.scopes[found as int].values.contains_key(name.lexeme) {
                    assert(bindings_close_in(state.scopes[found as int].values, state.scopes.len()));
                }
            },
            None => {},
        }
    } else {
        environment::lemma_holder(state.scopes, 0, name.lexeme);
        match environment::holder(state.scopes, 0, name.lexeme) {
            Some(found) => {
                assert(bindings_close_in(state.scopes[found as int].values, state.scopes.len()));
            },
            None => {},
        }
    }
}

/// An ancestor is a scope.
pub proof fn ancestor_is_a_scope(scopes: Seq<ScopeView>, scope: usize, distance: nat)
    ensures
        environment::ancestor(scopes, scope, distance) matches Some(found) ==> found
            < scopes.len(),
    decreases distance,
{
    if scope < scopes.len() && distance > 0 {
        match scopes[scope as int].enclosing {
            Some(outer) => {
                ancestor_is_a_scope(scopes, outer, (distance - 1) as nat);
            },
            None => {},
        }
    }
}

/// Binding parameters to closed arguments keeps the scopes closed.
proof fn bind_keeps_closed(
    scopes: Seq<ScopeView>,
    scope: usize,
    params: Seq<TokenView>,
    arguments: Seq<ObjectView>,
    bound: nat,
    count: nat,
)
    requires
        scopes_close_in(scopes, count),
        all_close_in(arguments, count),
        bound <= arguments.len(),
    ensures
        scopes_close_in(machine::bind(scopes, scope, params, arguments, bound), count),
    decreases bound,
{
    if bound > 0 {
        bind_keeps_closed(scopes, scope, params, arguments, (bound - 1) as nat, count);
        assert(closes_in(arguments[bound - 1], count));
        define_keeps_closed(
            machine::bind(scopes, scope, params, arguments, (bound - 1) as nat),
            scope,
            params[bound - 1].lexeme,
            arguments[bound - 1],
            count,
        );
    }
}

/// A state with one more frame that is closed.
proof fn push_keeps_closed(state: State, frame: FrameView)
    requires
        closed(state),
        frame_closes_in(frame, state.scopes.len()),
    ensures
        closed(state.push(frame)),
{
    let next = state.push(frame);
    assert forall|i: int| 0 <= i < next.stack.len() implies frame_closes_in(
        #[trigger] next.stack[i],
        next.scopes.len(),
    ) by {
        if i < state.stack.len() {
            assert(frame_closes_in(state.stack[i], state.scopes.len()));
        }
    }
}

/// A state in which a name is bound to a closed value.
proof fn state_define_keeps_closed(state: State, scope: usize, name: Seq<char>, value: ObjectView)
    requires
        closed(state),
        closes_in(value, state.scopes.len()),
    ensures
        closed(State { scopes: environment::define(state.scopes, scope, name, value), ..state }),
{
    define_keeps_closed(state.scopes, scope, name, value, state.scopes.len());
}

/// A state with one more, empty scope.
proof fn enclose_keeps_closed(state: State, enclosing: usize)
    requires
        closed(state),
    ensures
        closed(State { scopes: environment::enclose(state.scopes, enclosing), ..state }),
{
    let next = State { scopes: environment::enclose(state.scopes, enclosing), ..state };
    more_scopes_keep_closed(state, next.scopes.len());
    assert forall|i: int| 0 <= i < next.scopes.len() implies bindings_close_in(
        (#[trigger] next.scopes[i]).values,
        next.scopes.len(),
    ) by {
        if i < state.scopes.len() {
            assert(bindings_close_in(state.scopes[i].values, next.scopes.len()));
        }
    }
}

proof fn evaluate_keeps_closed(state: State, expr: ExprView)
    requires
        state.wf(),
        closed(state),
        state.control is Idle,
    ensures
        closed(machine::evaluate(state, expr).state),
{
    reveal(machine::evaluate);
    match expr {
        ExprView::Variable { name } => {
            reads_are_closed(state, name);
        },
        ExprView::Unary { operator, right } => {
            push_keeps_closed(state, FrameView::Unary { operator });
        },
        ExprView::Binary { left, operator, right } => {
            push_keeps_closed(state, FrameView::BinaryLeft { operator, right: *right });
        },
        ExprView::Logical { left, operator, right } => {
            push_keeps_closed(state, FrameView::Logical { operator, right: *right });
        },
        ExprView::Assign { name, value } => {
            push_keeps_closed(state, FrameView::Assign { name });
        },
        ExprView::Call { callee, paren, arguments } => {
            push_keeps_closed(state, FrameView::Callee { paren, arguments });
        },
        ExprView::Get { object, name } => {
            push_keeps_closed(state, FrameView::Get { name });
        },
        _ => {},
    }
}

proof fn execute_keeps_closed(state: State, stmt: StmtView)
    requires
        state.wf(),
        closed(state),
        state.control is Idle,
    ensures
        closed(machine::execute(state, stmt).state),
{
    reveal(machine::execute);
    match stmt {
        StmtView::Print(expr) => {
            push_keeps_closed(state, FrameView::Print);
        },
        StmtView::Expression(expr) => {
            push_keeps_closed(state, FrameView::Discard);
        },
        StmtView::Variable { name, initializer } => {
            push_keeps_closed(state, FrameView::Define { name });
            state_define_keeps_closed(state, state.environment, name.lexeme, ObjectView::Nil);
        },
        StmtView::Block { statements } => {
            enclose_keeps_closed(state, state.environment);
            let grown = State {
                scopes: environment::enclose(state.scopes, state.environment),
                ..state
            };
            push_keeps_closed(grown, FrameView::Scope { previous: state.environment });
            push_keeps_closed(
                grown.push(FrameView::Scope { previous: state.environment }),
                FrameView::Sequence { statements, next: 0 },
            );
        },
        StmtView::If { condition, then_branch, else_branch } => {
            push_keeps_closed(
                state,
                FrameView::Branch {
                    then_branch: *then_branch,
                    else_branch: match else_branch {
                        Some(branch) => Some(*branch),
                        None => None,
                    },
                },
            );
        },
        StmtView::While { condition, body } => {
            push_keeps_closed(state, FrameView::LoopTest { condition, body: *body });
        },
        StmtView::Function { name, params, body } => {
            state_define_keeps_closed(
                state,
                state.environment,
                name.lexeme,
                ObjectView::Callable(
                    FunctionView::User { name, params, body, closure: state.environment },
                ),
            );
        },
        StmtView::Return { keyword, value } => {
            push_keeps_closed(state, FrameView::Return);
        },
        StmtView::Class { name, methods } => {
            state_define_keeps_closed(
                state,
                state.environment,
                name.lexeme,
                ObjectView::Class(ClassView { name: name.lexeme }),
            );
        },
    }
}

proof fn invoke_keeps_closed(state: State, function: FunctionView, arguments: Seq<ObjectView>)
    requires
        state.wf(),
        closed(state),
        state.control is Idle,
        all_close_in(arguments, state.scopes.len()),
    ensures
        closed(machine::invoke(state, function, arguments).state),
{
    reveal(machine::invoke);
    if arguments.len() == function.arity() {
        match function {
            FunctionView::User { name, params, body, closure } => {
                if closure < state.scopes.len() {
                    let next = machine::invoke(state, function, arguments).state;
                    let count = next.scopes.len();
                    let grown = State {
                        scopes: environment::enclose(state.scopes, closure),
                        ..state
                    };
                    enclose_keeps_closed(state, closure);
                    lemma_bind(
                        grown.scopes,
                        state.scopes.len() as usize,
                        params,
                        arguments,
                        params.len(),
                    );
                    assert(all_close_in(arguments, count)) by {
                        assert forall|i: int| 0 <= i < arguments.len() implies closes_in(
                            #[trigger] arguments[i],
                            count,
                        ) by {
                            assert(closes_in(arguments[i], state.scopes.len()));
                        }
                    }
                    bind_keeps_closed(
                        grown.scopes,
                        state.scopes.len() as usize,
                        params,
                        arguments,
                        params.len(),
                        count,
                    );
                    assert forall|i: int| 0 <= i < next.stack.len() implies frame_closes_in(
                        #[trigger] next.stack[i],
                        count,
                    ) by {
                        if i < state.stack.len() {
                            assert(frame_closes_in(grown.stack[i], count));
                        }
                    }
                }
            },
            _ => {},
        }
    }
}

proof fn call_keeps_closed(state: State, callee: ObjectView, arguments: Seq<ObjectView>)
    requires
        state.wf(),
        closed(state),
        state.control is Idle,
        all_close_in(arguments, state.scopes.len()),
    ensures
        closed(machine::call(state, callee, arguments).state),
{
    reveal(machine::call);
    match callee {
        ObjectView::Callable(function) => {
            invoke_keeps_closed(state, function, arguments);
        },
        ObjectView::Class(class) => {
            let next = machine::instantiate(state);
            assert forall|i: int| 0 <= i < next.fields.len() implies bindings_close_in(
                #[trigger] next.fields[i],
                next.scopes.len(),
            ) by {
                if i < state.fields.len() {
                    assert(bindings_close_in(state.fields[i], state.scopes.len()));
                }
            }
        },
        _ => {},
    }
}

proof fn resume_keeps_closed(state: State, frame: FrameView, value: ObjectView)
    requires
        state.wf(),
        closed(state),
        state.control is Idle,
        frame_closes_in(frame, state.scopes.len()),
        closes_in(value, state.scopes.len()),
    ensures
        closed(machine::resume(state, frame, value).state),
{
    reveal(machine::resume);
    reveal(machine::binary);
    reveal(machine::unary);
    reveal(machine::get);
    let count = state.scopes.len();
    match frame {
        FrameView::BinaryLeft { operator, right } => {
            push_keeps_closed(state, FrameView::BinaryRight { operator, left: value });
        },
        FrameView::Assign { name } => {
            match state.assign(name, value) {
                Some(scopes) => {
                    if state.locals.contains_key(name.offset) {
                        let found = environment::ancestor(
                            state.scopes,
                            state.environment,
                            state.locals[name.offset] as nat,
                        );
                        state_define_keeps_closed(state, found->0, name.lexeme, value);
                    } else {
                        let found = environment::holder(state.scopes, 0, name.lexeme);
                        state_define_keeps_closed(state, found->0, name.lexeme, value);
                    }
                },
                None => {},
            }
        },
        FrameView::Callee { paren, arguments } => {
            call_keeps_closed(state, value, Seq::empty());
            push_keeps_closed(
                state,
                FrameView::Argument { paren, callee: value, arguments, values: Seq::empty() },
            );
        },
        FrameView::Argument { paren, callee, arguments, values } => {
            assert(all_close_in(values.push(value), count)) by {
                assert forall|i: int| 0 <= i < values.push(value).len() implies closes_in(
                    #[trigger] values.push(value)[i],
                    count,
                ) by {
                    if i < values.len() {
                        assert(closes_in(values[i], count));
                    }
                }
            }
            call_keeps_closed(state, callee, values.push(value));
            push_keeps_closed(
                state,
                FrameView::Argument { paren, callee, arguments, values: values.push(value) },
            );
        },
        FrameView::Get { name } => {
            match value {
                ObjectView::Instance(instance) => {
                    if instance.id < state.fields.len() {
                        assert(bindings_close_in(state.fields[instance.id as int], count));
                    }
                },
                _ => {},
            }
        },
        FrameView::Define { name } => {
            state_define_keeps_closed(state, state.environment, name.lexeme, value);
        },
        FrameView::Sequence { statements, next } => {
            push_keeps_closed(
                state,
                FrameView::Sequence { statements, next: (next + 1) as usize },
            );
        },
        FrameView::LoopTest { condition, body } => {
            push_keeps_closed(state, FrameView::LoopBody { condition, body });
        },
        FrameView::LoopBody { condition, body } => {
            push_keeps_closed(state, FrameView::LoopTest { condition, body });
        },
        _ => {},
    }
}

/// No step loses the scope of a function: after a step from a state in
/// which every function value captured a scope that is there, that is so
/// again. With [`calls_of_live_functions_start`], no call that the machine
/// makes of itself fails for want of the function's scope.
pub proof fn closures_stay_live(state: State, event: Event)
    requires
        state.wf(),
        closed(state),
    ensures
        closed(machine::step(state, event).state),
{
    let rest = state.with(ControlView::Idle);
    let popped = State { stack: state.stack.drop_last(), ..rest };
    let count = state.scopes.len();
    assert(closed(rest));
    assert(rest.wf());
    match state.control {
        ControlView::Idle => {},
        ControlView::Eval(expr) => {
            evaluate_keeps_closed(rest, expr);
        },
        ControlView::Exec(stmt) => {
            execute_keeps_closed(rest, stmt);
        },
        ControlView::Value(value) => {
            if state.stack.len() > 0 {
                assert(popped.wf()) by {
                    assert forall|i: int| 0 <= i < popped.stack.len() implies popped.restores(
                        #[trigger] popped.stack[i],
                    ) by {
                        assert(state.restores(state.stack[i]));
                    }
                }
                assert(closed(popped)) by {
                    assert forall|i: int| 0 <= i < popped.stack.len() implies frame_closes_in(
                        #[trigger] popped.stack[i],
                        count,
                    ) by {
                        assert(frame_closes_in(state.stack[i], count));
                    }
                }
                assert(frame_closes_in(state.stack[state.stack.len() - 1], count));
                resume_keeps_closed(popped, state.stack.last(), value);
            }
        },
        ControlView::Unwind(value) => {
            if state.stack.len() > 0 {
                assert(closed(popped)) by {
                    assert forall|i: int| 0 <= i < popped.stack.len() implies frame_closes_in(
                        #[trigger] popped.stack[i],
                        count,
                    ) by {
                        assert(frame_closes_in(state.stack[i], count));
                    }
                }
            }
        },
        ControlView::Pending(request) => {},
    }
}

} // verus!
