//! Environments: the scopes of a running program.
//!
//! All scopes live in one arena and name each other by index. A scope's
//! enclosing scope is always older than the scope itself, so the chain from
//! any scope outwards is finite, whatever closures hold on to.

use vstd::prelude::*;
use crate::errors::{undefined_variable, Error, ErrorView};
use crate::object::{Object, ObjectView};
use crate::tokens::Token;

verus! {

/// The names that one scope binds, with their values.
#[derive(Debug)]
pub struct Bindings<'a> {
    names: Vec<String>,
    values: Vec<Object<'a>>,
}

/// The map that a list of bindings stands for: a later binding of a name
/// replaces an earlier one.
pub open spec fn bindings_map<V>(names: Seq<Seq<char>>, values: Seq<V>) -> Map<Seq<char>, V>
    decreases names.len(),
{
    if names.len() == 0 {
        Map::empty()
    } else {
        bindings_map(names.drop_last(), values.drop_last()).insert(names.last(), values.last())
    }
}

/// `name` stands somewhere in `names`.
pub open spec fn listed(names: Seq<Seq<char>>, name: Seq<char>) -> bool {
    exists|i: int| 0 <= i < names.len() && names[i] == name
}

/// A name is bound exactly where it is in the list.
pub proof fn lemma_bindings_contains<V>(names: Seq<Seq<char>>, values: Seq<V>, name: Seq<char>)
    ensures
        bindings_map(names, values).contains_key(name) <==> listed(names, name),
    decreases names.len(),
{
    if names.len() > 0 {
        lemma_bindings_contains(names.drop_last(), values.drop_last(), name);
        let last = names.len() - 1;
        if names.last() == name {
            assert(names[last] == name);
        } else {
            if listed(names, name) {
                let i = choose|i: int| 0 <= i < names.len() && names[i] == name;
                assert(names.drop_last()[i] == name);
            }
            if listed(names.drop_last(), name) {
                let i = choose|i: int|
                    0 <= i < names.drop_last().len() && names.drop_last()[i] == name;
                assert(names[i] == name);
            }
        }
    }
}

/// A name is bound to the value at its last place in the list.
pub proof fn lemma_bindings_value<V>(
    names: Seq<Seq<char>>,
    values: Seq<V>,
    name: Seq<char>,
    at: int,
)
    requires
        names.len() == values.len(),
        0 <= at < names.len(),
        names[at] == name,
        forall|j: int| at < j < names.len() ==> names[j] != name,
    ensures
        bindings_map(names, values)[name] == values[at],
    decreases names.len(),
{
    let last = names.len() - 1;
    if at < last {
        assert(names[last] != name);
        lemma_bindings_value(names.drop_last(), values.drop_last(), name, at);
    }
}

/// A new value at the last place of a name replaces the name's value.
pub proof fn lemma_bindings_update<V>(
    names: Seq<Seq<char>>,
    values: Seq<V>,
    at: int,
    value: V,
)
    requires
        names.len() == values.len(),
        0 <= at < names.len(),
        forall|j: int| at < j < names.len() ==> names[j] != names[at],
    ensures
        bindings_map(names, values.update(at, value)) == bindings_map(names, values).insert(
            names[at],
            value,
        ),
    decreases names.len(),
{
    let last = names.len() - 1;
    if at == last {
        assert(values.update(at, value).drop_last() =~= values.drop_last());
        assert(bindings_map(names, values.update(at, value)) =~= bindings_map(
            names,
            values,
        ).insert(names[at], value));
    } else {
        assert(names[last] != names[at]);
        lemma_bindings_update(names.drop_last(), values.drop_last(), at, value);
        assert(values.update(at, value).drop_last() =~= values.drop_last().update(at, value));
        assert(bindings_map(names, values.update(at, value)) =~= bindings_map(
            names,
            values,
        ).insert(names[at], value));
    }
}

impl<'a> Bindings<'a> {
    pub closed spec fn names(&self) -> Seq<Seq<char>> {
        self.names@.map_values(|name: String| name@)
    }

    pub closed spec fn values(&self) -> Seq<ObjectView> {
        self.values@.map_values(|value: Object<'a>| value@)
    }

    /// Every name has its value.
    pub closed spec fn wf(&self) -> bool {
        self.names.len() == self.values.len()
    }

    /// No bindings.
    pub fn new() -> (bindings: Self)
        ensures
            bindings.wf(),
            bindings@ == Map::<Seq<char>, ObjectView>::empty(),
    {
        Bindings { names: Vec::new(), values: Vec::new() }
    }

    /// The last place of `name` in the list.
    fn find(&self, name: &String) -> (place: Option<usize>)
        requires
            self.wf(),
        ensures
            match place {
                Some(at) => at < self.names.len() && self.names()[at as int] == name@ && forall|
                    j: int,
                |
                    at < j < self.names.len() ==> self.names()[j] != name@,
                None => forall|j: int| 0 <= j < self.names.len() ==> self.names()[j] != name@,
            },
    {
        let mut at: usize = self.names.len();
        while at > 0
            invariant
                at <= self.names.len(),
                forall|j: int| at <= j < self.names.len() ==> self.names()[j] != name@,
            decreases at,
        {
            at -= 1;
            if self.names[at] == *name {
                return Some(at);
            }
        }
        None
    }

    /// The value of `name`, where it is bound.
    pub fn get(&self, name: &String) -> (value: Option<Object<'a>>)
        requires
            self.wf(),
        ensures
            match value {
                Some(found) => self@.contains_key(name@) && found@ == self@[name@],
                None => !self@.contains_key(name@),
            },
    {
        proof {
            lemma_bindings_contains(self.names(), self.values(), name@);
        }
        match self.find(name) {
            Some(at) => {
                proof {
                    lemma_bindings_value(self.names(), self.values(), name@, at as int);
                }
                Some(self.values[at].clone())
            },
            None => None,
        }
    }

    /// Whether `name` is bound.
    pub fn contains(&self, name: &String) -> (yes: bool)
        requires
            self.wf(),
        ensures
            yes == self@.contains_key(name@),
    {
        proof {
            lemma_bindings_contains(self.names(), self.values(), name@);
        }
        self.find(name).is_some()
    }

    /// Binds `name` to `value`, in place of what it was bound to.
    pub fn set(&mut self, name: String, value: Object<'a>)
        requires
            old(self).wf(),
        ensures
            final(self).wf(),
            final(self)@ == old(self)@.insert(name@, value@),
    {
        match self.find(&name) {
            Some(at) => {
                proof {
                    lemma_bindings_update(self.names(), self.values(), at as int, value@);
                }
                self.values.set(at, value);
                assert(self.values() =~= old(self).values().update(at as int, value@));
            },
            None => {
                self.names.push(name);
                self.values.push(value);
                assert(self.names().drop_last() =~= old(self).names());
                assert(self.values().drop_last() =~= old(self).values());
            },
        }
    }
}

impl<'a> View for Bindings<'a> {
    type V = Map<Seq<char>, ObjectView>;

    closed spec fn view(&self) -> Map<Seq<char>, ObjectView> {
        bindings_map(self.names(), self.values())
    }
}

/// One scope: its bindings and the scope that encloses it.
#[derive(Debug)]
pub struct Scope<'a> {
    enclosing: Option<usize>,
    bindings: Bindings<'a>,
}

/// The mathematical model of a [`Scope`].
pub struct ScopeView {
    pub enclosing: Option<usize>,
    pub values: Map<Seq<char>, ObjectView>,
}

impl<'a> View for Scope<'a> {
    type V = ScopeView;

    closed spec fn view(&self) -> ScopeView {
        ScopeView { enclosing: self.enclosing, values: self.bindings@ }
    }
}

/// The scope `distance` steps outwards from `scope`.
pub open spec fn ancestor(scopes: Seq<ScopeView>, scope: usize, distance: nat) -> Option<usize>
    decreases distance,
{
    if scope >= scopes.len() {
        None
    } else if distance == 0 {
        Some(scope)
    } else {
        match scopes[scope as int].enclosing {
            Some(outer) => ancestor(scopes, outer, (distance - 1) as nat),
            None => None,
        }
    }
}

/// The nearest scope, from `scope` outwards, that binds `name`.
pub open spec fn holder(scopes: Seq<ScopeView>, scope: usize, name: Seq<char>) -> Option<usize>
    decreases scope,
{
    if scope >= scopes.len() {
        None
    } else if scopes[scope as int].values.contains_key(name) {
        Some(scope)
    } else {
        match scopes[scope as int].enclosing {
            Some(outer) => if outer < scope {
                holder(scopes, outer, name)
            } else {
                None
            },
            None => None,
        }
    }
}

/// The scope that holds a name is a scope, no younger than the one the
/// search began in, and binds the name.
pub proof fn lemma_holder(scopes: Seq<ScopeView>, scope: usize, name: Seq<char>)
    ensures
        holder(scopes, scope, name) matches Some(found) ==> found <= scope && found < scopes.len()
            && scopes[found as int].values.contains_key(name),
    decreases scope,
{
    if scope < scopes.len() && !scopes[scope as int].values.contains_key(name) {
        match scopes[scope as int].enclosing {
            Some(outer) => {
                if outer < scope {
                    lemma_holder(scopes, outer, name);
                }
            },
            None => {},
        }
    }
}

/// The scopes after `name` is bound to `value` in `scope`.
pub open spec fn define(scopes: Seq<ScopeView>, scope: usize, name: Seq<char>, value: ObjectView)
    -> Seq<ScopeView> {
    if scope < scopes.len() {
        scopes.update(
            scope as int,
            ScopeView {
                enclosing: scopes[scope as int].enclosing,
                values: scopes[scope as int].values.insert(name, value),
            },
        )
    } else {
        scopes
    }
}

/// The value of `name` as seen from `scope`.
pub open spec fn read(scopes: Seq<ScopeView>, scope: usize, name: Seq<char>) -> Option<
    ObjectView,
> {
    match holder(scopes, scope, name) {
        Some(found) => Some(scopes[found as int].values[name]),
        None => None,
    }
}

/// The value of `name` in the scope `distance` steps outwards from `scope`.
pub open spec fn read_at(scopes: Seq<ScopeView>, scope: usize, distance: nat, name: Seq<char>)
    -> Option<ObjectView> {
    match ancestor(scopes, scope, distance) {
        Some(found) => if scopes[found as int].values.contains_key(name) {
            Some(scopes[found as int].values[name])
        } else {
            None
        },
        None => None,
    }
}

/// The scopes after `value` is assigned to `name` as seen from `scope`.
pub open spec fn write(scopes: Seq<ScopeView>, scope: usize, name: Seq<char>, value: ObjectView)
    -> Option<Seq<ScopeView>> {
    match holder(scopes, scope, name) {
        Some(found) => Some(define(scopes, found, name, value)),
        None => None,
    }
}

/// The scopes after `value` is assigned to `name` in the scope `distance`
/// steps outwards from `scope`.
pub open spec fn write_at(
    scopes: Seq<ScopeView>,
    scope: usize,
    distance: nat,
    name: Seq<char>,
    value: ObjectView,
) -> Option<Seq<ScopeView>> {
    match ancestor(scopes, scope, distance) {
        Some(found) => Some(define(scopes, found, name, value)),
        None => None,
    }
}

/// The scopes with one more, empty and enclosed by `enclosing`.
pub open spec fn enclose(scopes: Seq<ScopeView>, enclosing: usize) -> Seq<ScopeView> {
    scopes.push(ScopeView { enclosing: Some(enclosing), values: Map::empty() })
}

/// Every scope is enclosed by an older one: no chain of scopes is a cycle.
pub open spec fn acyclic(scopes: Seq<ScopeView>) -> bool {
    forall|i: int|
        0 <= i < scopes.len() ==> ((#[trigger] scopes[i]).enclosing matches Some(outer) ==> outer
            < i)
}

/// The arena of all scopes. Scope 0 is the global scope.
#[derive(Debug)]
pub struct Environment<'a> {
    scopes: Vec<Scope<'a>>,
}

impl<'a> View for Environment<'a> {
    type V = Seq<ScopeView>;

    closed spec fn view(&self) -> Seq<ScopeView> {
        self.scopes@.map_values(|scope: Scope<'a>| scope@)
    }
}

impl<'a> Environment<'a> {
    /// There is a global scope, every scope's bindings are well formed, and
    /// no chain of scopes is a cycle.
    pub closed spec fn wf(&self) -> bool {
        &&& self.scopes.len() > 0
        &&& forall|i: int| 0 <= i < self.scopes.len() ==> (#[trigger] self.scopes[i]).bindings.wf()
        &&& acyclic(self@)
    }

    /// What well-formedness says of the model.
    pub proof fn lemma_wf(&self)
        requires
            self.wf(),
        ensures
            self@.len() > 0,
            acyclic(self@),
    {
    }

    /// An environment of one scope, the global one, which binds nothing.
    pub fn new() -> (environment: Self)
        ensures
            environment.wf(),
            environment@ == seq![ScopeView { enclosing: None, values: Map::empty() }],
    {
        let mut scopes: Vec<Scope<'a>> = Vec::new();
        scopes.push(Scope { enclosing: None, bindings: Bindings::new() });
        let environment = Environment { scopes };
        assert(environment@ =~= seq![ScopeView { enclosing: None, values: Map::empty() }]);
        environment
    }

    /// The number of scopes.
    pub fn len(&self) -> (count: usize)
        ensures
            count == self@.len(),
    {
        self.scopes.len()
    }

    /// A new, empty scope enclosed by the scope `enclosing`.
    pub fn nest(&mut self, enclosing: usize) -> (scope: usize)
        requires
            old(self).wf(),
            enclosing < old(self)@.len(),
        ensures
            final(self).wf(),
            scope == old(self)@.len(),
            final(self)@ == enclose(old(self)@, enclosing),
    {
        let scope: usize = self.scopes.len();
        self.scopes.push(Scope { enclosing: Some(enclosing), bindings: Bindings::new() });
        assert(self@ =~= enclose(old(self)@, enclosing));
        scope
    }

    /// A new, empty scope enclosed by `enclosing`; `None` where `enclosing`
    /// is no scope.
    pub fn enclose(&mut self, enclosing: usize) -> (scope: Option<usize>)
        requires
            old(self).wf(),
        ensures
            final(self).wf(),
            match scope {
                Some(id) => enclosing < old(self)@.len() && id == old(self)@.len() && final(self)@
                    == enclose(old(self)@, enclosing),
                None => enclosing >= old(self)@.len() && final(self)@ == old(self)@,
            },
    {
        if enclosing < self.scopes.len() {
            Some(self.nest(enclosing))
        } else {
            None
        }
    }

    /// Binds `name` to `value` in `scope`; nothing where `scope` is no scope.
    pub fn define(&mut self, scope: usize, name: String, value: Object<'a>)
        requires
            old(self).wf(),
        ensures
            final(self).wf(),
            final(self)@ == define(old(self)@, scope, name@, value@),
    {
        if scope < self.scopes.len() {
            let ghost before = self.scopes@;
            let mut slot = Scope { enclosing: None, bindings: Bindings::new() };
            core::mem::swap(&mut self.scopes[scope], &mut slot);
            slot.bindings.set(name, value);
            self.scopes.set(scope, slot);
            assert(self@ =~= define(old(self)@, scope, name@, value@));
            assert forall|i: int| 0 <= i < self.scopes.len() implies (
            #[trigger] self.scopes[i]).bindings.wf() by {
                if i != scope {
                    assert(self.scopes[i] == before[i]);
                }
            }
        }
    }

    /// The scope `distance` steps outwards from `scope`.
    pub fn ancestor(&self, scope: usize, distance: usize) -> (found: Option<usize>)
        requires
            self.wf(),
        ensures
            found == ancestor(self@, scope, distance as nat),
            found matches Some(at) ==> at < self@.len(),
    {
        let mut at: usize = scope;
        let mut left: usize = distance;
        while left > 0
            invariant
                self.wf(),
                ancestor(self@, scope, distance as nat) == ancestor(self@, at, left as nat),
            decreases left,
        {
            if at >= self.scopes.len() {
                return None;
            }
            match self.scopes[at].enclosing {
                Some(outer) => {
                    at = outer;
                    left -= 1;
                },
                None => {
                    return None;
                },
            }
        }
        if at < self.scopes.len() {
            Some(at)
        } else {
            None
        }
    }

    /// The nearest scope, from `scope` outwards, that binds `name`.
    pub fn holder(&self, scope: usize, name: &String) -> (found: Option<usize>)
        requires
            self.wf(),
        ensures
            found == holder(self@, scope, name@),
            found matches Some(at) ==> at < self@.len(),
    {
        let mut at: usize = scope;
        loop
            invariant
                self.wf(),
                holder(self@, scope, name@) == holder(self@, at, name@),
            decreases at,
        {
            if at >= self.scopes.len() {
                return None;
            }
            if self.scopes[at].bindings.contains(name) {
                return Some(at);
            }
            match self.scopes[at].enclosing {
                Some(outer) => {
                    assert(self@[at as int].enclosing == Some(outer));
                    at = outer;
                },
                None => {
                    return None;
                },
            }
        }
    }

    /// The value of `name` as seen from `scope`.
    pub fn get(&self, scope: usize, name: &Token) -> (result: Result<Object<'a>, Error>)
        requires
            self.wf(),
        ensures
            match result {
                Ok(value) => read(self@, scope, name@.lexeme) == Some(value@),
                Err(error) => read(self@, scope, name@.lexeme) is None && error@
                    == ErrorView::Runtime(undefined_variable(name@.lexeme)),
            },
    {
        proof {
            lemma_holder(self@, scope, name@.lexeme);
        }
        match self.holder(scope, &name.lexeme) {
            Some(at) => {
                assert(self@[at as int] == self.scopes[at as int]@);
                match self.scopes[at].bindings.get(&name.lexeme) {
                    Some(value) => Ok(value),
                    None => Err(Error::undefined_variable(&name.lexeme)),
                }
            },
            None => Err(Error::undefined_variable(&name.lexeme)),
        }
    }

    /// The value of `name` in the scope `distance` steps outwards from
    /// `scope`.
    pub fn get_at(&self, scope: usize, distance: usize, name: &Token) -> (result: Result<
        Object<'a>,
        Error,
    >)
        requires
            self.wf(),
        ensures
            match result {
                Ok(value) => read_at(self@, scope, distance as nat, name@.lexeme) == Some(value@),
                Err(error) => read_at(self@, scope, distance as nat, name@.lexeme) is None
                    && error@ == ErrorView::Runtime(undefined_variable(name@.lexeme)),
            },
    {
        match self.ancestor(scope, distance) {
            Some(at) => {
                assert(self@[at as int] == self.scopes[at as int]@);
                match self.scopes[at].bindings.get(&name.lexeme) {
                    Some(value) => Ok(value),
                    None => Err(Error::undefined_variable(&name.lexeme)),
                }
            },
            None => Err(Error::undefined_variable(&name.lexeme)),
        }
    }

    /// Assigns `value` to `name` as seen from `scope`, and returns it. The
    /// name must be bound already.
    pub fn assign(&mut self, scope: usize, name: &Token, value: Object<'a>) -> (result: Result<
        Object<'a>,
        Error,
    >)
        requires
            old(self).wf(),
        ensures
            final(self).wf(),
            match result {
                Ok(assigned) => assigned@ == value@ && write(
                    old(self)@,
                    scope,
                    name@.lexeme,
                    value@,
                ) == Some(final(self)@),
                Err(error) => write(old(self)@, scope, name@.lexeme, value@) is None && final(self)@ == old(self)@ && error@ == ErrorView::Runtime(
                    undefined_variable(name@.lexeme),
                ),
            },
    {
        match self.holder(scope, &name.lexeme) {
            Some(at) => {
                let assigned = value.clone();
                self.define(at, name.lexeme.clone(), value);
                Ok(assigned)
            },
            None => Err(Error::undefined_variable(&name.lexeme)),
        }
    }

    /// Binds `name` to `value` in the scope `distance` steps outwards from
    /// `scope`, and returns the value.
    pub fn assign_at(&mut self, scope: usize, distance: usize, name: &Token, value: Object<'a>)
        -> (result: Result<Object<'a>, Error>)
        requires
            old(self).wf(),
        ensures
            final(self).wf(),
            match result {
                Ok(assigned) => assigned@ == value@ && write_at(
                    old(self)@,
                    scope,
                    distance as nat,
                    name@.lexeme,
                    value@,
                ) == Some(final(self)@),
                Err(error) => write_at(old(self)@, scope, distance as nat, name@.lexeme, value@)
                    is None && final(self)@ == old(self)@ && error@ == ErrorView::Runtime(
                    undefined_variable(name@.lexeme),
                ),
            },
    {
        match self.ancestor(scope, distance) {
            Some(at) => {
                let assigned = value.clone();
                self.define(at, name.lexeme.clone(), value);
                Ok(assigned)
            },
            None => Err(Error::undefined_variable(&name.lexeme)),
        }
    }
}

/// An assignment keeps the number of scopes.
pub proof fn lemma_assign_keeps_length(
    scopes: Seq<ScopeView>,
    scope: usize,
    name: Seq<char>,
    value: ObjectView,
)
    ensures
        write(scopes, scope, name, value) matches Some(after) ==> after.len() == scopes.len(),
        write(scopes, 0, name, value) matches Some(after) ==> after.len() == scopes.len(),
        forall|distance: nat| #[trigger]
            write_at(scopes, scope, distance, name, value) matches Some(after) ==> after.len()
                == scopes.len(),
{
}

/// Binding a name keeps every chain of scopes as it is.
pub proof fn lemma_define_keeps_chains(
    scopes: Seq<ScopeView>,
    scope: usize,
    name: Seq<char>,
    value: ObjectView,
)
    requires
        acyclic(scopes),
    ensures
        acyclic(define(scopes, scope, name, value)),
        define(scopes, scope, name, value).len() == scopes.len(),
{
}

/// A new scope keeps the chains acyclic where a scope encloses it.
pub proof fn lemma_enclose_keeps_chains(scopes: Seq<ScopeView>, enclosing: usize)
    requires
        acyclic(scopes),
        enclosing < scopes.len(),
    ensures
        acyclic(enclose(scopes, enclosing)),
{
}

} // verus!
