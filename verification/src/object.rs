//! Runtime values.

use vstd::prelude::*;
use crate::class::{Class, ClassView, Instance, InstanceView};
use crate::function::{Function, FunctionView};
use crate::numbers;

verus! {

/// A runtime value. A number is an IEEE-754 double, held as its bits.
#[derive(Debug)]
pub enum Object<'a> {
    String(String),
    Number(u64),
    Boolean(bool),
    Callable(Function<'a>),
    Class(Class),
    Instance(Instance),
    Nil,
}

/// The mathematical model of an [`Object`].
pub enum ObjectView {
    String(Seq<char>),
    Number(u64),
    Boolean(bool),
    Callable(FunctionView),
    Class(ClassView),
    Instance(InstanceView),
    Nil,
}

/// What `print` writes for a value: text, or a number still to be written
/// in decimal.
#[derive(Debug)]
pub enum Text {
    Plain(String),
    Number(u64),
}

/// The mathematical model of a [`Text`].
pub enum TextView {
    Plain(Seq<char>),
    Number(u64),
}

impl View for Text {
    type V = TextView;

    open spec fn view(&self) -> TextView {
        match self {
            Text::Plain(text) => TextView::Plain(text@),
            Text::Number(bits) => TextView::Number(*bits),
        }
    }
}

impl<'a> View for Object<'a> {
    type V = ObjectView;

    open spec fn view(&self) -> ObjectView {
        match self {
            Object::String(text) => ObjectView::String(text@),
            Object::Number(bits) => ObjectView::Number(*bits),
            Object::Boolean(value) => ObjectView::Boolean(*value),
            Object::Callable(function) => ObjectView::Callable(function@),
            Object::Class(class) => ObjectView::Class(class@),
            Object::Instance(instance) => ObjectView::Instance(instance@),
            Object::Nil => ObjectView::Nil,
        }
    }
}

impl<'a> Clone for Object<'a> {
    fn clone(&self) -> (copy: Self)
        ensures
            copy == *self,
    {
        match self {
            Object::String(text) => Object::String(text.clone()),
            Object::Number(bits) => Object::Number(*bits),
            Object::Boolean(value) => Object::Boolean(*value),
            Object::Callable(function) => Object::Callable(*function),
            Object::Class(class) => Object::Class(class.clone()),
            Object::Instance(instance) => Object::Instance(instance.clone()),
            Object::Nil => Object::Nil,
        }
    }
}

/// The models of a sequence of values, one for one.
pub open spec fn objects_view<'a>(objects: Seq<Object<'a>>) -> Seq<ObjectView> {
    objects.map_values(|object: Object<'a>| object@)
}

impl ObjectView {
    /// Every value but `nil` and `false` is truthy.
    pub open spec fn truthy(self) -> bool {
        match self {
            ObjectView::Nil => false,
            ObjectView::Boolean(value) => value,
            _ => true,
        }
    }

    /// The two values are of the same kind.
    pub open spec fn same_kind(self, other: ObjectView) -> bool {
        match (self, other) {
            (ObjectView::String(_), ObjectView::String(_)) => true,
            (ObjectView::Number(_), ObjectView::Number(_)) => true,
            (ObjectView::Boolean(_), ObjectView::Boolean(_)) => true,
            (ObjectView::Callable(_), ObjectView::Callable(_)) => true,
            (ObjectView::Class(_), ObjectView::Class(_)) => true,
            (ObjectView::Instance(_), ObjectView::Instance(_)) => true,
            (ObjectView::Nil, ObjectView::Nil) => true,
            _ => false,
        }
    }

    /// `==` of the language: values of different kinds are never equal;
    /// `nil` equals `nil`; booleans and strings are equal where they are the
    /// same; numbers as doubles are; functions and instances where they are
    /// the same function or instance; classes where they have the same name.
    pub open spec fn equals(self, other: ObjectView) -> bool {
        match (self, other) {
            (ObjectView::Nil, ObjectView::Nil) => true,
            (ObjectView::Boolean(left), ObjectView::Boolean(right)) => left == right,
            (ObjectView::Number(left), ObjectView::Number(right)) => numbers::equals(left, right),
            (ObjectView::String(left), ObjectView::String(right)) => left == right,
            (ObjectView::Callable(left), ObjectView::Callable(right)) => left.same(right),
            (ObjectView::Class(left), ObjectView::Class(right)) => left.name == right.name,
            (ObjectView::Instance(left), ObjectView::Instance(right)) => left.id == right.id,
            _ => false,
        }
    }

    /// The value is a number that is a NaN.
    pub open spec fn is_nan(self) -> bool {
        self matches ObjectView::Number(bits) && numbers::is_nan(bits)
    }

    /// What `print` writes for the value: a string as it is, `true`,
    /// `false`, `nil`, and a number in decimal.
    pub open spec fn text(self) -> TextView {
        match self {
            ObjectView::String(text) => TextView::Plain(text),
            ObjectView::Number(bits) => TextView::Number(bits),
            ObjectView::Boolean(value) => TextView::Plain(
                if value {
                    "true"@
                } else {
                    "false"@
                },
            ),
            ObjectView::Nil => TextView::Plain("nil"@),
            ObjectView::Callable(FunctionView::User { name, .. }) => TextView::Plain(
                "<fn "@ + name.lexeme + ">"@,
            ),
            ObjectView::Callable(FunctionView::Native { .. }) => TextView::Plain("<native fn>"@),
            ObjectView::Class(class) => TextView::Plain(class.name),
            ObjectView::Instance(instance) => TextView::Plain(instance.class.name + " instance"@),
        }
    }
}

impl<'a> Object<'a> {
    /// Every value but `nil` and `false` is truthy.
    pub fn is_truthy(&self) -> (yes: bool)
        ensures
            yes == self@.truthy(),
    {
        match self {
            Object::Nil => false,
            Object::Boolean(value) => *value,
            _ => true,
        }
    }

    /// `==` of the language.
    pub fn equals(&self, other: &Object<'a>) -> (yes: bool)
        ensures
            yes == self@.equals(other@),
    {
        match (self, other) {
            (Object::Nil, Object::Nil) => true,
            (Object::Boolean(left), Object::Boolean(right)) => *left == *right,
            (Object::Number(left), Object::Number(right)) => numbers::eq(*left, *right),
            (Object::String(left), Object::String(right)) => *left == *right,
            (Object::Callable(left), Object::Callable(right)) => left.same(right),
            (Object::Class(left), Object::Class(right)) => *left.name() == *right.name(),
            (Object::Instance(left), Object::Instance(right)) => left.id() == right.id(),
            _ => false,
        }
    }

    /// What `print` writes for the value.
    pub fn text(&self) -> (text: Text)
        ensures
            text@ == self@.text(),
    {
        match self {
            Object::String(text) => Text::Plain(text.clone()),
            Object::Number(bits) => Text::Number(*bits),
            Object::Boolean(value) => Text::Plain(
                if *value {
                    String::from_str("true")
                } else {
                    String::from_str("false")
                },
            ),
            Object::Nil => Text::Plain(String::from_str("nil")),
            Object::Callable(Function::User { name, .. }) => {
                let mut text = String::from_str("<fn ");
                text.append(name.lexeme.as_str());
                text.append(">");
                Text::Plain(text)
            },
            Object::Callable(Function::Native { .. }) => Text::Plain(
                String::from_str("<native fn>"),
            ),
            Object::Class(class) => Text::Plain(class.name().clone()),
            Object::Instance(instance) => {
                let mut text = instance.class().name().clone();
                text.append(" instance");
                Text::Plain(text)
            },
        }
    }
}

/// `!!v` is `true` exactly where `v` is neither `nil` nor `false`.
pub proof fn lemma_truthiness(value: ObjectView)
    ensures
        value.truthy() <==> !(value is Nil) && value != ObjectView::Boolean(false),
{
}

/// `==` is symmetric.
pub proof fn lemma_equality_symmetric(left: ObjectView, right: ObjectView)
    ensures
        left.equals(right) == right.equals(left),
{
}

/// `==` is reflexive: every value that is no NaN equals itself.
pub proof fn lemma_equality_reflexive(value: ObjectView)
    requires
        !value.is_nan(),
    ensures
        value.equals(value),
{
}

/// A NaN does not equal itself.
pub proof fn lemma_nan_differs_from_itself(value: ObjectView)
    requires
        value.is_nan(),
    ensures
        !value.equals(value),
{
}

/// `nil` equals `nil`, and nothing else.
pub proof fn lemma_nil_equals_only_nil(value: ObjectView)
    ensures
        ObjectView::Nil.equals(value) <==> value is Nil,
        value.equals(ObjectView::Nil) <==> value is Nil,
{
}

/// Values of different kinds are never equal.
pub proof fn lemma_kinds_differ(left: ObjectView, right: ObjectView)
    requires
        !left.same_kind(right),
    ensures
        !left.equals(right),
{
}

} // verus!
