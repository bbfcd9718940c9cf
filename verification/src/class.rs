//! Classes and their instances.

use vstd::prelude::*;

verus! {

/// A class: calling it makes an instance.
#[derive(Debug)]
pub struct Class {
    name: String,
}

/// The mathematical model of a [`Class`].
pub struct ClassView {
    pub name: Seq<char>,
}

impl View for Class {
    type V = ClassView;

    closed spec fn view(&self) -> ClassView {
        ClassView { name: self.name@ }
    }
}

impl Clone for Class {
    fn clone(&self) -> (copy: Self)
        ensures
            copy == *self,
    {
        Class { name: self.name.clone() }
    }
}

impl Class {
    pub fn new(name: String) -> (class: Self)
        ensures
            class@.name == name@,
    {
        Class { name }
    }

    /// The number of arguments that a call of a class must give.
    pub fn arity() -> (count: usize)
        ensures
            count == 0,
    {
        0
    }

    pub fn name(&self) -> (name: &String)
        ensures
            name@ == self@.name,
    {
        &self.name
    }
}

/// An instance of a class. Its fields are kept by the interpreter, under
/// `id`, which tells two instances of one class apart.
#[derive(Debug)]
pub struct Instance {
    class: Class,
    id: usize,
}

/// The mathematical model of an [`Instance`].
pub struct InstanceView {
    pub class: ClassView,
    pub id: usize,
}

impl View for Instance {
    type V = InstanceView;

    closed spec fn view(&self) -> InstanceView {
        InstanceView { class: self.class@, id: self.id }
    }
}

impl Clone for Instance {
    fn clone(&self) -> (copy: Self)
        ensures
            copy == *self,
    {
        Instance { class: self.class.clone(), id: self.id }
    }
}

impl Instance {
    /// The instance of `class` whose fields are kept under `id`.
    pub fn new(class: Class, id: usize) -> (instance: Self)
        ensures
            instance@ == (InstanceView { class: class@, id }),
    {
        Instance { class, id }
    }

    pub fn class(&self) -> (class: &Class)
        ensures
            class@ == self@.class,
    {
        &self.class
    }

    pub fn id(&self) -> (id: usize)
        ensures
            id == self@.id,
    {
        self.id
    }
}

} // verus!
