//! References to objects and actors that know the type of what they refer to.
use crate::ids::{ActorId, ObjectId};
use std::marker::PhantomData;
use vstd::prelude::*;

verus! {

/// A reference to an object that holds a `T`.
#[derive(Debug, PartialEq, Eq, Hash)]
pub struct ObjectRef<T> {
    id: ObjectId,
    type_label: &'static str,
    marker: PhantomData<T>,
}

impl<T> Copy for ObjectRef<T> {

}

impl<T> Clone for ObjectRef<T> {
    fn clone(&self) -> (copy: Self)
        ensures
            copy == *self,
    {
        *self
    }
}

impl<T> ObjectRef<T> {
    /// The object that is referred to.
    pub closed spec fn target(&self) -> ObjectId {
        self.id
    }

    /// The name of the type, as the reference was given it.
    pub closed spec fn label(&self) -> Seq<char> {
        self.type_label@
    }
}

impl<T: 'static> ObjectRef<T> {
    /// A reference to an object, with the name of the type that it has.
    pub fn new(id: ObjectId, type_label: &'static str) -> (r: Self)
        ensures
            r.target() == id,
            r.label() == type_label@,
    {
        ObjectRef { id, type_label, marker: PhantomData }
    }

    /// The object that is referred to.
    pub fn id(&self) -> (id: ObjectId)
        ensures
            id == self.target(),
    {
        self.id
    }

    /// The name of the type, as the reference was given it.
    pub fn type_label(&self) -> (name: &'static str)
        ensures
            name@ == self.label(),
    {
        self.type_label
    }

    /// A reference to the same object under the name of the unit type.
    pub fn erase(&self) -> (r: ObjectRef<()>)
        ensures
            r.target() == self.target(),
            r.label() == "()"@,
    {
        ObjectRef { id: self.id, type_label: "()", marker: PhantomData }
    }
}

/// A reference to an actor of type `T`.
#[derive(Debug, PartialEq, Eq, Hash)]
pub struct ActorRef<T> {
    id: ActorId,
    type_label: &'static str,
    marker: PhantomData<T>,
}

impl<T> Copy for ActorRef<T> {

}

impl<T> Clone for ActorRef<T> {
    fn clone(&self) -> (copy: Self)
        ensures
            copy == *self,
    {
        *self
    }
}

impl<T> ActorRef<T> {
    /// The actor that is referred to.
    pub closed spec fn target(&self) -> ActorId {
        self.id
    }

    /// The name of the type, as the reference was given it.
    pub closed spec fn label(&self) -> Seq<char> {
        self.type_label@
    }
}

impl<T: 'static> ActorRef<T> {
    /// A reference to an actor, with the name of the type that it has.
    pub fn new(id: ActorId, type_label: &'static str) -> (r: Self)
        ensures
            r.target() == id,
            r.label() == type_label@,
    {
        ActorRef { id, type_label, marker: PhantomData }
    }

    /// The actor that is referred to.
    pub fn id(&self) -> (id: ActorId)
        ensures
            id == self.target(),
    {
        self.id
    }

    /// The name of the type, as the reference was given it.
    pub fn type_label(&self) -> (name: &'static str)
        ensures
            name@ == self.label(),
    {
        self.type_label
    }

    /// A reference to the same actor under the name of the unit type.
    pub fn erase(&self) -> (r: ActorRef<()>)
        ensures
            r.target() == self.target(),
            r.label() == "()"@,
    {
        ActorRef { id: self.id, type_label: "()", marker: PhantomData }
    }
}

} // verus!
