use std::cmp::Ordering;
use std::marker::PhantomData;
use vstd::prelude::*;
use vstd::std_specs::cmp::PartialEqSpecImpl;
use vstd::std_specs::cmp::PartialOrdSpecImpl;

verus! {

/// Handle of an object in a registry: a number that the registry hands out
/// once, tagged with the kind of object it stands for.
///
/// The tag is there for the compiler alone. Two handles are equal when their
/// numbers are.
#[derive(Debug)]
pub struct ObjectId<T> {
    id: u32,
    _phantom: PhantomData<T>,
}

/// Marks the kinds of object that a registry stores.
pub trait ObjectProperties {

}

impl<T> View for ObjectId<T> {
    type V = u32;

    /// The number behind the handle.
    closed spec fn view(&self) -> u32 {
        self.id
    }
}

impl<T> Copy for ObjectId<T> {

}

impl<T> Clone for ObjectId<T> {
    fn clone(&self) -> (copy: Self)
        ensures
            copy == *self,
    {
        *self
    }
}

impl<T> PartialEq for ObjectId<T> {
    fn eq(&self, other: &Self) -> (equal: bool) {
        self.id == other.id
    }
}

impl<T> Eq for ObjectId<T> {

}

impl<T> PartialEqSpecImpl for ObjectId<T> {
    open spec fn obeys_eq_spec() -> bool {
        true
    }

    open spec fn eq_spec(&self, other: &Self) -> bool {
        self@ == other@
    }
}

impl<T> PartialOrd for ObjectId<T> {
    fn partial_cmp(&self, other: &Self) -> (order: Option<Ordering>) {
        if self.id < other.id {
            Some(Ordering::Less)
        } else if self.id > other.id {
            Some(Ordering::Greater)
        } else {
            Some(Ordering::Equal)
        }
    }
}

impl<T> PartialOrdSpecImpl for ObjectId<T> {
    open spec fn obeys_partial_cmp_spec() -> bool {
        true
    }

    open spec fn partial_cmp_spec(&self, other: &Self) -> Option<Ordering> {
        if self@ < other@ {
            Some(Ordering::Less)
        } else if self@ > other@ {
            Some(Ordering::Greater)
        } else {
            Some(Ordering::Equal)
        }
    }
}

impl<T> ObjectId<T> {
    /// The handle with the number `id`.
    pub closed spec fn numbered(id: u32) -> ObjectId<T> {
        ObjectId { id, _phantom: PhantomData }
    }

    pub fn new(id: u32) -> (handle: Self)
        ensures
            handle == ObjectId::<T>::numbered(id),
            handle@ == id,
    {
        Self { id, _phantom: PhantomData }
    }

    /// The number behind the handle.
    pub fn index(&self) -> (id: u32)
        ensures
            id == self@,
    {
        self.id
    }
}

impl<T: ObjectProperties> ObjectId<T> {
    /// Forgets the kind of object that the handle stands for.
    pub fn cast(self) -> (erased: ObjectId<()>)
        ensures
            erased@ == self@,
    {
        ObjectId { id: self.id, _phantom: PhantomData }
    }
}

impl ObjectId<()> {
    /// Takes the handle as one of an object of kind `T`.
    pub fn cast<T: ObjectProperties>(self) -> (typed: ObjectId<T>)
        ensures
            typed@ == self@,
    {
        ObjectId { id: self.id, _phantom: PhantomData }
    }
}

/// Handles with the same number are the same handle.
pub proof fn lemma_handle_is_its_number<T>(a: ObjectId<T>, b: ObjectId<T>)
    ensures
        a@ == b@ <==> a == b,
        a == ObjectId::<T>::numbered(a@),
{
}

} // verus!
