//! A list of values of different types, with access to an element by its
//! type.
use std::marker::PhantomData;
use vstd::prelude::*;

verus! {

/// The empty list.
#[derive(Default, Debug)]
pub struct Nil;

/// A list made of a first element and the list of the others.
#[derive(Default, Debug)]
pub struct Cons<H, T>(pub H, pub T);

/// Access to the element of type `E` of a list. `V` tells how deep in the
/// list the element stands: `Nil` for the first, `Cons<H, V>` for the element
/// that `V` finds in the tail behind a first element of type `H`.
pub trait Get<E, V>: Sized {
    /// The element.
    spec fn element(&self) -> E;

    /// The list with the element replaced by `e`.
    spec fn with_element(self, e: E) -> Self;

    /// Replacing the element and reading it gives what was put in.
    proof fn lemma_element_of_with_element(self, e: E)
        ensures
            self.with_element(e).element() == e,
    ;

    fn get(&self) -> (r: &E)
        ensures
            *r == self.element(),
    ;

    fn get_mut(&mut self) -> (r: &mut E)
        ensures
            *r == old(self).element(),
            *final(self) == old(self).with_element(*final(r)),
    ;
}

impl<H, T> Get<H, Nil> for Cons<H, T> {
    open spec fn element(&self) -> H {
        self.0
    }

    open spec fn with_element(self, e: H) -> Self {
        Cons(e, self.1)
    }

    proof fn lemma_element_of_with_element(self, e: H) {
    }

    fn get(&self) -> (r: &H) {
        &self.0
    }

    fn get_mut(&mut self) -> (r: &mut H) {
        &mut self.0
    }
}

impl<H, T, E, V> Get<E, Cons<H, V>> for Cons<H, T> where T: Get<E, V> {
    open spec fn element(&self) -> E {
        self.1.element()
    }

    open spec fn with_element(self, e: E) -> Self {
        Cons(self.0, self.1.with_element(e))
    }

    proof fn lemma_element_of_with_element(self, e: E) {
        self.1.lemma_element_of_with_element(e);
    }

    fn get(&self) -> (r: &E) {
        self.1.get()
    }

    fn get_mut(&mut self) -> (r: &mut E) {
        self.1.get_mut()
    }
}

/// A list that starts with `H`, followed by a marker for `I` that holds no
/// data and tells two elements of the same type apart.
pub type ConsHack<H, T, I> = Cons<H, Cons<PhantomData<I>, T>>;

} // verus!
