//! Reference-counted handles. An `Rc` is modelled by the value it points to,
//! so two handles to equal values are equal in contracts. Which allocation a
//! handle points to is not modelled: telling allocations apart would take a
//! fresh identity per allocation, which no contract here can supply.

use vstd::prelude::*;
use std::rc::Rc as CoreRc;
use std::rc::Weak as CoreWeak;

verus! {

/// `Rc::clone`: claims that the new handle points to the same value.
#[verifier::external_body]
fn core_rc_clone<T>(rc: &CoreRc<T>) -> (r: CoreRc<T>)
    ensures
        r == *rc,
{
    CoreRc::clone(rc)
}

/// `Rc::downgrade`. Nothing is claimed of the weak handle, which is opaque.
#[verifier::external_body]
fn core_rc_downgrade<T>(rc: &CoreRc<T>) -> WeakHandle<T> {
    WeakHandle(CoreRc::downgrade(rc))
}

/// `Rc::ptr_eq`: claims that two handles to the same allocation point to
/// equal values. Whether two handles to equal values share an allocation is
/// left unsaid: allocations are not modelled.
#[verifier::external_body]
fn core_rc_ptr_eq<T>(a: &CoreRc<T>, b: &CoreRc<T>) -> (r: bool)
    ensures
        r ==> *a == *b,
{
    CoreRc::ptr_eq(a, b)
}

/// `Weak::new`. Nothing is claimed of the weak handle, which is opaque.
#[verifier::external_body]
fn core_weak_new<T>() -> WeakHandle<T> {
    WeakHandle(CoreWeak::new())
}

/// `Weak::upgrade`. Nothing is claimed of the result: whether the value is
/// still alive depends on the other handles at run time, and which value a
/// weak handle was made from is not recorded in the opaque handle.
#[verifier::external_body]
fn core_weak_upgrade<T>(w: &WeakHandle<T>) -> Option<CoreRc<T>> {
    w.0.upgrade()
}

/// `Weak::clone`. Nothing is claimed of the weak handle, which is opaque.
#[verifier::external_body]
fn core_weak_clone<T>(w: &WeakHandle<T>) -> WeakHandle<T> {
    WeakHandle(CoreWeak::clone(&w.0))
}

/// A reference-counted handle to a value of type `T`.
pub struct Rc<T>(CoreRc<T>);

impl<T> View for Rc<T> {
    type V = T;

    closed spec fn view(&self) -> T {
        *self.0
    }
}

impl<T> Rc<T> {
    /// Makes a handle to `value`.
    pub fn new(value: T) -> (r: Self)
        ensures
            r@ == value,
    {
        Rc(CoreRc::new(value))
    }

    /// Makes a weak handle to the same allocation.
    pub fn downgrade(this: &Self) -> (r: Weak<T>)
        ensures
            !r.made_empty(),
    {
        Weak { handle: core_rc_downgrade(&this.0), empty: false }
    }

    /// Do the two handles point to the same allocation? If so they point to
    /// equal values.
    pub fn ptr_eq(this: &Self, other: &Self) -> (r: bool)
        ensures
            r ==> this@ == other@,
    {
        core_rc_ptr_eq(&this.0, &other.0)
    }

    /// The value that the handle points to.
    pub fn as_ref(&self) -> (r: &T)
        ensures
            *r == self@,
    {
        &*self.0
    }

    /// Another handle to the same allocation.
    pub fn clone(&self) -> (r: Self)
        ensures
            r@ == self@,
    {
        Rc(core_rc_clone(&self.0))
    }
}

/// The handle inside a [`Weak`], kept opaque: `std::rc::Weak` has an
/// allocator parameter, so it is not declared as an outside type here.
#[verifier::external_body]
#[verifier::reject_recursive_types(T)]
struct WeakHandle<T>(CoreWeak<T>);

/// A weak handle: it does not keep its value alive.
#[verifier::reject_recursive_types(T)]
pub struct Weak<T> {
    handle: WeakHandle<T>,
    /// Made by [`Weak::new`] (or cloned from such a handle): it points to
    /// nothing, and never upgrades.
    empty: bool,
}

impl<T> Weak<T> {
    /// The handle was made by [`Weak::new`], or cloned from one that was: it
    /// points to nothing.
    pub closed spec fn made_empty(&self) -> bool {
        self.empty
    }

    /// Makes a weak handle that points to nothing.
    pub fn new() -> (r: Self)
        ensures
            r.made_empty(),
    {
        Weak { handle: core_weak_new(), empty: true }
    }

    /// A strong handle to the value, if it is still alive: never for a
    /// handle that points to nothing.
    pub fn upgrade(&self) -> (r: Option<Rc<T>>)
        ensures
            self.made_empty() ==> r is None,
    {
        if self.empty {
            return None;
        }
        match core_weak_upgrade(&self.handle) {
            Some(rc) => Some(Rc(rc)),
            None => None,
        }
    }

    /// Another weak handle to the same allocation.
    pub fn clone(&self) -> (r: Self)
        ensures
            r.made_empty() == self.made_empty(),
    {
        Weak { handle: core_weak_clone(&self.handle), empty: self.empty }
    }
}

} // verus!
