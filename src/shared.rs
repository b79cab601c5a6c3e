use vstd::prelude::*;
use std::cell::{BorrowError, BorrowMutError, Ref, RefCell, RefMut};
use std::rc::{Rc, Weak};

verus! {

/// `std::cell::RefCell`, carried through as an opaque value.
#[verifier::external_type_specification]
#[verifier::external_body]
#[verifier::reject_recursive_types(T)]
pub struct ExRefCell<T: ?Sized>(RefCell<T>);

/// `std::cell::Ref`, the guard of a shared borrow, carried through opaque.
#[verifier::external_type_specification]
#[verifier::external_body]
#[verifier::reject_recursive_types(T)]
pub struct ExRef<'b, T: ?Sized>(Ref<'b, T>);

/// `std::cell::RefMut`, the guard of an exclusive borrow, carried through
/// opaque.
#[verifier::external_type_specification]
#[verifier::external_body]
#[verifier::reject_recursive_types(T)]
pub struct ExRefMut<'b, T: ?Sized + 'b>(RefMut<'b, T>);

/// `std::cell::BorrowError`, carried through opaque.
#[verifier::external_type_specification]
#[verifier::external_body]
pub struct ExBorrowError(BorrowError);

/// `std::cell::BorrowMutError`, carried through opaque.
#[verifier::external_type_specification]
#[verifier::external_body]
pub struct ExBorrowMutError(BorrowMutError);

/// Relies on `RefCell::new`: a cell holding `value`, not borrowed.
pub assume_specification<T>[ RefCell::<T>::new ](value: T) -> RefCell<T>;

/// Relies on `RefCell::try_borrow`: a shared borrow, or an error while a
/// mutable borrow is alive; it never panics.
pub assume_specification<T: ?Sized>[ RefCell::<T>::try_borrow ](cell: &RefCell<T>) -> Result<
    Ref<'_, T>,
    BorrowError,
>;

/// Relies on `RefCell::try_borrow_mut`: an exclusive borrow, or an error
/// while another borrow is alive.
pub assume_specification<T: ?Sized>[ RefCell::<T>::try_borrow_mut ](cell: &RefCell<T>) -> Result<
    RefMut<'_, T>,
    BorrowMutError,
>;

/// Relies on `std::mem::replace` through the exclusive borrow `guard`:
/// puts `t` in the cell and hands back what it held; it never panics.
#[verifier::external_body]
fn put_through<T>(guard: RefMut<'_, T>, t: T) -> T {
    let mut guard = guard;
    std::mem::replace(&mut *guard, t)
}

/// A pointer shared by several owners to one value on the heap, which any
/// of them may borrow and change in turn.
#[verifier::reject_recursive_types(T)]
pub struct Shared<T> {
    v: Rc<RefCell<T>>,
}

impl<T> Shared<T> {
    /// A new shared value holding `t`.
    pub fn new(t: T) -> Shared<T> {
        Shared { v: Rc::new(RefCell::new(t)) }
    }

    /// Borrows the value for reading, or fails while it is borrowed for
    /// writing.
    pub fn borrow(&self) -> Result<Ref<'_, T>, BorrowError> {
        self.v.try_borrow()
    }

    /// Borrows the value for writing, or fails while it is borrowed.
    pub fn borrow_mut(&self) -> Result<RefMut<'_, T>, BorrowMutError> {
        self.v.try_borrow_mut()
    }

    /// Borrows the value for writing, or fails while another borrow is alive.
    pub fn try_borrow_mut(&self) -> Result<RefMut<'_, T>, BorrowMutError> {
        self.v.try_borrow_mut()
    }

    /// Puts `t` in place of the value and returns the value it replaced;
    /// while the value is borrowed nothing changes and `t` comes back as the
    /// error.
    pub fn replace(&self, t: T) -> (r: Result<T, T>)
        ensures
            r matches Err(back) ==> back == t,
    {
        match self.v.try_borrow_mut() {
            Ok(guard) => Ok(put_through(guard, t)),
            Err(_) => Err(t),
        }
    }

    /// A weak pointer to the value, which does not keep it alive.
    pub fn get_weak(&self) -> WeakShared<T> {
        WeakShared::new(&self.v)
    }

    /// A shared pointer from a weak one, or `Err` once the value is gone.
    pub fn from_weak(weak: &WeakShared<T>) -> Result<Shared<T>, ()> {
        match weak.upgrade() {
            Some(v) => Ok(Shared { v }),
            None => Err(()),
        }
    }

    /// Another pointer to the same value; the value itself is not copied.
    pub fn clone(&self) -> (r: Shared<T>)
        ensures
            r == *self,
    {
        Shared { v: Rc::clone(&self.v) }
    }
}

/// A pointer to a shared value that does not keep the value alive. `Weak`
/// cannot be declared to the verifier, so the pointer sits in an opaque
/// field reached only through `downgrade` and `upgrade`.
#[verifier::external_body]
#[verifier::reject_recursive_types(T)]
pub struct WeakShared<T> {
    v: Weak<RefCell<T>>,
}

/// Relies on `Rc::downgrade`: a weak pointer to the cell behind `v`.
#[verifier::external_body]
fn downgrade<T>(v: &Rc<RefCell<T>>) -> WeakShared<T> {
    WeakShared { v: Rc::downgrade(v) }
}

impl<T> WeakShared<T> {
    /// A weak pointer to the cell behind `v`.
    pub fn new(v: &Rc<RefCell<T>>) -> Self {
        downgrade(v)
    }

    /// Relies on `Weak::upgrade`: a strong pointer while the value is alive,
    /// `None` once every strong pointer is gone.
    #[verifier::external_body]
    fn upgrade(&self) -> Option<Rc<RefCell<T>>> {
        self.v.upgrade()
    }

    /// A shared pointer to the value, or `Err` once the value is gone.
    pub fn to_shared(&self) -> Result<Shared<T>, ()> {
        Shared::from_weak(self)
    }
}

} // verus!
