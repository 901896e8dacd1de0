//! A fixed-length array whose elements keep their place while it is locked.
//!
//! Shared access (`get`, `as_ref_array`, `iter`) needs only `&self` and is there
//! for every element type. Exclusive access (`get_pin`, `as_pin_array`,
//! `iter_mut`) takes the array by `&mut self`, which is the lock: while it lasts
//! the array cannot be moved. Its handles are `&mut T`, with which an element
//! could be moved out, so it is offered only where `T: Unpin`, that is where
//! moving an element is harmless. Handles taken under one lock never overlap:
//! `as_pin_array` and `iter_mut` give out one per index.
use vstd::prelude::*;

pub mod iter;

use core::marker::PhantomPinned;

use iter::{Iter, IterMut};

verus! {

/// A fixed-length array of `SIZE` values of type `T`.
#[derive(PartialEq, Eq, PartialOrd, Ord, Hash, Debug, Clone, Copy)]
pub struct PinArray<T, const SIZE: usize> {
    elements: [T; SIZE],
    _pin: PhantomPinned,
}

/// The marker that keeps `PinArray` from being `Unpin` on its own account: it is
/// `Unpin` exactly when `T` is, by the impl below.
#[verifier::external_type_specification]
#[verifier::external_body]
pub struct ExPhantomPinned(PhantomPinned);

/// Relies on `PhantomPinned::default`, which makes the marker; nothing is known
/// of it and nothing needs to be.
pub assume_specification[ <PhantomPinned as Default>::default ]() -> PhantomPinned;

/// Relies on `PhantomPinned::clone`, used by the derived `Clone`.
pub assume_specification[ <PhantomPinned as Clone>::clone ](_0: &PhantomPinned) -> PhantomPinned;

impl<T: Unpin, const SIZE: usize> Unpin for PinArray<T, SIZE> {
}

impl<T, const SIZE: usize> View for PinArray<T, SIZE> {
    type V = Seq<T>;

    closed spec fn view(&self) -> Seq<T> {
        self.elements@
    }
}

impl<T: Default, const SIZE: usize> Default for PinArray<T, SIZE> {
    /// An array of `SIZE` default values.
    fn default() -> (r: Self)
        ensures
            r.holds_defaults(),
    {
        PinArray { elements: default_elements(), _pin: PhantomPinned::default() }
    }
}

impl<T: Default, const SIZE: usize> PinArray<T, SIZE> {
    /// Each element is a value that `T::default` can return.
    pub open spec fn holds_defaults(&self) -> bool {
        forall|i: int| 0 <= i < SIZE ==> call_ensures(T::default, (), #[trigger] self@[i])
    }

    /// Where `T::default` always returns `v`, the default array is `v` repeated,
    /// the same as `PinArray::new([v; SIZE])`.
    pub proof fn lemma_default_repeats(a: Self, v: T)
        requires
            a.holds_defaults(),
            forall|x: T| call_ensures(T::default, (), x) ==> x == v,
        ensures
            a@ == Seq::new(SIZE as nat, |_i: int| v),
    {
        a.lemma_len();
        assert(a@ =~= Seq::new(SIZE as nat, |_i: int| v));
    }
}

impl<T, const SIZE: usize> PinArray<T, SIZE> {
    /// The model holds exactly `SIZE` elements.
    pub broadcast proof fn lemma_len(&self)
        ensures
            #[trigger] self@.len() == SIZE,
    {
    }

    /// Creates a new `PinArray` from its elements.
    pub fn new(elements: [T; SIZE]) -> (r: Self)
        ensures
            r@ == elements@,
    {
        PinArray { elements, _pin: PhantomPinned::default() }
    }

    /// The number of elements, `SIZE`.
    pub fn len(&self) -> (r: usize)
        ensures
            r == SIZE,
            r == self@.len(),
    {
        SIZE
    }

    /// Whether the array holds no element.
    pub fn is_empty(&self) -> (r: bool)
        ensures
            r == (SIZE == 0),
            r == (self@.len() == 0),
    {
        self.len() == 0
    }

    /// A reference to the element at `idx`, or `None` past the end.
    pub fn get(&self, idx: usize) -> (r: Option<&T>)
        ensures
            idx < SIZE ==> r == Some(&self@[idx as int]),
            idx >= SIZE ==> r is None,
    {
        if idx < SIZE {
            Some(&self.elements[idx])
        } else {
            None
        }
    }

    /// References to all elements: slot `i` refers to element `i`.
    pub fn as_ref_array(&self) -> (r: [&T; SIZE])
        ensures
            self@ == Seq::new(SIZE as nat, |i: int| *r@[i]),
    {
        each_ref(&self.elements)
    }

    /// An iterator over references to the elements, starting at index 0.
    pub fn iter(&self) -> (r: Iter<'_, T, SIZE>)
        ensures
            r.index() == 0,
            r.source() == self@,
            r.remaining() == self@,
    {
        Iter::new(self)
    }
}

/// Exclusive access, for elements that are free to move (`T: Unpin`).
///
/// `&mut self` is the lock: while it lasts the array cannot be moved. Handles of
/// type `&mut T` let the caller move an element out, so they are offered only
/// where `T` allows that; for any other `T` the array gives shared access alone.
impl<T: Unpin, const SIZE: usize> PinArray<T, SIZE> {
    /// An exclusive handle to the element at `idx`, or `None` past the end.
    ///
    /// What is written through the handle is what the array holds at `idx`
    /// once the handle is given up; the other elements stay as they were.
    pub fn get_pin(&mut self, idx: usize) -> (r: Option<&mut T>)
        ensures
            idx < SIZE ==> r is Some && *r->0 == old(self)@[idx as int]
                && final(self)@ == old(self)@.update(idx as int, *final(r->0)),
            idx >= SIZE ==> r is None && final(self)@ == old(self)@,
    {
        if idx < SIZE {
            Some(&mut self.elements[idx])
        } else {
            None
        }
    }

    /// The elements as one mutable slice.
    pub(crate) fn as_mut_slice(&mut self) -> (r: &mut [T])
        ensures
            r@ == old(self)@,
            final(self)@ == final(r)@,
    {
        &mut self.elements
    }

    /// An iterator over exclusive handles to the elements, starting at index 0.
    pub fn iter_mut(&mut self) -> (r: IterMut<'_, T, SIZE>)
        ensures
            r.rest@ == old(self)@,
            r.index() == 0,
            final(self)@ == final(r.rest)@,
    {
        proof {
            self.lemma_len();
        }
        IterMut::new(self)
    }

    /// Exclusive handles to all elements, taken under one lock: slot `i` reaches
    /// element `i`, and what is written through it is what element `i` holds
    /// once the handles are given up.
    pub fn as_pin_array(&mut self) -> (r: [&mut T; SIZE])
        ensures
            old(self)@ == Seq::new(SIZE as nat, |i: int| *r@[i]),
            final(self)@ == Seq::new(SIZE as nat, |i: int| *final(r@[i])),
    {
        each_mut(&mut self.elements)
    }
}

/// One default element; the index is the one `core::array::from_fn` passes.
fn default_element<T: Default>(_i: usize) -> (r: T)
    ensures
        call_ensures(T::default, (), r),
{
    T::default()
}

/// Relies on `core::array::from_fn`: the i-th element is what the given
/// function returned for index i.
#[verifier::external_body]
fn default_elements<T: Default, const N: usize>() -> (r: [T; N])
    ensures
        forall|i: int| 0 <= i < N ==> call_ensures(default_element::<T>, (i as usize,), #[trigger] r@[i]),
{
    core::array::from_fn(|i| default_element(i))
}

/// Relies on `<[T; N]>::each_ref`: the i-th reference points at the i-th element.
#[verifier::external_body]
fn each_ref<T, const N: usize>(a: &[T; N]) -> (r: [&T; N])
    ensures
        a@ == Seq::new(N as nat, |i: int| *r@[i]),
{
    a.each_ref()
}

/// Relies on `<[T; N]>::each_mut`: the i-th handle borrows the i-th element, so
/// what is written through it is what the array holds afterwards.
#[verifier::external_body]
fn each_mut<T, const N: usize>(a: &mut [T; N]) -> (r: [&mut T; N])
    ensures
        old(a)@ == Seq::new(N as nat, |i: int| *r@[i]),
        final(a)@ == Seq::new(N as nat, |i: int| *final(r@[i])),
{
    a.each_mut()
}

} // verus!
