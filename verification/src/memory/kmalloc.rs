//! Allocation helpers under the names that kernel code is used to.

use vstd::prelude::*;
use vstd::std_specs::maybe_uninit::MaybeUninitAdditionalSpecFns;
use core::mem::MaybeUninit;

verus! {

/// `value` on the heap.
pub fn kmalloc<T>(value: T) -> (boxed: Box<T>)
    ensures
        *boxed == value,
{
    Box::new(value)
}

/// Room for a `T` on the heap, not yet initialised.
pub fn kmalloc_uninit<T>() -> (boxed: Box<MaybeUninit<T>>)
    ensures
        (*boxed).as_option() is None,
{
    Box::new(MaybeUninit::uninit())
}

/// An empty vector with room for `cap` elements.
pub fn kvec_with_capacity<T>(cap: usize) -> (v: Vec<T>)
    ensures
        v@ == Seq::<T>::empty(),
{
    Vec::with_capacity(cap)
}

/// The default value of `T` on the heap.
pub fn kmalloc_default<T: Default>() -> (boxed: Box<T>)
    ensures
        call_ensures(T::default, (), *boxed),
{
    Box::new(T::default())
}

} // verus!
