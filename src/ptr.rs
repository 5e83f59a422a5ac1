//! Addresses that are aligned and non-null but may point at memory that is
//! not mapped.

use vstd::prelude::*;
use vstd::layout::align_of;
use core::marker::PhantomData;

verus! {

/// An aligned, non-null address of a `T`, which may dangle.
pub struct MaybeDangling<T> {
    addr: usize,
    _t: PhantomData<T>,
}

impl<T> View for MaybeDangling<T> {
    type V = usize;

    closed spec fn view(&self) -> usize {
        self.addr
    }
}

impl<T> MaybeDangling<T> {
    /// The smallest aligned non-null address, which points at nothing.
    pub fn dangling() -> (r: Self)
        ensures
            r@ == align_of::<T>(),
    {
        MaybeDangling { addr: core::mem::align_of::<T>(), _t: PhantomData }
    }

    /// The address `addr`, or `None` when it is null or not aligned for `T`.
    pub fn new(addr: usize) -> (r: Option<Self>)
        ensures
            r is Some <==> addr != 0 && addr as int % align_of::<T>() as int == 0,
            r matches Some(p) ==> p@ == addr,
    {
        let align = core::mem::align_of::<T>();
        proof {
            broadcast use vstd::layout::align_nonzero;

        }
        if addr % align != 0 || addr == 0 {
            return None;
        }
        Some(MaybeDangling { addr, _t: PhantomData })
    }

    /// The same address, as one of a `U`.
    pub fn cast<U>(self) -> (r: MaybeDangling<U>)
        ensures
            r@ == self@,
    {
        MaybeDangling { addr: self.addr, _t: PhantomData }
    }

    /// The address.
    pub fn as_ptr(&self) -> (r: usize)
        ensures
            r == self@,
    {
        self.addr
    }
}

} // verus!
