use vstd::prelude::*;

use crate::rebox::Rebox;

verus! {

/// An allocator that hands out buffers filled with clones of one value.
pub struct HeapAllocator<T: Clone> {
    pub default_value: T,
}

impl<T: Clone> HeapAllocator<T> {
    /// A buffer of `len` elements, each a clone of `self.default_value`.
    pub fn alloc_cell(&mut self, len: usize) -> (r: Rebox<T>)
        ensures
            *final(self) == *old(self),
            r@.len() == len,
            forall|i: int| 0 <= i < len ==> cloned(old(self).default_value, #[trigger] r@[i]),
    {
        let mut v: Vec<T> = Vec::with_capacity(len);
        let mut k: usize = 0;
        while k < len
            invariant
                k <= len,
                v@.len() == k,
                forall|i: int| 0 <= i < k ==> cloned(self.default_value, #[trigger] v@[i]),
            decreases len - k,
        {
            v.push(self.default_value.clone());
            k = k + 1;
        }
        Rebox::from(v)
    }

    /// Gives a buffer back; the allocator keeps nothing of it.
    pub fn free_cell(&mut self, data: Rebox<T>)
        ensures
            *final(self) == *old(self),
    {
    }
}

} // verus!

verus! {

impl<T: Clone> alloc_no_stdlib::Allocator<T> for HeapAllocator<T> {
    type AllocatedMemory = Rebox<T>;

    fn alloc_cell(&mut self, len: usize) -> (r: Rebox<T>)
        ensures
            *final(self) == *old(self),
            r@.len() == len,
            forall|i: int| 0 <= i < len ==> cloned(old(self).default_value, #[trigger] r@[i]),
    {
        HeapAllocator::alloc_cell(self, len)
    }

    fn free_cell(&mut self, data: Rebox<T>)
        ensures
            *final(self) == *old(self),
    {
        HeapAllocator::free_cell(self, data)
    }
}

} // verus!

verus! {

impl<T> alloc_no_stdlib::SliceWrapper<T> for Rebox<T> {
    fn slice(&self) -> (s: &[T])
        ensures
            s@ == self@,
    {
        Rebox::slice(self)
    }
}

impl<T> alloc_no_stdlib::SliceWrapperMut<T> for Rebox<T> {
    fn slice_mut(&mut self) -> (s: &mut [T])
        ensures
            s@ == old(self)@,
            final(s)@ == final(self)@,
    {
        Rebox::slice_mut(self)
    }
}

} // verus!
