use vstd::prelude::*;

verus! {

/// An owned, fixed-length buffer of `T`: the memory that the tool's
/// allocators hand out.
pub struct Rebox<T> {
    b: Vec<T>,
}

impl<T> View for Rebox<T> {
    type V = Seq<T>;

    open spec fn view(&self) -> Seq<T> {
        self.spec_contents()
    }
}

impl<T> Rebox<T> {
    /// The elements of the buffer, in order.
    pub closed spec fn spec_contents(&self) -> Seq<T> {
        self.b@
    }

    /// Number of elements in the buffer.
    pub fn len(&self) -> (n: usize)
        ensures
            n == self@.len(),
    {
        self.b.len()
    }

    /// The element at `index`.
    pub fn index(&self, index: usize) -> (r: &T)
        requires
            index < self@.len(),
        ensures
            *r == self@[index as int],
    {
        &self.b[index]
    }

    /// A mutable reference to the element at `index`; writing through it
    /// changes that element and no other.
    pub fn index_mut(&mut self, index: usize) -> (r: &mut T)
        requires
            index < old(self)@.len(),
        ensures
            *r == old(self)@[index as int],
            final(self)@ == old(self)@.update(index as int, *final(r)),
    {
        &mut self.b[index]
    }

    /// All elements, as a slice.
    pub fn slice(&self) -> (s: &[T])
        ensures
            s@ == self@,
    {
        self.b.as_slice()
    }

    /// All elements, as a mutable slice of fixed length.
    pub fn slice_mut(&mut self) -> (s: &mut [T])
        ensures
            s@ == old(self)@,
            final(s)@ == final(self)@,
    {
        self.b.as_mut_slice()
    }

    /// Gives the elements back as a vector.
    pub fn into_vec(self) -> (v: Vec<T>)
        ensures
            v@ == self@,
    {
        self.b
    }
}

impl<T> From<Vec<T>> for Rebox<T> {
    fn from(data: Vec<T>) -> (r: Self)
        ensures
            r@ == data@,
    {
        Rebox { b: data }
    }
}

impl<T> vstd::std_specs::convert::FromSpecImpl<Vec<T>> for Rebox<T> {
    open spec fn obeys_from_spec() -> bool {
        true
    }

    open spec fn from_spec(data: Vec<T>) -> Self {
        Rebox::spec_from_vec(data)
    }
}

impl<T> Rebox<T> {
    /// The buffer that holds exactly the elements of `data`.
    pub closed spec fn spec_from_vec(data: Vec<T>) -> Self {
        Rebox { b: data }
    }

    /// The buffer made from a vector holds that vector's elements, in order.
    pub broadcast proof fn lemma_from_vec_contents(data: Vec<T>)
        ensures
            #[trigger] Rebox::spec_from_vec(data)@ == data@,
    {
    }
}

/// The contents after writing `writes` in order through `index_mut`: each
/// write `(i, v)` replaces the element at `i` with `v` (`index_mut` takes
/// only an index below the length).
pub open spec fn after_index_writes<T>(contents: Seq<T>, writes: Seq<(int, T)>) -> Seq<T>
    decreases writes.len(),
{
    if writes.len() == 0 {
        contents
    } else {
        let last = writes.last();
        after_index_writes(contents, writes.drop_last()).update(last.0, last.1)
    }
}

/// Writes through `index_mut` never change the length of a buffer, however
/// many there are: a buffer keeps the length it was made with.
pub proof fn law_index_writes_keep_length<T>(contents: Seq<T>, writes: Seq<(int, T)>)
    requires
        forall|k: int| 0 <= k < writes.len() ==> 0 <= #[trigger] writes[k].0 < contents.len(),
    ensures
        after_index_writes(contents, writes).len() == contents.len(),
    decreases writes.len(),
{
    if writes.len() > 0 {
        law_index_writes_keep_length(contents, writes.drop_last());
    }
}

impl<T> Default for Rebox<T> {
    fn default() -> (r: Self)
        ensures
            r@ == Seq::<T>::empty(),
    {
        Rebox { b: Vec::new() }
    }
}

} // verus!
