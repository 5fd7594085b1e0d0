use vstd::prelude::*;

verus! {

/// A vector that hands out copies of its elements, never references into
/// itself.
pub struct CellVec<T>(Vec<T>);

impl<T: Clone> View for CellVec<T> {
    type V = Seq<T>;

    closed spec fn view(&self) -> Seq<T> {
        self.0@
    }
}

impl<T: Clone> CellVec<T> {
    pub fn new() -> (v: Self)
        ensures
            v@ == Seq::<T>::empty(),
    {
        CellVec(Vec::new())
    }

    pub fn push(&mut self, value: T)
        ensures
            final(self)@ == old(self)@.push(value),
    {
        self.0.push(value)
    }

    pub fn pop(&mut self) -> (value: Option<T>)
        ensures
            match value {
                Some(v) => {
                    &&& old(self)@.len() > 0
                    &&& v == old(self)@.last()
                    &&& final(self)@ == old(self)@.drop_last()
                },
                None => old(self)@.len() == 0 && final(self)@ == old(self)@,
            },
    {
        self.0.pop()
    }

    /// A copy of the element at `index`.
    pub fn get(&self, index: usize) -> (value: T)
        requires
            index < self@.len(),
        ensures
            cloned(self@[index as int], value),
    {
        self.0[index].clone()
    }

    pub fn len(&self) -> (n: usize)
        ensures
            n == self@.len(),
    {
        self.0.len()
    }

    pub fn clear(&mut self)
        ensures
            final(self)@ == Seq::<T>::empty(),
    {
        self.0.clear()
    }
}

} // verus!
