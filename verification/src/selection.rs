//! The columns that a pass looks at.

use vstd::prelude::*;

verus! {

/// An ordered list of field positions, fixed for a whole pass. A position may
/// occur more than once.
#[derive(Debug)]
pub struct Selection {
    indices: Vec<usize>,
}

impl View for Selection {
    type V = Seq<usize>;

    closed spec fn view(&self) -> Seq<usize> {
        self.indices@
    }
}

/// Every position in `indices` exists in a row of `width` fields.
pub open spec fn positions_fit(indices: Seq<usize>, width: nat) -> bool {
    forall|k: int| 0 <= k < indices.len() ==> indices[k] < width
}

impl Selection {
    /// The selection of exactly these positions, in this order.
    pub fn new(indices: Vec<usize>) -> (r: Selection)
        ensures
            r@ == indices@,
    {
        Selection { indices }
    }

    /// The selection of every position of a row of `width` fields, in order.
    pub fn all(width: usize) -> (r: Selection)
        ensures
            r@ == Seq::new(width as nat, |k: int| k as usize),
    {
        let mut indices: Vec<usize> = Vec::new();
        let mut k: usize = 0;
        while k < width
            invariant
                k <= width,
                indices@ == Seq::new(k as nat, |j: int| j as usize),
            decreases width - k,
        {
            indices.push(k);
            k = k + 1;
            assert(indices@ =~= Seq::new(k as nat, |j: int| j as usize));
        }
        Selection { indices }
    }

    /// The number of positions.
    pub fn len(&self) -> (n: usize)
        ensures
            n == self@.len(),
    {
        self.indices.len()
    }

    /// The position at place `k` of the selection.
    pub fn get(&self, k: usize) -> (i: usize)
        requires
            k < self@.len(),
        ensures
            i == self@[k as int],
    {
        self.indices[k]
    }

    /// Whether every selected position exists in a row of `width` fields.
    pub fn fits(&self, width: usize) -> (r: bool)
        ensures
            r == positions_fit(self@, width as nat),
    {
        let mut k: usize = 0;
        while k < self.indices.len()
            invariant
                k <= self.indices@.len(),
                forall|j: int| 0 <= j < k ==> self.indices@[j] < width,
            decreases self.indices@.len() - k,
        {
            if self.indices[k] >= width {
                return false;
            }
            k = k + 1;
        }
        true
    }
}

} // verus!
