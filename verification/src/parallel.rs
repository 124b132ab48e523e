//! The shared pool through which portfolio workers exchange clauses,
//! modelled with copy-in/copy-out semantics: a clause is added as a vector
//! of literal indices under its owner, and a consumer receives vectors that
//! other owners contributed.

use vstd::prelude::*;

verus! {

pub type VectorIndex = usize;

/// A pool of index vectors, each recorded with the worker that owns it.
pub struct VectorPool {
    /// Each inner vector is a clause, as literal indices.
    pub vectors: Vec<Vec<VectorIndex>>,
    pub owners: Vec<VectorIndex>,
}

impl VectorPool {
    /// One owner per vector.
    pub open spec fn wf(self) -> bool {
        self.vectors@.len() == self.owners@.len()
    }

    pub fn new() -> (r: VectorPool)
        ensures
            r.wf(),
            r.vectors@.len() == 0,
    {
        VectorPool { vectors: Vec::new(), owners: Vec::new() }
    }

    /// Clears the pool; it will serve `thread_count` workers.
    pub fn reserve(&mut self, thread_count: usize)
        ensures
            final(self).wf(),
            final(self).vectors@.len() == 0,
            final(self).owners@.len() == 0,
    {
        self.vectors.clear();
        self.owners.clear();
    }

    /// Contributes a vector under `owner`.
    pub fn add_vector(&mut self, owner: VectorIndex, vector: Vec<VectorIndex>)
        requires
            old(self).wf(),
        ensures
            final(self).wf(),
            final(self).vectors@ == old(self).vectors@.push(vector),
            final(self).owners@ == old(self).owners@.push(owner),
    {
        self.vectors.push(vector);
        self.owners.push(owner);
    }

    /// The first vector contributed by `owner`, if any.
    pub fn get_vector_for_owner(&self, owner: VectorIndex) -> (r: Option<&Vec<VectorIndex>>)
        requires
            self.wf(),
        ensures
            match r {
                Some(v) => exists|i: int|
                    0 <= i < self.owners@.len() && self.owners@[i] == owner && self.vectors@[i]
                        == *v,
                None => forall|i: int| 0 <= i < self.owners@.len() ==> self.owners@[i] != owner,
            },
    {
        let n = self.owners.len();
        let mut i: usize = 0;
        while i < n
            invariant
                self.wf(),
                n == self.owners@.len(),
                i <= n,
                forall|j: int| 0 <= j < i ==> self.owners@[j] != owner,
            decreases n - i,
    {
            if self.owners[i] == owner {
                return Some(&self.vectors[i]);
            }
            i = i + 1;
        }
        None
    }
}

} // verus!
