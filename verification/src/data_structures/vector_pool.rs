//! A shared pool of index vectors laid out in one flat buffer as contiguous
//! runs of the form `|owner|length|e0|e1|...|`, with one read head per
//! consumer. It reuses memory like a bump allocator with wrap-around.

use vstd::prelude::*;

verus! {

pub type VectorIndex = usize;

pub struct VectorPool {
    /// Contiguous runs of the form `|owner|length|elements...|`.
    pub vectors: Vec<VectorIndex>,
    /// The capacity of the buffer.
    pub size: usize,
    /// Where the next run is written.
    pub tail: usize,
    /// The read position of each consumer.
    pub heads: Vec<VectorIndex>,
    /// Whether each consumer has caught up with the tail.
    pub at_end: Vec<bool>,
}

impl VectorPool {
    /// The buffer matches the recorded capacity and the per-consumer tables
    /// line up.
    pub open spec fn wf(self) -> bool {
        &&& self.vectors@.len() == self.size
        &&& self.tail <= self.size
        &&& self.heads@.len() == self.at_end@.len()
        &&& forall|i: int| 0 <= i < self.heads@.len() ==> self.heads@[i] <= self.size
    }

    pub fn new() -> (r: Self)
        ensures
            r.wf(),
            r.size == 0,
    {
        VectorPool { vectors: Vec::new(), size: 0, tail: 0, heads: Vec::new(), at_end: Vec::new() }
    }

    /// The ring successor of a run head: the head of the following run,
    /// wrapping to the start of the buffer when the end is reached.
    pub fn next(&self, index: &mut VectorIndex)
        requires
            self.wf(),
            *old(index) + 1 < self.size,
            *old(index) + 2 + self.vectors@[*old(index) + 1] <= usize::MAX,
        ensures
            ({
                let n = *old(index) + 2 + self.vectors@[*old(index) + 1];
                *final(index) == if n >= self.size {
                    0int
                } else {
                    n
                }
            }),
    {
        let n = *index + 2 + self.get_length(*index);
        if n >= self.size {
            *index = 0;
        } else {
            *index = n;
        }
    }

    /// The owner recorded at a run head.
    pub fn get_owner(&self, index: VectorIndex) -> (r: VectorIndex)
        requires
            index < self.vectors@.len(),
        ensures
            r == self.vectors@[index as int],
    {
        self.vectors[index]
    }

    /// The length recorded at a run head.
    pub fn get_length(&self, index: VectorIndex) -> (r: usize)
        requires
            index + 1 < self.vectors@.len(),
        ensures
            r == self.vectors@[index + 1],
    {
        let n = self.vectors.len();
        self.vectors[index + 1]
    }

    /// Clears the buffer and sizes it for `num_threads` consumers and
    /// `size` cells; every consumer starts at the beginning, caught up.
    pub fn reserve(&mut self, num_threads: usize, size: usize)
        ensures
            final(self).wf(),
            final(self).size == size,
            final(self).tail == 0,
            final(self).vectors@.len() == size,
            forall|i: int| 0 <= i < size ==> final(self).vectors@[i] == 0,
            final(self).heads@.len() == num_threads,
            forall|i: int| 0 <= i < num_threads ==> final(self).heads@[i] == 0,
            final(self).at_end@.len() == num_threads,
            forall|i: int| 0 <= i < num_threads ==> final(self).at_end@[i] == true,
    {
        self.vectors.clear();
        let mut i: usize = 0;
        while i < size
            invariant
                i <= size,
                self.vectors@.len() == i,
                forall|j: int| 0 <= j < i ==> self.vectors@[j] == 0,
            decreases size - i,
        {
            self.vectors.push(0);
            i = i + 1;
        }
        self.heads.clear();
        let mut i: usize = 0;
        while i < num_threads
            invariant
                i <= num_threads,
                self.heads@.len() == i,
                forall|j: int| 0 <= j < i ==> self.heads@[j] == 0,
                self.vectors@.len() == size,
                forall|j: int| 0 <= j < size ==> self.vectors@[j] == 0,
            decreases num_threads - i,
        {
            self.heads.push(0);
            i = i + 1;
        }
        self.at_end.clear();
        let mut i: usize = 0;
        while i < num_threads
            invariant
                i <= num_threads,
                self.at_end@.len() == i,
                forall|j: int| 0 <= j < i ==> self.at_end@[j] == true,
                self.vectors@.len() == size,
                forall|j: int| 0 <= j < size ==> self.vectors@[j] == 0,
                self.heads@.len() == num_threads,
                forall|j: int| 0 <= j < num_threads ==> self.heads@[j] == 0,
            decreases num_threads - i,
        {
            self.at_end.push(true);
            i = i + 1;
        }
        self.tail = 0;
        self.size = size;
    }

    /// Starts adding a run: writes the owner and length header at the tail
    /// and steps every consumer head out of the cells about to be
    /// overwritten. A head that cannot be moved out within the buffer's
    /// capacity is left where it is.
    pub fn begin_add_vector(&mut self, owner: VectorIndex, n: usize)
        requires
            old(self).wf(),
            old(self).tail + n + 2 <= old(self).size,
        ensures
            final(self).wf(),
            final(self).size == old(self).size,
            final(self).tail == old(self).tail + 2,
            final(self).vectors@.len() == old(self).vectors@.len(),
            final(self).vectors@[old(self).tail as int] == owner,
            final(self).vectors@[old(self).tail + 1] == n,
            forall|i: int|
                0 <= i < old(self).vectors@.len() && i != old(self).tail && i != old(self).tail + 1
                    ==> final(self).vectors@[i] == old(self).vectors@[i],
            forall|i: int|
                0 <= i < final(self).at_end@.len() ==> final(self).at_end@[i] == false,
            final(self).heads@.len() == old(self).heads@.len(),
    {
        let capacity = n + 2;
        let num_heads = self.heads.len();
        let mut i: usize = 0;
        while i < num_heads
            invariant
                self.wf(),
                self.size == old(self).size,
                self.tail == old(self).tail,
                self.vectors@ == old(self).vectors@,
                self.heads@.len() == num_heads,
                self.at_end@.len() == num_heads,
                i <= num_heads,
                self.tail + capacity <= self.size,
                forall|j: int| 0 <= j < i ==> self.at_end@[j] == false,
            decreases num_heads - i,
        {
            let mut guard: usize = 0;
            while self.tail < self.heads[i] && self.heads[i] < self.tail + capacity
                invariant
                    self.wf(),
                    self.size == old(self).size,
                    self.tail == old(self).tail,
                    self.vectors@ == old(self).vectors@,
                    self.heads@.len() == num_heads,
                    self.at_end@.len() == num_heads,
                    i < num_heads,
                    self.tail + capacity <= self.size,
                    guard <= self.size,
                    forall|j: int| 0 <= j < i ==> self.at_end@[j] == false,
                decreases self.size - guard,
            {
                if guard >= self.size {
                    break ;
                }
                guard = guard + 1;
                let h = self.heads[i];
                if h + 1 < self.size && h + 2 <= usize::MAX - self.get_length(h) {
                    let mut moved = h;
                    let len_at = self.get_length(h);
                    let nxt = h + 2 + len_at;
                    if nxt >= self.size {
                        moved = 0;
                    } else {
                        moved = nxt;
                    }
                    self.heads[i] = moved;
                } else {
                    self.heads[i] = 0;
                }
            }
            self.at_end[i] = false;
            i = i + 1;
        }
        let t = self.tail;
        self.vectors[t] = owner;
        self.tail = t + 1;
        let t = self.tail;
        self.vectors[t] = n;
        self.tail = t + 1;
    }

    /// Finishes adding a run: a tail that reached the end of the buffer
    /// wraps to the start.
    pub fn end_add_vector(&mut self)
        requires
            old(self).wf(),
        ensures
            final(self).wf(),
            final(self).tail == if old(self).tail >= old(self).size {
                0int
            } else {
                old(self).tail as int
            },
            final(self).vectors@ == old(self).vectors@,
            final(self).heads@ == old(self).heads@,
            final(self).at_end@ == old(self).at_end@,
            final(self).size == old(self).size,
    {
        if self.tail >= self.size {
            self.tail = 0;
        }
    }

    /// Writes one element of the run being added at the tail.
    pub fn add_vector_elem(&mut self, e: VectorIndex)
        requires
            old(self).wf(),
            old(self).tail < old(self).size,
        ensures
            final(self).wf(),
            final(self).vectors@ == old(self).vectors@.update(old(self).tail as int, e),
            final(self).tail == old(self).tail + 1,
            final(self).heads@ == old(self).heads@,
            final(self).at_end@ == old(self).at_end@,
            final(self).size == old(self).size,
    {
        let t = self.tail;
        self.vectors[t] = e;
        self.tail = t + 1;
    }
}

} // verus!
