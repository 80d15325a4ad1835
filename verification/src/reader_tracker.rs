//! A reader-side position tracker: a ring of occupancy tokens, one per
//! slot, and a tail watermark that advances when the slot it points at
//! runs out of readers.

use vstd::prelude::*;

verus! {

/// Tracks where readers are in a ring of slots. Each slot carries a
/// token count of the readers currently positioned on it; the tail is
/// the lowest position any reader still occupies.
#[derive(Debug)]
pub struct ReaderTracker {
    /// Occupancy count per ring slot.
    pub tokens: Vec<usize>,
    /// The lowest position any reader still occupies.
    pub tail: i64,
}

/// The per-slot token counts after a reader moved from slot `fi` to slot
/// `ti`: the destination gains a token, then the source loses one. When
/// the two slots coincide the counts end unchanged.
pub open spec fn moved_tokens(t: Seq<usize>, fi: int, ti: int) -> Seq<usize> {
    let t1 = t.update(ti, (t[ti] + 1) as usize);
    t1.update(fi, (t1[fi] - 1) as usize)
}

impl ReaderTracker {
    /// There is at least one slot to track.
    pub open spec fn wf(&self) -> bool {
        self.tokens@.len() >= 1
    }

    /// A tracker over `size` slots, with no readers and the tail at
    /// position zero.
    pub fn new(size: usize) -> (r: Self)
        requires
            size >= 1,
        ensures
            r.wf(),
            r.tokens@.len() == size,
            forall|i: int| 0 <= i < size ==> r.tokens@[i] == 0,
            r.tail == 0,
    {
        let mut tokens: Vec<usize> = Vec::new();
        let mut i: usize = 0;
        while i < size
            invariant
                i <= size,
                tokens@.len() == i as int,
                forall|j: int| 0 <= j < i as int ==> tokens@[j] == 0,
            decreases size - i,
        {
            tokens.push(0);
            i = i + 1;
        }
        ReaderTracker { tokens, tail: 0 }
    }

    /// A new reader arrives at position zero.
    pub fn register(&mut self)
        requires
            old(self).wf(),
            old(self).tokens@[0] < usize::MAX,
        ensures
            final(self).wf(),
            final(self).tokens@ == old(self).tokens@.update(0, (old(self).tokens@[0] + 1) as usize),
            final(self).tail == old(self).tail,
    {
        let t0 = &mut self.tokens[0];
        *t0 = *t0 + 1;
    }

    /// A reader moves from position `from` to position `to`, one step up.
    /// Readers entering from nowhere (`from` below zero) and stutters
    /// (`from == to`) change nothing. When the source slot runs out of
    /// readers and the tail pointed at the source position, the tail
    /// advances to `to`.
    pub fn update_position(&mut self, from: i64, to: i64)
        requires
            old(self).wf(),
            -1 <= from <= to,
            to as int <= usize::MAX as int,
            from >= 0 && from != to ==> {
                &&& to == from + 1
                &&& old(self).tokens@[from as int % old(self).tokens@.len() as int] >= 1
                &&& old(self).tokens@[to as int % old(self).tokens@.len() as int] < usize::MAX
            },
        ensures
            final(self).wf(),
            from < 0 || from == to ==> *final(self) == *old(self),
            from >= 0 && from != to ==> {
                let n = old(self).tokens@.len() as int;
                let fi = from as int % n;
                let ti = to as int % n;
                &&& final(self).tokens@ == moved_tokens(old(self).tokens@, fi, ti)
                &&& final(self).tail == if final(self).tokens@[fi] == 0 && old(self).tail == from {
                    to
                } else {
                    old(self).tail
                }
            },
    {
        if from == to || from < 0 {
            return ;
        }
        let n = self.tokens.len();
        let from_index = crate::fast_mod(from as usize, n);
        let to_index = crate::fast_mod(to as usize, n);
        proof {
            vstd::arithmetic::div_mod::lemma_mod_division_less_than_divisor(from as int, n as int);
            vstd::arithmetic::div_mod::lemma_mod_division_less_than_divisor(to as int, n as int);
        }
        let to_token = &mut self.tokens[to_index];
        *to_token = *to_token + 1;
        let from_token = &mut self.tokens[from_index];
        *from_token = *from_token - 1;
        if self.tokens[from_index] == 0 && self.tail == from {
            self.tail = to;
        }
    }

    /// Wait until the tail reaches `min_tail_value`, and return the tail.
    pub fn wait_for_tail(&self, min_tail_value: i64) -> (r: i64)
        requires
            self.tail >= min_tail_value,
        ensures
            r == self.tail,
    {
        self.tail
    }

    /// The lowest position any reader still occupies.
    pub fn current_tail_position(&self) -> (r: i64)
        ensures
            r == self.tail,
    {
        self.tail
    }

    /// The occupancy count of one ring slot.
    pub fn token_at(&self, index: usize) -> (r: usize)
        requires
            index < self.tokens@.len(),
        ensures
            r == self.tokens@[index as int],
    {
        self.tokens[index]
    }

    /// How many ring slots this tracker covers.
    pub fn len(&self) -> (r: usize)
        ensures
            r == self.tokens@.len(),
    {
        self.tokens.len()
    }
}

} // verus!
