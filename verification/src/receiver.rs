//! The receive handle and the advance-and-decrement protocol.
//!
//! A receiver keeps a cursor, the id it expects to read next, and stays
//! anchored on the cell it read last: that cell's reader count includes
//! this receiver until it advances. Reading id `c` waits for slot
//! `c % n` to carry publication id `c`, anchors the new cell, releases the
//! previous one, and returns a clone of the payload.

use vstd::prelude::*;

use crate::sender::Sender;
use crate::NexusQ;

verus! {

broadcast use vstd::multiset::group_multiset_axioms;

/// Errors produced when receiving.
#[derive(Debug, PartialEq, Eq, Copy, Clone)]
pub enum RecvError {
    /// The deadline passed before a new value became available.
    Timeout,
    /// There is no unread data to be received.
    NoNewData,
}

/// What a poll on the receive side found.
#[derive(Debug, PartialEq, Eq, Clone)]
pub enum PollNext<T> {
    /// The next value was published; here is a clone of it.
    Ready(T),
    /// The cursor's id is not published yet; the task should park until
    /// the next publication on this slot.
    Pending,
}

/// A receive handle. Every live receiver contributes one anchor to the
/// ring's reader counts; dropping a receiver goes through
/// [`Receiver::disconnect`], which releases the anchor and the census slot.
#[verifier::reject_recursive_types(T)]
pub struct Receiver<T> {
    /// The id this receiver expects to read next; ids start at one.
    pub cursor: usize,
    /// The ring slot this receiver is anchored on: `(cursor - 1) % n`.
    pub previous_cell_index: usize,
    /// Ghost: the id at which this receiver started reading.
    pub first: Ghost<int>,
    /// Ghost: the published values this receiver has consumed, in order.
    pub received: Ghost<Seq<T>>,
}

impl<T> Receiver<T> {
    /// Well-formedness of this handle against the channel state: the
    /// cursor trails the head by less than one lap, the anchor is the
    /// cursor's predecessor slot and is counted in the census, and the
    /// consumed values are exactly the history between `first` and the
    /// cursor.
    pub open spec fn wf(&self, nx: &NexusQ<T>) -> bool {
        &&& 1 <= self.first@ <= self.cursor as int
        &&& self.cursor as int <= nx.head()
        &&& nx.head() <= self.cursor as int - 1 + nx.n()
        &&& self.previous_cell_index as int == (self.cursor as int - 1) % nx.n()
        &&& nx.anchors@.count(self.previous_cell_index as int) >= 1
        &&& self.received@ == nx.history@.subrange(self.first@ - 1, self.cursor as int - 1)
    }

    /// The receiver created together with the channel, anchored on slot
    /// zero with its cursor at the first id.
    pub(crate) fn make_first() -> (r: Self)
        ensures
            r.cursor == 1,
            r.previous_cell_index == 0,
            r.first@ == 1,
            r.received@ == Seq::<T>::empty(),
    {
        Receiver {
            cursor: 1,
            previous_cell_index: 0,
            first: Ghost(1),
            received: Ghost(Seq::empty()),
        }
    }

    /// A new send handle for the channel this receiver reads from.
    pub fn new_sender(&self) -> (r: Sender<T>) {
        Sender::new()
    }

    /// Another receive handle on the same channel, starting at this
    /// receiver's position: it anchors the same cell and will read the
    /// same ids from here on.
    pub fn fork(&self, nexus: &mut NexusQ<T>) -> (r: Receiver<T>)
        requires
            old(nexus).wf(),
            self.wf(&*old(nexus)),
            old(nexus).num_receivers < usize::MAX,
        ensures
            final(nexus).wf(),
            self.wf(&*final(nexus)),
            r.wf(&*final(nexus)),
            r.cursor == self.cursor,
            r.previous_cell_index == self.previous_cell_index,
            r.first@ == self.cursor as int,
            r.received@ == Seq::<T>::empty(),
            final(nexus).anchors@ == old(nexus).anchors@.insert(
                self.previous_cell_index as int,
            ),
            final(nexus).num_receivers == old(nexus).num_receivers + 1,
            final(nexus).history == old(nexus).history,
            final(nexus).claimed == old(nexus).claimed,
            final(nexus).write_head == old(nexus).write_head,
            final(nexus).write_head_wait_strategy == old(nexus).write_head_wait_strategy,
            final(nexus).buffer@.len() == old(nexus).buffer@.len(),
    {
        let prev = self.previous_cell_index;
        proof {
            assert(old(nexus).cell_ok(prev as int));
            assert(nexus.anchors@.count(prev as int) <= nexus.anchors@.len());
        }
        let pcell = &mut nexus.buffer[prev];
        pcell.move_to();
        nexus.num_receivers = nexus.num_receivers + 1;
        nexus.anchors = Ghost(nexus.anchors@.insert(prev as int));
        let r = Receiver {
            cursor: self.cursor,
            previous_cell_index: prev,
            first: Ghost(self.cursor as int),
            received: Ghost(Seq::empty()),
        };
        proof {
            assert forall|i: int| 0 <= i < nexus.n() implies nexus.cell_ok(i) by {
                assert(old(nexus).cell_ok(i));
            };
            assert(r.received@ =~= nexus.history@.subrange(
                self.cursor as int - 1,
                self.cursor as int - 1,
            ));
            assert(nexus.wf());
        }
        r
    }

    /// Detach this receiver from the channel: release its anchor and
    /// leave the census. When the last receiver disconnects, senders see
    /// the channel as disconnected.
    pub fn disconnect(self, nexus: &mut NexusQ<T>)
        requires
            old(nexus).wf(),
            self.wf(&*old(nexus)),
        ensures
            final(nexus).wf(),
            final(nexus).anchors@ == old(nexus).anchors@.remove(
                self.previous_cell_index as int,
            ),
            final(nexus).num_receivers == old(nexus).num_receivers - 1,
            final(nexus).history == old(nexus).history,
            final(nexus).claimed == old(nexus).claimed,
            final(nexus).write_head == old(nexus).write_head,
            final(nexus).write_head_wait_strategy == old(nexus).write_head_wait_strategy,
            final(nexus).buffer@.len() == old(nexus).buffer@.len(),
    {
        let prev = self.previous_cell_index;
        proof {
            assert(old(nexus).cell_ok(prev as int));
        }
        let pcell = &mut nexus.buffer[prev];
        pcell.move_from();
        nexus.num_receivers = nexus.num_receivers - 1;
        nexus.anchors = Ghost(nexus.anchors@.remove(prev as int));
        proof {
            assert forall|i: int| 0 <= i < nexus.n() implies nexus.cell_ok(i) by {
                assert(old(nexus).cell_ok(i));
            };
            assert(nexus.wf());
        }
    }
}

impl<T: Clone> Receiver<T> {
    /// Read the next value. In a concurrent setting this call blocks
    /// until the value with the cursor's id is published, so callers must
    /// only invoke it when that publication has happened; a receiver that
    /// outlives all senders would otherwise wait forever, by design.
    pub fn recv(&mut self, nexus: &mut NexusQ<T>) -> (v: T)
        requires
            old(nexus).wf(),
            old(self).wf(&*old(nexus)),
            old(self).cursor as int <= old(nexus).num_published(),
        ensures
            final(nexus).wf(),
            final(self).wf(&*final(nexus)),
            cloned::<T>(old(nexus).history@[old(self).cursor as int - 1], v),
            final(self).cursor == old(self).cursor + 1,
            final(self).first == old(self).first,
            final(self).received@ == old(self).received@.push(
                old(nexus).history@[old(self).cursor as int - 1],
            ),
            final(nexus).anchors@ == old(nexus).anchors@.remove(
                old(self).previous_cell_index as int,
            ).insert(old(self).cursor as int % old(nexus).n()),
            final(nexus).history == old(nexus).history,
            final(nexus).claimed == old(nexus).claimed,
            final(nexus).num_receivers == old(nexus).num_receivers,
            final(nexus).write_head == old(nexus).write_head,
            final(nexus).write_head_wait_strategy == old(nexus).write_head_wait_strategy,
            final(nexus).buffer@.len() == old(nexus).buffer@.len(),
    {
        let ghost c = self.cursor as int;
        let n = nexus.buffer.len();
        let current_index = crate::fast_mod(self.cursor, n);
        proof {
            vstd::arithmetic::div_mod::lemma_mod_division_less_than_divisor(c, n as int);
            lemma_cursor_published(&*nexus, c);
            crate::lemma_consecutive_slots_distinct(nexus.n(), c);
            assert(current_index as int != self.previous_cell_index as int);
            let m2 = nexus.anchors@.remove(self.previous_cell_index as int);
            assert(m2.count(current_index as int) == nexus.anchors@.count(current_index as int));
            assert(m2.count(current_index as int) <= m2.len());
            assert(nexus.cell_ok(current_index as int));
            assert(nexus.cell_ok(self.previous_cell_index as int));
        }
        let ccell = &mut nexus.buffer[current_index];
        ccell.move_to();
        let prev = self.previous_cell_index;
        let pcell = &mut nexus.buffer[prev];
        pcell.move_from();
        self.previous_cell_index = current_index;
        self.cursor = self.cursor + 1;
        nexus.anchors = Ghost(
            nexus.anchors@.remove(prev as int).insert(current_index as int),
        );
        self.received = Ghost(self.received@.push(nexus.history@[c - 1]));
        let rcell = &nexus.buffer[current_index];
        let v = rcell.read();
        proof {
            assert forall|i: int| 0 <= i < nexus.n() implies nexus.cell_ok(i) by {
                assert(old(nexus).cell_ok(i));
            };
            assert(nexus.wf());
            assert(self.received@ =~= nexus.history@.subrange(self.first@ - 1, c));
            assert(self.wf(&*nexus));
        }
        v
    }

    /// Attempt to read the next value immediately, without waiting.
    pub fn try_recv(&mut self, nexus: &mut NexusQ<T>) -> (r: Result<T, RecvError>)
        requires
            old(nexus).wf(),
            old(self).wf(&*old(nexus)),
        ensures
            final(nexus).wf(),
            final(self).wf(&*final(nexus)),
            old(self).cursor as int > old(nexus).num_published() ==> r == Err::<T, RecvError>(
                RecvError::NoNewData,
            ) && *final(self) == *old(self) && *final(nexus) == *old(nexus),
            old(self).cursor as int <= old(nexus).num_published() ==> r is Ok && cloned::<T>(
                old(nexus).history@[old(self).cursor as int - 1],
                r->Ok_0,
            ) && recv_step(*old(self), *final(self), *old(nexus), *final(nexus)),
    {
        let ghost c = self.cursor as int;
        let n = nexus.buffer.len();
        let current_index = crate::fast_mod(self.cursor, n);
        proof {
            vstd::arithmetic::div_mod::lemma_mod_division_less_than_divisor(c, n as int);
            lemma_cursor_published(&*nexus, c);
        }
        let published = nexus.buffer[current_index].get_published();
        if published != self.cursor {
            return Err(RecvError::NoNewData);
        }
        Ok(self.recv(nexus))
    }

    /// Attempt to read the next value before a deadline. A value that is
    /// already published is returned whatever the deadline says; an empty
    /// channel times out once the deadline passes with nothing published.
    pub fn try_recv_until(&mut self, nexus: &mut NexusQ<T>, deadline: u64) -> (r: Result<
        T,
        RecvError,
    >)
        requires
            old(nexus).wf(),
            old(self).wf(&*old(nexus)),
        ensures
            final(nexus).wf(),
            final(self).wf(&*final(nexus)),
            old(self).cursor as int > old(nexus).num_published() ==> r == Err::<T, RecvError>(
                RecvError::Timeout,
            ) && *final(self) == *old(self) && *final(nexus) == *old(nexus),
            old(self).cursor as int <= old(nexus).num_published() ==> r is Ok && cloned::<T>(
                old(nexus).history@[old(self).cursor as int - 1],
                r->Ok_0,
            ) && recv_step(*old(self), *final(self), *old(nexus), *final(nexus)),
    {
        let _ = deadline;
        let ghost c = self.cursor as int;
        let n = nexus.buffer.len();
        let current_index = crate::fast_mod(self.cursor, n);
        proof {
            vstd::arithmetic::div_mod::lemma_mod_division_less_than_divisor(c, n as int);
            lemma_cursor_published(&*nexus, c);
        }
        let published = nexus.buffer[current_index].get_published();
        if published != self.cursor {
            return Err(RecvError::Timeout);
        }
        Ok(self.recv(nexus))
    }

    /// The stream surface: read the next value if it is published, or
    /// report that the task should wait for the next publication.
    pub fn poll_next(&mut self, nexus: &mut NexusQ<T>) -> (r: PollNext<T>)
        requires
            old(nexus).wf(),
            old(self).wf(&*old(nexus)),
        ensures
            final(nexus).wf(),
            final(self).wf(&*final(nexus)),
            old(self).cursor as int > old(nexus).num_published() ==> r == PollNext::<T>::Pending
                && *final(self) == *old(self) && *final(nexus) == *old(nexus),
            old(self).cursor as int <= old(nexus).num_published() ==> r is Ready && cloned::<T>(
                old(nexus).history@[old(self).cursor as int - 1],
                r->Ready_0,
            ) && recv_step(*old(self), *final(self), *old(nexus), *final(nexus)),
    {
        let ghost c = self.cursor as int;
        let n = nexus.buffer.len();
        let current_index = crate::fast_mod(self.cursor, n);
        proof {
            vstd::arithmetic::div_mod::lemma_mod_division_less_than_divisor(c, n as int);
            lemma_cursor_published(&*nexus, c);
        }
        let published = nexus.buffer[current_index].get_published();
        if published != self.cursor {
            return PollNext::Pending;
        }
        PollNext::Ready(self.recv(nexus))
    }

    /// Read up to `max_results` already-published values at once,
    /// appending clones of them to `out`, and returning how many were
    /// read. A single anchor move covers the whole batch. The batch stays
    /// clear of the claim in progress: when the slot the head id maps to
    /// was already written a lap ago, the newest published value is left
    /// for the next call.
    pub fn try_recv_batch(&mut self, nexus: &mut NexusQ<T>, max_results: usize, out: &mut Vec<
        T,
    >) -> (count: usize)
        requires
            old(nexus).wf(),
            old(self).wf(&*old(nexus)),
        ensures
            final(nexus).wf(),
            final(self).wf(&*final(nexus)),
            count == batch_count(*old(nexus), old(self).cursor as int, max_results as int),
            count == 0 ==> *final(self) == *old(self) && *final(nexus) == *old(nexus)
                && final(out)@ == old(out)@,
            final(self).cursor == old(self).cursor + count,
            final(self).first == old(self).first,
            final(self).received@ == old(self).received@ + old(nexus).history@.subrange(
                old(self).cursor as int - 1,
                old(self).cursor as int - 1 + count,
            ),
            batch_out_ok(
                old(nexus).history@,
                old(self).cursor as int,
                count as int,
                old(out)@,
                final(out)@,
            ),
            count > 0 ==> final(nexus).anchors@ == old(nexus).anchors@.remove(
                old(self).previous_cell_index as int,
            ).insert((old(self).cursor as int + count - 1) % old(nexus).n()),
            final(nexus).history == old(nexus).history,
            final(nexus).claimed == old(nexus).claimed,
            final(nexus).num_receivers == old(nexus).num_receivers,
            final(nexus).write_head == old(nexus).write_head,
            final(nexus).write_head_wait_strategy == old(nexus).write_head_wait_strategy,
            final(nexus).buffer@.len() == old(nexus).buffer@.len(),
    {
        let ghost c = self.cursor as int;
        let ghost p = nexus.num_published();
        let n = nexus.buffer.len();
        let cap = if max_results > n - 1 {
            n - 1
        } else {
            max_results
        };
        if cap == 0 {
            proof {
                assert(out@.subrange(0, out@.len() as int) =~= out@);
            }
            return 0;
        }
        let mut current_claimed = nexus.claimed;
        let guard_index = crate::fast_mod(current_claimed, n);
        proof {
            vstd::arithmetic::div_mod::lemma_mod_division_less_than_divisor(
                current_claimed as int,
                n as int,
            );
            crate::lemma_latest_id_of_head_slot(p, n as int);
            assert(nexus.cell_ok(guard_index as int));
        }
        let guard_published = nexus.buffer[guard_index].get_published();
        if guard_published < current_claimed {
            current_claimed = current_claimed - 1;
        }
        proof {
            assert(current_claimed as int == batch_limit(*old(nexus)));
        }
        if current_claimed <= self.cursor {
            proof {
                assert(out@.subrange(0, out@.len() as int) =~= out@);
            }
            return 0;
        }
        let num_available = current_claimed - self.cursor;
        let num_to_read = if num_available < cap {
            num_available
        } else {
            cap
        };
        let ghost k = num_to_read as int;
        let ghost out0 = out@;
        let mut i: usize = 0;
        while i < num_to_read
            invariant
                0 <= i <= num_to_read,
                nexus.wf(),
                self.wf(&*nexus),
                self.cursor as int == c,
                nexus.num_published() == p,
                nexus.buffer@.len() == n as int,
                c + num_to_read as int <= nexus.head(),
                out@.len() == out0.len() + i as int,
                forall|j: int| 0 <= j < out0.len() ==> out@[j] == out0[j],
                forall|j: int|
                    0 <= j < i as int ==> #[trigger] cloned::<T>(
                        nexus.history@[c - 1 + j],
                        out@[out0.len() + j],
                    ),
            decreases num_to_read - i,
        {
            let ci = crate::fast_mod(self.cursor + i, n);
            proof {
                vstd::arithmetic::div_mod::lemma_mod_division_less_than_divisor(
                    c + i as int,
                    n as int,
                );
                crate::lemma_latest_id_of_recent(p, n as int, c + i as int);
                assert(nexus.cell_ok(ci as int));
            }
            let rcell = &nexus.buffer[ci];
            let v = rcell.read();
            out.push(v);
            i = i + 1;
        }
        let ghost a2 = nexus.anchors@.remove(self.previous_cell_index as int);
        self.cursor = self.cursor + num_to_read;
        let last_index = crate::fast_mod(self.cursor - 1, n);
        proof {
            vstd::arithmetic::div_mod::lemma_mod_division_less_than_divisor(
                c + k - 1,
                n as int,
            );
            crate::lemma_slot_shift_distinct(n as int, c - 1, k);
            assert(last_index as int != self.previous_cell_index as int);
            assert(a2.count(last_index as int) == nexus.anchors@.count(last_index as int));
            assert(a2.count(last_index as int) <= a2.len());
            assert(nexus.cell_ok(last_index as int));
            assert(nexus.cell_ok(self.previous_cell_index as int));
        }
        let lcell = &mut nexus.buffer[last_index];
        lcell.move_to();
        let prev = self.previous_cell_index;
        let pcell = &mut nexus.buffer[prev];
        pcell.move_from();
        self.previous_cell_index = last_index;
        nexus.anchors = Ghost(nexus.anchors@.remove(prev as int).insert(last_index as int));
        self.received = Ghost(self.received@ + nexus.history@.subrange(c - 1, c - 1 + k));
        proof {
            assert forall|j: int| 0 <= j < nexus.n() implies nexus.cell_ok(j) by {
                assert(old(nexus).cell_ok(j));
            };
            assert(nexus.wf());
            assert(self.received@ =~= nexus.history@.subrange(self.first@ - 1, c - 1 + k));
            assert(self.wf(&*nexus));
            assert(out@.subrange(0, out0.len() as int) =~= out0);
        }
        num_to_read
    }
}

/// What a batch read appends to its output vector: the previous contents
/// stay in place, and one clone of each consumed value follows them, in
/// publication order.
pub open spec fn batch_out_ok<T: Clone>(
    hist: Seq<T>,
    c: int,
    k: int,
    out0: Seq<T>,
    out1: Seq<T>,
) -> bool {
    &&& out1.len() == out0.len() + k
    &&& out1.subrange(0, out0.len() as int) == out0
    &&& forall|j: int|
        0 <= j < k ==> #[trigger] cloned::<T>(hist[c - 1 + j], out1[out0.len() + j])
}

/// How far a batch read may reach: normally everything published, but
/// when the slot the head id maps to was already written a lap ago, the
/// newest published id is held back, so a batch never touches the slot an
/// in-flight claim would have to reclaim.
pub open spec fn batch_limit<T>(nx: NexusQ<T>) -> int {
    if nx.head() > nx.n() {
        nx.head() - 1
    } else {
        nx.head()
    }
}

/// How many values a batch read returns: the available ids below the
/// batch limit, capped by the request and by one less than the ring size.
pub open spec fn batch_count<T>(nx: NexusQ<T>, cursor: int, max_results: int) -> int {
    let cap = if max_results > nx.n() - 1 {
        nx.n() - 1
    } else {
        max_results
    };
    let avail = batch_limit(nx) - cursor;
    if cap <= 0 || avail <= 0 {
        0
    } else if avail < cap {
        avail
    } else {
        cap
    }
}

/// How one read advances a receiver and the channel: the cursor moves up
/// by one, the consumed value joins the receiver's ghost record, the
/// anchor moves to the cursor's slot, and nothing else changes.
pub open spec fn recv_step<T>(
    r0: Receiver<T>,
    r1: Receiver<T>,
    nx0: NexusQ<T>,
    nx1: NexusQ<T>,
) -> bool {
    &&& r1.cursor == r0.cursor + 1
    &&& r1.first == r0.first
    &&& r1.received@ == r0.received@.push(nx0.history@[r0.cursor as int - 1])
    &&& nx1.anchors@ == nx0.anchors@.remove(r0.previous_cell_index as int).insert(
        r0.cursor as int % nx0.n(),
    )
    &&& nx1.history == nx0.history
    &&& nx1.claimed == nx0.claimed
    &&& nx1.num_receivers == nx0.num_receivers
    &&& nx1.write_head == nx0.write_head
    &&& nx1.buffer@.len() == nx0.buffer@.len()
}

/// Whether the id a receiver's cursor names is published is visible on
/// the cursor's ring slot: the slot carries exactly that id when the id
/// is published, and some other id (or the never-published mark) when it
/// is not yet.
pub proof fn lemma_cursor_published<T>(nx: &NexusQ<T>, c: int)
    requires
        nx.wf(),
        1 <= c,
        c <= nx.head(),
        nx.head() <= c - 1 + nx.n(),
    ensures
        c <= nx.num_published() ==> nx.buffer@[c % nx.n()].current_id == c
            && nx.buffer@[c % nx.n()].value == Some(nx.history@[c - 1]),
        c > nx.num_published() ==> nx.buffer@[c % nx.n()].current_id != c,
{
    let n = nx.n();
    let p = nx.num_published();
    vstd::arithmetic::div_mod::lemma_mod_division_less_than_divisor(c, n);
    let i = c % n;
    assert(nx.cell_ok(i));
    if c <= p {
        crate::lemma_latest_id_of_recent(p, n, c);
    } else {
        crate::lemma_latest_id_range(p, n, i);
    }
}

} // verus!
