//! The send handle and the claim-publish protocol.
//!
//! A sender claims the next publication id by taking the channel's
//! write-head token, checks that the target cell is free of anchored
//! readers, advances the head, and publishes the value under the claimed
//! id. With the shared state passed explicitly, the token discipline shows
//! up as the `write_head` cell being taken and restored within each call.

use vstd::prelude::*;

use crate::wait_strategy::Takeable;
use crate::NexusQ;

verus! {

broadcast use vstd::multiset::group_multiset_axioms;

/// Errors produced by the send methods. All variants carry the unsent
/// value where possible, so no data is lost.
#[derive(Debug, PartialEq, Eq, Copy, Clone)]
pub enum SendError<T> {
    /// There is no free slot in the channel.
    Full(T),
    /// The value could not be sent before the deadline.
    Timeout(T),
    /// There are no more receivers; the channel is disconnected.
    Disconnected(Option<T>),
}

/// The progress of a task-based send between polls: once `poll_ready`
/// has seen the channel ready, it records the id the next publication
/// will take, and `start_send` publishes under exactly that id.
#[derive(Debug, PartialEq, Eq, Copy, Clone)]
pub struct AsyncState {
    /// The publication id whose readiness `poll_ready` observed, if any.
    pub id: Option<usize>,
}

/// What a readiness poll on the send side found.
#[derive(Debug, PartialEq, Eq, Copy, Clone)]
pub enum PollReady {
    /// A slot is free: `start_send` may publish.
    Ready,
    /// The target slot still has anchored readers; the task should park
    /// until a reader moves on.
    Pending,
    /// There are no more receivers.
    Disconnected,
}

/// A send handle. Handles share the channel state they are used on and
/// are interchangeable; new ones can be made from receivers. The only
/// per-handle state is the in-flight marker of a task-based send.
#[derive(Debug)]
pub struct Sender<T> {
    /// Progress of a task-based send, consulted by `start_send`.
    pub async_state: AsyncState,
    /// Carries the element type; a handle stores no element itself.
    pub marker: core::marker::PhantomData<T>,
}

impl<T> Clone for Sender<T> {
    /// A cloned handle starts with no task-based send in flight.
    fn clone(&self) -> (r: Self) {
        Sender::new()
    }
}

impl<T> Sender<T> {
    /// Create a send handle.
    pub fn new() -> (r: Self)
        ensures
            r.async_state.id is None,
    {
        Sender { async_state: AsyncState { id: None }, marker: core::marker::PhantomData }
    }

    /// Send a value. In a concurrent setting this call blocks until the
    /// target cell is free of readers, so callers must only invoke it when
    /// that wait can end: the target cell is reader-free, or no receiver
    /// is left (in which case the value comes back as disconnected).
    pub fn send(&self, nexus: &mut NexusQ<T>, value: T) -> (r: Result<(), SendError<T>>)
        requires
            old(nexus).wf(),
            old(nexus).claimed + 1 < usize::MAX,
            old(nexus).num_receivers == 0 || old(nexus).write_safe(),
        ensures
            final(nexus).wf(),
            old(nexus).num_receivers == 0 ==> r == Err::<(), SendError<T>>(
                SendError::Disconnected(Some(value)),
            ) && *final(nexus) == *old(nexus),
            old(nexus).num_receivers > 0 ==> r == Ok::<(), SendError<T>>(())
                && final(nexus).history@ == old(nexus).history@.push(value),
            final(nexus).anchors@ == old(nexus).anchors@,
            final(nexus).num_receivers == old(nexus).num_receivers,
            final(nexus).buffer@.len() == old(nexus).buffer@.len(),
            final(nexus).write_head_wait_strategy == old(nexus).write_head_wait_strategy,
    {
        let id = match nexus.write_head.try_take() {
            Some(id) => id,
            None => { unreached() },
        };
        let n = nexus.buffer.len();
        let index = crate::fast_mod(id, n);
        proof {
            vstd::arithmetic::div_mod::lemma_mod_division_less_than_divisor(
                id as int,
                n as int,
            );
            crate::lemma_latest_id_range(nexus.num_published(), nexus.n(), index as int);
            assert(nexus.buffer@ == old(nexus).buffer@);
            assert((index as int) < old(nexus).n());
            assert(old(nexus).cell_ok(index as int));
            assert(nexus.cell_ok(index as int));
            if nexus.num_receivers == 0 {
                assert(nexus.anchors@.count(index as int) <= nexus.anchors@.len());
                assert(nexus.buffer@[index as int].read_counter == 0);
            }
        }
        let immediately_safe = nexus.buffer[index].safe_to_write();
        if immediately_safe && nexus.num_receivers == 0 {
            nexus.write_head.restore(id);
            proof {
                assert(nexus.write_head == old(nexus).write_head);
                assert(*nexus == *old(nexus));
            }
            return Err(SendError::Disconnected(Some(value)));
        }
        proof {
            assert(nexus.num_receivers > 0);
            assert(nexus.anchors@.count(index as int) == 0);
            assert(nexus.buffer@[index as int].read_counter == 0);
        }
        nexus.write_head.restore(id + 1);
        nexus.claimed = nexus.claimed + 1;
        let ghost p = old(nexus).num_published();
        let wcell = &mut nexus.buffer[index];
        wcell.write_and_publish(value, id);
        nexus.history = Ghost(nexus.history@.push(value));
        proof {
            crate::lemma_latest_id_step(p, nexus.n());
            assert forall|i: int| 0 <= i < nexus.n() implies nexus.cell_ok(i) by {
                if i != index as int {
                    assert(old(nexus).cell_ok(i));
                }
            };
        }
        Ok(())
    }

    /// Attempt to send a value immediately, without waiting. The value
    /// comes back inside the error when the channel is full or
    /// disconnected.
    pub fn try_send(&self, nexus: &mut NexusQ<T>, value: T) -> (r: Result<(), SendError<T>>)
        requires
            old(nexus).wf(),
            old(nexus).claimed + 1 < usize::MAX,
        ensures
            final(nexus).wf(),
            old(nexus).num_receivers == 0 ==> r == Err::<(), SendError<T>>(
                SendError::Disconnected(Some(value)),
            ) && *final(nexus) == *old(nexus),
            old(nexus).num_receivers > 0 && !old(nexus).write_safe() ==> r == Err::<
                (),
                SendError<T>,
            >(SendError::Full(value)) && *final(nexus) == *old(nexus),
            old(nexus).num_receivers > 0 && old(nexus).write_safe() ==> r == Ok::<
                (),
                SendError<T>,
            >(()) && final(nexus).history@ == old(nexus).history@.push(value),
            final(nexus).anchors@ == old(nexus).anchors@,
            final(nexus).num_receivers == old(nexus).num_receivers,
            final(nexus).buffer@.len() == old(nexus).buffer@.len(),
            final(nexus).write_head_wait_strategy == old(nexus).write_head_wait_strategy,
    {
        if nexus.num_receivers == 0 {
            return Err(SendError::Disconnected(Some(value)));
        }
        let id = match nexus.write_head.try_take() {
            Some(id) => id,
            None => { unreached() },
        };
        let n = nexus.buffer.len();
        let index = crate::fast_mod(id, n);
        proof {
            vstd::arithmetic::div_mod::lemma_mod_division_less_than_divisor(id as int, n as int);
            crate::lemma_latest_id_range(nexus.num_published(), nexus.n(), index as int);
            assert(old(nexus).cell_ok(index as int));
            assert(nexus.cell_ok(index as int));
        }
        let safe = nexus.buffer[index].safe_to_write();
        if !safe {
            nexus.write_head.restore(id);
            proof {
                assert(nexus.write_head == old(nexus).write_head);
                assert(*nexus == *old(nexus));
                assert(!old(nexus).write_safe());
            }
            return Err(SendError::Full(value));
        }
        nexus.write_head.restore(id + 1);
        nexus.claimed = nexus.claimed + 1;
        let ghost p = old(nexus).num_published();
        let wcell = &mut nexus.buffer[index];
        wcell.write_and_publish(value, id);
        nexus.history = Ghost(nexus.history@.push(value));
        proof {
            crate::lemma_latest_id_step(p, nexus.n());
            assert forall|i: int| 0 <= i < nexus.n() implies nexus.cell_ok(i) by {
                if i != index as int {
                    assert(old(nexus).cell_ok(i));
                }
            };
        }
        Ok(())
    }

    /// Attempt to send a value before a deadline. A deadline already in
    /// the past times out at once; a full channel times out when the
    /// deadline passes without a slot coming free.
    pub fn try_send_before(&self, nexus: &mut NexusQ<T>, value: T, now: u64, deadline: u64) -> (r:
        Result<(), SendError<T>>)
        requires
            old(nexus).wf(),
            old(nexus).claimed + 1 < usize::MAX,
        ensures
            final(nexus).wf(),
            deadline < now ==> r == Err::<(), SendError<T>>(SendError::Timeout(value))
                && *final(nexus) == *old(nexus),
            deadline >= now && old(nexus).num_receivers == 0 ==> r == Err::<(), SendError<T>>(
                SendError::Disconnected(Some(value)),
            ) && *final(nexus) == *old(nexus),
            deadline >= now && old(nexus).num_receivers > 0 && !old(nexus).write_safe() ==> r
                == Err::<(), SendError<T>>(SendError::Timeout(value))
                && *final(nexus) == *old(nexus),
            deadline >= now && old(nexus).num_receivers > 0 && old(nexus).write_safe() ==> r
                == Ok::<(), SendError<T>>(())
                && final(nexus).history@ == old(nexus).history@.push(value),
            final(nexus).anchors@ == old(nexus).anchors@,
            final(nexus).num_receivers == old(nexus).num_receivers,
            final(nexus).buffer@.len() == old(nexus).buffer@.len(),
            final(nexus).write_head_wait_strategy == old(nexus).write_head_wait_strategy,
    {
        if deadline < now {
            return Err(SendError::Timeout(value));
        }
        let id = match nexus.write_head.try_take() {
            Some(id) => id,
            None => { unreached() },
        };
        let n = nexus.buffer.len();
        let index = crate::fast_mod(id, n);
        proof {
            vstd::arithmetic::div_mod::lemma_mod_division_less_than_divisor(id as int, n as int);
            crate::lemma_latest_id_range(nexus.num_published(), nexus.n(), index as int);
            assert(old(nexus).cell_ok(index as int));
            assert(nexus.cell_ok(index as int));
            if nexus.num_receivers == 0 {
                assert(nexus.anchors@.count(index as int) <= nexus.anchors@.len());
            }
        }
        let immediately_safe = nexus.buffer[index].safe_to_write();
        if !immediately_safe {
            nexus.write_head.restore(id);
            proof {
                assert(nexus.write_head == old(nexus).write_head);
                assert(*nexus == *old(nexus));
                assert(!old(nexus).write_safe());
            }
            return Err(SendError::Timeout(value));
        }
        if nexus.num_receivers == 0 {
            nexus.write_head.restore(id);
            proof {
                assert(nexus.write_head == old(nexus).write_head);
                assert(*nexus == *old(nexus));
            }
            return Err(SendError::Disconnected(Some(value)));
        }
        nexus.write_head.restore(id + 1);
        nexus.claimed = nexus.claimed + 1;
        let ghost p = old(nexus).num_published();
        let wcell = &mut nexus.buffer[index];
        wcell.write_and_publish(value, id);
        nexus.history = Ghost(nexus.history@.push(value));
        proof {
            crate::lemma_latest_id_step(p, nexus.n());
            assert forall|i: int| 0 <= i < nexus.n() implies nexus.cell_ok(i) by {
                if i != index as int {
                    assert(old(nexus).cell_ok(i));
                }
            };
        }
        Ok(())
    }

    /// The readiness half of a task-based send: decide whether a value
    /// could be published right now. On readiness the claim id is
    /// recorded in the handle, so that `start_send` publishes under it;
    /// any other outcome clears the record. The channel state is left
    /// untouched: the write-head token is taken and restored within the
    /// call.
    pub fn poll_ready(&mut self, nexus: &mut NexusQ<T>) -> (r: PollReady)
        requires
            old(nexus).wf(),
        ensures
            *final(nexus) == *old(nexus),
            r == PollReady::Disconnected <==> old(nexus).num_receivers == 0,
            r == PollReady::Ready <==> old(nexus).num_receivers > 0 && old(nexus).write_safe(),
            r == PollReady::Pending <==> old(nexus).num_receivers > 0 && !old(
                nexus,
            ).write_safe(),
            r == PollReady::Ready ==> final(self).async_state.id == Some(old(nexus).claimed),
            r != PollReady::Ready ==> final(self).async_state.id is None,
    {
        if nexus.num_receivers == 0 {
            self.async_state.id = None;
            return PollReady::Disconnected;
        }
        let id = match nexus.write_head.try_take() {
            Some(id) => id,
            None => { unreached() },
        };
        let n = nexus.buffer.len();
        let index = crate::fast_mod(id, n);
        proof {
            vstd::arithmetic::div_mod::lemma_mod_division_less_than_divisor(id as int, n as int);
            assert(old(nexus).cell_ok(index as int));
        }
        let safe = nexus.buffer[index].safe_to_write();
        nexus.write_head.restore(id);
        proof {
            assert(nexus.write_head == old(nexus).write_head);
            assert(*nexus == *old(nexus));
        }
        if safe {
            self.async_state.id = Some(id);
            PollReady::Ready
        } else {
            self.async_state.id = None;
            PollReady::Pending
        }
    }

    /// The publication half of a task-based send: publish `item` under
    /// the id that `poll_ready` recorded. The readiness it observed must
    /// still hold — drivers re-poll after anything else touched the
    /// channel in between.
    pub fn start_send(&mut self, nexus: &mut NexusQ<T>, item: T)
        requires
            old(nexus).wf(),
            old(nexus).claimed + 1 < usize::MAX,
            old(self).async_state.id == Some(old(nexus).claimed),
            old(nexus).num_receivers > 0,
            old(nexus).write_safe(),
        ensures
            final(nexus).wf(),
            final(nexus).history@ == old(nexus).history@.push(item),
            final(self).async_state.id is None,
            final(nexus).anchors@ == old(nexus).anchors@,
            final(nexus).num_receivers == old(nexus).num_receivers,
            final(nexus).buffer@.len() == old(nexus).buffer@.len(),
            final(nexus).write_head_wait_strategy == old(nexus).write_head_wait_strategy,
    {
        self.async_state.id = None;
        let result = self.send(nexus, item);
        proof {
            assert(result is Ok);
        }
    }

    /// The flush half of the sink surface: publication is immediate, so
    /// there is never anything left to flush.
    pub fn poll_flush(&self) -> (r: PollReady)
        ensures
            r == PollReady::Ready,
    {
        PollReady::Ready
    }

    /// Closing the sink surface: senders hold no buffered state, so
    /// closing completes at once.
    pub fn poll_close(&self) -> (r: PollReady)
        ensures
            r == PollReady::Ready,
    {
        PollReady::Ready
    }
}

} // verus!
