//! One slot of the ring buffer.
//!
//! A cell carries an optional payload, the count of receivers anchored on
//! it, the publication id of the payload most recently written into it, and
//! its own wait strategy. A writer may replace the payload only while no
//! receiver is anchored; publication stamps the claim id into `current_id`,
//! which receivers compare against their cursor.

use vstd::prelude::*;

use crate::wait_strategy::HybridWait;

verus! {

/// The `current_id` value of a cell that has never been published to.
pub open spec fn never_published() -> usize {
    usize::MAX
}

/// One slot in the ring: payload, reader census, publication id, and the
/// wait strategy used to wait on this slot.
#[derive(Debug)]
pub struct Cell<T> {
    /// The payload most recently written, if any was ever written.
    pub value: Option<T>,
    /// How many receivers currently anchor this cell as the one they read
    /// last. The slot may be rewritten only while this is zero.
    pub read_counter: usize,
    /// Publication id of the payload currently stored;
    /// [`never_published()`] before the first write.
    pub current_id: usize,
    /// The strategy with which waiters on this cell spin, yield or park.
    pub wait_strategy: HybridWait,
}

impl<T> Cell<T> {
    /// A fresh, never-published cell with no anchored readers.
    pub fn new(ws: HybridWait) -> (r: Self)
        ensures
            r.value is None,
            r.read_counter == 0,
            r.current_id == never_published(),
            r.wait_strategy == ws,
    {
        Cell { value: None, read_counter: 0, current_id: usize::MAX, wait_strategy: ws }
    }

    /// The publication id of the payload currently stored.
    pub fn get_published(&self) -> (r: usize)
        ensures
            r == self.current_id,
    {
        self.current_id
    }

    /// Whether a writer may replace the payload: no receiver is anchored.
    pub fn safe_to_write(&self) -> (r: bool)
        ensures
            r <==> self.read_counter == 0,
    {
        self.read_counter == 0
    }

    /// Replace the payload with `value` and publish it under `id`. The
    /// previous payload, if any, is dropped. Only a writer that has
    /// observed the cell reader-free may do this.
    pub fn write_and_publish(&mut self, value: T, id: usize)
        requires
            old(self).read_counter == 0,
        ensures
            final(self).value == Some(value),
            final(self).current_id == id,
            final(self).read_counter == 0,
            final(self).wait_strategy == old(self).wait_strategy,
    {
        self.value = Some(value);
        self.current_id = id;
    }

    /// A receiver anchors itself on this cell.
    pub fn move_to(&mut self)
        requires
            old(self).read_counter < usize::MAX,
        ensures
            final(self).read_counter == old(self).read_counter + 1,
            final(self).value == old(self).value,
            final(self).current_id == old(self).current_id,
            final(self).wait_strategy == old(self).wait_strategy,
    {
        self.read_counter = self.read_counter + 1;
    }

    /// A receiver releases its anchor on this cell.
    pub fn move_from(&mut self)
        requires
            old(self).read_counter >= 1,
        ensures
            final(self).read_counter == old(self).read_counter - 1,
            final(self).value == old(self).value,
            final(self).current_id == old(self).current_id,
            final(self).wait_strategy == old(self).wait_strategy,
    {
        self.read_counter = self.read_counter - 1;
    }
}

impl<T: Clone> Cell<T> {
    /// Clone the payload. Callers must know a payload was published.
    pub fn read(&self) -> (r: T)
        requires
            self.value is Some,
        ensures
            cloned::<T>(self.value->0, r),
    {
        match &self.value {
            Some(v) => v.clone(),
            None => unreached(),
        }
    }

    /// Clone the payload if one was ever published.
    pub fn read_opt(&self) -> (r: Option<T>)
        ensures
            r is Some <==> self.value is Some,
            r is Some ==> cloned::<T>(self.value->0, r->0),
    {
        match &self.value {
            Some(v) => Some(v.clone()),
            None => None,
        }
    }
}

} // verus!
