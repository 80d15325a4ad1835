//! A multi-producer, multi-consumer broadcast channel over a bounded ring
//! buffer, with every step of the coordination protocol verified.
//!
//! Every value published by any sender is delivered, in publication order, to
//! every attached receiver. Senders serialise through a takeable write-head
//! token; receivers progress independently, each anchoring the cell it read
//! last so that writers cannot overwrite a slot a reader still depends on.
//!
//! The channel state lives in [`NexusQ`]; [`Sender`] and [`Receiver`] are thin
//! handles whose operations take the shared state as an explicit `&mut`
//! argument. The ghost publication history and the ghost census of receiver
//! anchors tie every operation to the channel's logical behaviour: values are
//! neither skipped, duplicated, nor overwritten while still referenced.

use vstd::multiset::Multiset;
use vstd::prelude::*;

mod cell;
mod laws;
mod producer_tracker;
mod reader_tracker;
mod receiver;
mod sender;
pub mod wait_strategy;

pub use cell::{never_published, Cell};
pub use laws::{
    lemma_anchor_holds_last_read, lemma_cursor_window, lemma_drop_accounting, lemma_fifo_order,
    lemma_reader_census, lemma_received_exactly_once, lemma_receivers_agree,
    lemma_resident_payloads, lemma_round_trip,
};
pub use producer_tracker::ProducerTracker;
pub use reader_tracker::{moved_tokens, ReaderTracker};
pub use receiver::{batch_count, batch_limit, batch_out_ok, lemma_cursor_published, recv_step,
    PollNext, Receiver, RecvError};
pub use sender::{AsyncState, PollReady, SendError, Sender};
pub use wait_strategy::{BlockStrategy, HybridWait, TakeCell, Takeable, WaitAction, WaitError,
    Waitable};

verus! {

broadcast use vstd::multiset::group_multiset_axioms;

/// Errors produced when constructing a channel.
#[derive(Debug, PartialEq, Eq, Copy, Clone)]
pub enum NexusError {
    /// The requested buffer size is below the two-cell minimum.
    BufferTooSmall,
    /// The requested buffer size exceeds the largest supported allocation.
    BufferTooLarge,
}

/// Whether `n` is a power of two.
pub open spec fn is_pow2(n: int) -> bool
    decreases n,
{
    if n <= 0 {
        false
    } else if n == 1 {
        true
    } else {
        n % 2 == 0 && is_pow2(n / 2)
    }
}

/// The id of the latest value published into ring slot `i`, in a ring of
/// `n` cells after `p` publications: the largest id `k <= p` with
/// `k % n == i`. Ids below one mean the slot was never written.
pub open spec fn latest_id(p: int, n: int, i: int) -> int {
    p - ((p - i) % n)
}

/// Reduction of an id onto a ring of `d` slots. The name comes from the
/// mask trick this reduction allows when `d` is a power of two, as every
/// ring size here is.
pub fn fast_mod(n: usize, d: usize) -> (r: usize)
    requires
        d > 0,
    ensures
        r == n as int % d as int,
{
    n % d
}

/// The smallest power of two that is at least `size`, and at least two.
pub fn maybe_next_power_of_two(size: usize) -> (r: usize)
    requires
        2 <= size <= usize::MAX / 2,
    ensures
        is_pow2(r as int),
        r >= size,
        r < 2 * size,
{
    let mut p: usize = 1;
    while p < size
        invariant
            1 <= p,
            is_pow2(p as int),
            size <= usize::MAX / 2,
            p < 2 * size,
            p > 1 ==> p / 2 < size,
        decreases 2 * size - p,
    {
        assert(is_pow2(2 * p as int)) by {
            assert(2 * p as int % 2 == 0);
        };
        p = p * 2;
    }
    p
}

/// Of two distinct powers of two, the larger is at least double the
/// smaller.
pub proof fn lemma_pow2_double(a: int, b: int)
    requires
        is_pow2(a),
        is_pow2(b),
        a < b,
    ensures
        2 * a <= b,
    decreases b,
{
    assert(b >= 2);
    assert(b % 2 == 0 && is_pow2(b / 2));
    if a == b / 2 {
    } else if a < b / 2 {
        lemma_pow2_double(a, b / 2);
    } else {
        lemma_pow2_double(b / 2, a);
    }
}

/// A half-open doubling window holds at most one power of two, so the
/// rounded-up ring size is determined by the requested size.
pub proof fn lemma_pow2_unique(a: int, b: int, size: int)
    requires
        is_pow2(a),
        is_pow2(b),
        size <= a < 2 * size,
        size <= b < 2 * size,
    ensures
        a == b,
{
    if a < b {
        lemma_pow2_double(a, b);
    } else if b < a {
        lemma_pow2_double(b, a);
    }
}

/// Properties that locate `latest_id(p, n, i)` within the window of the
/// most recent lap of the ring.
pub proof fn lemma_latest_id_range(p: int, n: int, i: int)
    requires
        n >= 1,
        0 <= i < n,
    ensures
        latest_id(p, n, i) % n == i,
        latest_id(p, n, i) <= p,
        latest_id(p, n, i) > p - n,
{
    let m = (p - i) % n;
    assert(0 <= m < n) by {
        vstd::arithmetic::div_mod::lemma_mod_division_less_than_divisor(p - i, n);
    };
    assert((p - m) % n == i % n) by {
        vstd::arithmetic::div_mod::lemma_fundamental_div_mod(p - i, n);
        assert(p - m == i + n * ((p - i) / n));
        vstd::arithmetic::div_mod::lemma_mod_multiples_vanish((p - i) / n, i, n);
    };
    assert(i % n == i) by {
        vstd::arithmetic::div_mod::lemma_small_mod(i as nat, n as nat);
    };
}

/// Publishing id `p + 1` rewrites slot `(p + 1) % n` and leaves every other
/// slot's latest publication unchanged.
pub proof fn lemma_latest_id_step(p: int, n: int)
    requires
        n >= 1,
        p >= 0,
    ensures
        latest_id(p + 1, n, (p + 1) % n) == p + 1,
        forall|i: int|
            0 <= i < n && i != (p + 1) % n ==> latest_id(p + 1, n, i) == latest_id(p, n, i),
{
    let t = (p + 1) % n;
    assert(0 <= t < n) by {
        vstd::arithmetic::div_mod::lemma_mod_division_less_than_divisor(p + 1, n);
    };
    assert((p + 1 - t) % n == 0) by {
        vstd::arithmetic::div_mod::lemma_fundamental_div_mod(p + 1, n);
        assert(p + 1 - t == n * ((p + 1) / n));
        vstd::arithmetic::div_mod::lemma_mod_multiples_vanish((p + 1) / n, 0, n);
        vstd::arithmetic::div_mod::lemma_small_mod(0nat, n as nat);
    };
    assert(latest_id(p + 1, n, t) == p + 1);
    assert forall|i: int| 0 <= i < n && i != t implies latest_id(p + 1, n, i) == latest_id(
        p,
        n,
        i,
    ) by {
        let m = (p - i) % n;
        assert(0 <= m < n) by {
            vstd::arithmetic::div_mod::lemma_mod_division_less_than_divisor(p - i, n);
        };
        assert((p + 1 - i) % n == (m + 1) % n) by {
            vstd::arithmetic::div_mod::lemma_fundamental_div_mod(p - i, n);
            assert(p + 1 - i == (m + 1) + n * ((p - i) / n));
            vstd::arithmetic::div_mod::lemma_mod_multiples_vanish((p - i) / n, m + 1, n);
        };
        if m + 1 < n {
            assert((m + 1) % n == m + 1) by {
                vstd::arithmetic::div_mod::lemma_small_mod((m + 1) as nat, n as nat);
            };
            assert(latest_id(p + 1, n, i) == p - m);
        } else {
            // m + 1 == n would put i exactly at the slot being written.
            assert(m == n - 1);
            assert((p + 1 - i) % n == n % n);
            assert(n % n == 0) by {
                vstd::arithmetic::div_mod::lemma_mod_self_0(n);
            };
            lemma_congruent_equal(p + 1, i, n);
            assert(i == t);
            assert(false);
        }
    };
}

/// If `a - b` is a multiple of `n` and `b` lies in `[0, n)`, then `b` is
/// `a % n`.
pub proof fn lemma_congruent_equal(a: int, b: int, n: int)
    requires
        n >= 1,
        0 <= b < n,
        (a - b) % n == 0,
    ensures
        b == a % n,
{
    vstd::arithmetic::div_mod::lemma_fundamental_div_mod(a - b, n);
    assert(a == b + n * ((a - b) / n));
    vstd::arithmetic::div_mod::lemma_mod_multiples_vanish((a - b) / n, b, n);
    vstd::arithmetic::div_mod::lemma_small_mod(b as nat, n as nat);
}

/// A cursor id within the last lap of the ring is exactly the latest id of
/// its slot.
pub proof fn lemma_latest_id_of_recent(p: int, n: int, c: int)
    requires
        n >= 1,
        1 <= c <= p,
        p - c < n,
    ensures
        latest_id(p, n, c % n) == c,
{
    let i = c % n;
    assert(0 <= i < n) by {
        vstd::arithmetic::div_mod::lemma_mod_division_less_than_divisor(c, n);
    };
    assert((p - i) % n == (p - c) % n) by {
        vstd::arithmetic::div_mod::lemma_fundamental_div_mod(c, n);
        assert(p - i == (p - c) + n * (c / n));
        vstd::arithmetic::div_mod::lemma_mod_multiples_vanish(c / n, p - c, n);
    };
    assert((p - c) % n == p - c) by {
        vstd::arithmetic::div_mod::lemma_small_mod((p - c) as nat, n as nat);
    };
}

/// Two consecutive ids never share a ring slot when the ring has at least
/// two cells.
pub proof fn lemma_consecutive_slots_distinct(n: int, c: int)
    requires
        n >= 2,
    ensures
        (c - 1) % n != c % n,
{
    let m = (c - 1) % n;
    assert(0 <= m < n) by {
        vstd::arithmetic::div_mod::lemma_mod_division_less_than_divisor(c - 1, n);
    };
    assert(c % n == (m + 1) % n) by {
        vstd::arithmetic::div_mod::lemma_fundamental_div_mod(c - 1, n);
        assert(c == (m + 1) + n * ((c - 1) / n));
        vstd::arithmetic::div_mod::lemma_mod_multiples_vanish((c - 1) / n, m + 1, n);
    };
    if m + 1 < n {
        assert((m + 1) % n == m + 1) by {
            vstd::arithmetic::div_mod::lemma_small_mod((m + 1) as nat, n as nat);
        };
    } else {
        assert(m == n - 1);
        assert(n % n == 0) by {
            vstd::arithmetic::div_mod::lemma_mod_self_0(n);
        };
        assert(c % n == 0);
    }
}

/// The slot the head id maps to was last written a full lap ago: its
/// latest publication is exactly one ring length behind the head.
pub proof fn lemma_latest_id_of_head_slot(p: int, n: int)
    requires
        n >= 1,
        p >= 0,
    ensures
        latest_id(p, n, (p + 1) % n) == p + 1 - n,
{
    vstd::arithmetic::div_mod::lemma_mod_division_less_than_divisor(p + 1, n);
    let i = (p + 1) % n;
    assert((p - i) % n == n - 1) by {
        vstd::arithmetic::div_mod::lemma_fundamental_div_mod(p + 1, n);
        let q = (p + 1) / n;
        assert(p + 1 == n * q + i);
        assert(n * (q - 1) == n * q - n) by (nonlinear_arith);
        assert(p - i == (n - 1) + n * (q - 1));
        vstd::arithmetic::div_mod::lemma_mod_multiples_vanish((p + 1) / n - 1, n - 1, n);
        vstd::arithmetic::div_mod::lemma_small_mod((n - 1) as nat, n as nat);
    };
}

/// Two ids less than one ring length apart never share a slot.
pub proof fn lemma_slot_shift_distinct(n: int, a: int, k: int)
    requires
        n >= 1,
        0 < k < n,
    ensures
        a % n != (a + k) % n,
{
    let r = a % n;
    assert(0 <= r < n) by {
        vstd::arithmetic::div_mod::lemma_mod_division_less_than_divisor(a, n);
    };
    assert((a + k) % n == (r + k) % n) by {
        vstd::arithmetic::div_mod::lemma_fundamental_div_mod(a, n);
        assert(a + k == (r + k) + n * (a / n));
        vstd::arithmetic::div_mod::lemma_mod_multiples_vanish(a / n, r + k, n);
    };
    if r + k < n {
        assert((r + k) % n == r + k) by {
            vstd::arithmetic::div_mod::lemma_small_mod((r + k) as nat, n as nat);
        };
    } else {
        assert((r + k) % n == r + k - n) by {
            assert(r + k == (r + k - n) + n * 1);
            vstd::arithmetic::div_mod::lemma_mod_multiples_vanish(1, r + k - n, n);
            vstd::arithmetic::div_mod::lemma_small_mod((r + k - n) as nat, n as nat);
        };
    }
}

/// Whether ring slot `i` has ever been written: inside the first lap
/// exactly the slots of the ids handed out so far, and every slot once a
/// full lap has been published.
pub proof fn lemma_latest_id_written_iff(p: int, n: int, i: int)
    requires
        n >= 1,
        p >= 0,
        0 <= i < n,
    ensures
        latest_id(p, n, i) >= 1 <==> (p >= n || 1 <= i <= p),
{
    lemma_latest_id_range(p, n, i);
    if p >= n {
    } else if 1 <= i && i <= p {
        lemma_latest_id_of_recent(p, n, i);
        assert(i % n == i) by {
            vstd::arithmetic::div_mod::lemma_small_mod(i as nat, n as nat);
        };
    } else if i == 0 {
        assert((p - 0) % n == p) by {
            vstd::arithmetic::div_mod::lemma_small_mod(p as nat, n as nat);
        };
    } else {
        // i > p within the first lap: the slot is still unwritten.
        assert((p - i) % n == p - i + n) by {
            assert(p - i == (p - i + n) + n * (-1));
            vstd::arithmetic::div_mod::lemma_mod_multiples_vanish(-1, p - i + n, n);
            vstd::arithmetic::div_mod::lemma_small_mod((p - i + n) as nat, n as nat);
        };
    }
}

/// How many of the first `i` ring slots hold a resident payload.
pub open spec fn resident_below(p: int, n: int, i: int) -> int
    decreases i,
{
    if i <= 0 {
        0
    } else {
        resident_below(p, n, i - 1) + if latest_id(p, n, i - 1) >= 1 {
            1int
        } else {
            0int
        }
    }
}

/// Counting the written slots over a prefix of the ring: inside the
/// first lap one payload per id handed out (slot zero still empty),
/// afterwards one per slot.
pub proof fn lemma_resident_below(p: int, n: int, i: int)
    requires
        n >= 1,
        p >= 0,
        0 <= i <= n,
    ensures
        p >= n ==> resident_below(p, n, i) == i,
        p < n ==> resident_below(p, n, i) == if p < i {
            p
        } else if i >= 1 {
            i - 1
        } else {
            0
        },
    decreases i,
{
    if i > 0 {
        lemma_resident_below(p, n, i - 1);
        lemma_latest_id_written_iff(p, n, i - 1);
    }
}

/// The number of payloads resident in the buffer: every id sent while
/// the ring was filling, and exactly one per slot from then on. At
/// teardown these are the payloads still to drop; every other published
/// value was dropped when its slot was overwritten.
pub proof fn lemma_resident_total(p: int, n: int)
    requires
        n >= 1,
        p >= 0,
    ensures
        resident_below(p, n, n) == if p < n {
            p
        } else {
            n
        },
{
    lemma_resident_below(p, n, n);
}

/// The shared channel state: the ring of cells, the claim counter, the
/// takeable write head, the receiver census, and ghost records of the
/// publication history and of where every live receiver is anchored.
#[verifier::reject_recursive_types(T)]
pub struct NexusQ<T> {
    /// The ring: a power-of-two number of cells. Id `k` is published into
    /// slot `k % n`.
    pub buffer: Vec<Cell<T>>,
    /// The next publication id to hand out; ids start at one.
    pub claimed: usize,
    /// The write-head token. It holds the next id to claim; while a sender
    /// holds the token, the cell is empty.
    pub write_head: TakeCell,
    /// Strategy with which senders wait to take the write head.
    pub write_head_wait_strategy: HybridWait,
    /// Number of live receivers. Zero means the channel is disconnected
    /// from a sender's point of view.
    pub num_receivers: usize,
    /// Ghost: every value ever published, in publication order; the value
    /// with id `k` is `history[k - 1]`.
    pub history: Ghost<Seq<T>>,
    /// Ghost: the multiset of ring slots on which live receivers are
    /// anchored, one entry per receiver.
    pub anchors: Ghost<Multiset<int>>,
}

impl<T> NexusQ<T> {
    /// Ring size.
    pub open spec fn n(&self) -> int {
        self.buffer@.len() as int
    }

    /// How many values were published so far.
    pub open spec fn num_published(&self) -> int {
        self.history@.len() as int
    }

    /// The next id a sender will claim.
    pub open spec fn head(&self) -> int {
        self.num_published() + 1
    }

    /// The ring slot the next publication goes to.
    pub open spec fn head_slot(&self) -> int {
        self.head() % self.n()
    }

    /// Whether the next publication's slot is free of anchored readers, so
    /// that a send can complete without waiting.
    pub open spec fn write_safe(&self) -> bool {
        self.anchors@.count(self.head_slot()) == 0
    }

    /// What one ring slot must look like: its reader count is the number
    /// of receivers anchored there, and it holds exactly the latest value
    /// published to it — or nothing, if no id ever mapped to it.
    pub open spec fn cell_ok(&self, i: int) -> bool {
        let l = latest_id(self.num_published(), self.n(), i);
        &&& self.buffer@[i].read_counter == self.anchors@.count(i)
        &&& l >= 1 ==> self.buffer@[i].current_id == l && self.buffer@[i].value == Some(
            self.history@[l - 1],
        )
        &&& l < 1 ==> self.buffer@[i].current_id == never_published() && self.buffer@[i].value
            is None
    }

    /// Well-formedness of the channel state.
    pub open spec fn wf(&self) -> bool {
        &&& 2 <= self.n()
        &&& is_pow2(self.n())
        &&& self.claimed == self.head()
        &&& self.claimed < usize::MAX
        &&& self.write_head.inner == Some(self.claimed)
        &&& self.num_receivers == self.anchors@.len()
        &&& forall|a: int| self.anchors@.count(a) > 0 ==> 0 <= a < self.n()
        &&& forall|i: int| 0 <= i < self.n() ==> self.cell_ok(i)
    }
}

/// Create a channel with a buffer of at least `size` slots (rounded up to
/// a power of two), using the default hybrid wait strategies. Returns the
/// shared channel state together with a send handle and a receive handle;
/// every operation on a handle takes the state as an argument.
pub fn make_channel<T>(size: usize) -> (r: Result<(NexusQ<T>, Sender<T>, Receiver<T>), NexusError>)
    ensures
        size < 2 <==> r == Err::<(NexusQ<T>, Sender<T>, Receiver<T>), NexusError>(
            NexusError::BufferTooSmall,
        ),
        size > usize::MAX / 2 <==> r == Err::<(NexusQ<T>, Sender<T>, Receiver<T>), NexusError>(
            NexusError::BufferTooLarge,
        ),
        r is Ok ==> fresh_channel(r->Ok_0.0, r->Ok_0.2, size),
{
    make_channel_with(size, HybridWait::default(), HybridWait::default())
}

/// What a freshly constructed channel looks like: nothing published, one
/// receiver anchored on slot zero with its cursor at the first id.
pub open spec fn fresh_channel<T>(nx: NexusQ<T>, rcv: Receiver<T>, size: usize) -> bool {
    &&& nx.wf()
    &&& rcv.wf(&nx)
    &&& nx.num_published() == 0
    &&& nx.num_receivers == 1
    &&& nx.anchors@ == Multiset::<int>::empty().insert(0)
    &&& size <= nx.n() < 2 * size
    &&& rcv.cursor == 1
    &&& rcv.received@ == Seq::<T>::empty()
}

/// As [`make_channel`], with explicit wait strategies: one for senders
/// competing for the write head, and one that every cell receives a copy
/// of for its readers and writer to wait with.
pub fn make_channel_with<T>(size: usize, writer_ws: HybridWait, reader_ws: HybridWait) -> (r:
    Result<(NexusQ<T>, Sender<T>, Receiver<T>), NexusError>)
    ensures
        size < 2 <==> r == Err::<(NexusQ<T>, Sender<T>, Receiver<T>), NexusError>(
            NexusError::BufferTooSmall,
        ),
        size > usize::MAX / 2 <==> r == Err::<(NexusQ<T>, Sender<T>, Receiver<T>), NexusError>(
            NexusError::BufferTooLarge,
        ),
        r is Ok ==> fresh_channel(r->Ok_0.0, r->Ok_0.2, size),
        r is Ok ==> r->Ok_0.0.write_head_wait_strategy == writer_ws,
        r is Ok ==> forall|j: int|
            0 <= j < r->Ok_0.0.n() ==> r->Ok_0.0.buffer@[j].wait_strategy == reader_ws,
{
    if size < 2 {
        return Err(NexusError::BufferTooSmall);
    }
    if size > usize::MAX / 2 {
        return Err(NexusError::BufferTooLarge);
    }
    let cap = maybe_next_power_of_two(size);
    let mut buffer: Vec<Cell<T>> = Vec::new();
    let mut i: usize = 0;
    while i < cap
        invariant
            i <= cap,
            buffer@.len() == i as int,
            forall|j: int|
                0 <= j < i as int ==> buffer@[j].read_counter == 0 && buffer@[j].current_id
                    == never_published() && buffer@[j].value is None,
            forall|j: int| 0 <= j < i as int ==> buffer@[j].wait_strategy == reader_ws,
        decreases cap - i,
    {
        buffer.push(Cell::new(reader_ws));
        i = i + 1;
    }
    let anchor_cell = &mut buffer[0];
    anchor_cell.move_to();
    let nexus = NexusQ {
        buffer,
        claimed: 1,
        write_head: TakeCell::new(1),
        write_head_wait_strategy: writer_ws,
        num_receivers: 1,
        history: Ghost(Seq::empty()),
        anchors: Ghost(Multiset::empty().insert(0)),
    };
    let receiver = Receiver::make_first();
    let sender = Sender::new();
    proof {
        assert forall|j: int| 0 <= j < nexus.n() implies nexus.cell_ok(j) by {
            lemma_latest_id_range(0, nexus.n(), j);
        };
        assert(nexus.head_slot() == 1int % nexus.n());
        vstd::arithmetic::div_mod::lemma_small_mod(1nat, nexus.n() as nat);
        vstd::arithmetic::div_mod::lemma_small_mod(0nat, nexus.n() as nat);
        assert(nexus.anchors@.count(0int) == 1);
        assert(receiver.received@ =~= nexus.history@.subrange(0, 0));
        assert(receiver.wf(&nexus));
    }
    Ok((nexus, sender, receiver))
}

} // verus!
