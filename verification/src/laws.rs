//! The channel's cross-cutting guarantees, each stated over the ghost
//! model that the operations' contracts maintain, and proved once for
//! all channels.

use vstd::prelude::*;

use crate::{latest_id, resident_below, NexusQ, Receiver};

verus! {

/// Delivery is exactly-once and in publication order: a receiver's
/// consumed sequence is precisely the slice of the publication history
/// between the id it started at and its cursor — the value with id `k`
/// appears exactly once, at position `k - first`, and never again.
pub proof fn lemma_received_exactly_once<T>(r: &Receiver<T>, nx: &NexusQ<T>)
    requires
        nx.wf(),
        r.wf(nx),
    ensures
        r.received@.len() == r.cursor as int - r.first@,
        forall|j: int|
            0 <= j < r.received@.len() ==> #[trigger] r.received@[j] == nx.history@[r.first@ - 1
                + j],
{
}

/// Any two receivers observe the same total order of values: on the ids
/// both have consumed, their consumed sequences coincide segment for
/// segment.
pub proof fn lemma_receivers_agree<T>(r1: &Receiver<T>, r2: &Receiver<T>, nx: &NexusQ<T>)
    requires
        nx.wf(),
        r1.wf(nx),
        r2.wf(nx),
    ensures
        ({
            let lo = if r1.first@ >= r2.first@ {
                r1.first@
            } else {
                r2.first@
            };
            let hi = if r1.cursor <= r2.cursor {
                r1.cursor as int
            } else {
                r2.cursor as int
            };
            lo <= hi ==> r1.received@.subrange(lo - r1.first@, hi - r1.first@)
                == r2.received@.subrange(lo - r2.first@, hi - r2.first@)
        }),
{
    let lo = if r1.first@ >= r2.first@ {
        r1.first@
    } else {
        r2.first@
    };
    let hi = if r1.cursor <= r2.cursor {
        r1.cursor as int
    } else {
        r2.cursor as int
    };
    if lo <= hi {
        assert(r1.received@.subrange(lo - r1.first@, hi - r1.first@) =~= nx.history@.subrange(
            lo - 1,
            hi - 1,
        ));
        assert(r2.received@.subrange(lo - r2.first@, hi - r2.first@) =~= nx.history@.subrange(
            lo - 1,
            hi - 1,
        ));
    }
}

/// The reader census is exact: each cell's reader count equals the
/// number of live receivers anchored on it, and the receiver counter
/// equals the number of anchors in total.
pub proof fn lemma_reader_census<T>(nx: &NexusQ<T>)
    requires
        nx.wf(),
    ensures
        forall|i: int|
            0 <= i < nx.n() ==> #[trigger] nx.buffer@[i].read_counter == nx.anchors@.count(i),
        nx.num_receivers == nx.anchors@.len(),
{
    assert forall|i: int| 0 <= i < nx.n() implies #[trigger] nx.buffer@[i].read_counter
        == nx.anchors@.count(i) by {
        assert(nx.cell_ok(i));
    };
}

/// What is resident in the buffer, and therefore what teardown has to
/// drop: each slot holds exactly the latest value published to it — one
/// payload per slot that any id ever mapped to, and nothing in a slot
/// that was never written. Every other published value was dropped when
/// its slot was overwritten.
pub proof fn lemma_resident_payloads<T>(nx: &NexusQ<T>)
    requires
        nx.wf(),
    ensures
        forall|i: int|
            0 <= i < nx.n() && latest_id(nx.num_published(), nx.n(), i) >= 1
                ==> #[trigger] nx.buffer@[i].value == Some(
                nx.history@[latest_id(nx.num_published(), nx.n(), i) - 1],
            ),
        forall|i: int|
            0 <= i < nx.n() && latest_id(nx.num_published(), nx.n(), i) < 1
                ==> #[trigger] nx.buffer@[i].value is None,
{
    assert forall|i: int|
        0 <= i < nx.n() && latest_id(nx.num_published(), nx.n(), i) >= 1 implies #[trigger] nx
        .buffer@[i].value == Some(nx.history@[latest_id(nx.num_published(), nx.n(), i) - 1]) by {
        assert(nx.cell_ok(i));
    };
    assert forall|i: int|
        0 <= i < nx.n() && latest_id(nx.num_published(), nx.n(), i) < 1 implies #[trigger] nx
        .buffer@[i].value is None by {
        assert(nx.cell_ok(i));
    };
}

/// Drop accounting at teardown: a slot holds a payload exactly when some
/// id ever mapped to it, and the payloads still resident — the ones
/// teardown must drop — number the ring size, or the number of values
/// sent while the ring was still filling. Every other published value
/// was already dropped when its slot was overwritten.
pub proof fn lemma_drop_accounting<T>(nx: &NexusQ<T>)
    requires
        nx.wf(),
    ensures
        forall|i: int|
            0 <= i < nx.n() ==> (#[trigger] nx.buffer@[i].value is Some <==> latest_id(
                nx.num_published(),
                nx.n(),
                i,
            ) >= 1),
        resident_below(nx.num_published(), nx.n(), nx.n()) == if nx.num_published() < nx.n() {
            nx.num_published()
        } else {
            nx.n()
        },
{
    assert forall|i: int|
        0 <= i < nx.n() implies (#[trigger] nx.buffer@[i].value is Some <==> latest_id(
        nx.num_published(),
        nx.n(),
        i,
    ) >= 1) by {
        assert(nx.cell_ok(i));
    };
    crate::lemma_resident_total(nx.num_published(), nx.n());
}

/// A receiver's anchor pins its past: the slot it read last still holds
/// exactly the value of its last-read id — writers cannot have lapped it,
/// because the claim protocol never overwrites a slot with anchored
/// readers.
pub proof fn lemma_anchor_holds_last_read<T>(r: &Receiver<T>, nx: &NexusQ<T>)
    requires
        nx.wf(),
        r.wf(nx),
        r.cursor >= 2,
    ensures
        nx.buffer@[r.previous_cell_index as int].current_id == r.cursor as int - 1,
        nx.buffer@[r.previous_cell_index as int].value == Some(
            nx.history@[r.cursor as int - 2],
        ),
{
    let c = r.cursor as int;
    let p = nx.num_published();
    vstd::arithmetic::div_mod::lemma_mod_division_less_than_divisor(c - 1, nx.n());
    assert(nx.cell_ok(r.previous_cell_index as int));
    crate::lemma_latest_id_of_recent(p, nx.n(), c - 1);
}

/// The claim counter, the write head and every receiver's cursor stand in
/// order: the head never runs more than one ring length ahead of a
/// receiver, and never behind one.
pub proof fn lemma_cursor_window<T>(r: &Receiver<T>, nx: &NexusQ<T>)
    requires
        nx.wf(),
        r.wf(nx),
    ensures
        nx.claimed as int == nx.head(),
        r.cursor as int <= nx.head() <= r.cursor as int - 1 + nx.n(),
{
}

/// Round trip: when a receiver has drained the channel and a single
/// value is then published, that value is exactly what the receiver's
/// next read consumes.
pub proof fn lemma_round_trip<T>(pre: &NexusQ<T>, post: &NexusQ<T>, r: &Receiver<T>, v: T)
    requires
        pre.wf(),
        r.wf(pre),
        r.cursor as int == pre.head(),
        post.history@ == pre.history@.push(v),
    ensures
        post.history@[r.cursor as int - 1] == v,
{
}

/// First in, first out: when a receiver starts where a block of sends
/// begins and consumes exactly that block, it gets precisely those
/// values, in the order they were sent.
pub proof fn lemma_fifo_order<T>(pre: &NexusQ<T>, post: &NexusQ<T>, r: &Receiver<T>, vs: Seq<T>)
    requires
        post.wf(),
        r.wf(post),
        post.history@ == pre.history@ + vs,
        r.first@ == pre.head(),
        r.cursor as int == post.head(),
    ensures
        r.received@ == vs,
{
    assert(r.received@ =~= vs);
}

} // verus!
