//! The audio scheduler: a queue of decoded buffers in the order of their
//! deadlines, from which the playback driver takes each buffer when it is due.

use crate::audio::{AudioBuffer, BufferModel};
use vstd::multiset::Multiset;
use vstd::prelude::*;
use vstd::seq_lib::{lemma_multiset_commutative, to_multiset_build, to_multiset_remove};

verus! {

/// Whether `a` is released before `b`: by deadline, then by server timestamp.
pub open spec fn before(a: BufferModel, b: BufferModel) -> bool {
    a.play_at < b.play_at || (a.play_at == b.play_at && a.timestamp < b.timestamp)
}

/// Whether a queue is in release order.
pub open spec fn ordered(q: Seq<BufferModel>) -> bool {
    forall|i: int, j: int| 0 <= i < j < q.len() ==> before(#[trigger] q[i], #[trigger] q[j])
}

/// Whether no two buffers of a queue carry the same server timestamp.
pub open spec fn distinct_timestamps(q: Seq<BufferModel>) -> bool {
    forall|i: int, j: int|
        0 <= i < q.len() && 0 <= j < q.len() && i != j ==> (#[trigger] q[i]).timestamp != (
        #[trigger] q[j]).timestamp
}

/// Whether a queue holds a buffer with the server timestamp `timestamp`.
pub open spec fn has_timestamp(q: Seq<BufferModel>, timestamp: int) -> bool {
    exists|i: int| 0 <= i < q.len() && (#[trigger] q[i]).timestamp == timestamp
}

/// What holds of every queue of a scheduler.
pub open spec fn queue_wf(q: Seq<BufferModel>) -> bool {
    &&& ordered(q)
    &&& distinct_timestamps(q)
    &&& forall|i: int| 0 <= i < q.len() ==> (#[trigger] q[i]).format.wf()
}

/// The number of buffers at the head of a queue that are released before `b`.
pub open spec fn rank(q: Seq<BufferModel>, b: BufferModel) -> int
    decreases q.len(),
{
    if q.len() == 0 || !before(q[0], b) {
        0
    } else {
        1 + rank(q.skip(1), b)
    }
}

/// Whether a buffer is taken in: its format is one that the player accepts,
/// no queued buffer carries its server timestamp, and the queue is not as
/// long as the machine can count.
pub open spec fn admits(q: Seq<BufferModel>, b: BufferModel) -> bool {
    b.format.wf() && !has_timestamp(q, b.timestamp) && q.len() < usize::MAX
}

/// The queue after `b` was handed in: `b` stands behind the buffers that are
/// released before it; a buffer that is not taken in leaves the queue as it
/// was.
pub open spec fn spec_schedule(q: Seq<BufferModel>, b: BufferModel) -> Seq<BufferModel> {
    if admits(q, b) {
        q.insert(rank(q, b), b)
    } else {
        q
    }
}

/// Whether a buffer is too late to play at `now`: its deadline lies further
/// back than the buffer is long.
pub open spec fn too_late(b: BufferModel, now: int) -> bool {
    now - b.play_at > b.duration()
}

/// The outcome of one poll.
pub ghost struct Poll {
    /// The buffer handed out, if one is due.
    pub released: Option<BufferModel>,
    /// The buffers discarded as too late, in queue order.
    pub dropped: Seq<BufferModel>,
    /// The queue after the poll.
    pub rest: Seq<BufferModel>,
}

/// One poll at local time `now`: buffers at the head that are too late are
/// discarded; then the head is handed out if its deadline has come.
pub open spec fn poll(q: Seq<BufferModel>, now: int) -> Poll
    decreases q.len(),
{
    if q.len() == 0 || q[0].play_at > now {
        Poll { released: None, dropped: Seq::empty(), rest: q }
    } else if too_late(q[0], now) {
        let later = poll(q.skip(1), now);
        Poll { dropped: seq![q[0]] + later.dropped, ..later }
    } else {
        Poll { released: Some(q[0]), dropped: Seq::empty(), rest: q.skip(1) }
    }
}

/// Polls at local time `now`, one after the other, until none hands out a
/// buffer: the buffers handed out, the buffers discarded and the queue left.
pub open spec fn drain(q: Seq<BufferModel>, now: int) -> (Seq<BufferModel>, Seq<BufferModel>, Seq<
    BufferModel,
>)
    decreases q.len(),
{
    if q.len() == 0 || q[0].play_at > now {
        (Seq::empty(), Seq::empty(), q)
    } else {
        let (released, dropped, rest) = drain(q.skip(1), now);
        if too_late(q[0], now) {
            (released, seq![q[0]] + dropped, rest)
        } else {
            (seq![q[0]] + released, dropped, rest)
        }
    }
}

/// The queue that handing in a run of buffers, one after the other, builds
/// from an empty one.
pub open spec fn scheduled(buffers: Seq<BufferModel>) -> Seq<BufferModel>
    decreases buffers.len(),
{
    if buffers.len() == 0 {
        Seq::empty()
    } else {
        spec_schedule(scheduled(buffers.drop_last()), buffers.last())
    }
}

/// The rank of a buffer is the one place at which everything before it is
/// released before it and nothing after it is.
pub proof fn lemma_rank(q: Seq<BufferModel>, b: BufferModel, pos: int)
    requires
        0 <= pos <= q.len(),
        forall|k: int| 0 <= k < pos ==> before(#[trigger] q[k], b),
        pos < q.len() ==> !before(q[pos], b),
    ensures
        rank(q, b) == pos,
    decreases pos,
{
    if pos > 0 {
        let tail = q.skip(1);
        assert forall|k: int| 0 <= k < pos - 1 implies before(#[trigger] tail[k], b) by {
            assert(tail[k] == q[k + 1]);
        }
        lemma_rank(tail, b, pos - 1);
    }
}

/// The rank of a buffer lies within the queue; in an ordered queue
/// everything from the rank on is not released before the buffer.
pub proof fn lemma_rank_bounds(q: Seq<BufferModel>, b: BufferModel)
    ensures
        0 <= rank(q, b) <= q.len(),
        forall|k: int| 0 <= k < rank(q, b) ==> before(#[trigger] q[k], b),
        rank(q, b) < q.len() ==> !before(q[rank(q, b)], b),
    decreases q.len(),
{
    if q.len() > 0 && before(q[0], b) {
        let tail = q.skip(1);
        lemma_rank_bounds(tail, b);
        assert forall|k: int| 0 <= k < rank(q, b) implies before(#[trigger] q[k], b) by {
            if k > 0 {
                assert(q[k] == tail[k - 1]);
            }
        }
        if rank(q, b) < q.len() {
            assert(q[rank(q, b)] == tail[rank(tail, b)]);
        }
    }
}

/// Handing in a buffer keeps the queue well formed. A buffer that is taken in
/// is then in the queue once, beside everything that was there.
pub proof fn lemma_schedule(q: Seq<BufferModel>, b: BufferModel)
    requires
        queue_wf(q),
    ensures
        queue_wf(spec_schedule(q, b)),
        admits(q, b) ==> spec_schedule(q, b).to_multiset() == q.to_multiset().insert(b),
        !admits(q, b) ==> spec_schedule(q, b) == q,
        admits(q, b) ==> spec_schedule(q, b).len() == q.len() + 1,
{
    if admits(q, b) {
        lemma_rank_bounds(q, b);
        let pos = rank(q, b);
        let r = q.insert(pos, b);
        assert(r.len() == q.len() + 1);
        assert(r[pos] == b);
        assert forall|k: int| 0 <= k < r.len() && k != pos implies (#[trigger] r[k]).timestamp
            != b.timestamp && r[k].format.wf() && (k < pos ==> r[k] == q[k]) && (k > pos ==> r[k]
            == q[k - 1]) by {
            if k < pos {
                assert(r[k] == q[k]);
            } else {
                assert(r[k] == q[k - 1]);
            }
        }
        assert forall|k: int| pos <= k < q.len() implies before(b, #[trigger] q[k]) by {
            assert(!before(q[pos], b));
            assert(q[pos].timestamp != b.timestamp);
            if k > pos {
                assert(before(q[pos], q[k]));
            }
        }
        assert forall|i: int, j: int| 0 <= i < j < r.len() implies before(
            #[trigger] r[i],
            #[trigger] r[j],
        ) by {
            if j < pos {
                assert(before(q[i], q[j]));
            } else if j == pos {
                assert(before(q[i], b));
            } else if i == pos {
                assert(before(b, q[j - 1]));
            } else if i > pos {
                assert(before(q[i - 1], q[j - 1]));
            } else {
                assert(before(q[i], q[j - 1]));
            }
        }
        assert forall|i: int, j: int|
            0 <= i < r.len() && 0 <= j < r.len() && i != j implies (#[trigger] r[i]).timestamp != (
        #[trigger] r[j]).timestamp by {
            if i != pos && j != pos {
                let qi = if i < pos {
                    i
                } else {
                    i - 1
                };
                let qj = if j < pos {
                    j
                } else {
                    j - 1
                };
                assert(q[qi].timestamp != q[qj].timestamp);
            }
        }
        assert forall|i: int| 0 <= i < r.len() implies (#[trigger] r[i]).format.wf() by {
            if i != pos {
            }
        }
        assert(r.remove(pos) =~= q);
        to_multiset_remove(r, pos);
        r.to_multiset_ensures();
        assert(r.contains(b));
        assert(r.to_multiset() =~= q.to_multiset().insert(b));
    }
}

/// A poll loses nothing: the buffer handed out, the buffers discarded and
/// the queue left hold together what the queue held. The queue left is well
/// formed, and a buffer handed out is due and not too late.
pub proof fn lemma_poll(q: Seq<BufferModel>, now: int)
    requires
        queue_wf(q),
    ensures
        queue_wf(poll(q, now).rest),
        q.to_multiset() == poll(q, now).dropped.to_multiset().add(
            poll(q, now).rest.to_multiset(),
        ).add(
            match poll(q, now).released {
                Some(b) => Multiset::singleton(b),
                None => Multiset::empty(),
            },
        ),
        poll(q, now).released matches Some(b) ==> b.play_at <= now && !too_late(b, now),
        poll(q, now).released is None ==> (poll(q, now).rest.len() == 0 || poll(q, now).rest[0].play_at
            > now),
        forall|i: int|
            0 <= i < poll(q, now).dropped.len() ==> too_late(
                #[trigger] poll(q, now).dropped[i],
                now,
            ),
        q == poll(q, now).dropped + match poll(q, now).released {
            Some(b) => seq![b],
            None => Seq::empty(),
        } + poll(q, now).rest,
    decreases q.len(),
{
    let p = poll(q, now);
    if q.len() == 0 || q[0].play_at > now {
        assert(p.dropped.to_multiset() =~= Multiset::empty()) by {
            p.dropped.to_multiset_ensures();
        }
        assert(q.to_multiset() =~= p.dropped.to_multiset().add(p.rest.to_multiset()).add(
            Multiset::empty(),
        ));
        assert(q =~= p.dropped + Seq::empty() + p.rest);
    } else {
        let tail = q.skip(1);
        lemma_skip_wf(q);
        lemma_head_multiset(q);
        if too_late(q[0], now) {
            lemma_poll(tail, now);
            let later = poll(tail, now);
            lemma_cons_multiset(q[0], later.dropped);
            assert(q.to_multiset() =~= p.dropped.to_multiset().add(p.rest.to_multiset()).add(
                match p.released {
                    Some(b) => Multiset::singleton(b),
                    None => Multiset::empty(),
                },
            ));
            assert forall|i: int| 0 <= i < p.dropped.len() implies too_late(
                #[trigger] p.dropped[i],
                now,
            ) by {
                if i > 0 {
                    assert(p.dropped[i] == later.dropped[i - 1]);
                }
            }
            assert(q =~= seq![q[0]] + tail);
            assert(q =~= p.dropped + match p.released {
                Some(b) => seq![b],
                None => Seq::empty(),
            } + p.rest);
        } else {
            assert(p.dropped.to_multiset() =~= Multiset::empty()) by {
                p.dropped.to_multiset_ensures();
            }
            assert(q.to_multiset() =~= p.dropped.to_multiset().add(p.rest.to_multiset()).add(
                Multiset::singleton(q[0]),
            ));
            assert(q =~= p.dropped + seq![q[0]] + p.rest);
        }
    }
}

/// Without its head a well formed queue is well formed.
pub proof fn lemma_skip_wf(q: Seq<BufferModel>)
    requires
        queue_wf(q),
        q.len() > 0,
    ensures
        queue_wf(q.skip(1)),
{
    let tail = q.skip(1);
    assert forall|i: int, j: int| 0 <= i < j < tail.len() implies before(
        #[trigger] tail[i],
        #[trigger] tail[j],
    ) by {
        assert(before(q[i + 1], q[j + 1]));
    }
    assert forall|i: int, j: int|
        0 <= i < tail.len() && 0 <= j < tail.len() && i != j implies (#[trigger] tail[i]).timestamp
        != (#[trigger] tail[j]).timestamp by {
        assert(q[i + 1].timestamp != q[j + 1].timestamp);
    }
    assert forall|i: int| 0 <= i < tail.len() implies (#[trigger] tail[i]).format.wf() by {
        assert(q[i + 1].format.wf());
    }
}

/// A queue holds its head and what stands behind it.
pub proof fn lemma_head_multiset(q: Seq<BufferModel>)
    requires
        q.len() > 0,
    ensures
        q.to_multiset() == q.skip(1).to_multiset().insert(q[0]),
{
    assert(q.remove(0) =~= q.skip(1));
    to_multiset_remove(q, 0);
    q.to_multiset_ensures();
    assert(q.contains(q[0]));
    assert(q.to_multiset() =~= q.skip(1).to_multiset().insert(q[0]));
}

/// A run with one buffer put in front holds that buffer and the run.
pub proof fn lemma_cons_multiset(b: BufferModel, s: Seq<BufferModel>)
    ensures
        (seq![b] + s).to_multiset() == s.to_multiset().insert(b),
{
    let r = seq![b] + s;
    assert(r.skip(1) =~= s);
    lemma_head_multiset(r);
}

/// Draining is polling until a poll hands out nothing.
pub proof fn lemma_drain_is_repeated_poll(q: Seq<BufferModel>, now: int)
    ensures
        match poll(q, now).released {
            Some(b) => drain(q, now).0 == seq![b] + drain(poll(q, now).rest, now).0 && drain(
                q,
                now,
            ).1 == poll(q, now).dropped + drain(poll(q, now).rest, now).1 && drain(q, now).2
                == drain(poll(q, now).rest, now).2,
            None => drain(q, now).0 == Seq::<BufferModel>::empty() && drain(q, now).1 == poll(
                q,
                now,
            ).dropped && drain(q, now).2 == poll(q, now).rest,
        },
    decreases q.len(),
{
    if q.len() == 0 || q[0].play_at > now {
    } else if too_late(q[0], now) {
        let tail = q.skip(1);
        lemma_drain_is_repeated_poll(tail, now);
        let later = poll(tail, now);
        match later.released {
            Some(b) => {
                assert(seq![q[0]] + (later.dropped + drain(later.rest, now).1) =~= (seq![q[0]]
                    + later.dropped) + drain(later.rest, now).1);
            },
            None => {},
        }
    } else {
        assert(drain(q, now).1 =~= Seq::<BufferModel>::empty() + drain(q.skip(1), now).1);
    }
}

/// Draining loses nothing and makes nothing twice: the buffers handed out,
/// the buffers discarded as too late and the queue left hold together exactly
/// what the queue held. Polled past every deadline, the queue is left empty.
pub proof fn lemma_drain(q: Seq<BufferModel>, now: int)
    requires
        queue_wf(q),
    ensures
        q.to_multiset() == drain(q, now).0.to_multiset().add(drain(q, now).1.to_multiset()).add(
            drain(q, now).2.to_multiset(),
        ),
        queue_wf(drain(q, now).2),
        ordered(drain(q, now).0),
        forall|i: int|
            0 <= i < drain(q, now).0.len() ==> !too_late(#[trigger] drain(q, now).0[i], now),
        forall|i: int|
            0 <= i < drain(q, now).1.len() ==> too_late(#[trigger] drain(q, now).1[i], now),
        (forall|i: int| 0 <= i < q.len() ==> (#[trigger] q[i]).play_at <= now) ==> drain(q, now).2.len()
            == 0,
        drain(q, now).0.len() + drain(q, now).1.len() + drain(q, now).2.len() == q.len(),
    decreases q.len(),
{
    let (released, dropped, rest) = drain(q, now);
    if q.len() == 0 || q[0].play_at > now {
        released.to_multiset_ensures();
        assert(released.to_multiset() =~= Multiset::empty());
        assert(q.to_multiset() =~= released.to_multiset().add(dropped.to_multiset()).add(
            rest.to_multiset(),
        ));
    } else {
        let tail = q.skip(1);
        lemma_skip_wf(q);
        lemma_head_multiset(q);
        lemma_drain(tail, now);
        let (r1, d1, rest1) = drain(tail, now);
        if too_late(q[0], now) {
            lemma_cons_multiset(q[0], d1);
            assert forall|i: int| 0 <= i < dropped.len() implies too_late(
                #[trigger] dropped[i],
                now,
            ) by {
                if i > 0 {
                    assert(dropped[i] == d1[i - 1]);
                }
            }
        } else {
            lemma_cons_multiset(q[0], r1);
            assert forall|i: int| 0 <= i < released.len() implies !too_late(
                #[trigger] released[i],
                now,
            ) by {
                if i > 0 {
                    assert(released[i] == r1[i - 1]);
                }
            }
            lemma_drain_subsequence(tail, now);
            assert forall|i: int, j: int| 0 <= i < j < released.len() implies before(
                #[trigger] released[i],
                #[trigger] released[j],
            ) by {
                if i == 0 {
                    assert(released[j] == r1[j - 1]);
                    let k = choose|k: int| 0 <= k < tail.len() && tail[k] == r1[j - 1];
                    assert(tail[k] == q[k + 1]);
                    assert(before(q[0], q[k + 1]));
                } else {
                    assert(released[i] == r1[i - 1]);
                    assert(released[j] == r1[j - 1]);
                    assert(before(r1[i - 1], r1[j - 1]));
                }
            }
        }
        assert(q.to_multiset() =~= released.to_multiset().add(dropped.to_multiset()).add(
            rest.to_multiset(),
        ));
        if forall|i: int| 0 <= i < q.len() ==> (#[trigger] q[i]).play_at <= now {
            assert forall|i: int| 0 <= i < tail.len() implies (#[trigger] tail[i]).play_at
                <= now by {
                assert(tail[i] == q[i + 1]);
            }
        }
    }
}

/// Every buffer that a drain hands out stood in the queue.
pub proof fn lemma_drain_subsequence(q: Seq<BufferModel>, now: int)
    ensures
        forall|i: int|
            0 <= i < drain(q, now).0.len() ==> exists|k: int|
                0 <= k < q.len() && q[k] == #[trigger] drain(q, now).0[i],
    decreases q.len(),
{
    if q.len() == 0 || q[0].play_at > now {
    } else {
        let tail = q.skip(1);
        lemma_drain_subsequence(tail, now);
        let (r1, d1, rest1) = drain(tail, now);
        let released = drain(q, now).0;
        assert forall|i: int| 0 <= i < released.len() implies exists|k: int|
            0 <= k < q.len() && q[k] == #[trigger] released[i] by {
            if too_late(q[0], now) {
                let k = choose|k: int| 0 <= k < tail.len() && tail[k] == r1[i];
                assert(q[k + 1] == released[i]);
            } else if i == 0 {
                assert(q[0] == released[0]);
            } else {
                assert(released[i] == r1[i - 1]);
                let k = choose|k: int| 0 <= k < tail.len() && tail[k] == r1[i - 1];
                assert(q[k + 1] == released[i]);
            }
        }
    }
}

/// Whether the buffers of a run can all be handed in: each has a format that
/// the player accepts, no two carry the same server timestamp, and there are
/// no more of them than the machine can count.
pub open spec fn admissible(buffers: Seq<BufferModel>) -> bool {
    &&& buffers.len() <= usize::MAX
    &&& distinct_timestamps(buffers)
    &&& forall|i: int| 0 <= i < buffers.len() ==> (#[trigger] buffers[i]).format.wf()
}

/// Handing in a run of buffers builds a well formed queue of buffers that
/// all stood in the run.
pub proof fn lemma_scheduled_wf(buffers: Seq<BufferModel>)
    ensures
        queue_wf(scheduled(buffers)),
        forall|i: int|
            0 <= i < scheduled(buffers).len() ==> exists|k: int|
                0 <= k < buffers.len() && buffers[k] == #[trigger] scheduled(buffers)[i],
    decreases buffers.len(),
{
    if buffers.len() > 0 {
        let head = buffers.drop_last();
        let b = buffers.last();
        lemma_scheduled_wf(head);
        let q = scheduled(head);
        lemma_schedule(q, b);
        let r = scheduled(buffers);
        assert forall|i: int| 0 <= i < r.len() implies exists|k: int|
            0 <= k < buffers.len() && buffers[k] == #[trigger] r[i] by {
            if admits(q, b) {
                lemma_rank_bounds(q, b);
                let pos = rank(q, b);
                if i == pos {
                    assert(buffers[buffers.len() - 1] == r[i]);
                } else {
                    let qi = if i < pos {
                        i
                    } else {
                        i - 1
                    };
                    assert(r[i] == q[qi]);
                    let k = choose|k: int| 0 <= k < head.len() && head[k] == q[qi];
                    assert(buffers[k] == r[i]);
                }
            } else {
                let k = choose|k: int| 0 <= k < head.len() && head[k] == q[i];
                assert(buffers[k] == r[i]);
            }
        }
    }
}

/// Handing in a run of buffers that can all be handed in queues each of them
/// once.
pub proof fn lemma_scheduled_all(buffers: Seq<BufferModel>)
    requires
        admissible(buffers),
    ensures
        scheduled(buffers).to_multiset() == buffers.to_multiset(),
        scheduled(buffers).len() == buffers.len(),
    decreases buffers.len(),
{
    if buffers.len() == 0 {
        assert(scheduled(buffers) =~= buffers);
    } else {
        let head = buffers.drop_last();
        let b = buffers.last();
        assert(admissible(head));
        lemma_scheduled_all(head);
        lemma_scheduled_wf(head);
        let q = scheduled(head);
        if has_timestamp(q, b.timestamp) {
            let i = choose|i: int| 0 <= i < q.len() && (#[trigger] q[i]).timestamp == b.timestamp;
            let k = choose|k: int| 0 <= k < head.len() && head[k] == q[i];
            assert(buffers[k].timestamp == buffers[buffers.len() - 1].timestamp);
        }
        lemma_schedule(q, b);
        assert(head.push(b) =~= buffers);
        to_multiset_build(head, b);
    }
}

/// Nothing is lost and nothing is made twice. Hand in any run of buffers
/// with accepted formats and distinct server timestamps, then poll at a time
/// past every deadline until a poll hands out nothing: the buffers handed
/// out and the buffers discarded as too late are together exactly the
/// buffers handed in, the queue is empty, and the buffers come out in the
/// order of their deadlines.
pub proof fn lemma_scheduled_then_drained(buffers: Seq<BufferModel>, now: int)
    requires
        admissible(buffers),
        forall|i: int| 0 <= i < buffers.len() ==> (#[trigger] buffers[i]).play_at <= now,
    ensures
        drain(scheduled(buffers), now).0.to_multiset().add(
            drain(scheduled(buffers), now).1.to_multiset(),
        ) == buffers.to_multiset(),
        drain(scheduled(buffers), now).2.len() == 0,
        ordered(drain(scheduled(buffers), now).0),
        forall|i: int|
            0 <= i < drain(scheduled(buffers), now).1.len() ==> too_late(
                #[trigger] drain(scheduled(buffers), now).1[i],
                now,
            ),
{
    let q = scheduled(buffers);
    lemma_scheduled_wf(buffers);
    lemma_scheduled_all(buffers);
    assert forall|i: int| 0 <= i < q.len() implies (#[trigger] q[i]).play_at <= now by {
        let k = choose|k: int| 0 <= k < buffers.len() && buffers[k] == q[i];
    }
    lemma_drain(q, now);
    let (released, dropped, rest) = drain(q, now);
    rest.to_multiset_ensures();
    assert(rest.to_multiset() =~= Multiset::empty());
    assert(released.to_multiset().add(dropped.to_multiset()) =~= buffers.to_multiset());
}

/// The buffer that a poll hands out, as a run of one or none.
pub open spec fn released_of(p: Poll) -> Seq<BufferModel> {
    match p.released {
        Some(b) => seq![b],
        None => Seq::empty(),
    }
}

/// Polls at the given local times, one after the other: the buffers handed
/// out, the buffers discarded as too late, and the queue left.
pub open spec fn poll_all(q: Seq<BufferModel>, times: Seq<int>) -> (
    Seq<BufferModel>,
    Seq<BufferModel>,
    Seq<BufferModel>,
)
    decreases times.len(),
{
    if times.len() == 0 {
        (Seq::empty(), Seq::empty(), q)
    } else {
        let first = poll(q, times[0]);
        let (released, dropped, rest) = poll_all(first.rest, times.skip(1));
        (released_of(first) + released, first.dropped + dropped, rest)
    }
}

/// Whatever the times of the polls, nothing is lost and nothing is made
/// twice: the buffers handed out, the buffers discarded as too late and the
/// queue left hold together exactly what the queue held.
pub proof fn lemma_polls_conserve(q: Seq<BufferModel>, times: Seq<int>)
    requires
        queue_wf(q),
    ensures
        queue_wf(poll_all(q, times).2),
        q.to_multiset() == poll_all(q, times).0.to_multiset().add(
            poll_all(q, times).1.to_multiset(),
        ).add(poll_all(q, times).2.to_multiset()),
    decreases times.len(),
{
    let (released, dropped, rest) = poll_all(q, times);
    if times.len() == 0 {
        released.to_multiset_ensures();
        assert(released.to_multiset() =~= Multiset::empty());
        assert(q.to_multiset() =~= released.to_multiset().add(dropped.to_multiset()).add(
            rest.to_multiset(),
        ));
    } else {
        let first = poll(q, times[0]);
        lemma_poll(q, times[0]);
        lemma_polls_conserve(first.rest, times.skip(1));
        let (r1, d1, rest1) = poll_all(first.rest, times.skip(1));
        lemma_multiset_commutative(released_of(first), r1);
        lemma_multiset_commutative(first.dropped, d1);
        assert(released_of(first).to_multiset() =~= match first.released {
            Some(b) => Multiset::singleton(b),
            None => Multiset::empty(),
        }) by {
            released_of(first).to_multiset_ensures();
            if first.released is Some {
                lemma_cons_multiset(first.released->Some_0, Seq::empty());
                assert(seq![first.released->Some_0] + Seq::empty() =~= released_of(first));
                Seq::<BufferModel>::empty().to_multiset_ensures();
                assert(Seq::<BufferModel>::empty().to_multiset() =~= Multiset::empty());
            }
        }
        assert(q.to_multiset() =~= released.to_multiset().add(dropped.to_multiset()).add(
            rest.to_multiset(),
        ));
    }
}

/// Hand in any run of buffers with accepted formats and distinct server
/// timestamps, then poll at any times: every buffer handed in is handed out,
/// discarded as too late, or still queued, and none of them twice. Once the
/// queue is empty, the buffers handed out and the buffers discarded are
/// together exactly the buffers handed in.
pub proof fn lemma_scheduled_then_polled(buffers: Seq<BufferModel>, times: Seq<int>)
    requires
        admissible(buffers),
    ensures
        poll_all(scheduled(buffers), times).0.to_multiset().add(
            poll_all(scheduled(buffers), times).1.to_multiset(),
        ).add(poll_all(scheduled(buffers), times).2.to_multiset()) == buffers.to_multiset(),
        poll_all(scheduled(buffers), times).2.len() == 0 ==> poll_all(
            scheduled(buffers),
            times,
        ).0.to_multiset().add(poll_all(scheduled(buffers), times).1.to_multiset())
            == buffers.to_multiset(),
{
    let q = scheduled(buffers);
    lemma_scheduled_wf(buffers);
    lemma_scheduled_all(buffers);
    lemma_polls_conserve(q, times);
    let (released, dropped, rest) = poll_all(q, times);
    if rest.len() == 0 {
        rest.to_multiset_ensures();
        assert(rest.to_multiset() =~= Multiset::empty());
        assert(released.to_multiset().add(dropped.to_multiset()) =~= buffers.to_multiset());
    }
}

/// The scheduler: decoded buffers waiting for their deadlines.
#[derive(Debug)]
pub struct AudioScheduler {
    queue: Vec<AudioBuffer>,
}

impl View for AudioScheduler {
    type V = Seq<BufferModel>;

    closed spec fn view(&self) -> Seq<BufferModel> {
        Seq::new(self.queue@.len(), |i: int| self.queue@[i]@)
    }
}

impl AudioScheduler {
    /// What the methods keep: the queue is in release order, no two buffers
    /// carry the same server timestamp, and every format is an accepted one.
    pub open spec fn wf(&self) -> bool {
        queue_wf(self@)
    }

    /// A scheduler that holds nothing.
    pub fn new() -> (scheduler: Self)
        ensures
            scheduler@ == Seq::<BufferModel>::empty(),
            scheduler.wf(),
    {
        let scheduler = AudioScheduler { queue: Vec::new() };
        assert(scheduler@ =~= Seq::<BufferModel>::empty());
        scheduler
    }

    /// The number of buffers that wait.
    pub fn len(&self) -> (n: usize)
        ensures
            n == self@.len(),
    {
        self.queue.len()
    }

    /// Whether no buffer waits.
    pub fn is_empty(&self) -> (b: bool)
        ensures
            b == (self@.len() == 0),
    {
        self.queue.len() == 0
    }

    /// The deadline of the buffer that is released next.
    pub fn next_deadline(&self) -> (deadline: Option<i64>)
        ensures
            match deadline {
                Some(d) => self@.len() > 0 && d == self@[0].play_at,
                None => self@.len() == 0,
            },
    {
        if self.queue.len() == 0 {
            None
        } else {
            Some(self.queue[0].play_at)
        }
    }

    /// Whether a buffer with this server timestamp waits.
    pub fn contains_timestamp(&self, timestamp: i64) -> (found: bool)
        ensures
            found == has_timestamp(self@, timestamp as int),
    {
        let mut i: usize = 0;
        while i < self.queue.len()
            invariant
                i <= self.queue@.len(),
                self@.len() == self.queue@.len(),
                forall|k: int| 0 <= k < i ==> (#[trigger] self@[k]).timestamp != timestamp,
            decreases self.queue@.len() - i,
        {
            if self.queue[i].timestamp == timestamp {
                assert(self@[i as int].timestamp == timestamp);
                return true;
            }
            i = i + 1;
        }
        false
    }

    /// Hands in a buffer. It is taken in unless its format is not an
    /// accepted one or a buffer with its server timestamp waits already;
    /// then the queue stays as it was. Returns whether it was taken in.
    pub fn schedule(&mut self, buffer: AudioBuffer) -> (accepted: bool)
        requires
            old(self).wf(),
        ensures
            final(self).wf(),
            accepted == admits(old(self)@, buffer@),
            final(self)@ == spec_schedule(old(self)@, buffer@),
    {
        if !buffer.format.is_supported() || self.contains_timestamp(buffer.timestamp)
            || self.queue.len() == usize::MAX {
            return false;
        }
        let mut pos: usize = 0;
        while pos < self.queue.len() && (self.queue[pos].play_at < buffer.play_at || (
        self.queue[pos].play_at == buffer.play_at && self.queue[pos].timestamp < buffer.timestamp))
            invariant
                pos <= self.queue@.len(),
                self@.len() == self.queue@.len(),
                forall|k: int| 0 <= k < pos ==> before(#[trigger] self@[k], buffer@),
            decreases self.queue@.len() - pos,
        {
            assert(before(self@[pos as int], buffer@));
            pos = pos + 1;
        }
        proof {
            if pos < self.queue@.len() {
                assert(!before(self@[pos as int], buffer@));
            }
            lemma_rank(self@, buffer@, pos as int);
            lemma_schedule(self@, buffer@);
        }
        let ghost before_insert = self@;
        let ghost model = buffer@;
        self.queue.insert(pos, buffer);
        assert(self@ =~= before_insert.insert(pos as int, model));
        true
    }

    /// Polls at local time `now`. Buffers at the head of the queue whose
    /// deadline lies further back than they are long are discarded. Then the
    /// head is handed out if its deadline has come, however late it is by
    /// less than that; a buffer whose deadline lies ahead stays.
    pub fn next_ready(&mut self, now: i64) -> (ready: Option<AudioBuffer>)
        requires
            old(self).wf(),
        ensures
            final(self).wf(),
            final(self)@ == poll(old(self)@, now as int).rest,
            match (ready, poll(old(self)@, now as int).released) {
                (Some(buffer), Some(model)) => buffer@ == model,
                (None, None) => true,
                _ => false,
            },
    {
        proof {
            lemma_poll(self@, now as int);
        }
        loop
            invariant
                self.wf(),
                poll(self@, now as int).rest == poll(old(self)@, now as int).rest,
                poll(self@, now as int).released == poll(old(self)@, now as int).released,
            decreases self@.len(),
        {
            if self.queue.len() == 0 {
                return None;
            }
            let ghost current = self@;
            assert(current[0] == self.queue@[0]@);
            if self.queue[0].play_at > now {
                return None;
            }
            let lag: i128 = now as i128 - self.queue[0].play_at as i128;
            let length: u64 = self.queue[0].duration_micros();
            let head = self.queue.remove(0);
            assert(self@ =~= current.skip(1));
            proof {
                lemma_skip_wf(current);
            }
            if lag <= length as i128 {
                return Some(head);
            }
        }
    }

    /// Empties the queue: a stream that ends, is cleared or changes its
    /// format leaves nothing waiting.
    pub fn clear(&mut self)
        ensures
            final(self)@ == Seq::<BufferModel>::empty(),
            final(self).wf(),
    {
        self.queue.clear();
        assert(self@ =~= Seq::<BufferModel>::empty());
    }
}

impl Default for AudioScheduler {
    fn default() -> (scheduler: Self)
        ensures
            scheduler@ == Seq::<BufferModel>::empty(),
            scheduler.wf(),
    {
        AudioScheduler::new()
    }
}

} // verus!
