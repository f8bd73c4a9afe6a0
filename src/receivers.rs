use vstd::prelude::*;
use vstd::hash_map::HashMapWithView;
use vstd::hash_set::HashSetWithView;

use bytes::Bytes;

use crate::packet::SingleData;
use crate::wrapping_id::{is_newer, next_id, MessageId};

verus! {

broadcast use vstd::std_specs::hash::group_hash_axioms;

/// Removes and returns the first message of `queue`, if any.
fn pop_front(queue: &mut Vec<SingleData>) -> (r: Option<SingleData>)
    ensures
        old(queue)@.len() == 0 ==> r is None && final(queue)@ == old(queue)@,
        old(queue)@.len() > 0 ==> r == Some(old(queue)@[0]) && final(queue)@ == old(queue)@.subrange(
            1,
            old(queue)@.len() as int,
        ),
{
    if queue.len() == 0 {
        None
    } else {
        Some(queue.remove(0))
    }
}

/// Every arriving message is ready at once: no dedup, no reordering.
pub struct UnorderedUnreliableReceiver {
    pub recv_message_buffer: Vec<SingleData>,
}

impl UnorderedUnreliableReceiver {
    pub fn new() -> (r: Self)
        ensures
            r.recv_message_buffer@.len() == 0,
    {
        UnorderedUnreliableReceiver { recv_message_buffer: Vec::new() }
    }

    pub fn buffer_recv(&mut self, message: SingleData)
        ensures
            final(self).recv_message_buffer@ == old(self).recv_message_buffer@.push(message),
    {
        self.recv_message_buffer.push(message);
    }

    /// The oldest message not yet read.
    pub fn read_message(&mut self) -> (r: Option<SingleData>)
        ensures
            old(self).recv_message_buffer@.len() == 0 ==> r is None && final(self).recv_message_buffer@
                == old(self).recv_message_buffer@,
            old(self).recv_message_buffer@.len() > 0 ==> r == Some(old(self).recv_message_buffer@[0])
                && final(self).recv_message_buffer@ == old(self).recv_message_buffer@.subrange(
                1,
                old(self).recv_message_buffer@.len() as int,
            ),
    {
        pop_front(&mut self.recv_message_buffer)
    }
}

/// A sequenced receiver takes a message only when its id is strictly newer than the
/// newest id taken so far; a message without an id is never taken.
pub open spec fn sequenced_accepts(most_recent: Option<MessageId>, id: Option<MessageId>) -> bool {
    match id {
        None => false,
        Some(i) => match most_recent {
            None => true,
            Some(m) => is_newer(i.0, m.0),
        },
    }
}

/// One arrival at a sequenced receiver, whose state is the newest id taken and the
/// queue of messages taken.
pub open spec fn sequenced_after_ingest(s: (Option<MessageId>, Seq<SingleData>), m: SingleData) -> (Option<MessageId>, Seq<SingleData>) {
    if sequenced_accepts(s.0, m.id) {
        (m.id, s.1.push(m))
    } else {
        s
    }
}

/// State of a fresh sequenced receiver after `arrivals`, in this order.
pub open spec fn sequenced_ingest_all(arrivals: Seq<SingleData>) -> (Option<MessageId>, Seq<SingleData>)
    decreases arrivals.len(),
{
    if arrivals.len() == 0 {
        (None, Seq::empty())
    } else {
        sequenced_after_ingest(sequenced_ingest_all(arrivals.drop_last()), arrivals.last())
    }
}

/// Sequenced delivery: whatever the arrival order, each message that a fresh sequenced
/// receiver queues has an id strictly newer than the one queued just before it, so an
/// equal or older id never follows a delivered one.
pub proof fn lemma_sequenced_strictly_newer(arrivals: Seq<SingleData>)
    ensures
        ({
            let q = sequenced_ingest_all(arrivals).1;
            &&& forall|i: int| 0 <= i < q.len() ==> (#[trigger] q[i]).id is Some
            &&& forall|i: int| 0 < i < q.len() ==> is_newer((#[trigger] q[i]).id.unwrap().0, q[i - 1].id.unwrap().0)
            &&& forall|i: int| 0 < i < q.len() ==> !is_newer(q[i - 1].id.unwrap().0, (#[trigger] q[i]).id.unwrap().0)
                && q[i - 1].id != q[i].id
            &&& q.len() == 0 ==> sequenced_ingest_all(arrivals).0 is None
            &&& q.len() > 0 ==> sequenced_ingest_all(arrivals).0 == q.last().id
        }),
    decreases arrivals.len(),
{
    if arrivals.len() > 0 {
        lemma_sequenced_strictly_newer(arrivals.drop_last());
        let prev = sequenced_ingest_all(arrivals.drop_last()).1;
        let q = sequenced_ingest_all(arrivals).1;
        assert forall|i: int| 0 < i < q.len() implies is_newer((#[trigger] q[i]).id.unwrap().0, q[i - 1].id.unwrap().0)
            && !is_newer(q[i - 1].id.unwrap().0, q[i].id.unwrap().0) && q[i - 1].id != q[i].id by {
            if i < prev.len() {
                assert(q[i] == prev[i] && q[i - 1] == prev[i - 1]);
            } else {
                assert(q[i - 1] == prev.last());
            }
        }
        assert forall|i: int| 0 <= i < q.len() implies (#[trigger] q[i]).id is Some by {
            if i < prev.len() {
                assert(q[i] == prev[i]);
            }
        }
    }
}

/// Takes only messages newer than the newest one taken so far.
pub struct SequencedUnreliableReceiver {
    pub most_recent_message_id: Option<MessageId>,
    pub recv_message_buffer: Vec<SingleData>,
}

impl SequencedUnreliableReceiver {
    pub fn new() -> (r: Self)
        ensures
            r.most_recent_message_id is None,
            r.recv_message_buffer@.len() == 0,
    {
        SequencedUnreliableReceiver { most_recent_message_id: None, recv_message_buffer: Vec::new() }
    }

    pub fn buffer_recv(&mut self, message: SingleData)
        ensures
            (final(self).most_recent_message_id, final(self).recv_message_buffer@) == sequenced_after_ingest(
                (old(self).most_recent_message_id, old(self).recv_message_buffer@),
                message,
            ),
    {
        if accepts(&self.most_recent_message_id, &message.id) {
            self.most_recent_message_id = message.id;
            self.recv_message_buffer.push(message);
        }
    }

    pub fn read_message(&mut self) -> (r: Option<SingleData>)
        ensures
            final(self).most_recent_message_id == old(self).most_recent_message_id,
            old(self).recv_message_buffer@.len() == 0 ==> r is None && final(self).recv_message_buffer@ == old(self).recv_message_buffer@,
            old(self).recv_message_buffer@.len() > 0 ==> r == Some(old(self).recv_message_buffer@[0])
                && final(self).recv_message_buffer@ == old(self).recv_message_buffer@.subrange(
                1,
                old(self).recv_message_buffer@.len() as int,
            ),
    {
        pop_front(&mut self.recv_message_buffer)
    }
}

fn accepts(most_recent: &Option<MessageId>, id: &Option<MessageId>) -> (r: bool)
    ensures
        r == sequenced_accepts(*most_recent, *id),
{
    match id {
        None => false,
        Some(i) => match most_recent {
            None => true,
            Some(m) => i.is_newer_than(m),
        },
    }
}

/// Reliable and sequenced: acknowledges every message with an id, and takes only
/// messages newer than the newest one taken so far (stale ones are dropped, not queued).
pub struct SequencedReliableReceiver {
    pub most_recent_message_id: Option<MessageId>,
    pub recv_message_buffer: Vec<SingleData>,
}

impl SequencedReliableReceiver {
    pub fn new() -> (r: Self)
        ensures
            r.most_recent_message_id is None,
            r.recv_message_buffer@.len() == 0,
    {
        SequencedReliableReceiver { most_recent_message_id: None, recv_message_buffer: Vec::new() }
    }

    /// Returns the id to acknowledge: the message's id, whether it was taken or dropped.
    pub fn buffer_recv(&mut self, message: SingleData) -> (ack: Option<MessageId>)
        ensures
            ack == message.id,
            (final(self).most_recent_message_id, final(self).recv_message_buffer@) == sequenced_after_ingest(
                (old(self).most_recent_message_id, old(self).recv_message_buffer@),
                message,
            ),
    {
        let ack = message.id;
        if accepts(&self.most_recent_message_id, &message.id) {
            self.most_recent_message_id = message.id;
            self.recv_message_buffer.push(message);
        }
        ack
    }

    pub fn read_message(&mut self) -> (r: Option<SingleData>)
        ensures
            final(self).most_recent_message_id == old(self).most_recent_message_id,
            old(self).recv_message_buffer@.len() == 0 ==> r is None && final(self).recv_message_buffer@ == old(self).recv_message_buffer@,
            old(self).recv_message_buffer@.len() > 0 ==> r == Some(old(self).recv_message_buffer@[0])
                && final(self).recv_message_buffer@ == old(self).recv_message_buffer@.subrange(
                1,
                old(self).recv_message_buffer@.len() as int,
            ),
    {
        pop_front(&mut self.recv_message_buffer)
    }
}


/// One arrival at the deduplicating receiver, whose state is the set of ids already
/// taken and the queue of messages taken: a message is taken only if its id is new.
pub open spec fn dedup_after_ingest(s: (Set<u16>, Seq<SingleData>), m: SingleData) -> (Set<u16>, Seq<SingleData>) {
    match m.id {
        Some(id) => if s.0.contains(id.0) {
            s
        } else {
            (s.0.insert(id.0), s.1.push(m))
        },
        None => s,
    }
}

/// State of a fresh deduplicating receiver after `arrivals`, in this order.
pub open spec fn dedup_ingest_all(arrivals: Seq<SingleData>) -> (Set<u16>, Seq<SingleData>)
    decreases arrivals.len(),
{
    if arrivals.len() == 0 {
        (Set::empty(), Seq::empty())
    } else {
        dedup_after_ingest(dedup_ingest_all(arrivals.drop_last()), arrivals.last())
    }
}

/// Exactly-once delivery: however often each message is duplicated on the wire, a fresh
/// deduplicating receiver queues every id that arrived, and no id twice.
pub proof fn lemma_dedup_exactly_once(arrivals: Seq<SingleData>)
    ensures
        forall|k: u16| #[trigger] arrives(dedup_ingest_all(arrivals).1, k) <==> arrives(arrivals, k),
        forall|i: int, j: int| 0 <= i < j < dedup_ingest_all(arrivals).1.len() ==> (#[trigger] dedup_ingest_all(arrivals).1[i]).id
            != (#[trigger] dedup_ingest_all(arrivals).1[j]).id,
        forall|i: int| 0 <= i < dedup_ingest_all(arrivals).1.len() ==> (#[trigger] dedup_ingest_all(arrivals).1[i]).id is Some,
        forall|k: u16| #[trigger] dedup_ingest_all(arrivals).0.contains(k) <==> arrives(arrivals, k),
    decreases arrivals.len(),
{
    if arrivals.len() > 0 {
        let init = arrivals.drop_last();
        lemma_dedup_exactly_once(init);
        let prev = dedup_ingest_all(init);
        let st = dedup_ingest_all(arrivals);
        let m = arrivals.last();
        assert forall|k: u16| arrives(arrivals, k) <==> (arrives(init, k) || m.id == Some(MessageId(k))) by {
            if arrives(arrivals, k) {
                let j = choose|j: int| 0 <= j < arrivals.len() && arrivals[j].id == Some(MessageId(k));
                if j < init.len() {
                    assert(init[j] == arrivals[j]);
                }
            }
            if arrives(init, k) {
                let j = choose|j: int| 0 <= j < init.len() && init[j].id == Some(MessageId(k));
                assert(arrivals[j] == init[j]);
            }
            if m.id == Some(MessageId(k)) {
                assert(arrivals[arrivals.len() - 1] == m);
            }
        }
        assert forall|k: u16| #[trigger] arrives(st.1, k) <==> arrives(arrivals, k) by {
            if st.1 != prev.1 {
                if arrives(st.1, k) {
                    let j = choose|j: int| 0 <= j < st.1.len() && st.1[j].id == Some(MessageId(k));
                    if j < prev.1.len() {
                        assert(prev.1[j] == st.1[j]);
                    }
                }
                if arrives(prev.1, k) {
                    let j = choose|j: int| 0 <= j < prev.1.len() && prev.1[j].id == Some(MessageId(k));
                    assert(st.1[j] == prev.1[j]);
                }
                if m.id == Some(MessageId(k)) {
                    assert(st.1[st.1.len() - 1] == m);
                }
            }
        }
        if st.1 != prev.1 {
            let k = m.id.unwrap().0;
            assert forall|i: int, j: int| 0 <= i < j < st.1.len() implies (#[trigger] st.1[i]).id != (
            #[trigger] st.1[j]).id by {
                if j == st.1.len() - 1 {
                    assert(st.1[i] == prev.1[i]);
                    if st.1[i].id == m.id {
                        assert(m.id == Some(MessageId(k)));
                        assert(arrives(prev.1, k));
                    }
                } else {
                    assert(st.1[i] == prev.1[i] && st.1[j] == prev.1[j]);
                }
            }
        }
    }
}

/// Reliable and unordered: acknowledges every message with an id, delivers each
/// distinct id once, in arrival order.
pub struct UnorderedReliableReceiver {
    pub delivered_ids: HashSetWithView<u16>,
    pub recv_message_buffer: Vec<SingleData>,
}

impl UnorderedReliableReceiver {
    pub fn new() -> (r: Self)
        ensures
            r.delivered_ids@ == Set::<u16>::empty(),
            r.recv_message_buffer@.len() == 0,
    {
        UnorderedReliableReceiver { delivered_ids: HashSetWithView::new(), recv_message_buffer: Vec::new() }
    }

    /// Returns the id to acknowledge: the message's id, whether it was new or a duplicate.
    pub fn buffer_recv(&mut self, message: SingleData) -> (ack: Option<MessageId>)
        ensures
            ack == message.id,
            (final(self).delivered_ids@, final(self).recv_message_buffer@) == dedup_after_ingest(
                (old(self).delivered_ids@, old(self).recv_message_buffer@),
                message,
            ),
    {
        let ack = message.id;
        if let Some(id) = message.id {
            if self.delivered_ids.insert(id.0) {
                self.recv_message_buffer.push(message);
            }
        }
        ack
    }

    pub fn read_message(&mut self) -> (r: Option<SingleData>)
        ensures
            final(self).delivered_ids@ == old(self).delivered_ids@,
            old(self).recv_message_buffer@.len() == 0 ==> r is None && final(self).recv_message_buffer@
                == old(self).recv_message_buffer@,
            old(self).recv_message_buffer@.len() > 0 ==> r == Some(old(self).recv_message_buffer@[0])
                && final(self).recv_message_buffer@ == old(self).recv_message_buffer@.subrange(
                1,
                old(self).recv_message_buffer@.len() as int,
            ),
    {
        pop_front(&mut self.recv_message_buffer)
    }
}


/// Whether the ordered receiver keeps a message with id `id` while it waits for `expected`:
/// the expected id itself or a newer one; older ids were already delivered.
pub open spec fn ordered_accepts(expected: u16, id: u16) -> bool {
    id == expected || is_newer(id, expected)
}

/// State of the ordered receiver: the next id to deliver and the buffered payloads by id.
pub open spec fn ordered_after_ingest(s: (u16, Map<u16, Bytes>), message: SingleData) -> (u16, Map<u16, Bytes>) {
    match message.id {
        Some(id) => if ordered_accepts(s.0, id.0) && !s.1.contains_key(id.0) {
            (s.0, s.1.insert(id.0, message.bytes))
        } else {
            s
        },
        None => s,
    }
}

/// One pull: the expected message if it is buffered (the id then advances), else nothing.
pub open spec fn ordered_after_pull(s: (u16, Map<u16, Bytes>)) -> ((u16, Map<u16, Bytes>), Option<SingleData>) {
    if s.1.contains_key(s.0) {
        ((next_id(s.0), s.1.remove(s.0)), Some(SingleData { id: Some(MessageId(s.0)), bytes: s.1[s.0] }))
    } else {
        (s, None)
    }
}

pub open spec fn ordered_ingest_all(s: (u16, Map<u16, Bytes>), arrivals: Seq<SingleData>) -> (u16, Map<u16, Bytes>)
    decreases arrivals.len(),
{
    if arrivals.len() == 0 {
        s
    } else {
        ordered_after_ingest(ordered_ingest_all(s, arrivals.drop_last()), arrivals.last())
    }
}

/// The ids that `k` successive pulls hand out (`None` for a pull that gives nothing).
pub open spec fn ordered_pulled_ids(s: (u16, Map<u16, Bytes>), k: nat) -> Seq<Option<u16>>
    decreases k,
{
    if k == 0 {
        Seq::empty()
    } else {
        let (next, r) = ordered_after_pull(s);
        let id = match r {
            Some(m) => match m.id {
                Some(i) => Some(i.0),
                None => None,
            },
            None => None,
        };
        seq![id] + ordered_pulled_ids(next, (k - 1) as nat)
    }
}

/// Some arrival carries id `k`.
pub open spec fn arrives(arrivals: Seq<SingleData>, k: u16) -> bool {
    exists|j: int| 0 <= j < arrivals.len() && arrivals[j].id == Some(MessageId(k))
}

proof fn lemma_ordered_ingest_prefix(arrivals: Seq<SingleData>, n: int, i: int)
    requires
        0 <= n < 32768,
        0 <= i <= arrivals.len(),
        forall|j: int| 0 <= j < arrivals.len() ==> (#[trigger] arrivals[j]).id is Some
            && arrivals[j].id.unwrap().0 <= n,
    ensures
        ordered_ingest_all((0, Map::empty()), arrivals.subrange(0, i)).0 == 0,
        forall|k: u16| #[trigger] ordered_ingest_all((0, Map::empty()), arrivals.subrange(0, i)).1.contains_key(k)
            <==> exists|j: int| 0 <= j < i && arrivals[j].id == Some(MessageId(k)),
    decreases i,
{
    let st = ordered_ingest_all((0, Map::empty()), arrivals.subrange(0, i));
    if i > 0 {
        lemma_ordered_ingest_prefix(arrivals, n, i - 1);
        let prev = ordered_ingest_all((0, Map::empty()), arrivals.subrange(0, i - 1));
        assert(arrivals.subrange(0, i).drop_last() =~= arrivals.subrange(0, i - 1));
        let m = arrivals[i - 1];
        assert(st == ordered_after_ingest(prev, m));
        let id = m.id.unwrap();
        assert(ordered_accepts(0, id.0));
        assert forall|k: u16| #[trigger] st.1.contains_key(k) <==> exists|j: int|
            0 <= j < i && arrivals[j].id == Some(MessageId(k)) by {
            if st.1.contains_key(k) && !prev.1.contains_key(k) {
                assert(arrivals[i - 1].id == Some(MessageId(k)));
            }
            if exists|j: int| 0 <= j < i && arrivals[j].id == Some(MessageId(k)) {
                let j = choose|j: int| 0 <= j < i && arrivals[j].id == Some(MessageId(k));
                if j < i - 1 {
                    assert(prev.1.contains_key(k));
                } else {
                    assert(k == id.0);
                }
            }
        }
    } else {
        assert(arrivals.subrange(0, 0).len() == 0);
    }
}

proof fn lemma_ordered_release(s: (u16, Map<u16, Bytes>), n: int)
    requires
        0 <= n < 32768,
        0 <= s.0 <= n + 1,
        forall|k: u16| #[trigger] s.1.contains_key(k) <==> s.0 <= k <= n,
    ensures
        ordered_pulled_ids(s, (n + 2 - s.0) as nat) =~= Seq::new((n + 1 - s.0) as nat, |i: int| Some((s.0 + i) as u16)).push(None),
    decreases n + 1 - s.0,
{
    let (next, r) = ordered_after_pull(s);
    if s.0 <= n {
        assert(s.1.contains_key(s.0));
        assert(next.0 == s.0 + 1);
        assert forall|k: u16| #[trigger] next.1.contains_key(k) <==> next.0 <= k <= n by {}
        lemma_ordered_release(next, n);
        assert(ordered_pulled_ids(s, (n + 2 - s.0) as nat) == seq![Some(s.0)] + ordered_pulled_ids(next, (n + 2 - next.0) as nat));
    } else {
        assert(!s.1.contains_key(s.0));
        assert(ordered_pulled_ids(next, 0) =~= Seq::<Option<u16>>::empty());
    }
}

/// In-order release: when the arrivals carry exactly the ids `0..=n` (in any order, with
/// any duplicates, `n` below half the id space), a fresh ordered receiver hands out
/// `0, 1, ..., n` on successive pulls, then nothing.
pub proof fn lemma_ordered_in_order_release(arrivals: Seq<SingleData>, n: int)
    requires
        0 <= n < 32768,
        forall|j: int| 0 <= j < arrivals.len() ==> (#[trigger] arrivals[j]).id is Some
            && arrivals[j].id.unwrap().0 <= n,
        forall|k: u16| k <= n ==> #[trigger] arrives(arrivals, k),
    ensures
        ordered_pulled_ids(ordered_ingest_all((0, Map::empty()), arrivals), (n + 2) as nat)
            == Seq::new((n + 1) as nat, |i: int| Some(i as u16)).push(None),
{
    lemma_ordered_ingest_prefix(arrivals, n, arrivals.len() as int);
    assert(arrivals.subrange(0, arrivals.len() as int) =~= arrivals);
    let st = ordered_ingest_all((0, Map::empty()), arrivals);
    assert forall|k: u16| #[trigger] st.1.contains_key(k) <==> st.0 <= k <= n by {
        if st.0 <= k <= n {
            assert(arrives(arrivals, k));
        }
        if st.1.contains_key(k) {
            let j = choose|j: int| 0 <= j < arrivals.len() && arrivals[j].id == Some(MessageId(k));
            assert(arrivals[j].id.unwrap().0 <= n);
        }
    }
    lemma_ordered_release(st, n);
    assert(Seq::new((n + 1 - st.0) as nat, |i: int| Some((st.0 + i) as u16)).push(None)
        =~= Seq::new((n + 1) as nat, |i: int| Some(i as u16)).push(None));
}

/// What a fresh ordered receiver goes through on `events`, in order: `Some(m)` takes in
/// `m`, `None` is one pull. Gives the final state and the ids of the messages pulled.
pub open spec fn ordered_run(events: Seq<Option<SingleData>>) -> ((u16, Map<u16, Bytes>), Seq<u16>)
    decreases events.len(),
{
    if events.len() == 0 {
        ((0, Map::empty()), Seq::empty())
    } else {
        let (s, pulled) = ordered_run(events.drop_last());
        match events.last() {
            Some(m) => (ordered_after_ingest(s, m), pulled),
            None => {
                let (next, r) = ordered_after_pull(s);
                match r {
                    Some(d) => (next, pulled.push(d.id.unwrap().0)),
                    None => (next, pulled),
                }
            },
        }
    }
}

/// Some event of `events` takes in a message with id `k`.
pub open spec fn event_arrives(events: Seq<Option<SingleData>>, k: u16) -> bool {
    exists|j: int| 0 <= j < events.len() && (#[trigger] events[j]) is Some && events[j]->Some_0.id == Some(MessageId(k))
}

/// In-order release with pulls at any points: when every arriving id is at most `n`
/// (below half the id space), the ids pulled so far are always `0, 1, ..., e - 1`, with `e`
/// the expected id, and the buffer holds exactly the arrived ids from `e` to `n`. Once every
/// id up to `n` has arrived, further pulls give the rest of `e, ..., n`, then nothing.
pub proof fn lemma_ordered_interleaved_release(events: Seq<Option<SingleData>>, n: int)
    requires
        0 <= n < 32768,
        forall|j: int| 0 <= j < events.len() && (#[trigger] events[j]) is Some ==> events[j]->Some_0.id is Some
            && events[j]->Some_0.id.unwrap().0 <= n,
    ensures
        ({
            let (s, pulled) = ordered_run(events);
            &&& pulled == Seq::new(pulled.len(), |i: int| i as u16)
            &&& s.0 as int == pulled.len()
            &&& s.0 <= n + 1
            &&& forall|k: u16| #[trigger] s.1.contains_key(k) <==> (event_arrives(events, k) && s.0 <= k <= n)
            &&& (forall|k: u16| k <= n ==> #[trigger] event_arrives(events, k)) ==> ordered_pulled_ids(
                s,
                (n + 2 - s.0) as nat,
            ) == Seq::new((n + 1 - s.0) as nat, |i: int| Some((s.0 + i) as u16)).push(None)
        }),
    decreases events.len(),
{
    let (s, pulled) = ordered_run(events);
    if events.len() > 0 {
        let init = events.drop_last();
        lemma_ordered_interleaved_release(init, n);
        let (ps, pp) = ordered_run(init);
        assert forall|j: int| 0 <= j < init.len() && (#[trigger] init[j]) is Some implies init[j]->Some_0.id is Some
            && init[j]->Some_0.id.unwrap().0 <= n by {
            assert(init[j] == events[j]);
        }
        assert forall|k: u16| event_arrives(events, k) <==> (event_arrives(init, k) || (events.last() is Some
            && events.last()->Some_0.id == Some(MessageId(k)))) by {
            if event_arrives(events, k) {
                let j = choose|j: int| 0 <= j < events.len() && (#[trigger] events[j]) is Some
                    && events[j]->Some_0.id == Some(MessageId(k));
                if j < init.len() {
                    assert(init[j] == events[j]);
                }
            }
            if event_arrives(init, k) {
                let j = choose|j: int| 0 <= j < init.len() && (#[trigger] init[j]) is Some
                    && init[j]->Some_0.id == Some(MessageId(k));
                assert(events[j] == init[j]);
            }
            if events.last() is Some && events.last()->Some_0.id == Some(MessageId(k)) {
                assert(events[events.len() - 1] == events.last());
            }
        }
        match events.last() {
            Some(m) => {
                assert(events[events.len() - 1] == events.last());
                let k = m.id.unwrap().0;
                assert(k <= n);
                assert(ordered_accepts(ps.0, k) <==> ps.0 <= k);
                assert forall|x: u16| #[trigger] s.1.contains_key(x) <==> (event_arrives(events, x) && s.0 <= x <= n) by {}
            },
            None => {
                if ps.1.contains_key(ps.0) {
                    assert(pulled =~= Seq::new(pulled.len(), |i: int| i as u16));
                    assert forall|x: u16| #[trigger] s.1.contains_key(x) <==> (event_arrives(events, x) && s.0 <= x <= n) by {}
                } else {
                    assert forall|x: u16| #[trigger] s.1.contains_key(x) <==> (event_arrives(events, x) && s.0 <= x <= n) by {
                        if event_arrives(events, x) && s.0 <= x <= n && x == s.0 {
                        }
                    }
                }
            },
        }
    }
    assert(forall|k: u16| #[trigger] s.1.contains_key(k) <==> (event_arrives(events, k) && s.0 <= k <= n));
    if forall|k: u16| k <= n ==> #[trigger] event_arrives(events, k) {
        assert forall|k: u16| #[trigger] s.1.contains_key(k) <==> s.0 <= k <= n by {
            if s.0 <= k <= n {
                assert(event_arrives(events, k));
            }
        }
        lemma_ordered_release(s, n);
    }
}

/// A gap blocks delivery: while the expected id is missing, every pull gives nothing.
pub proof fn lemma_ordered_gap_blocks(s: (u16, Map<u16, Bytes>), k: nat)
    requires
        !s.1.contains_key(s.0),
    ensures
        ordered_pulled_ids(s, k) =~= Seq::new(k, |i: int| None::<u16>),
    decreases k,
{
    if k > 0 {
        lemma_ordered_gap_blocks(s, (k - 1) as nat);
    }
}

/// Reliable and ordered: buffers messages that arrive ahead of the expected id and
/// delivers strictly in id order; a missing id holds back everything after it.
pub struct OrderedReliableReceiver {
    pub pending_recv_message_id: MessageId,
    pub recv_message_buffer: HashMapWithView<u16, Bytes>,
}

impl OrderedReliableReceiver {
    pub open spec fn model(&self) -> (u16, Map<u16, Bytes>) {
        (self.pending_recv_message_id.0, self.recv_message_buffer@)
    }

    pub fn new() -> (r: Self)
        ensures
            r.model() == (0u16, Map::<u16, Bytes>::empty()),
    {
        OrderedReliableReceiver {
            pending_recv_message_id: MessageId(0),
            recv_message_buffer: HashMapWithView::new(),
        }
    }

    /// Returns the id to acknowledge: the message's id, whether it was kept or dropped.
    pub fn buffer_recv(&mut self, message: SingleData) -> (ack: Option<MessageId>)
        ensures
            ack == message.id,
            final(self).model() == ordered_after_ingest(old(self).model(), message),
    {
        let ack = message.id;
        if let Some(id) = message.id {
            let expected = self.pending_recv_message_id;
            if (id.0 == expected.0 || id.is_newer_than(&expected)) && !self.recv_message_buffer.contains_key(&id.0) {
                self.recv_message_buffer.insert(id.0, message.bytes);
            }
        }
        ack
    }

    /// The message with the expected id, if it has arrived.
    pub fn read_message(&mut self) -> (r: Option<SingleData>)
        ensures
            (final(self).model(), r) == ordered_after_pull(old(self).model()),
    {
        let expected = self.pending_recv_message_id;
        match self.recv_message_buffer.remove(&expected.0) {
            Some(bytes) => {
                self.pending_recv_message_id = expected.next();
                Some(SingleData { id: Some(expected), bytes })
            },
            None => None,
        }
    }
}


/// A tick-buffered message is kept while its tick has not passed `current`; the
/// message's id field carries its tick.
pub open spec fn tick_pending(current: u16, m: SingleData) -> bool {
    m.id is Some && !is_newer(current, m.id.unwrap().0)
}

pub open spec fn still_pending(current: u16) -> spec_fn(SingleData) -> bool {
    |m: SingleData| tick_pending(current, m)
}

/// A message is ready when its tick is the current one.
pub open spec fn tick_ready(current: u16, m: SingleData) -> bool {
    m.id == Some(MessageId(current))
}

/// One pull from a tick buffer `o` at tick `current`, giving `n`: the first message of
/// that tick leaves the buffer and is returned; with none, nothing changes.
pub open spec fn tick_read(o: Seq<SingleData>, n: Seq<SingleData>, current: u16, r: Option<SingleData>) -> bool {
    &&& r is None ==> n == o && forall|i: int| 0 <= i < o.len() ==> !tick_ready(current, #[trigger] o[i])
    &&& r is Some ==> exists|i: int| {
        &&& 0 <= i < o.len()
        &&& tick_ready(current, o[i])
        &&& forall|j: int| 0 <= j < i ==> !tick_ready(current, #[trigger] o[j])
        &&& r == Some(o[i])
        &&& n == o.remove(i)
    }
}

/// Buffers messages by their origin tick and hands each out when the current tick
/// reaches it; messages whose tick has passed are dropped.
pub struct TickUnreliableReceiver {
    pub current_tick: u16,
    pub recv_message_buffer: Vec<SingleData>,
}

fn is_pending(current: u16, m: &SingleData) -> (r: bool)
    ensures
        r == tick_pending(current, *m),
{
    match m.id {
        Some(t) => !MessageId(current).is_newer_than(&t),
        None => false,
    }
}

impl TickUnreliableReceiver {
    pub fn new() -> (r: Self)
        ensures
            r.current_tick == 0,
            r.recv_message_buffer@.len() == 0,
    {
        TickUnreliableReceiver { current_tick: 0, recv_message_buffer: Vec::new() }
    }

    pub fn buffer_recv(&mut self, message: SingleData)
        ensures
            final(self).current_tick == old(self).current_tick,
            tick_pending(old(self).current_tick, message) ==> final(self).recv_message_buffer@ == old(
                self,
            ).recv_message_buffer@.push(message),
            !tick_pending(old(self).current_tick, message) ==> final(self).recv_message_buffer@ == old(
                self,
            ).recv_message_buffer@,
    {
        if is_pending(self.current_tick, &message) {
            self.recv_message_buffer.push(message);
        }
    }

    /// Moves the receiver to tick `tick` and drops the messages whose tick has passed.
    pub fn update_tick(&mut self, tick: u16)
        ensures
            final(self).current_tick == tick,
            final(self).recv_message_buffer@ == old(self).recv_message_buffer@.filter(still_pending(tick)),
    {
        self.current_tick = tick;
        let mut rest: Vec<SingleData> = Vec::new();
        core::mem::swap(&mut rest, &mut self.recv_message_buffer);
        let ghost orig = rest@;
        while rest.len() > 0
            invariant
                self.current_tick == tick,
                orig.len() >= rest@.len(),
                rest@ == orig.subrange(orig.len() - rest@.len(), orig.len() as int),
                self.recv_message_buffer@ == orig.subrange(0, orig.len() - rest@.len()).filter(
                    still_pending(tick),
                ),
            decreases rest@.len(),
        {
            let ghost done = orig.len() - rest@.len();
            let m = rest.remove(0);
            reveal(Seq::filter);
            assert(orig.subrange(0, done + 1).drop_last() =~= orig.subrange(0, done));
            assert(rest@ =~= orig.subrange(orig.len() - rest@.len(), orig.len() as int));
            if is_pending(tick, &m) {
                self.recv_message_buffer.push(m);
            }
        }
        assert(orig.subrange(0, orig.len() as int) =~= orig);
    }

    /// The first buffered message whose tick is the current one.
    pub fn read_message(&mut self) -> (r: Option<SingleData>)
        ensures
            final(self).current_tick == old(self).current_tick,
            tick_read(old(self).recv_message_buffer@, final(self).recv_message_buffer@, old(self).current_tick, r),
    {
        let mut i: usize = 0;
        while i < self.recv_message_buffer.len()
            invariant
                i <= self.recv_message_buffer@.len(),
                self.current_tick == old(self).current_tick,
                self.recv_message_buffer@ == old(self).recv_message_buffer@,
                forall|j: int| 0 <= j < i ==> !tick_ready(self.current_tick, #[trigger] self.recv_message_buffer@[j]),
            decreases self.recv_message_buffer@.len() - i,
        {
            let ready = match self.recv_message_buffer[i].id {
                Some(t) => t.0 == self.current_tick,
                None => false,
            };
            if ready {
                assert(tick_ready(self.current_tick, self.recv_message_buffer@[i as int]));
                return Some(self.recv_message_buffer.remove(i));
            }
            i = i + 1;
        }
        None
    }
}

} // verus!
