use vstd::prelude::*;

use crate::channel::ReliableSettings;
use crate::fragment::{fragment_spec, lemma_num_chunks_exact, num_chunks, FragmentSender};
use bytes::Bytes;

use crate::packet::{bytes_len, bytes_view, FragmentData, MessageData, SingleData};
use crate::wrapping_id::{next_id, MessageId};

verus! {

/// What a wire unit carries, as plain values: its id, its shard position
/// (`fragment_id`, `num_fragments`) if it is a shard, and its bytes.
pub open spec fn wire_view(d: MessageData) -> (Option<MessageId>, Option<(u8, u8)>, Seq<u8>) {
    match d {
        MessageData::Single(s) => (s.id, None, bytes_view(s.bytes)),
        MessageData::Fragment(f) => (Some(f.message_id), Some((f.fragment_id, f.num_fragments)), bytes_view(f.bytes)),
    }
}

/// A copy of a wire unit.
pub fn copy_data(d: &MessageData) -> (r: MessageData)
    ensures
        wire_view(r) == wire_view(*d),
{
    match d {
        MessageData::Single(s) => MessageData::Single(
            SingleData { id: s.id, bytes: s.bytes.clone() },
        ),
        MessageData::Fragment(f) => MessageData::Fragment(
            FragmentData {
                message_id: f.message_id,
                fragment_id: f.fragment_id,
                num_fragments: f.num_fragments,
                bytes: f.bytes.clone(),
            },
        ),
    }
}

/// Sends each payload once, without an id.
pub struct UnorderedUnreliableSender {
    pub single_messages_to_send: Vec<SingleData>,
}

impl UnorderedUnreliableSender {
    pub fn new() -> (r: Self)
        ensures
            r.single_messages_to_send@.len() == 0,
    {
        UnorderedUnreliableSender { single_messages_to_send: Vec::new() }
    }

    pub fn buffer_send(&mut self, bytes: Bytes)
        ensures
            final(self).single_messages_to_send@ == old(self).single_messages_to_send@.push(
                SingleData { id: None, bytes },
            ),
    {
        self.single_messages_to_send.push(SingleData { id: None, bytes });
    }

    /// Hands out everything buffered, oldest first, keeping no copy.
    pub fn collect_messages_to_send(&mut self) -> (r: Vec<SingleData>)
        ensures
            r@ == old(self).single_messages_to_send@,
            final(self).single_messages_to_send@.len() == 0,
    {
        let mut r: Vec<SingleData> = Vec::new();
        core::mem::swap(&mut r, &mut self.single_messages_to_send);
        r
    }
}

/// Sends each payload once, tagged with a wrapping sequence number.
pub struct SequencedUnreliableSender {
    pub next_send_message_id: MessageId,
    pub single_messages_to_send: Vec<SingleData>,
}

impl SequencedUnreliableSender {
    pub fn new() -> (r: Self)
        ensures
            r.next_send_message_id == MessageId(0),
            r.single_messages_to_send@.len() == 0,
    {
        SequencedUnreliableSender { next_send_message_id: MessageId(0), single_messages_to_send: Vec::new() }
    }

    pub fn buffer_send(&mut self, bytes: Bytes)
        ensures
            final(self).single_messages_to_send@ == old(self).single_messages_to_send@.push(
                SingleData { id: Some(old(self).next_send_message_id), bytes },
            ),
            final(self).next_send_message_id.0 == next_id(old(self).next_send_message_id.0),
    {
        let id = self.next_send_message_id;
        self.single_messages_to_send.push(SingleData { id: Some(id), bytes });
        self.next_send_message_id = id.next();
    }

    pub fn collect_messages_to_send(&mut self) -> (r: Vec<SingleData>)
        ensures
            r@ == old(self).single_messages_to_send@,
            final(self).single_messages_to_send@.len() == 0,
            final(self).next_send_message_id == old(self).next_send_message_id,
    {
        let mut r: Vec<SingleData> = Vec::new();
        core::mem::swap(&mut r, &mut self.single_messages_to_send);
        r
    }
}

/// `n` is `o` with `bytes` filed under `tick`: it replaces the first payload buffered for
/// that tick, or is appended when there is none.
pub open spec fn tick_buffered(o: Seq<SingleData>, n: Seq<SingleData>, tick: u16, bytes: Bytes) -> bool {
    let m = SingleData { id: Some(MessageId(tick)), bytes };
    if exists|i: int| 0 <= i < o.len() && (#[trigger] o[i]).id == Some(MessageId(tick)) {
        exists|i: int| {
            &&& 0 <= i < o.len()
            &&& (#[trigger] o[i]).id == Some(MessageId(tick))
            &&& forall|j: int| 0 <= j < i ==> (#[trigger] o[j]).id != Some(MessageId(tick))
            &&& n == o.update(i, m)
        }
    } else {
        n == o.push(m)
    }
}

/// Buffers at most one payload per tick; the id field of what it sends carries the tick.
pub struct TickUnreliableSender {
    pub messages_to_send: Vec<SingleData>,
}

impl TickUnreliableSender {
    pub fn new() -> (r: Self)
        ensures
            r.messages_to_send@.len() == 0,
    {
        TickUnreliableSender { messages_to_send: Vec::new() }
    }

    /// Buffers `bytes` for tick `tick`, replacing what was buffered for that tick.
    pub fn buffer_send(&mut self, tick: u16, bytes: Bytes)
        ensures
            tick_buffered(old(self).messages_to_send@, final(self).messages_to_send@, tick, bytes),
    {
        let mut i: usize = 0;
        while i < self.messages_to_send.len()
            invariant
                i <= self.messages_to_send@.len(),
                self.messages_to_send@ == old(self).messages_to_send@,
                forall|j: int| 0 <= j < i ==> (#[trigger] self.messages_to_send@[j]).id != Some(MessageId(tick)),
            decreases self.messages_to_send@.len() - i,
        {
            let same = match self.messages_to_send[i].id {
                Some(t) => t.0 == tick,
                None => false,
            };
            if same {
                assert(self.messages_to_send@[i as int].id == Some(MessageId(tick)));
                self.messages_to_send[i] = SingleData { id: Some(MessageId(tick)), bytes };
                return;
            }
            i = i + 1;
        }
        self.messages_to_send.push(SingleData { id: Some(MessageId(tick)), bytes });
    }

    pub fn collect_messages_to_send(&mut self) -> (r: Vec<SingleData>)
        ensures
            r@ == old(self).messages_to_send@,
            final(self).messages_to_send@.len() == 0,
    {
        let mut r: Vec<SingleData> = Vec::new();
        core::mem::swap(&mut r, &mut self.messages_to_send);
        r
    }
}


/// Refusal of a payload by a reliable sender.
#[derive(Clone, Copy, Debug, PartialEq, Eq, Structural)]
pub enum SendError {
    /// The payload would need more than 255 fragments.
    TooManyFragments,
}

/// A reliable unit kept until it is acknowledged, with the time at which it is next
/// due (`None`: not sent yet).
pub struct UnackedUnit {
    pub data: MessageData,
    pub next_send_ms: Option<u64>,
}

/// The id that acknowledges a unit.
pub open spec fn unit_id(u: UnackedUnit) -> Option<MessageId> {
    match u.data {
        MessageData::Single(s) => s.id,
        MessageData::Fragment(f) => Some(f.message_id),
    }
}

pub open spec fn is_due(now: u64, u: UnackedUnit) -> bool {
    match u.next_send_ms {
        None => true,
        Some(t) => t <= now,
    }
}

pub open spec fn due_at(now: u64) -> spec_fn(UnackedUnit) -> bool {
    |u: UnackedUnit| is_due(now, u)
}

pub open spec fn not_acked_by(id: MessageId) -> spec_fn(UnackedUnit) -> bool {
    |u: UnackedUnit| unit_id(u) != Some(id)
}

pub open spec fn unit_wire_view(u: UnackedUnit) -> (Option<MessageId>, Option<(u8, u8)>, Seq<u8>) {
    wire_view(u.data)
}

/// When a unit sent at `now` is next due: `now + rtt * factor`, capped at the largest time.
pub open spec fn resend_deadline(now: u64, rtt_ms: u64, factor_permille: u32) -> u64 {
    let t = now as int + rtt_ms as int * factor_permille as int / 1000;
    if t > u64::MAX as int { u64::MAX } else { t as u64 }
}

fn compute_deadline(now: u64, rtt_ms: u64, factor_permille: u32) -> (r: u64)
    ensures
        r == resend_deadline(now, rtt_ms, factor_permille),
{
    assert(rtt_ms as int * factor_permille as int <= u64::MAX as int * u32::MAX as int) by (nonlinear_arith)
        requires rtt_ms <= u64::MAX, factor_permille <= u32::MAX;
    let timeout: u128 = (rtt_ms as u128) * (factor_permille as u128) / 1000;
    let t: u128 = now as u128 + timeout;
    if t > u64::MAX as u128 {
        u64::MAX
    } else {
        t as u64
    }
}

/// What taking `bytes` does to a reliable sender `o_s` (giving `n_s`) and what it returns.
pub open spec fn reliable_enqueued(o_s: ReliableSender, n_s: ReliableSender, bytes: Bytes, r: Result<MessageId, SendError>) -> bool {
    let f = o_s.fragment_sender.fragment_size as int;
    let l = bytes_view(bytes).len() as int;
    let o = o_s.unacked_messages@;
    let u = n_s.unacked_messages@;
    let id = o_s.next_send_message_id;
    &&& r is Err <==> (l >= f && num_chunks(l, f) > 255)
    &&& r is Err ==> r == Err::<MessageId, SendError>(SendError::TooManyFragments)
        && u == o && n_s.next_send_message_id == id
    &&& r is Ok ==> r == Ok::<MessageId, SendError>(id)
        && n_s.next_send_message_id.0 == next_id(id.0)
    &&& (r is Ok && l < f) ==> u == o.push(
        UnackedUnit { data: MessageData::Single(SingleData { id: Some(id), bytes }), next_send_ms: None },
    )
    &&& (r is Ok && l >= f) ==> {
        &&& u.len() == o.len() + num_chunks(l, f)
        &&& u.subrange(0, o.len() as int) == o
        &&& forall|k: int| 0 <= k < num_chunks(l, f) ==> {
            &&& (#[trigger] u[o.len() + k]).next_send_ms is None
            &&& u[o.len() + k].data is Fragment
            &&& fragment_spec(u[o.len() + k].data->Fragment_0, id, bytes_view(bytes), f, k)
        }
    }
}

/// What a drain does to the units of a reliable sender: each keeps its data, and each
/// unit that was due at `now` is next due one timeout later.
pub open spec fn reliable_drained(o_s: ReliableSender, n_s: ReliableSender) -> bool {
    &&& n_s.unacked_messages@.len() == o_s.unacked_messages@.len()
    &&& forall|i: int| 0 <= i < o_s.unacked_messages@.len() ==> {
        let before = o_s.unacked_messages@[i];
        let after = #[trigger] n_s.unacked_messages@[i];
        &&& after.data == before.data
        &&& after.next_send_ms == if is_due(o_s.current_time_ms, before) {
            Some(resend_deadline(o_s.current_time_ms, o_s.current_rtt_ms, o_s.reliable_settings.rtt_resend_factor_permille))
        } else {
            before.next_send_ms
        }
    }
}

/// Sender of the reliable modes: gives each payload a fresh id, splits large payloads
/// into fragments, and resends every unit until it is acknowledged, one timeout
/// (measured round-trip time times the resend factor) after each send.
pub struct ReliableSender {
    pub reliable_settings: ReliableSettings,
    pub next_send_message_id: MessageId,
    pub fragment_sender: FragmentSender,
    pub unacked_messages: Vec<UnackedUnit>,
    pub current_time_ms: u64,
    pub current_rtt_ms: u64,
}

impl ReliableSender {
    pub open spec fn wf(&self) -> bool {
        &&& self.fragment_sender.fragment_size > 0
        &&& self.reliable_settings.rtt_resend_factor_permille > 0
    }

    pub fn new(reliable_settings: ReliableSettings) -> (r: Self)
        requires
            reliable_settings.rtt_resend_factor_permille > 0,
        ensures
            r.wf(),
            r.reliable_settings == reliable_settings,
            r.next_send_message_id == MessageId(0),
            r.fragment_sender.fragment_size == crate::packet::FRAGMENT_SIZE,
            r.unacked_messages@.len() == 0,
            r.current_time_ms == 0,
            r.current_rtt_ms == 0,
    {
        ReliableSender {
            reliable_settings,
            next_send_message_id: MessageId(0),
            fragment_sender: FragmentSender::new(),
            unacked_messages: Vec::new(),
            current_time_ms: 0,
            current_rtt_ms: 0,
        }
    }

    /// Number of units still waiting for an acknowledgement.
    pub fn num_unacked(&self) -> (r: usize)
        ensures
            r == self.unacked_messages@.len(),
    {
        self.unacked_messages.len()
    }

    /// Records the current time and the latest measured round-trip time.
    pub fn update(&mut self, now_ms: u64, rtt_ms: u64)
        ensures
            final(self).current_time_ms == now_ms,
            final(self).current_rtt_ms == rtt_ms,
            final(self).unacked_messages@ == old(self).unacked_messages@,
            final(self).next_send_message_id == old(self).next_send_message_id,
            final(self).fragment_sender == old(self).fragment_sender,
            final(self).reliable_settings == old(self).reliable_settings,
    {
        self.current_time_ms = now_ms;
        self.current_rtt_ms = rtt_ms;
    }

    /// Takes a payload for reliable delivery under a fresh id. A payload of at least
    /// `fragment_size` bytes is split into fragments, each kept as its own unit; one that
    /// would need more than 255 fragments is refused and nothing changes.
    pub fn buffer_send(&mut self, bytes: Bytes) -> (r: Result<MessageId, SendError>)
        requires
            old(self).wf(),
        ensures
            final(self).wf(),
            final(self).fragment_sender == old(self).fragment_sender,
            final(self).reliable_settings == old(self).reliable_settings,
            final(self).current_time_ms == old(self).current_time_ms,
            final(self).current_rtt_ms == old(self).current_rtt_ms,
            reliable_enqueued(*old(self), *final(self), bytes, r),
    {
        let f = self.fragment_sender.fragment_size;
        let len = bytes_len(&bytes);
        let ghost payload = bytes_view(bytes);
        let id = self.next_send_message_id;
        if len < f {
            self.unacked_messages.push(
                UnackedUnit { data: MessageData::Single(SingleData { id: Some(id), bytes }), next_send_ms: None },
            );
            self.next_send_message_id = id.next();
            return Ok(id);
        }
        proof {
            lemma_num_chunks_exact(len as int, f as int);
        }
        let q: usize = len / f;
        if q > 255 {
            return Err(SendError::TooManyFragments);
        }
        let n: usize = if len % f == 0 { q } else { q + 1 };
        if n > 255 {
            return Err(SendError::TooManyFragments);
        }
        let fragments = self.fragment_sender.build_fragments(id, bytes);
        let ghost o = self.unacked_messages@;
        let ghost all = fragments@;
        let mut fragments = fragments;
        let mut k: usize = 0;
        while fragments.len() > 0
            invariant
                all.len() == n,
                k + fragments@.len() == n,
                fragments@ == all.subrange(k as int, n as int),
                self.unacked_messages@.len() == o.len() + k,
                self.unacked_messages@.subrange(0, o.len() as int) == o,
                forall|i: int| 0 <= i < n ==> fragment_spec(#[trigger] all[i], id, payload, f as int, i),
                forall|j: int| 0 <= j < k ==> {
                    &&& (#[trigger] self.unacked_messages@[o.len() + j]).next_send_ms is None
                    &&& self.unacked_messages@[o.len() + j].data == MessageData::Fragment(all[j])
                },
                self.fragment_sender.fragment_size == f,
                f > 0,
                self.fragment_sender == old(self).fragment_sender,
                self.reliable_settings == old(self).reliable_settings,
                self.next_send_message_id == old(self).next_send_message_id,
                self.current_time_ms == old(self).current_time_ms,
                self.current_rtt_ms == old(self).current_rtt_ms,
            decreases fragments@.len(),
        {
            let fr = fragments.remove(0);
            assert(fr == all[k as int]);
            self.unacked_messages.push(UnackedUnit { data: MessageData::Fragment(fr), next_send_ms: None });
            k = k + 1;
            assert(fragments@ =~= all.subrange(k as int, n as int));
            assert(self.unacked_messages@.subrange(0, o.len() as int) =~= o);
        }
        self.next_send_message_id = id.next();
        Ok(id)
    }

    /// The units to put on the wire now: those never sent and those whose resend time
    /// has come, in buffer order. Each of them is next due one timeout from now.
    pub fn collect_messages_to_send(&mut self) -> (r: Vec<MessageData>)
        ensures
            final(self).wf() == old(self).wf(),
            final(self).fragment_sender == old(self).fragment_sender,
            final(self).reliable_settings == old(self).reliable_settings,
            final(self).next_send_message_id == old(self).next_send_message_id,
            final(self).current_time_ms == old(self).current_time_ms,
            final(self).current_rtt_ms == old(self).current_rtt_ms,
            r@.map_values(|d: MessageData| wire_view(d)) == old(self).unacked_messages@.filter(
                due_at(old(self).current_time_ms),
            ).map_values(|u: UnackedUnit| unit_wire_view(u)),
            reliable_drained(*old(self), *final(self)),
    {
        let now = self.current_time_ms;
        let deadline = compute_deadline(now, self.current_rtt_ms, self.reliable_settings.rtt_resend_factor_permille);
        let mut rest: Vec<UnackedUnit> = Vec::new();
        core::mem::swap(&mut rest, &mut self.unacked_messages);
        let ghost orig = rest@;
        let mut out: Vec<MessageData> = Vec::new();
        while rest.len() > 0
            invariant
                now == self.current_time_ms,
                self.fragment_sender == old(self).fragment_sender,
                self.reliable_settings == old(self).reliable_settings,
                self.next_send_message_id == old(self).next_send_message_id,
                self.current_time_ms == old(self).current_time_ms,
                self.current_rtt_ms == old(self).current_rtt_ms,
                deadline == resend_deadline(now, self.current_rtt_ms, self.reliable_settings.rtt_resend_factor_permille),
                orig == old(self).unacked_messages@,
                orig.len() >= rest@.len(),
                rest@ == orig.subrange(orig.len() - rest@.len(), orig.len() as int),
                self.unacked_messages@.len() == orig.len() - rest@.len(),
                forall|i: int| 0 <= i < self.unacked_messages@.len() ==> {
                    let before = orig[i];
                    let after = #[trigger] self.unacked_messages@[i];
                    &&& after.data == before.data
                    &&& after.next_send_ms == if is_due(now, before) {
                        Some(deadline)
                    } else {
                        before.next_send_ms
                    }
                },
                out@.map_values(|d: MessageData| wire_view(d)) == orig.subrange(
                    0,
                    orig.len() - rest@.len(),
                ).filter(due_at(now)).map_values(|u: UnackedUnit| unit_wire_view(u)),
            decreases rest@.len(),
        {
            let ghost done = orig.len() - rest@.len();
            let ghost prev_out = out@;
            let u = rest.remove(0);
            assert(u == orig[done]);
            reveal(Seq::filter);
            assert(orig.subrange(0, done + 1).drop_last() =~= orig.subrange(0, done));
            assert(rest@ =~= orig.subrange(orig.len() - rest@.len(), orig.len() as int));
            let due = match u.next_send_ms {
                None => true,
                Some(t) => t <= now,
            };
            if due {
                out.push(copy_data(&u.data));
                assert(out@.map_values(|d: MessageData| wire_view(d)) =~= prev_out.map_values(
                    |d: MessageData| wire_view(d),
                ).push(unit_wire_view(u)));
                assert(orig.subrange(0, done + 1).filter(due_at(now)) == orig.subrange(0, done).filter(
                    due_at(now),
                ).push(u));
                assert(orig.subrange(0, done).filter(due_at(now)).push(u).map_values(
                    |x: UnackedUnit| unit_wire_view(x),
                ) =~= orig.subrange(0, done).filter(due_at(now)).map_values(
                    |x: UnackedUnit| unit_wire_view(x),
                ).push(unit_wire_view(u)));
                self.unacked_messages.push(UnackedUnit { data: u.data, next_send_ms: Some(deadline) });
            } else {
                self.unacked_messages.push(u);
            }
        }
        assert(orig.subrange(0, orig.len() as int) =~= orig);
        out
    }

    /// An acknowledgement for `id`: every unit under that id is dropped and never resent.
    pub fn process_message_ack(&mut self, id: MessageId)
        ensures
            final(self).unacked_messages@ == old(self).unacked_messages@.filter(not_acked_by(id)),
            final(self).fragment_sender == old(self).fragment_sender,
            final(self).reliable_settings == old(self).reliable_settings,
            final(self).next_send_message_id == old(self).next_send_message_id,
            final(self).current_time_ms == old(self).current_time_ms,
            final(self).current_rtt_ms == old(self).current_rtt_ms,
    {
        let mut rest: Vec<UnackedUnit> = Vec::new();
        core::mem::swap(&mut rest, &mut self.unacked_messages);
        let ghost orig = rest@;
        while rest.len() > 0
            invariant
                orig.len() >= rest@.len(),
                rest@ == orig.subrange(orig.len() - rest@.len(), orig.len() as int),
                self.unacked_messages@ == orig.subrange(0, orig.len() - rest@.len()).filter(
                    not_acked_by(id),
                ),
                self.fragment_sender == old(self).fragment_sender,
                self.reliable_settings == old(self).reliable_settings,
                self.next_send_message_id == old(self).next_send_message_id,
                self.current_time_ms == old(self).current_time_ms,
                self.current_rtt_ms == old(self).current_rtt_ms,

            decreases rest@.len(),
        {
            let ghost done = orig.len() - rest@.len();
            let u = rest.remove(0);
            reveal(Seq::filter);
            assert(orig.subrange(0, done + 1).drop_last() =~= orig.subrange(0, done));
            assert(rest@ =~= orig.subrange(orig.len() - rest@.len(), orig.len() as int));
            let acked = match &u.data {
                MessageData::Single(s) => match s.id {
                    Some(i) => i.0 == id.0,
                    None => false,
                },
                MessageData::Fragment(f) => f.message_id.0 == id.0,
            };
            if !acked {
                self.unacked_messages.push(u);
            }
        }
        assert(orig.subrange(0, orig.len() as int) =~= orig);
    }
}


/// After an acknowledgement for `id`, no kept unit carries `id`, so none of them is
/// ever put on the wire again; every other unit is still kept.
pub proof fn lemma_ack_stops_resends(units: Seq<UnackedUnit>, id: MessageId)
    ensures
        forall|i: int| 0 <= i < units.filter(not_acked_by(id)).len() ==> unit_id(
            #[trigger] units.filter(not_acked_by(id))[i],
        ) != Some(id),
        forall|u: UnackedUnit| #[trigger] units.contains(u) && unit_id(u) != Some(id) ==> units.filter(
            not_acked_by(id),
        ).contains(u),
{
    units.filter_lemma(not_acked_by(id));
    assert forall|u: UnackedUnit| #[trigger] units.contains(u) && unit_id(u) != Some(id) implies units.filter(
        not_acked_by(id),
    ).contains(u) by {
        let i = choose|i: int| 0 <= i < units.len() && units[i] == u;
        units.lemma_filter_contains(not_acked_by(id), i);
    }
}


/// Resend timing: a unit sent by a drain at time `t0` with round-trip time `rtt` keeps its
/// id and payload, and is due again at time `t` exactly when `t` has reached
/// `t0 + rtt * factor` (capped at the largest time); before that no drain sends it.
pub proof fn lemma_resend_after_timeout(o: ReliableSender, n: ReliableSender, i: int, t: u64)
    requires
        reliable_drained(o, n),
        0 <= i < o.unacked_messages@.len(),
        is_due(o.current_time_ms, o.unacked_messages@[i]),
    ensures
        n.unacked_messages@[i].data == o.unacked_messages@[i].data,
        unit_wire_view(n.unacked_messages@[i]) == unit_wire_view(o.unacked_messages@[i]),
        is_due(t, n.unacked_messages@[i]) <==> t >= resend_deadline(
            o.current_time_ms,
            o.current_rtt_ms,
            o.reliable_settings.rtt_resend_factor_permille,
        ),
        o.current_time_ms as int + o.current_rtt_ms as int * o.reliable_settings.rtt_resend_factor_permille as int
            / 1000 <= u64::MAX ==> resend_deadline(
            o.current_time_ms,
            o.current_rtt_ms,
            o.reliable_settings.rtt_resend_factor_permille,
        ) as int == o.current_time_ms as int + o.current_rtt_ms as int
            * o.reliable_settings.rtt_resend_factor_permille as int / 1000,
{
    assert(n.unacked_messages@[i].data == o.unacked_messages@[i].data);
}

} // verus!
