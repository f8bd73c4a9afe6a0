use vstd::prelude::*;

use bytes::Bytes;

use crate::fragment::{has_id, other_id, reassemble_spec, FragmentReceiver};
use crate::packet::{bytes_view, FRAGMENT_SIZE};
use crate::packet::{MessageData, SingleData};
use crate::receivers::{
    OrderedReliableReceiver, SequencedReliableReceiver, SequencedUnreliableReceiver,
    TickUnreliableReceiver, UnorderedReliableReceiver, UnorderedUnreliableReceiver,
};
use crate::receivers::{
    dedup_after_ingest, ordered_after_ingest, ordered_after_pull, sequenced_after_ingest, still_pending,
    tick_pending, tick_read,
};
use crate::senders::{
    due_at, not_acked_by, reliable_drained, reliable_enqueued, tick_buffered, unit_wire_view, wire_view,
    ReliableSender, SendError, SequencedUnreliableSender,
    TickUnreliableSender, UnackedUnit, UnorderedUnreliableSender,
};
use crate::wrapping_id::{next_id, MessageId};

verus! {

/// Retransmission tuning of the reliable modes.
#[derive(Clone, Copy, Debug, PartialEq, Eq, Structural)]
pub struct ReliableSettings {
    /// Multiplier applied to the measured round-trip time to get the resend timeout,
    /// in thousandths (1500 stands for 1.5).
    pub rtt_resend_factor_permille: u32,
}

impl ReliableSettings {
    pub fn default() -> (r: ReliableSettings)
        ensures
            r.rtt_resend_factor_permille == 1500,
    {
        ReliableSettings { rtt_resend_factor_permille: 1500 }
    }
}


/// How packets of a channel are sent and received.
#[derive(Clone, Copy, Debug, PartialEq, Eq, Structural)]
pub enum ChannelMode {
    /// Packets may arrive out of order, or not at all.
    UnorderedUnreliable,
    /// Like unordered unreliable, but only the newest packet is ever accepted.
    SequencedUnreliable,
    /// Packets may arrive out of order, but retries and acks make sure they arrive.
    UnorderedReliable(ReliableSettings),
    /// Reliable, and only the newest packet is accepted.
    SequencedReliable(ReliableSettings),
    /// Packets arrive in the order they were sent.
    OrderedReliable(ReliableSettings),
    /// Payloads are tied to a tick and delivered on that same tick.
    TickBuffered,
}

impl ChannelMode {
    pub open spec fn spec_is_reliable(&self) -> bool {
        match self {
            ChannelMode::UnorderedReliable(_) | ChannelMode::SequencedReliable(_) | ChannelMode::OrderedReliable(_) => true,
            _ => false,
        }
    }

    pub fn is_reliable(&self) -> (r: bool)
        ensures
            r == self.spec_is_reliable(),
    {
        match self {
            ChannelMode::UnorderedUnreliable => false,
            ChannelMode::SequencedUnreliable => false,
            ChannelMode::UnorderedReliable(_) => true,
            ChannelMode::SequencedReliable(_) => true,
            ChannelMode::OrderedReliable(_) => true,
            ChannelMode::TickBuffered => false,
        }
    }
}

/// Which way traffic is meant to flow; both a sender and a receiver exist regardless.
#[derive(Clone, Copy, Debug, PartialEq, Eq, Structural)]
pub enum ChannelDirection {
    ClientToServer,
    ServerToClient,
    Bidirectional,
}

#[derive(Clone, Copy, Debug, PartialEq, Eq, Structural)]
pub struct ChannelSettings {
    pub mode: ChannelMode,
    pub direction: ChannelDirection,
}

/// The sender state machine of a channel, one variant per mode family.
pub enum ChannelSender {
    UnorderedUnreliable(UnorderedUnreliableSender),
    SequencedUnreliable(SequencedUnreliableSender),
    Reliable(ReliableSender),
    TickUnreliable(TickUnreliableSender),
}

/// The receiver state machine of a channel, one variant per mode.
pub enum ChannelReceiver {
    UnorderedUnreliable(UnorderedUnreliableReceiver),
    SequencedUnreliable(SequencedUnreliableReceiver),
    UnorderedReliable(UnorderedReliableReceiver),
    SequencedReliable(SequencedReliableReceiver),
    OrderedReliable(OrderedReliableReceiver),
    TickUnreliable(TickUnreliableReceiver),
}

/// The sender and receiver that a mode calls for.
pub open spec fn pair_matches(mode: ChannelMode, sender: ChannelSender, receiver: ChannelReceiver) -> bool {
    match mode {
        ChannelMode::UnorderedUnreliable => sender is UnorderedUnreliable && receiver is UnorderedUnreliable,
        ChannelMode::SequencedUnreliable => sender is SequencedUnreliable && receiver is SequencedUnreliable,
        ChannelMode::UnorderedReliable(rs) => sender is Reliable && sender->Reliable_0.reliable_settings == rs
            && receiver is UnorderedReliable,
        ChannelMode::SequencedReliable(rs) => sender is Reliable && sender->Reliable_0.reliable_settings == rs
            && receiver is SequencedReliable,
        ChannelMode::OrderedReliable(rs) => sender is Reliable && sender->Reliable_0.reliable_settings == rs
            && receiver is OrderedReliable,
        ChannelMode::TickBuffered => sender is TickUnreliable && receiver is TickUnreliable,
    }
}

/// The reliable settings of a mode ask for a resend factor above 0.
pub open spec fn mode_valid(mode: ChannelMode) -> bool {
    match mode {
        ChannelMode::UnorderedReliable(rs) => rs.rtt_resend_factor_permille > 0,
        ChannelMode::SequencedReliable(rs) => rs.rtt_resend_factor_permille > 0,
        ChannelMode::OrderedReliable(rs) => rs.rtt_resend_factor_permille > 0,
        _ => true,
    }
}

/// A sender that has nothing buffered, nothing unacknowledged, and starts its ids at 0.
pub open spec fn sender_fresh(sender: ChannelSender) -> bool {
    match sender {
        ChannelSender::UnorderedUnreliable(s) => s.single_messages_to_send@.len() == 0,
        ChannelSender::SequencedUnreliable(s) => s.single_messages_to_send@.len() == 0
            && s.next_send_message_id == MessageId(0),
        ChannelSender::Reliable(s) => {
            &&& s.unacked_messages@.len() == 0
            &&& s.next_send_message_id == MessageId(0)
            &&& s.fragment_sender.fragment_size == FRAGMENT_SIZE
            &&& s.current_time_ms == 0
            &&& s.current_rtt_ms == 0
        },
        ChannelSender::TickUnreliable(s) => s.messages_to_send@.len() == 0,
    }
}

/// A receiver that has seen nothing: nothing to pull, no id remembered, tick 0.
pub open spec fn receiver_fresh(receiver: ChannelReceiver) -> bool {
    match receiver {
        ChannelReceiver::UnorderedUnreliable(r) => r.recv_message_buffer@.len() == 0,
        ChannelReceiver::SequencedUnreliable(r) => r.recv_message_buffer@.len() == 0
            && r.most_recent_message_id is None,
        ChannelReceiver::UnorderedReliable(r) => r.recv_message_buffer@.len() == 0
            && r.delivered_ids@ == Set::<u16>::empty(),
        ChannelReceiver::SequencedReliable(r) => r.recv_message_buffer@.len() == 0
            && r.most_recent_message_id is None,
        ChannelReceiver::OrderedReliable(r) => r.model() == (0u16, Map::<u16, Bytes>::empty()),
        ChannelReceiver::TickUnreliable(r) => r.recv_message_buffer@.len() == 0 && r.current_tick == 0,
    }
}

/// `n` is receiver `o` after it took in message `m`, by the rule of its mode.
pub open spec fn receiver_ingested(o: ChannelReceiver, n: ChannelReceiver, m: SingleData) -> bool {
    match o {
        ChannelReceiver::UnorderedUnreliable(r) => n is UnorderedUnreliable
            && n->UnorderedUnreliable_0.recv_message_buffer@ == r.recv_message_buffer@.push(m),
        ChannelReceiver::SequencedUnreliable(r) => n is SequencedUnreliable && (
            n->SequencedUnreliable_0.most_recent_message_id,
            n->SequencedUnreliable_0.recv_message_buffer@,
        ) == sequenced_after_ingest((r.most_recent_message_id, r.recv_message_buffer@), m),
        ChannelReceiver::UnorderedReliable(r) => n is UnorderedReliable && (
            n->UnorderedReliable_0.delivered_ids@,
            n->UnorderedReliable_0.recv_message_buffer@,
        ) == dedup_after_ingest((r.delivered_ids@, r.recv_message_buffer@), m),
        ChannelReceiver::SequencedReliable(r) => n is SequencedReliable && (
            n->SequencedReliable_0.most_recent_message_id,
            n->SequencedReliable_0.recv_message_buffer@,
        ) == sequenced_after_ingest((r.most_recent_message_id, r.recv_message_buffer@), m),
        ChannelReceiver::OrderedReliable(r) => n is OrderedReliable && n->OrderedReliable_0.model()
            == ordered_after_ingest(r.model(), m),
        ChannelReceiver::TickUnreliable(r) => n is TickUnreliable && n->TickUnreliable_0.current_tick
            == r.current_tick && n->TickUnreliable_0.recv_message_buffer@ == if tick_pending(r.current_tick, m) {
            r.recv_message_buffer@.push(m)
        } else {
            r.recv_message_buffer@
        },
    }
}

/// `n` is receiver `o` with nothing changed.
pub open spec fn receiver_same(o: ChannelReceiver, n: ChannelReceiver) -> bool {
    match o {
        ChannelReceiver::UnorderedUnreliable(r) => n is UnorderedUnreliable
            && n->UnorderedUnreliable_0.recv_message_buffer@ == r.recv_message_buffer@,
        ChannelReceiver::SequencedUnreliable(r) => n is SequencedUnreliable
            && n->SequencedUnreliable_0.most_recent_message_id == r.most_recent_message_id
            && n->SequencedUnreliable_0.recv_message_buffer@ == r.recv_message_buffer@,
        ChannelReceiver::UnorderedReliable(r) => n is UnorderedReliable
            && n->UnorderedReliable_0.delivered_ids@ == r.delivered_ids@
            && n->UnorderedReliable_0.recv_message_buffer@ == r.recv_message_buffer@,
        ChannelReceiver::SequencedReliable(r) => n is SequencedReliable
            && n->SequencedReliable_0.most_recent_message_id == r.most_recent_message_id
            && n->SequencedReliable_0.recv_message_buffer@ == r.recv_message_buffer@,
        ChannelReceiver::OrderedReliable(r) => n is OrderedReliable && n->OrderedReliable_0.model() == r.model(),
        ChannelReceiver::TickUnreliable(r) => n is TickUnreliable && n->TickUnreliable_0.current_tick
            == r.current_tick && n->TickUnreliable_0.recv_message_buffer@ == r.recv_message_buffer@,
    }
}

/// `n` is receiver `o` after one pull that returned `m`: the front of a queue leaves it,
/// the ordered receiver releases its expected id, the tick receiver its current tick.
pub open spec fn receiver_pulled(o: ChannelReceiver, n: ChannelReceiver, m: Option<SingleData>) -> bool {
    match o {
        ChannelReceiver::OrderedReliable(r) => n is OrderedReliable && (n->OrderedReliable_0.model(), m)
            == ordered_after_pull(r.model()),
        ChannelReceiver::TickUnreliable(r) => n is TickUnreliable && n->TickUnreliable_0.current_tick
            == r.current_tick && tick_read(r.recv_message_buffer@, n->TickUnreliable_0.recv_message_buffer@, r.current_tick, m),
        _ => {
            let q = queue_of(o)->Some_0;
            &&& queue_of(n) is Some
            &&& q.len() == 0 ==> m is None && receiver_same(o, n)
            &&& q.len() > 0 ==> m == Some(q[0]) && queue_of(n) == Some(q.subrange(1, q.len() as int))
                && receiver_same_ids(o, n)
        },
    }
}

/// The remembered ids and the variant of `o` and `n` agree.
pub open spec fn receiver_same_ids(o: ChannelReceiver, n: ChannelReceiver) -> bool {
    match o {
        ChannelReceiver::UnorderedUnreliable(_) => n is UnorderedUnreliable,
        ChannelReceiver::SequencedUnreliable(r) => n is SequencedUnreliable
            && n->SequencedUnreliable_0.most_recent_message_id == r.most_recent_message_id,
        ChannelReceiver::UnorderedReliable(r) => n is UnorderedReliable && n->UnorderedReliable_0.delivered_ids@
            == r.delivered_ids@,
        ChannelReceiver::SequencedReliable(r) => n is SequencedReliable
            && n->SequencedReliable_0.most_recent_message_id == r.most_recent_message_id,
        _ => false,
    }
}

/// `n` is sender `o` after it took `bytes` at tick `tick` and answered `r`.
pub open spec fn sender_enqueued(
    o: ChannelSender,
    n: ChannelSender,
    bytes: Bytes,
    tick: u16,
    r: Result<Option<MessageId>, SendError>,
) -> bool {
    match o {
        ChannelSender::UnorderedUnreliable(s) => n is UnorderedUnreliable && r == Ok::<
            Option<MessageId>,
            SendError,
        >(None) && n->UnorderedUnreliable_0.single_messages_to_send@ == s.single_messages_to_send@.push(
            SingleData { id: None, bytes },
        ),
        ChannelSender::SequencedUnreliable(s) => n is SequencedUnreliable && r == Ok::<
            Option<MessageId>,
            SendError,
        >(None) && n->SequencedUnreliable_0.single_messages_to_send@ == s.single_messages_to_send@.push(
            SingleData { id: Some(s.next_send_message_id), bytes },
        ) && n->SequencedUnreliable_0.next_send_message_id.0 == next_id(s.next_send_message_id.0),
        ChannelSender::Reliable(s) => n is Reliable && n->Reliable_0.wf() && exists|rr: Result<MessageId, SendError>|
            {
                &&& reliable_enqueued(s, n->Reliable_0, bytes, rr)
                &&& r == match rr {
                    Ok(id) => Ok::<Option<MessageId>, SendError>(Some(id)),
                    Err(e) => Err::<Option<MessageId>, SendError>(e),
                }
            },
        ChannelSender::TickUnreliable(s) => n is TickUnreliable && r == Ok::<Option<MessageId>, SendError>(None)
            && tick_buffered(s.messages_to_send@, n->TickUnreliable_0.messages_to_send@, tick, bytes),
    }
}

/// One channel: its settings and the sender and receiver it owns.
pub struct ChannelContainer {
    pub setting: ChannelSettings,
    pub receiver: ChannelReceiver,
    pub sender: ChannelSender,
    pub fragment_receiver: FragmentReceiver,
    pub current_tick: u16,
}

impl ChannelContainer {
    pub open spec fn wf(&self) -> bool {
        &&& pair_matches(self.setting.mode, self.sender, self.receiver)
        &&& self.sender is Reliable ==> self.sender->Reliable_0.wf()
    }

    /// A channel in the state `new` gives: its settings, the sender and receiver that its
    /// mode calls for, and nothing buffered anywhere.
    pub open spec fn is_fresh(&self, settings: ChannelSettings) -> bool {
        &&& self.wf()
        &&& self.setting == settings
        &&& sender_fresh(self.sender)
        &&& receiver_fresh(self.receiver)
        &&& self.fragment_receiver.pending@.len() == 0
        &&& self.current_tick == 0
    }

    /// A fresh channel whose sender and receiver are chosen by `settings.mode` alone.
    pub fn new(settings: ChannelSettings) -> (r: ChannelContainer)
        requires
            mode_valid(settings.mode),
        ensures
            r.is_fresh(settings),
    {
        let receiver: ChannelReceiver;
        let sender: ChannelSender;
        match settings.mode {
            ChannelMode::UnorderedUnreliable => {
                receiver = ChannelReceiver::UnorderedUnreliable(UnorderedUnreliableReceiver::new());
                sender = ChannelSender::UnorderedUnreliable(UnorderedUnreliableSender::new());
            },
            ChannelMode::SequencedUnreliable => {
                receiver = ChannelReceiver::SequencedUnreliable(SequencedUnreliableReceiver::new());
                sender = ChannelSender::SequencedUnreliable(SequencedUnreliableSender::new());
            },
            ChannelMode::UnorderedReliable(reliable_settings) => {
                receiver = ChannelReceiver::UnorderedReliable(UnorderedReliableReceiver::new());
                sender = ChannelSender::Reliable(ReliableSender::new(reliable_settings));
            },
            ChannelMode::SequencedReliable(reliable_settings) => {
                receiver = ChannelReceiver::SequencedReliable(SequencedReliableReceiver::new());
                sender = ChannelSender::Reliable(ReliableSender::new(reliable_settings));
            },
            ChannelMode::OrderedReliable(reliable_settings) => {
                receiver = ChannelReceiver::OrderedReliable(OrderedReliableReceiver::new());
                sender = ChannelSender::Reliable(ReliableSender::new(reliable_settings));
            },
            ChannelMode::TickBuffered => {
                receiver = ChannelReceiver::TickUnreliable(TickUnreliableReceiver::new());
                sender = ChannelSender::TickUnreliable(TickUnreliableSender::new());
            },
        }
        ChannelContainer {
            setting: settings,
            receiver,
            sender,
            fragment_receiver: FragmentReceiver::new(),
            current_tick: 0,
        }
    }

    /// Moves the channel to time `now_ms` and tick `tick`, with the latest measured
    /// round-trip time; payloads of the tick-buffered receiver whose tick has passed are dropped.
    pub fn update(&mut self, now_ms: u64, rtt_ms: u64, tick: u16)
        requires
            old(self).wf(),
        ensures
            final(self).wf(),
            final(self).setting == old(self).setting,
            final(self).current_tick == tick,
            final(self).fragment_receiver == old(self).fragment_receiver,
            match old(self).sender {
                ChannelSender::Reliable(s) => final(self).sender is Reliable && ({
                    let n = final(self).sender->Reliable_0;
                    &&& n.current_time_ms == now_ms
                    &&& n.current_rtt_ms == rtt_ms
                    &&& n.unacked_messages@ == s.unacked_messages@
                    &&& n.next_send_message_id == s.next_send_message_id
                    &&& n.reliable_settings == s.reliable_settings
                    &&& n.fragment_sender == s.fragment_sender
                }),
                _ => final(self).sender == old(self).sender,
            },
            match old(self).receiver {
                ChannelReceiver::TickUnreliable(r) => final(self).receiver is TickUnreliable
                    && final(self).receiver->TickUnreliable_0.current_tick == tick
                    && final(self).receiver->TickUnreliable_0.recv_message_buffer@ == r.recv_message_buffer@.filter(
                    still_pending(tick),
                ),
                _ => receiver_same(old(self).receiver, final(self).receiver),
            },
    {
        self.current_tick = tick;
        match &mut self.sender {
            ChannelSender::Reliable(s) => s.update(now_ms, rtt_ms),
            _ => {},
        }
        match &mut self.receiver {
            ChannelReceiver::TickUnreliable(r) => r.update_tick(tick),
            _ => {},
        }
    }

    /// Enqueues a payload. Reliable channels return the id it got; the tick-buffered
    /// channel files it under the current tick.
    pub fn buffer_send(&mut self, bytes: Bytes) -> (r: Result<Option<MessageId>, SendError>)
        requires
            old(self).wf(),
        ensures
            final(self).wf(),
            final(self).setting == old(self).setting,
            final(self).current_tick == old(self).current_tick,
            receiver_same(old(self).receiver, final(self).receiver),
            sender_enqueued(old(self).sender, final(self).sender, bytes, old(self).current_tick, r),
    {
        let tick = self.current_tick;
        match &mut self.sender {
            ChannelSender::UnorderedUnreliable(s) => {
                s.buffer_send(bytes);
                Ok(None)
            },
            ChannelSender::SequencedUnreliable(s) => {
                s.buffer_send(bytes);
                Ok(None)
            },
            ChannelSender::Reliable(s) => {
                let res = s.buffer_send(bytes);
                match res {
                    Ok(id) => Ok(Some(id)),
                    Err(e) => Err(e),
                }
            },
            ChannelSender::TickUnreliable(s) => {
                s.buffer_send(tick, bytes);
                Ok(None)
            },
        }
    }

    /// The units to put on the wire now. The unreliable and tick senders keep no copy;
    /// the reliable sender keeps every unit and sets a new deadline on each one it sends.
    pub fn collect_messages_to_send(&mut self) -> (r: Vec<MessageData>)
        requires
            old(self).wf(),
        ensures
            final(self).wf(),
            final(self).setting == old(self).setting,
            final(self).current_tick == old(self).current_tick,
            receiver_same(old(self).receiver, final(self).receiver),
            match old(self).sender {
                ChannelSender::UnorderedUnreliable(s) => r@ == s.single_messages_to_send@.map_values(
                    |m: SingleData| MessageData::Single(m),
                ) && final(self).sender is UnorderedUnreliable
                    && final(self).sender->UnorderedUnreliable_0.single_messages_to_send@.len() == 0,
                ChannelSender::SequencedUnreliable(s) => r@ == s.single_messages_to_send@.map_values(
                    |m: SingleData| MessageData::Single(m),
                ) && final(self).sender is SequencedUnreliable
                    && final(self).sender->SequencedUnreliable_0.single_messages_to_send@.len() == 0
                    && final(self).sender->SequencedUnreliable_0.next_send_message_id == s.next_send_message_id,
                ChannelSender::TickUnreliable(s) => r@ == s.messages_to_send@.map_values(
                    |m: SingleData| MessageData::Single(m),
                ) && final(self).sender is TickUnreliable
                    && final(self).sender->TickUnreliable_0.messages_to_send@.len() == 0,
                ChannelSender::Reliable(s) => r@.map_values(|d: MessageData| wire_view(d)) == s.unacked_messages@.filter(
                    due_at(s.current_time_ms),
                ).map_values(|u: UnackedUnit| unit_wire_view(u)) && final(self).sender is Reliable && ({
                    let n = final(self).sender->Reliable_0;
                    &&& reliable_drained(s, n)
                    &&& n.next_send_message_id == s.next_send_message_id
                    &&& n.reliable_settings == s.reliable_settings
                    &&& n.fragment_sender == s.fragment_sender
                    &&& n.current_time_ms == s.current_time_ms
                    &&& n.current_rtt_ms == s.current_rtt_ms
                }),
            },
    {
        match &mut self.sender {
            ChannelSender::UnorderedUnreliable(s) => wrap_singles(s.collect_messages_to_send()),
            ChannelSender::SequencedUnreliable(s) => wrap_singles(s.collect_messages_to_send()),
            ChannelSender::Reliable(s) => s.collect_messages_to_send(),
            ChannelSender::TickUnreliable(s) => wrap_singles(s.collect_messages_to_send()),
        }
    }

    /// An acknowledgement from the peer; only a reliable sender keeps anything to release.
    pub fn process_ack(&mut self, id: MessageId)
        requires
            old(self).wf(),
        ensures
            final(self).wf(),
            final(self).setting == old(self).setting,
            final(self).current_tick == old(self).current_tick,
            receiver_same(old(self).receiver, final(self).receiver),
            match old(self).sender {
                ChannelSender::Reliable(s) => final(self).sender is Reliable && ({
                    let n = final(self).sender->Reliable_0;
                    &&& n.unacked_messages@ == s.unacked_messages@.filter(not_acked_by(id))
                    &&& n.next_send_message_id == s.next_send_message_id
                    &&& n.reliable_settings == s.reliable_settings
                    &&& n.fragment_sender == s.fragment_sender
                    &&& n.current_time_ms == s.current_time_ms
                    &&& n.current_rtt_ms == s.current_rtt_ms
                }),
                _ => final(self).sender == old(self).sender,
            },
    {
        match &mut self.sender {
            ChannelSender::Reliable(s) => s.process_message_ack(id),
            _ => {},
        }
    }

    /// Number of units waiting for an acknowledgement (0 for the unreliable modes).
    pub fn num_unacked(&self) -> (r: usize)
        ensures
            self.sender is Reliable ==> r == self.sender->Reliable_0.unacked_messages@.len(),
            !(self.sender is Reliable) ==> r == 0,
    {
        match &self.sender {
            ChannelSender::Reliable(s) => s.num_unacked(),
            _ => 0,
        }
    }

    /// Takes in one arrived unit and returns the id to acknowledge, if any. Shards are
    /// collected first (on the reliable modes only; elsewhere they are dropped); a
    /// completed payload goes on under its message id. On the reliable modes every whole
    /// payload with an id is acknowledged, delivered or not.
    pub fn receive_message(&mut self, data: MessageData) -> (ack: Option<MessageId>)
        requires
            old(self).wf(),
        ensures
            final(self).wf(),
            final(self).setting == old(self).setting,
            final(self).current_tick == old(self).current_tick,
            final(self).sender == old(self).sender,
            !old(self).setting.mode.spec_is_reliable() ==> ack is None,
            match data {
                MessageData::Single(m) => {
                    &&& receiver_ingested(old(self).receiver, final(self).receiver, m)
                    &&& final(self).fragment_receiver.pending@ == old(self).fragment_receiver.pending@
                    &&& old(self).setting.mode.spec_is_reliable() ==> ack == m.id
                },
                MessageData::Fragment(f) => if !old(self).setting.mode.spec_is_reliable() {
                    receiver_same(old(self).receiver, final(self).receiver)
                        && final(self).fragment_receiver.pending@ == old(self).fragment_receiver.pending@
                } else {
                    let all = old(self).fragment_receiver.pending@.push(f);
                    let group = all.filter(has_id(f.message_id));
                    match reassemble_spec(group) {
                        Some(p) => {
                            &&& ack == Some(f.message_id)
                            &&& final(self).fragment_receiver.pending@ == all.filter(other_id(f.message_id))
                            &&& exists|b: Bytes| bytes_view(b) == p && receiver_ingested(
                                old(self).receiver,
                                final(self).receiver,
                                SingleData { id: Some(f.message_id), bytes: b },
                            )
                        },
                        None => {
                            &&& ack is None
                            &&& final(self).fragment_receiver.pending@ == all.filter(other_id(f.message_id)) + group
                            &&& receiver_same(old(self).receiver, final(self).receiver)
                        },
                    }
                },
            },
    {
        let single = match data {
            MessageData::Single(s) => s,
            MessageData::Fragment(f) => {
                if !self.setting.mode.is_reliable() {
                    return None;
                }
                let id = f.message_id;
                match self.fragment_receiver.receive_fragment(f) {
                    Some(bytes) => SingleData { id: Some(id), bytes },
                    None => {
                        return None;
                    },
                }
            },
        };
        match &mut self.receiver {
            ChannelReceiver::UnorderedUnreliable(r) => {
                r.buffer_recv(single);
                None
            },
            ChannelReceiver::SequencedUnreliable(r) => {
                r.buffer_recv(single);
                None
            },
            ChannelReceiver::UnorderedReliable(r) => r.buffer_recv(single),
            ChannelReceiver::SequencedReliable(r) => r.buffer_recv(single),
            ChannelReceiver::OrderedReliable(r) => r.buffer_recv(single),
            ChannelReceiver::TickUnreliable(r) => {
                r.buffer_recv(single);
                None
            },
        }
    }

    /// The next message ready for the application, if any; it leaves the receiver.
    pub fn read_message(&mut self) -> (r: Option<SingleData>)
        requires
            old(self).wf(),
        ensures
            final(self).wf(),
            final(self).setting == old(self).setting,
            final(self).current_tick == old(self).current_tick,
            final(self).sender == old(self).sender,
            final(self).fragment_receiver == old(self).fragment_receiver,
            receiver_pulled(old(self).receiver, final(self).receiver, r),
    {
        match &mut self.receiver {
            ChannelReceiver::UnorderedUnreliable(r) => r.read_message(),
            ChannelReceiver::SequencedUnreliable(r) => r.read_message(),
            ChannelReceiver::UnorderedReliable(r) => r.read_message(),
            ChannelReceiver::SequencedReliable(r) => r.read_message(),
            ChannelReceiver::OrderedReliable(r) => r.read_message(),
            ChannelReceiver::TickUnreliable(r) => r.read_message(),
        }
    }
}

/// The ready queue of the receivers that deliver from the front of a queue.
pub open spec fn queue_of(receiver: ChannelReceiver) -> Option<Seq<SingleData>> {
    match receiver {
        ChannelReceiver::UnorderedUnreliable(r) => Some(r.recv_message_buffer@),
        ChannelReceiver::SequencedUnreliable(r) => Some(r.recv_message_buffer@),
        ChannelReceiver::UnorderedReliable(r) => Some(r.recv_message_buffer@),
        ChannelReceiver::SequencedReliable(r) => Some(r.recv_message_buffer@),
        _ => None,
    }
}

fn wrap_singles(v: Vec<SingleData>) -> (r: Vec<MessageData>)
    ensures
        r@ == v@.map_values(|s: SingleData| MessageData::Single(s)),
{
    let ghost orig = v@;
    let mut v = v;
    let mut r: Vec<MessageData> = Vec::new();
    while v.len() > 0
        invariant
            orig.len() >= v@.len(),
            v@ == orig.subrange(orig.len() - v@.len(), orig.len() as int),
            r@ == orig.subrange(0, orig.len() - v@.len()).map_values(|s: SingleData| MessageData::Single(s)),
        decreases v@.len(),
    {
        let ghost done = orig.len() - v@.len();
        let s = v.remove(0);
        r.push(MessageData::Single(s));
        assert(v@ =~= orig.subrange(orig.len() - v@.len(), orig.len() as int));
        assert(r@ =~= orig.subrange(0, done + 1).map_values(|s: SingleData| MessageData::Single(s)));
    }
    assert(orig.subrange(0, orig.len() as int) =~= orig);
    r
}

/// Builds channels from fixed settings.
#[derive(Clone, Copy, Debug)]
pub struct ChannelBuilder {
    pub settings: ChannelSettings,
}

impl ChannelBuilder {
    /// A fresh channel with the builder's settings, as `ChannelContainer::new` makes it.
    pub fn build(&self) -> (r: ChannelContainer)
        requires
            mode_valid(self.settings.mode),
        ensures
            r.is_fresh(self.settings),
    {
        ChannelContainer::new(self.settings)
    }
}

/// A kind of channel that a protocol declares.
pub trait Channel {
    fn get_builder(settings: ChannelSettings) -> (r: ChannelBuilder)
        ensures
            r.settings == settings;

    fn name() -> (r: &'static str);
}

/// Default channel to replicate entity updates reliably (spawn, despawn, component insert
/// and removal).
pub struct EntityUpdateChannel;

/// Default channel for pings.
pub struct PingChannel;

/// Channel for client inputs; kept apart from pings, so that a newer ping cannot make a
/// sequenced receiver discard an input.
pub struct InputChannel;

/// Default channel to send messages as fast as possible without any ordering.
pub struct DefaultUnorderedUnreliableChannel;

impl Channel for EntityUpdateChannel {
    fn get_builder(settings: ChannelSettings) -> (r: ChannelBuilder) {
        ChannelBuilder { settings }
    }

    fn name() -> (r: &'static str) {
        "EntityUpdateChannel"
    }
}

impl Channel for PingChannel {
    fn get_builder(settings: ChannelSettings) -> (r: ChannelBuilder) {
        ChannelBuilder { settings }
    }

    fn name() -> (r: &'static str) {
        "PingChannel"
    }
}

impl Channel for InputChannel {
    fn get_builder(settings: ChannelSettings) -> (r: ChannelBuilder) {
        ChannelBuilder { settings }
    }

    fn name() -> (r: &'static str) {
        "InputChannel"
    }
}

impl Channel for DefaultUnorderedUnreliableChannel {
    fn get_builder(settings: ChannelSettings) -> (r: ChannelBuilder) {
        ChannelBuilder { settings }
    }

    fn name() -> (r: &'static str) {
        "DefaultUnorderedUnreliableChannel"
    }
}

} // verus!
