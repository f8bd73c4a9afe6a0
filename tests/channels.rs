use bytes::Bytes;
use lightyear_shared::channel::{
    Channel, ChannelContainer, ChannelDirection, ChannelMode, ChannelReceiver, ChannelSender,
    ChannelSettings, EntityUpdateChannel, ReliableSettings,
};
use lightyear_shared::fragment::{reassemble, FragmentReceiver, FragmentSender};
use lightyear_shared::message::{MessageKind, MessageRegistry, RegistryError};
use lightyear_shared::packet::{FragmentData, MessageData, SingleData, FRAGMENT_SIZE};
use lightyear_shared::plugin::{Plugin, PluginConfig};
use lightyear_shared::receivers::{
    OrderedReliableReceiver, SequencedReliableReceiver, SequencedUnreliableReceiver,
    TickUnreliableReceiver, UnorderedReliableReceiver, UnorderedUnreliableReceiver,
};
use lightyear_shared::senders::{ReliableSender, SendError, SequencedUnreliableSender, TickUnreliableSender};
use lightyear_shared::wrapping_id::MessageId;

fn single(id: u16, bytes: &[u8]) -> SingleData {
    SingleData { id: Some(MessageId(id)), bytes: Bytes::copy_from_slice(bytes) }
}

fn payload_of(d: &MessageData) -> (Option<MessageId>, Bytes) {
    match d {
        MessageData::Single(s) => (s.id, s.bytes.clone()),
        MessageData::Fragment(f) => (Some(f.message_id), f.bytes.clone()),
    }
}

#[test]
fn test_build_fragments() {
    let message_id = MessageId(0);
    const NUM_BYTES: usize = (FRAGMENT_SIZE as f32 * 2.5) as usize;
    let bytes = Bytes::from(vec![0; NUM_BYTES]);

    let sender = FragmentSender::new();

    let fragments = sender.build_fragments(message_id, bytes.clone());
    let expected_num_fragments = 3;
    assert_eq!(fragments.len(), expected_num_fragments);
    assert_eq!(
        fragments.get(0).unwrap(),
        &FragmentData {
            message_id,
            fragment_id: 0,
            num_fragments: expected_num_fragments as u8,
            bytes: bytes.slice(0..FRAGMENT_SIZE),
        }
    );
    assert_eq!(
        fragments.get(1).unwrap(),
        &FragmentData {
            message_id,
            fragment_id: 1,
            num_fragments: expected_num_fragments as u8,
            bytes: bytes.slice(FRAGMENT_SIZE..2 * FRAGMENT_SIZE),
        }
    );
    assert_eq!(
        fragments.get(2).unwrap(),
        &FragmentData {
            message_id,
            fragment_id: 2,
            num_fragments: expected_num_fragments as u8,
            bytes: bytes.slice(2 * FRAGMENT_SIZE..),
        }
    );
}

#[test]
fn fragments_of_6500_bytes_reassemble_in_reverse_order() {
    let payload: Bytes = (0..6500u32).map(|i| (i % 251) as u8).collect::<Vec<u8>>().into();
    let sender = FragmentSender::with_fragment_size(1200);
    let fragments = sender.build_fragments(MessageId(42), payload.clone());
    assert_eq!(fragments.len(), 6);
    for (i, f) in fragments.iter().enumerate() {
        assert_eq!(f.message_id, MessageId(42));
        assert_eq!(f.fragment_id as usize, i);
        assert_eq!(f.num_fragments, 6);
        let expected_len = if i < 5 { 1200 } else { 500 };
        assert_eq!(f.bytes.len(), expected_len);
    }
    let mut receiver = FragmentReceiver::new();
    let mut result = None;
    for (k, f) in fragments.iter().rev().enumerate() {
        let r = receiver.receive_fragment(f.clone());
        if k < 5 {
            assert!(r.is_none());
        } else {
            result = r;
        }
    }
    assert_eq!(result, Some(payload.clone()));
    assert!(receiver.pending.is_empty());

    let mut reversed = fragments.clone();
    reversed.reverse();
    assert_eq!(reassemble(&reversed), Some(payload));
}

#[test]
fn fragment_round_trip_with_exact_multiple() {
    let payload: Bytes = (0..3000u32).map(|i| (i % 7) as u8).collect::<Vec<u8>>().into();
    let sender = FragmentSender::with_fragment_size(1000);
    let fragments = sender.build_fragments(MessageId(1), payload.clone());
    assert_eq!(fragments.len(), 3);
    assert_eq!(fragments[2].bytes.len(), 1000);
    assert_eq!(reassemble(&fragments), Some(payload));
}

#[test]
fn incomplete_or_malformed_fragments_never_complete() {
    let payload = Bytes::from(vec![9u8; 2500]);
    let fragments = FragmentSender::with_fragment_size(1000).build_fragments(MessageId(3), payload);
    assert_eq!(reassemble(&fragments[0..2].to_vec()), None);
    let bad = vec![FragmentData { message_id: MessageId(3), fragment_id: 4, num_fragments: 2, bytes: Bytes::from_static(&[1]) }];
    assert_eq!(reassemble(&bad), None);
    assert_eq!(reassemble(&Vec::new()), None);
}

#[test]
fn id_wraparound_ordering() {
    assert!(MessageId(0).is_newer_than(&MessageId(65535)));
    assert!(!MessageId(65535).is_newer_than(&MessageId(0)));
    assert!(MessageId(10).is_newer_than(&MessageId(5)));
    assert!(!MessageId(5).is_newer_than(&MessageId(5)));
    assert_eq!(MessageId(65535).next(), MessageId(0));
    assert_eq!(MessageId(0).distance_from(&MessageId(65535)), 1);
    assert_eq!(MessageId(3).distance_from(&MessageId(65534)), 5);
}

#[test]
fn ordered_reliable_loss_and_reorder_scenario() {
    let mut sender = ReliableSender::new(ReliableSettings::default());
    assert_eq!(sender.buffer_send(Bytes::from_static(b"A")), Ok(MessageId(0)));
    assert_eq!(sender.buffer_send(Bytes::from_static(b"B")), Ok(MessageId(1)));
    assert_eq!(sender.buffer_send(Bytes::from_static(b"C")), Ok(MessageId(2)));
    let wire = sender.collect_messages_to_send();
    assert_eq!(wire.len(), 3);

    let mut channel = ChannelContainer::new(ChannelSettings {
        mode: ChannelMode::OrderedReliable(ReliableSettings::default()),
        direction: ChannelDirection::Bidirectional,
    });
    assert_eq!(channel.receive_message(wire[2].clone()), Some(MessageId(2)));
    assert_eq!(channel.read_message(), None);
    assert_eq!(channel.receive_message(wire[0].clone()), Some(MessageId(0)));
    assert_eq!(channel.read_message(), Some(single(0, b"A")));
    assert_eq!(channel.read_message(), None);
    assert_eq!(channel.receive_message(wire[1].clone()), Some(MessageId(1)));
    assert_eq!(channel.read_message(), Some(single(1, b"B")));
    assert_eq!(channel.read_message(), Some(single(2, b"C")));
    assert_eq!(channel.read_message(), None);
}

#[test]
fn ordered_receiver_releases_permutation_in_order() {
    let mut receiver = OrderedReliableReceiver::new();
    for id in [3u16, 1, 0, 2, 1] {
        receiver.buffer_recv(single(id, &[id as u8]));
    }
    for id in 0..4u16 {
        assert_eq!(receiver.read_message(), Some(single(id, &[id as u8])));
    }
    assert_eq!(receiver.read_message(), None);
    // an old duplicate is acknowledged but not delivered again
    assert_eq!(receiver.buffer_recv(single(1, &[1])), Some(MessageId(1)));
    assert_eq!(receiver.read_message(), None);
}

#[test]
fn reliable_retransmission_scenario() {
    let mut sender = ReliableSender::new(ReliableSettings::default());
    sender.update(0, 100);
    let id = sender.buffer_send(Bytes::from_static(b"hello")).unwrap();
    let first = sender.collect_messages_to_send();
    assert_eq!(first.len(), 1);
    // the first transmission is lost; before the deadline (0 + 100 * 1.5) nothing is resent
    sender.update(149, 100);
    assert!(sender.collect_messages_to_send().is_empty());
    sender.update(150, 100);
    let resent = sender.collect_messages_to_send();
    assert_eq!(resent.len(), 1);
    assert_eq!(payload_of(&resent[0]), (Some(id), Bytes::from_static(b"hello")));
    assert_eq!(sender.num_unacked(), 1);
    sender.process_message_ack(id);
    assert_eq!(sender.num_unacked(), 0);
    sender.update(10_000, 100);
    assert!(sender.collect_messages_to_send().is_empty());
}

#[test]
fn reliable_sender_fragments_large_payloads() {
    let mut sender = ReliableSender::new(ReliableSettings::default());
    let payload = Bytes::from(vec![5u8; FRAGMENT_SIZE * 2 + 1]);
    let id = sender.buffer_send(payload.clone()).unwrap();
    assert_eq!(sender.num_unacked(), 3);
    let wire = sender.collect_messages_to_send();
    let mut channel = ChannelContainer::new(ChannelSettings {
        mode: ChannelMode::UnorderedReliable(ReliableSettings::default()),
        direction: ChannelDirection::ServerToClient,
    });
    assert_eq!(channel.receive_message(wire[1].clone()), None);
    assert_eq!(channel.receive_message(wire[0].clone()), None);
    assert_eq!(channel.receive_message(wire[2].clone()), Some(id));
    assert_eq!(channel.read_message(), Some(SingleData { id: Some(id), bytes: payload }));
}

#[test]
fn reliable_sender_refuses_too_many_fragments() {
    let mut sender = ReliableSender::new(ReliableSettings::default());
    sender.fragment_sender = FragmentSender::with_fragment_size(1);
    assert_eq!(sender.buffer_send(Bytes::from(vec![0u8; 256])), Err(SendError::TooManyFragments));
    assert_eq!(sender.num_unacked(), 0);
    assert_eq!(sender.buffer_send(Bytes::from(vec![0u8; 255])), Ok(MessageId(0)));
    assert_eq!(sender.num_unacked(), 255);
}

#[test]
fn unordered_reliable_delivers_duplicates_once() {
    let mut receiver = UnorderedReliableReceiver::new();
    for id in [5u16, 5, 6, 5, 6] {
        assert_eq!(receiver.buffer_recv(single(id, b"x")), Some(MessageId(id)));
    }
    assert_eq!(receiver.read_message(), Some(single(5, b"x")));
    assert_eq!(receiver.read_message(), Some(single(6, b"x")));
    assert_eq!(receiver.read_message(), None);
}

#[test]
fn sequenced_receivers_only_take_newer_ids() {
    let mut unreliable = SequencedUnreliableReceiver::new();
    let mut reliable = SequencedReliableReceiver::new();
    for id in [1u16, 3, 2, 3, 5, 4] {
        unreliable.buffer_recv(single(id, b"s"));
        assert_eq!(reliable.buffer_recv(single(id, b"s")), Some(MessageId(id)));
    }
    for expected in [1u16, 3, 5] {
        assert_eq!(unreliable.read_message(), Some(single(expected, b"s")));
        assert_eq!(reliable.read_message(), Some(single(expected, b"s")));
    }
    assert_eq!(unreliable.read_message(), None);
    assert_eq!(reliable.read_message(), None);
}

#[test]
fn sequenced_receiver_across_wraparound() {
    let mut receiver = SequencedUnreliableReceiver::new();
    receiver.buffer_recv(single(65535, b"a"));
    receiver.buffer_recv(single(0, b"b"));
    receiver.buffer_recv(single(65534, b"c"));
    assert_eq!(receiver.read_message(), Some(single(65535, b"a")));
    assert_eq!(receiver.read_message(), Some(single(0, b"b")));
    assert_eq!(receiver.read_message(), None);
}

#[test]
fn sequenced_sender_numbers_messages() {
    let mut sender = SequencedUnreliableSender::new();
    sender.next_send_message_id = MessageId(65535);
    sender.buffer_send(Bytes::from_static(b"a"));
    sender.buffer_send(Bytes::from_static(b"b"));
    let out = sender.collect_messages_to_send();
    assert_eq!(out, vec![single(65535, b"a"), single(0, b"b")]);
    assert!(sender.collect_messages_to_send().is_empty());
}

#[test]
fn unordered_unreliable_passes_everything() {
    let mut receiver = UnorderedUnreliableReceiver::new();
    receiver.buffer_recv(SingleData { id: None, bytes: Bytes::from_static(&[1]) });
    receiver.buffer_recv(SingleData { id: None, bytes: Bytes::from_static(&[1]) });
    assert_eq!(receiver.read_message(), Some(SingleData { id: None, bytes: Bytes::from_static(&[1]) }));
    assert_eq!(receiver.read_message(), Some(SingleData { id: None, bytes: Bytes::from_static(&[1]) }));
    assert_eq!(receiver.read_message(), None);
}

#[test]
fn tick_buffered_delivery() {
    let mut sender = TickUnreliableSender::new();
    sender.buffer_send(5, Bytes::from_static(b"old"));
    sender.buffer_send(5, Bytes::from_static(b"five"));
    sender.buffer_send(3, Bytes::from_static(b"three"));
    let out = sender.collect_messages_to_send();
    assert_eq!(out, vec![single(5, b"five"), single(3, b"three")]);

    let mut receiver = TickUnreliableReceiver::new();
    for m in out {
        receiver.buffer_recv(m);
    }
    assert_eq!(receiver.read_message(), None);
    receiver.update_tick(3);
    assert_eq!(receiver.read_message(), Some(single(3, b"three")));
    assert_eq!(receiver.read_message(), None);
    receiver.update_tick(6);
    assert!(receiver.recv_message_buffer.is_empty());
    receiver.buffer_recv(single(4, b"late"));
    assert!(receiver.recv_message_buffer.is_empty());
}

#[test]
fn container_pairs_follow_mode() {
    let rs = ReliableSettings { rtt_resend_factor_permille: 2000 };
    let modes = [
        ChannelMode::UnorderedUnreliable,
        ChannelMode::SequencedUnreliable,
        ChannelMode::UnorderedReliable(rs),
        ChannelMode::SequencedReliable(rs),
        ChannelMode::OrderedReliable(rs),
        ChannelMode::TickBuffered,
    ];
    for mode in modes {
        let builder = EntityUpdateChannel::get_builder(ChannelSettings { mode, direction: ChannelDirection::ClientToServer });
        let c = builder.build();
        assert_eq!(c.setting.mode, mode);
        let ok = match (mode, &c.sender, &c.receiver) {
            (ChannelMode::UnorderedUnreliable, ChannelSender::UnorderedUnreliable(_), ChannelReceiver::UnorderedUnreliable(_)) => true,
            (ChannelMode::SequencedUnreliable, ChannelSender::SequencedUnreliable(_), ChannelReceiver::SequencedUnreliable(_)) => true,
            (ChannelMode::UnorderedReliable(_), ChannelSender::Reliable(s), ChannelReceiver::UnorderedReliable(_)) => s.reliable_settings == rs,
            (ChannelMode::SequencedReliable(_), ChannelSender::Reliable(s), ChannelReceiver::SequencedReliable(_)) => s.reliable_settings == rs,
            (ChannelMode::OrderedReliable(_), ChannelSender::Reliable(s), ChannelReceiver::OrderedReliable(_)) => s.reliable_settings == rs,
            (ChannelMode::TickBuffered, ChannelSender::TickUnreliable(_), ChannelReceiver::TickUnreliable(_)) => true,
            _ => false,
        };
        assert!(ok);
        assert_eq!(mode.is_reliable(), matches!(c.sender, ChannelSender::Reliable(_)));
    }
    assert_eq!(ReliableSettings::default().rtt_resend_factor_permille, 1500);
}

#[test]
fn unreliable_channel_round_trip_gives_no_acks() {
    let mut c = ChannelContainer::new(ChannelSettings {
        mode: ChannelMode::UnorderedUnreliable,
        direction: ChannelDirection::Bidirectional,
    });
    assert_eq!(c.buffer_send(Bytes::from(vec![1, 2])), Ok(None));
    let wire = c.collect_messages_to_send();
    assert_eq!(wire.len(), 1);
    assert_eq!(c.num_unacked(), 0);
    assert_eq!(c.receive_message(wire[0].clone()), None);
    assert_eq!(c.read_message(), Some(SingleData { id: None, bytes: Bytes::from(vec![1, 2]) }));
}

#[test]
fn message_registry_tags_and_seals() {
    let mut registry = MessageRegistry::new();
    assert_eq!(registry.add::<u32>(), Ok(0));
    assert_eq!(registry.add::<String>(), Ok(1));
    assert_eq!(registry.add::<u32>(), Err(RegistryError::AlreadyRegistered));
    assert_eq!(registry.net_id(&MessageKind::of::<String>()), Some(1));
    assert_eq!(registry.net_id(&MessageKind::of::<u8>()), None);
    assert_eq!(registry.kind(0), Some(MessageKind::of::<u32>()));
    assert_eq!(registry.kind(2), None);
    registry.build();
    assert!(registry.is_built());
    assert_eq!(registry.add::<u8>(), Err(RegistryError::AlreadyBuilt));
    assert_eq!(MessageKind::of::<u8>(), MessageKind::from(std::any::TypeId::of::<u8>()));
    assert_ne!(MessageKind::of::<u8>(), MessageKind::of::<u16>());
}

#[test]
fn plugin_config_is_taken_once() {
    let mut plugin = Plugin::new(PluginConfig::new(7u32, "protocol"));
    let config = plugin.take_config().unwrap();
    assert_eq!(config.server_config, 7);
    assert_eq!(config.protocol, "protocol");
    assert!(plugin.take_config().is_none());
}

#[test]
fn sequenced_channel_wraparound_scenario() {
    let mut c = ChannelContainer::new(ChannelSettings {
        mode: ChannelMode::SequencedUnreliable,
        direction: ChannelDirection::Bidirectional,
    });
    assert_eq!(c.read_message(), None);
    c.receive_message(MessageData::Single(single(65535, b"x")));
    assert_eq!(c.read_message(), Some(single(65535, b"x")));
    c.receive_message(MessageData::Single(single(0, b"y")));
    assert_eq!(c.read_message(), Some(single(0, b"y")));
    c.receive_message(MessageData::Single(single(65535, b"z")));
    assert_eq!(c.read_message(), None);
}

#[test]
fn tick_channel_drops_passed_ticks_on_update() {
    let mut c = ChannelContainer::new(ChannelSettings {
        mode: ChannelMode::TickBuffered,
        direction: ChannelDirection::ClientToServer,
    });
    c.update(0, 0, 2);
    assert_eq!(c.buffer_send(Bytes::from_static(b"t2")), Ok(None));
    let wire = c.collect_messages_to_send();
    assert_eq!(wire, vec![MessageData::Single(single(2, b"t2"))]);
    c.receive_message(wire[0].clone());
    c.receive_message(MessageData::Single(single(5, b"t5")));
    c.update(0, 0, 3);
    assert_eq!(c.read_message(), None);
    c.update(0, 0, 5);
    assert_eq!(c.read_message(), Some(single(5, b"t5")));
}
