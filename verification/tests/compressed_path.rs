use pod_com::compressed::batch_sync_completed_event;
use pod_com::errors::PodComError;
use pod_com::records::ParticipantExtendedMetadata;
use pod_com::state::ProtocolState;
use pod_com::types::{ChannelVisibility, MessageType};

fn id(n: u8) -> [u8; 32] {
    [n; 32]
}

fn no_metadata() -> ParticipantExtendedMetadata {
    ParticipantExtendedMetadata {
        display_name: None,
        permissions: Vec::new(),
        custom_data: Vec::new(),
    }
}

fn ready() -> (ProtocolState, Vec<u8>) {
    let mut s = ProtocolState::new();
    s.register_agent(id(1), 1, b"loc://a".to_vec(), 1).unwrap();
    s.register_agent(id(2), 1, b"loc://b".to_vec(), 1).unwrap();
    let ev = s
        .create_channel_v2(id(1), b"room".to_vec(), Vec::new(), ChannelVisibility::Public, 10, 0, 5)
        .unwrap();
    let key = ev.channel;
    s.join_channel(&key, id(2), 10).unwrap();
    (s, key)
}

#[test]
fn compressed_broadcast_hashes_content() {
    let (mut s, key) = ready();
    let mut content = vec![1u8; 40];
    content[1] = 9;
    let (record, event) = s
        .broadcast_message_compressed(
            &key,
            id(2),
            content.clone(),
            MessageType::Text,
            None,
            b"Qmabc".to_vec(),
            100,
        )
        .unwrap();
    // The hash is computed server-side from the content: truncated into the
    // field, so its leading byte is zero, and it never echoes the input.
    assert_eq!(record.content_hash[0], 0);
    assert_ne!(&record.content_hash[..], &content[..32]);
    assert_ne!(record.content_hash, [0u8; 32]);
    assert_eq!(record.ipfs_hash, b"Qmabc".to_vec());
    assert_eq!(record.channel, key);
    assert_eq!(record.created_at, 100);
    assert_eq!(event.timestamp, 100);
    // No message record reaches the ledger on this path.
    assert!(s.channel_messages.is_empty());
    // The rate-limiter counters moved exactly as on the plain path.
    assert_eq!(s.participants[1].messages_sent, 1);
    assert_eq!(s.participants[1].last_message_at, 100);

    // Hashing is a function of the content alone.
    let (again, _) = s
        .broadcast_message_compressed(
            &key,
            id(2),
            content.clone(),
            MessageType::Text,
            None,
            b"Qmabc".to_vec(),
            200,
        )
        .unwrap();
    assert_eq!(again.content_hash, record.content_hash);
    let (different, _) = s
        .broadcast_message_compressed(
            &key,
            id(2),
            b"something else entirely".to_vec(),
            MessageType::Text,
            None,
            b"Qmdef".to_vec(),
            300,
        )
        .unwrap();
    assert_ne!(different.content_hash, record.content_hash);
}

#[test]
fn compressed_broadcast_allows_longer_content() {
    let (mut s, key) = ready();
    // Ten times the plain bound is accepted; one byte more is not.
    assert!(s
        .broadcast_message_compressed(
            &key,
            id(2),
            vec![b'x'; 10_000],
            MessageType::Text,
            None,
            b"Qm1".to_vec(),
            100
        )
        .is_ok());
    assert_eq!(
        s.broadcast_message_compressed(
            &key,
            id(2),
            vec![b'x'; 10_001],
            MessageType::Text,
            None,
            b"Qm2".to_vec(),
            200
        )
        .err(),
        Some(PodComError::MessageContentTooLong)
    );
}

#[test]
fn compressed_broadcast_shares_the_rate_limiter() {
    let (mut s, key) = ready();
    // Alternate paths share one window: sixty accepted sends fill it.
    for m in 0u64..30 {
        let now = 100 + m as i64;
        s.broadcast_message(&key, id(2), b"hi".to_vec(), MessageType::Text, None, m, now).unwrap();
    }
    for m in 30u64..60 {
        let now = 100 + m as i64;
        s.broadcast_message_compressed(
            &key,
            id(2),
            b"hi".to_vec(),
            MessageType::Text,
            None,
            b"Qm".to_vec(),
            now,
        )
        .unwrap();
    }
    assert_eq!(s.participants[1].messages_sent, 60);
    assert_eq!(
        s.broadcast_message_compressed(
            &key,
            id(2),
            b"hi".to_vec(),
            MessageType::Text,
            None,
            b"Qm".to_vec(),
            161
        )
        .err(),
        Some(PodComError::RateLimitExceeded)
    );
}

#[test]
fn compressed_join_commits_metadata_hash() {
    let (mut s, key) = ready();
    s.register_agent(id(3), 1, b"loc://c".to_vec(), 1).unwrap();
    let metadata = ParticipantExtendedMetadata {
        display_name: Some(b"carol".to_vec()),
        permissions: vec![b"read".to_vec()],
        custom_data: Vec::new(),
    };
    let (record, event) = s.join_channel_compressed(&key, id(3), &metadata, 50).unwrap();
    assert_eq!(record.participant, pod_com::keys::derive_agent_key(&id(3)));
    assert_eq!(record.joined_at, 50);
    assert_eq!(record.messages_sent, 0);
    // The server hashes the serialized metadata itself; a caller cannot
    // smuggle a foreign hash in.
    assert_eq!(record.metadata_hash[0], 0);
    assert_ne!(record.metadata_hash, [0u8; 32]);
    let different = s.register_agent(id(4), 1, b"loc://d".to_vec(), 1).map(|_| ());
    different.unwrap();
    let (other, _) = s.join_channel_compressed(&key, id(4), &no_metadata(), 51).unwrap();
    assert_ne!(other.metadata_hash, record.metadata_hash);
    // Only the participant count changes on the ledger.
    assert_eq!(event.channel, key);
    assert_eq!(s.channels[0].account.current_participants, 4);
    assert_eq!(s.participants.len(), 2);
}

#[test]
fn compressed_join_respects_capacity_and_invitations() {
    let mut s = ProtocolState::new();
    s.register_agent(id(1), 1, b"loc://a".to_vec(), 1).unwrap();
    s.register_agent(id(2), 1, b"loc://b".to_vec(), 1).unwrap();
    let ev = s
        .create_channel_v2(id(1), b"vault".to_vec(), Vec::new(), ChannelVisibility::Private, 1, 0, 5)
        .unwrap();
    let key = ev.channel;
    // Full channel first.
    assert_eq!(
        s.join_channel_compressed(&key, id(2), &no_metadata(), 20).err(),
        Some(PodComError::ChannelFull)
    );
    s.update_channel(&key, id(1), None, None, Some(5), None, None).unwrap();
    // Private channel demands a usable invitation.
    assert_eq!(
        s.join_channel_compressed(&key, id(2), &no_metadata(), 20).err(),
        Some(PodComError::PrivateChannelRequiresInvitation)
    );
    let invitee = pod_com::keys::derive_agent_key(&id(2));
    s.invite_to_channel(&key, id(1), invitee, 20).unwrap();
    s.join_channel_compressed(&key, id(2), &no_metadata(), 21).unwrap();
    // The join consumed the invitation.
    assert!(s.invitations[0].is_accepted);
    assert_eq!(s.channels[0].account.current_participants, 2);
}

#[test]
fn batch_sync_validates_and_reports() {
    let (s, key) = ready();
    let hashes = vec![[1u8; 32]; 100];
    assert!(s.batch_sync_compressed_messages(&key, id(1), &hashes, 500).is_ok());
    let too_many = vec![[1u8; 32]; 101];
    assert_eq!(
        s.batch_sync_compressed_messages(&key, id(1), &too_many, 500),
        Err(PodComError::RateLimitExceeded)
    );
    assert_eq!(
        s.batch_sync_compressed_messages(&key, id(2), &hashes, 500),
        Err(PodComError::Unauthorized)
    );
    // The completion event carries the service's Merkle root verbatim.
    let ev = batch_sync_completed_event(&key, [3u8; 32], hashes.len() as u32, 500);
    assert_eq!(ev.channel, key);
    assert_eq!(ev.merkle_root, [3u8; 32]);
    assert_eq!(ev.count, 100);
    assert_eq!(ev.timestamp, 500);
}
