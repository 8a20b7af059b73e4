use pod_com::errors::PodComError;
use pod_com::keys::derive_agent_key;
use pod_com::state::ProtocolState;
use pod_com::types::{ChannelVisibility, MessageStatus, MessageType};

fn id(n: u8) -> [u8; 32] {
    [n; 32]
}

const WEEK: i64 = 7 * 24 * 60 * 60;

fn two_agents() -> ProtocolState {
    let mut s = ProtocolState::new();
    s.register_agent(id(1), 1, b"loc://a".to_vec(), 1).unwrap();
    s.register_agent(id(2), 1, b"loc://b".to_vec(), 1).unwrap();
    s
}

#[test]
fn send_message_records_pending() {
    let mut s = two_agents();
    let recipient = derive_agent_key(&id(2));
    let ev = s.send_message(id(1), recipient.clone(), [9; 32], MessageType::Text, 100).unwrap();
    assert_eq!(s.messages.len(), 1);
    assert_eq!(s.messages[0].sender, derive_agent_key(&id(1)));
    assert_eq!(s.messages[0].recipient, recipient);
    assert_eq!(s.messages[0].status, MessageStatus::Pending);
    assert_eq!(s.messages[0].created_at, 100);
    assert_eq!(s.messages[0].expires_at, 100 + WEEK);
    assert_eq!(ev.timestamp, 100);
    // The same derived-key material is occupied.
    let again = s.send_message(id(1), derive_agent_key(&id(2)), [9; 32], MessageType::Text, 101);
    assert_eq!(again.err(), Some(PodComError::DuplicateRecord));
    // A different payload hash is a different message.
    assert!(s.send_message(id(1), derive_agent_key(&id(2)), [8; 32], MessageType::Text, 102).is_ok());
}

#[test]
fn send_message_requires_registered_sender() {
    let mut s = ProtocolState::new();
    let r = s.send_message(id(1), vec![1, 2, 3], [0; 32], MessageType::Text, 100);
    assert_eq!(r.err(), Some(PodComError::Unauthorized));
}

#[test]
fn only_recipient_marks_delivered_or_read() {
    let mut s = two_agents();
    let sender_key = derive_agent_key(&id(1));
    let recipient_key = derive_agent_key(&id(2));
    s.send_message(id(1), recipient_key.clone(), [9; 32], MessageType::Text, 100).unwrap();
    // The sender may not mark delivery.
    assert_eq!(
        s.update_message_status(
            id(1),
            &sender_key,
            &recipient_key,
            &[9; 32],
            &MessageType::Text,
            MessageStatus::Delivered,
            110
        ),
        Err(PodComError::Unauthorized)
    );
    // The recipient may.
    s.update_message_status(
        id(2),
        &sender_key,
        &recipient_key,
        &[9; 32],
        &MessageType::Text,
        MessageStatus::Delivered,
        111,
    )
    .unwrap();
    assert_eq!(s.messages[0].status, MessageStatus::Delivered);
    s.update_message_status(
        id(2),
        &sender_key,
        &recipient_key,
        &[9; 32],
        &MessageType::Text,
        MessageStatus::Read,
        112,
    )
    .unwrap();
    assert_eq!(s.messages[0].status, MessageStatus::Read);
}

#[test]
fn sender_or_recipient_marks_failed() {
    let mut s = two_agents();
    s.register_agent(id(3), 1, b"loc://c".to_vec(), 1).unwrap();
    let sender_key = derive_agent_key(&id(1));
    let recipient_key = derive_agent_key(&id(2));
    s.send_message(id(1), recipient_key.clone(), [9; 32], MessageType::Text, 100).unwrap();
    // A third party may not.
    assert_eq!(
        s.update_message_status(
            id(3),
            &sender_key,
            &recipient_key,
            &[9; 32],
            &MessageType::Text,
            MessageStatus::Failed,
            110
        ),
        Err(PodComError::Unauthorized)
    );
    // The sender may.
    s.update_message_status(
        id(1),
        &sender_key,
        &recipient_key,
        &[9; 32],
        &MessageType::Text,
        MessageStatus::Failed,
        110,
    )
    .unwrap();
    assert_eq!(s.messages[0].status, MessageStatus::Failed);
}

#[test]
fn pending_is_no_transition_target() {
    let mut s = two_agents();
    let sender_key = derive_agent_key(&id(1));
    let recipient_key = derive_agent_key(&id(2));
    s.send_message(id(1), recipient_key.clone(), [9; 32], MessageType::Text, 100).unwrap();
    assert_eq!(
        s.update_message_status(
            id(2),
            &sender_key,
            &recipient_key,
            &[9; 32],
            &MessageType::Text,
            MessageStatus::Pending,
            110
        ),
        Err(PodComError::InvalidMessageStatusTransition)
    );
}

#[test]
fn expired_message_rejects_even_authorized_actors() {
    let mut s = two_agents();
    let sender_key = derive_agent_key(&id(1));
    let recipient_key = derive_agent_key(&id(2));
    s.send_message(id(1), recipient_key.clone(), [9; 32], MessageType::Text, 100).unwrap();
    let late = 100 + WEEK + 1;
    assert_eq!(
        s.update_message_status(
            id(2),
            &sender_key,
            &recipient_key,
            &[9; 32],
            &MessageType::Text,
            MessageStatus::Delivered,
            late
        ),
        Err(PodComError::MessageExpired)
    );
    // Expiry outranks the actor check: an unauthorized actor sees it too.
    assert_eq!(
        s.update_message_status(
            id(1),
            &sender_key,
            &recipient_key,
            &[9; 32],
            &MessageType::Text,
            MessageStatus::Delivered,
            late
        ),
        Err(PodComError::MessageExpired)
    );
    assert_eq!(s.messages[0].status, MessageStatus::Pending);
}

fn broadcast_ready() -> (ProtocolState, Vec<u8>) {
    let mut s = ProtocolState::new();
    s.register_agent(id(1), 1, b"loc://a".to_vec(), 1).unwrap();
    s.register_agent(id(2), 1, b"loc://b".to_vec(), 1).unwrap();
    let ev = s
        .create_channel_v2(id(1), b"room".to_vec(), Vec::new(), ChannelVisibility::Public, 10, 0, 5)
        .unwrap();
    let key = ev.channel;
    s.join_channel(&key, id(2), 10).unwrap();
    (s, key)
}

#[test]
fn sixty_broadcasts_in_window_then_limit() {
    let (mut s, key) = broadcast_ready();
    // Sixty one-per-second broadcasts spanning fifty-nine seconds all pass.
    for m in 0u64..60 {
        let now = 100 + m as i64;
        s.broadcast_message(&key, id(2), b"hi".to_vec(), MessageType::Text, None, m, now)
            .unwrap_or_else(|_| panic!("broadcast {} rejected", m));
    }
    assert_eq!(s.channel_messages.len(), 60);
    assert_eq!(s.participants[1].messages_sent, 60);
    // The sixty-first inside the window is refused.
    assert_eq!(
        s.broadcast_message(&key, id(2), b"hi".to_vec(), MessageType::Text, None, 60, 161),
        Err(PodComError::RateLimitExceeded)
    );
    assert_eq!(s.channel_messages.len(), 60);
}

#[test]
fn broadcast_minimum_spacing() {
    let (mut s, key) = broadcast_ready();
    s.broadcast_message(&key, id(2), b"one".to_vec(), MessageType::Text, None, 1, 100).unwrap();
    // Less than a second later: refused regardless of the count.
    assert_eq!(
        s.broadcast_message(&key, id(2), b"two".to_vec(), MessageType::Text, None, 2, 100),
        Err(PodComError::RateLimitExceeded)
    );
}

#[test]
fn broadcast_window_resets_after_gap() {
    let (mut s, key) = broadcast_ready();
    for m in 0u64..60 {
        let now = 100 + m as i64;
        s.broadcast_message(&key, id(2), b"hi".to_vec(), MessageType::Text, None, m, now).unwrap();
    }
    // A full window of silence resets the counter to one.
    s.broadcast_message(&key, id(2), b"later".to_vec(), MessageType::Text, None, 99, 159 + 60)
        .unwrap();
    assert_eq!(s.participants[1].messages_sent, 1);
    assert_eq!(s.participants[1].last_message_at, 219);
}

#[test]
fn broadcast_validates_membership_and_content() {
    let (mut s, key) = broadcast_ready();
    s.register_agent(id(3), 1, b"loc://c".to_vec(), 1).unwrap();
    // Not a member.
    assert_eq!(
        s.broadcast_message(&key, id(3), b"hi".to_vec(), MessageType::Text, None, 1, 100),
        Err(PodComError::NotInChannel)
    );
    // Overlong content.
    assert_eq!(
        s.broadcast_message(&key, id(2), vec![b'x'; 1001], MessageType::Text, None, 1, 100),
        Err(PodComError::MessageContentTooLong)
    );
    // A nonce can be used once per sender and channel.
    s.broadcast_message(&key, id(2), b"hi".to_vec(), MessageType::Text, None, 7, 100).unwrap();
    assert_eq!(
        s.broadcast_message(&key, id(2), b"again".to_vec(), MessageType::Text, None, 7, 102),
        Err(PodComError::DuplicateRecord)
    );
    // An inactive channel refuses the plain path.
    s.update_channel(&key, id(1), None, None, None, None, Some(false)).unwrap();
    assert_eq!(
        s.broadcast_message(&key, id(2), b"hi".to_vec(), MessageType::Text, None, 8, 104),
        Err(PodComError::Unauthorized)
    );
}

#[test]
fn broadcast_records_reply_chain() {
    let (mut s, key) = broadcast_ready();
    s.broadcast_message(&key, id(2), b"root".to_vec(), MessageType::Text, None, 1, 100).unwrap();
    let first_key = pod_com::keys::derive_channel_message_key(&key, &derive_agent_key(&id(2)), 1);
    s.broadcast_message(
        &key,
        id(2),
        b"reply".to_vec(),
        MessageType::Data,
        Some(first_key.clone()),
        2,
        101,
    )
    .unwrap();
    assert_eq!(s.channel_messages[1].message.reply_to, Some(first_key));
    assert_eq!(s.channel_messages[1].message.message_type, MessageType::Data);
    assert_eq!(s.channel_messages[1].message.edited_at, None);
}
