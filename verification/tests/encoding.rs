use pod_com::encode::{
    encode_compressed_message, encode_compressed_participant, encode_participant_metadata,
    push_enc_bytes, push_i64_le, push_u32_le,
};
use pod_com::keys::{
    append_u64_le, derive_agent_key, derive_channel_key, derive_channel_message_key,
    derive_escrow_key, derive_invitation_key, derive_message_key, derive_participant_key,
};
use pod_com::records::{
    CompressedChannelMessage, CompressedChannelParticipant, ParticipantExtendedMetadata,
};
use pod_com::types::{message_type_code, MessageType};

fn id(n: u8) -> [u8; 32] {
    [n; 32]
}

#[test]
fn message_type_codes_are_fixed() {
    assert_eq!(message_type_code(&MessageType::Text), 0);
    assert_eq!(message_type_code(&MessageType::Data), 1);
    assert_eq!(message_type_code(&MessageType::Command), 2);
    assert_eq!(message_type_code(&MessageType::Response), 3);
    assert_eq!(message_type_code(&MessageType::Custom(0)), 4);
    assert_eq!(message_type_code(&MessageType::Custom(7)), 11);
    assert_eq!(message_type_code(&MessageType::Custom(251)), 255);
    // The byte wraps past the top of the range.
    assert_eq!(message_type_code(&MessageType::Custom(252)), 0);
}

#[test]
fn derived_keys_have_tagged_layout() {
    let agent = derive_agent_key(&id(5));
    assert_eq!(&agent[..5], b"agent");
    assert_eq!(&agent[5..], &[5u8; 32]);
    assert_eq!(agent.len(), 37);

    let channel = derive_channel_key(&id(1), &b"general".to_vec());
    assert_eq!(&channel[..7], b"channel");
    assert_eq!(&channel[7..39], &[1u8; 32]);
    assert_eq!(&channel[39..], b"general");

    let participant = derive_participant_key(&channel, &agent);
    assert_eq!(&participant[..11], b"participant");
    assert_eq!(&participant[11..11 + channel.len()], &channel[..]);
    assert_eq!(&participant[11 + channel.len()..], &agent[..]);

    let invitation = derive_invitation_key(&channel, &agent);
    assert_eq!(&invitation[..10], b"invitation");

    let escrow = derive_escrow_key(&channel, &id(9));
    assert_eq!(&escrow[..6], b"escrow");
    assert_eq!(&escrow[escrow.len() - 32..], &[9u8; 32]);

    let message = derive_message_key(&agent, &agent, &id(3), &MessageType::Custom(2));
    assert_eq!(&message[..7], b"message");
    assert_eq!(message[message.len() - 1], 6);

    let cm = derive_channel_message_key(&channel, &agent, 0x0102_0304_0506_0708);
    assert_eq!(&cm[..15], b"channel_message");
    // The nonce rides little-endian at the tail.
    assert_eq!(&cm[cm.len() - 8..], &[8, 7, 6, 5, 4, 3, 2, 1]);
}

#[test]
fn distinct_inputs_give_distinct_keys() {
    assert_ne!(derive_agent_key(&id(1)), derive_agent_key(&id(2)));
    assert_ne!(
        derive_channel_key(&id(1), &b"a".to_vec()),
        derive_channel_key(&id(1), &b"b".to_vec())
    );
    assert_ne!(
        derive_channel_key(&id(1), &b"a".to_vec()),
        derive_channel_key(&id(2), &b"a".to_vec())
    );
    let ck = derive_channel_key(&id(1), &b"a".to_vec());
    let ak = derive_agent_key(&id(3));
    assert_ne!(
        derive_channel_message_key(&ck, &ak, 1),
        derive_channel_message_key(&ck, &ak, 2)
    );
}

#[test]
fn integer_encodings_are_little_endian() {
    let mut out: Vec<u8> = Vec::new();
    push_u32_le(&mut out, 0x0102_0304);
    assert_eq!(out, vec![4, 3, 2, 1]);
    assert_eq!(out, borsh::to_vec(&0x0102_0304u32).unwrap());

    let mut out: Vec<u8> = Vec::new();
    append_u64_le(&mut out, 0x0102_0304_0506_0708);
    assert_eq!(out, borsh::to_vec(&0x0102_0304_0506_0708u64).unwrap());

    let mut out: Vec<u8> = Vec::new();
    push_i64_le(&mut out, -2);
    assert_eq!(out, borsh::to_vec(&-2i64).unwrap());
}

#[test]
fn framed_bytes_match_borsh() {
    let payload = b"hello".to_vec();
    let mut out: Vec<u8> = Vec::new();
    push_enc_bytes(&mut out, &payload);
    assert_eq!(out, borsh::to_vec(&payload).unwrap());
}

#[test]
fn metadata_encoding_matches_borsh() {
    let m = ParticipantExtendedMetadata {
        display_name: Some(b"ada".to_vec()),
        permissions: vec![b"read".to_vec(), b"write".to_vec()],
        custom_data: vec![(b"team".to_vec(), b"blue".to_vec())],
    };
    let mine = encode_participant_metadata(&m);
    let reference = borsh::to_vec(&(
        Some(b"ada".to_vec()),
        vec![b"read".to_vec(), b"write".to_vec()],
        vec![(b"team".to_vec(), b"blue".to_vec())],
    ))
    .unwrap();
    assert_eq!(mine, reference);

    let empty = ParticipantExtendedMetadata {
        display_name: None,
        permissions: Vec::new(),
        custom_data: Vec::new(),
    };
    let mine = encode_participant_metadata(&empty);
    let reference = borsh::to_vec(&(
        None::<Vec<u8>>,
        Vec::<Vec<u8>>::new(),
        Vec::<(Vec<u8>, Vec<u8>)>::new(),
    ))
    .unwrap();
    assert_eq!(mine, reference);
}

#[test]
fn compressed_message_encoding_matches_borsh() {
    let m = CompressedChannelMessage {
        channel: b"chan-key".to_vec(),
        sender: b"agent-key".to_vec(),
        content_hash: id(7),
        ipfs_hash: b"Qmabc".to_vec(),
        message_type: MessageType::Custom(9),
        created_at: 123_456,
        edited_at: Some(123_460),
        reply_to: Some(b"other-key".to_vec()),
    };
    let mine = encode_compressed_message(&m);
    // The enum rides as its variant index and payload; in a borsh tuple the
    // two bytes stand in for it.
    let reference = borsh::to_vec(&(
        b"chan-key".to_vec(),
        b"agent-key".to_vec(),
        [7u8; 32],
        b"Qmabc".to_vec(),
        4u8,
        9u8,
        123_456i64,
        Some(123_460i64),
        Some(b"other-key".to_vec()),
    ))
    .unwrap();
    assert_eq!(mine, reference);
}

#[test]
fn compressed_participant_encoding_matches_borsh() {
    let p = CompressedChannelParticipant {
        channel: b"chan-key".to_vec(),
        participant: b"agent-key".to_vec(),
        joined_at: 55,
        messages_sent: 3,
        last_message_at: 60,
        metadata_hash: id(8),
    };
    let mine = encode_compressed_participant(&p);
    let reference = borsh::to_vec(&(
        b"chan-key".to_vec(),
        b"agent-key".to_vec(),
        55i64,
        3u64,
        60i64,
        [8u8; 32],
    ))
    .unwrap();
    assert_eq!(mine, reference);
}

#[test]
fn compress_state_prefixes_a_field_element() {
    let data = b"demo".to_vec();
    let (proof, root) = pod_com::prover::compress_state(&data);
    assert_eq!(proof.len(), 32 + data.len());
    assert_eq!(&proof[32..], &data[..]);
    assert_eq!(&proof[..32], &root[..]);
    // A field element is never the zero commitment here.
    assert_ne!(root, [0u8; 32]);
}
