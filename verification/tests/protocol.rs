use pod_com::errors::PodComError;
use pod_com::state::ProtocolState;
use pod_com::types::ChannelVisibility;

fn id(n: u8) -> [u8; 32] {
    [n; 32]
}

fn state_with_agent(owner: [u8; 32]) -> ProtocolState {
    let mut s = ProtocolState::new();
    s.register_agent(owner, 1, b"loc://agent".to_vec(), 1000).unwrap();
    s
}

#[test]
fn register_sets_initial_reputation() {
    let mut s = ProtocolState::new();
    let ev = s.register_agent(id(1), 7, b"loc://a".to_vec(), 42).unwrap();
    assert_eq!(s.agents.len(), 1);
    assert_eq!(s.agents[0].reputation, 100);
    assert_eq!(s.agents[0].capabilities, 7);
    assert_eq!(s.agents[0].last_updated, 42);
    assert_eq!(ev.capabilities, 7);
    assert_eq!(ev.metadata_uri, b"loc://a".to_vec());
    assert_eq!(ev.timestamp, 42);
}

#[test]
fn register_same_owner_twice_fails() {
    let mut s = ProtocolState::new();
    s.register_agent(id(1), 1, b"loc://a".to_vec(), 10).unwrap();
    let second = s.register_agent(id(1), 2, b"loc://b".to_vec(), 11);
    assert_eq!(second, Err(PodComError::DuplicateRecord));
    assert_eq!(s.agents.len(), 1);
    assert_eq!(s.agents[0].reputation, 100);
}

#[test]
fn register_rejects_bad_metadata_uri() {
    let mut s = ProtocolState::new();
    assert_eq!(
        s.register_agent(id(1), 1, Vec::new(), 10),
        Err(PodComError::InvalidMetadataUriLength)
    );
    assert_eq!(
        s.register_agent(id(1), 1, vec![b'x'; 201], 10),
        Err(PodComError::InvalidMetadataUriLength)
    );
    assert_eq!(
        s.register_agent(id(1), 1, b"   \t\n".to_vec(), 10),
        Err(PodComError::InvalidMetadataUriLength)
    );
    assert!(s.register_agent(id(1), 1, vec![b'x'; 200], 10).is_ok());
}

#[test]
fn register_rejects_reserved_capabilities() {
    let mut s = ProtocolState::new();
    assert_eq!(
        s.register_agent(id(1), u64::MAX / 2 + 1, b"loc://a".to_vec(), 10),
        Err(PodComError::Unauthorized)
    );
    assert!(s.register_agent(id(1), u64::MAX / 2, b"loc://a".to_vec(), 10).is_ok());
}

#[test]
fn update_agent_rejects_bad_metadata_uri() {
    let mut s = state_with_agent(id(1));
    assert_eq!(
        s.update_agent(id(1), None, Some(Vec::new()), 2000),
        Err(PodComError::InvalidMetadataUriLength)
    );
    assert_eq!(
        s.update_agent(id(1), None, Some(vec![b'x'; 201]), 2000),
        Err(PodComError::InvalidMetadataUriLength)
    );
    assert_eq!(s.agents[0].last_updated, 1000);
}

#[test]
fn update_agent_partial_update() {
    let mut s = state_with_agent(id(1));
    s.update_agent(id(1), Some(9), None, 2000).unwrap();
    assert_eq!(s.agents[0].capabilities, 9);
    assert_eq!(s.agents[0].metadata_uri, b"loc://agent".to_vec());
    assert_eq!(s.agents[0].reputation, 100);
    assert_eq!(s.agents[0].last_updated, 2000);
    s.update_agent(id(1), None, Some(b"loc://new".to_vec()), 2001).unwrap();
    assert_eq!(s.agents[0].capabilities, 9);
    assert_eq!(s.agents[0].metadata_uri, b"loc://new".to_vec());
}

#[test]
fn update_agent_requires_owner() {
    let mut s = state_with_agent(id(1));
    assert_eq!(
        s.update_agent(id(2), Some(9), None, 2000),
        Err(PodComError::Unauthorized)
    );
}

#[test]
fn create_channel_validates_inputs() {
    let mut s = ProtocolState::new();
    let c = id(1);
    assert_eq!(
        s.create_channel(c, b"  ".to_vec(), Vec::new(), ChannelVisibility::Public, 10, 0, 5),
        Err(PodComError::ChannelNameTooLong)
    );
    assert_eq!(
        s.create_channel(c, vec![b'n'; 51], Vec::new(), ChannelVisibility::Public, 10, 0, 5),
        Err(PodComError::ChannelNameTooLong)
    );
    assert_eq!(
        s.create_channel(
            c,
            b"general".to_vec(),
            vec![b'd'; 201],
            ChannelVisibility::Public,
            10,
            0,
            5
        ),
        Err(PodComError::ChannelDescriptionTooLong)
    );
    assert_eq!(
        s.create_channel(c, b"general".to_vec(), Vec::new(), ChannelVisibility::Public, 0, 0, 5),
        Err(PodComError::ChannelFull)
    );
    assert_eq!(
        s.create_channel(c, b"general".to_vec(), Vec::new(), ChannelVisibility::Public, 1001, 0, 5),
        Err(PodComError::ChannelFull)
    );
    assert_eq!(
        s.create_channel(
            c,
            b"general".to_vec(),
            Vec::new(),
            ChannelVisibility::Public,
            10,
            1_000_000_001,
            5
        ),
        Err(PodComError::InsufficientFunds)
    );
    assert!(s.channels.is_empty());
}

#[test]
fn create_channel_trims_and_stores() {
    let mut s = ProtocolState::new();
    let ev = s
        .create_channel(
            id(1),
            b"  general ".to_vec(),
            b" a place \n".to_vec(),
            ChannelVisibility::Public,
            10,
            3,
            5,
        )
        .unwrap();
    assert_eq!(s.channels.len(), 1);
    assert_eq!(s.channels[0].account.name, b"general".to_vec());
    assert_eq!(s.channels[0].account.description, b"a place".to_vec());
    assert_eq!(s.channels[0].account.current_participants, 1);
    assert_eq!(s.channels[0].account.escrow_balance, 0);
    assert!(!s.channels[0].account.is_active);
    assert_eq!(ev.name, b"general".to_vec());
    assert_eq!(ev.channel, s.channels[0].key);
    // The same creator and trimmed name land on the occupied derived key.
    let again = s.create_channel(
        id(1),
        b"general".to_vec(),
        Vec::new(),
        ChannelVisibility::Public,
        10,
        3,
        6,
    );
    assert_eq!(again.err(), Some(PodComError::DuplicateRecord));
}

#[test]
fn create_channel_v2_requires_reputation() {
    let mut s = ProtocolState::new();
    assert_eq!(
        s.create_channel_v2(
            id(1),
            b"general".to_vec(),
            Vec::new(),
            ChannelVisibility::Public,
            10,
            0,
            5
        )
        .err(),
        Some(PodComError::Unauthorized)
    );
    s.register_agent(id(1), 1, b"loc://a".to_vec(), 1).unwrap();
    let ev = s
        .create_channel_v2(id(1), b"general".to_vec(), Vec::new(), ChannelVisibility::Public, 10, 0, 5)
        .unwrap();
    assert_eq!(s.channels.len(), 1);
    assert!(s.channels[0].account.is_active);
    assert_eq!(s.channels[0].account.current_participants, 1);
    assert_eq!(s.participants.len(), 1);
    assert!(s.participants[0].is_active);
    assert_eq!(s.participants[0].channel, ev.channel);
}

#[test]
fn channel_capacity_blocks_join() {
    let mut s = ProtocolState::new();
    s.register_agent(id(1), 1, b"loc://a".to_vec(), 1).unwrap();
    s.register_agent(id(2), 1, b"loc://b".to_vec(), 1).unwrap();
    s.register_agent(id(3), 1, b"loc://c".to_vec(), 1).unwrap();
    let ev = s
        .create_channel_v2(id(1), b"tiny".to_vec(), Vec::new(), ChannelVisibility::Public, 2, 0, 5)
        .unwrap();
    let key = ev.channel;
    s.join_channel(&key, id(2), 10).unwrap();
    assert_eq!(s.channels[0].account.current_participants, 2);
    // current_participants == max_participants: the channel is full.
    assert_eq!(s.join_channel(&key, id(3), 11), Err(PodComError::ChannelFull));
    assert_eq!(s.channels[0].account.current_participants, 2);
}

#[test]
fn update_channel_cannot_shrink_below_members() {
    let mut s = ProtocolState::new();
    s.register_agent(id(1), 1, b"loc://a".to_vec(), 1).unwrap();
    s.register_agent(id(2), 1, b"loc://b".to_vec(), 1).unwrap();
    let ev = s
        .create_channel_v2(id(1), b"room".to_vec(), Vec::new(), ChannelVisibility::Public, 5, 0, 5)
        .unwrap();
    let key = ev.channel;
    s.join_channel(&key, id(2), 10).unwrap();
    assert_eq!(
        s.update_channel(&key, id(1), None, None, Some(1), None, None),
        Err(PodComError::ChannelFull)
    );
    s.update_channel(&key, id(1), None, None, Some(2), None, None).unwrap();
    assert_eq!(s.channels[0].account.max_participants, 2);
    assert_eq!(
        s.update_channel(&key, id(2), None, None, None, Some(1), None),
        Err(PodComError::Unauthorized)
    );
}

#[test]
fn update_channel_rename_keeps_address() {
    let mut s = ProtocolState::new();
    s.register_agent(id(1), 1, b"loc://a".to_vec(), 1).unwrap();
    let ev = s
        .create_channel_v2(id(1), b"old".to_vec(), Vec::new(), ChannelVisibility::Public, 5, 0, 5)
        .unwrap();
    let key = ev.channel;
    s.update_channel(&key, id(1), Some(b"new".to_vec()), None, None, None, None).unwrap();
    assert_eq!(s.channels[0].account.name, b"new".to_vec());
    assert_eq!(s.channels[0].key, key);
    // The original name's derived key stays occupied.
    let again =
        s.create_channel(id(1), b"old".to_vec(), Vec::new(), ChannelVisibility::Public, 5, 0, 6);
    assert_eq!(again.err(), Some(PodComError::DuplicateRecord));
}

#[test]
fn leave_channel_marks_inactive_once() {
    let mut s = ProtocolState::new();
    s.register_agent(id(1), 1, b"loc://a".to_vec(), 1).unwrap();
    s.register_agent(id(2), 1, b"loc://b".to_vec(), 1).unwrap();
    let ev = s
        .create_channel_v2(id(1), b"room".to_vec(), Vec::new(), ChannelVisibility::Public, 5, 0, 5)
        .unwrap();
    let key = ev.channel;
    s.join_channel(&key, id(2), 10).unwrap();
    assert_eq!(s.channels[0].account.current_participants, 2);
    s.leave_channel(&key, id(2)).unwrap();
    assert_eq!(s.channels[0].account.current_participants, 1);
    assert!(!s.participants[1].is_active);
    // A second leave finds no active membership.
    assert_eq!(s.leave_channel(&key, id(2)), Err(PodComError::NotInChannel));
    assert_eq!(s.channels[0].account.current_participants, 1);
}

#[test]
fn join_twice_is_rejected() {
    let mut s = ProtocolState::new();
    s.register_agent(id(1), 1, b"loc://a".to_vec(), 1).unwrap();
    s.register_agent(id(2), 1, b"loc://b".to_vec(), 1).unwrap();
    let ev = s
        .create_channel_v2(id(1), b"room".to_vec(), Vec::new(), ChannelVisibility::Public, 5, 0, 5)
        .unwrap();
    let key = ev.channel;
    s.join_channel(&key, id(2), 10).unwrap();
    assert_eq!(s.join_channel(&key, id(2), 11), Err(PodComError::AlreadyInChannel));
    // Even after leaving, the membership record still occupies its key.
    s.leave_channel(&key, id(2)).unwrap();
    assert_eq!(s.join_channel(&key, id(2), 12), Err(PodComError::AlreadyInChannel));
}

#[test]
fn private_channel_requires_invitation() {
    let mut s = ProtocolState::new();
    s.register_agent(id(1), 1, b"loc://a".to_vec(), 1).unwrap();
    s.register_agent(id(2), 1, b"loc://b".to_vec(), 1).unwrap();
    let ev = s
        .create_channel_v2(id(1), b"vault".to_vec(), Vec::new(), ChannelVisibility::Private, 5, 0, 5)
        .unwrap();
    let key = ev.channel;
    assert_eq!(
        s.join_channel(&key, id(2), 10),
        Err(PodComError::PrivateChannelRequiresInvitation)
    );
    let invitee = pod_com::keys::derive_agent_key(&id(2));
    s.invite_to_channel(&key, id(1), invitee, 10).unwrap();
    assert!(!s.invitations[0].is_accepted);
    // An expired invitation is unusable.
    let too_late = 10 + 7 * 24 * 60 * 60 + 1;
    assert_eq!(
        s.join_channel(&key, id(2), too_late),
        Err(PodComError::PrivateChannelRequiresInvitation)
    );
    // A timely join consumes it.
    s.join_channel(&key, id(2), 20).unwrap();
    assert!(s.invitations[0].is_accepted);
    assert_eq!(s.channels[0].account.current_participants, 2);
}

#[test]
fn consumed_invitation_cannot_be_reused() {
    let mut s = ProtocolState::new();
    s.register_agent(id(1), 1, b"loc://a".to_vec(), 1).unwrap();
    s.register_agent(id(2), 1, b"loc://b".to_vec(), 1).unwrap();
    let ev = s
        .create_channel_v2(id(1), b"vault".to_vec(), Vec::new(), ChannelVisibility::Private, 5, 0, 5)
        .unwrap();
    let key = ev.channel;
    let invitee = pod_com::keys::derive_agent_key(&id(2));
    s.invite_to_channel(&key, id(1), invitee, 10).unwrap();
    s.join_channel(&key, id(2), 20).unwrap();
    // The compressed join path checks the same canonical policy: the spent
    // invitation admits no further join.
    let metadata = pod_com::records::ParticipantExtendedMetadata {
        display_name: None,
        permissions: Vec::new(),
        custom_data: Vec::new(),
    };
    assert_eq!(
        s.join_channel_compressed(&key, id(2), &metadata, 30).err(),
        Some(PodComError::PrivateChannelRequiresInvitation)
    );
}

#[test]
fn invite_requires_creator_or_active_member() {
    let mut s = ProtocolState::new();
    s.register_agent(id(1), 1, b"loc://a".to_vec(), 1).unwrap();
    s.register_agent(id(2), 1, b"loc://b".to_vec(), 1).unwrap();
    s.register_agent(id(3), 1, b"loc://c".to_vec(), 1).unwrap();
    let ev = s
        .create_channel_v2(id(1), b"vault".to_vec(), Vec::new(), ChannelVisibility::Private, 5, 0, 5)
        .unwrap();
    let key = ev.channel;
    let c_key = pod_com::keys::derive_agent_key(&id(3));
    // A stranger may not invite.
    assert_eq!(
        s.invite_to_channel(&key, id(2), c_key.clone(), 10),
        Err(PodComError::Unauthorized)
    );
    // The creator may.
    let b_key = pod_com::keys::derive_agent_key(&id(2));
    s.invite_to_channel(&key, id(1), b_key, 10).unwrap();
    s.join_channel(&key, id(2), 11).unwrap();
    // Now the active member may invite too.
    s.invite_to_channel(&key, id(2), c_key.clone(), 12).unwrap();
    // A duplicate invitation lands on the occupied key.
    assert_eq!(
        s.invite_to_channel(&key, id(1), c_key, 13),
        Err(PodComError::DuplicateRecord)
    );
}

#[test]
fn get_channel_participants_checks_activity() {
    let mut s = ProtocolState::new();
    s.register_agent(id(1), 1, b"loc://a".to_vec(), 1).unwrap();
    let inactive = s
        .create_channel(id(1), b"idle".to_vec(), Vec::new(), ChannelVisibility::Public, 5, 0, 5)
        .unwrap();
    assert_eq!(
        s.get_channel_participants(&inactive.channel),
        Err(PodComError::NotInChannel)
    );
    let active = s
        .create_channel_v2(id(1), b"busy".to_vec(), Vec::new(), ChannelVisibility::Public, 5, 0, 5)
        .unwrap();
    let listed = s.get_channel_participants(&active.channel).unwrap();
    assert!(listed.is_empty());
}
