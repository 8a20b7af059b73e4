use pod_com::errors::PodComError;
use pod_com::state::ProtocolState;
use pod_com::types::{ChannelVisibility, MessageType};

fn id(n: u8) -> [u8; 32] {
    [n; 32]
}

// One run through the protocol: registration, channel life, a rate-limited
// burst, and the escrow books.
#[test]
fn end_to_end_session() {
    let mut s = ProtocolState::new();

    // Register agent A.
    s.register_agent(id(1), 1, b"loc://a".to_vec(), 1_000).unwrap();
    assert_eq!(s.agents[0].reputation, 100);

    // A creates "general" with room for ten and no fee.
    let ev = s
        .create_channel_v2(
            id(1),
            b"general".to_vec(),
            b"the commons".to_vec(),
            ChannelVisibility::Public,
            10,
            0,
            1_001,
        )
        .unwrap();
    let key = ev.channel;
    assert_eq!(s.channels[0].account.current_participants, 1);

    // B registers and joins the public channel.
    s.register_agent(id(2), 1, b"loc://b".to_vec(), 1_002).unwrap();
    s.join_channel(&key, id(2), 1_003).unwrap();
    assert_eq!(s.channels[0].account.current_participants, 2);

    // B broadcasts sixty messages inside fifty-nine seconds: all pass.
    for m in 0u64..60 {
        let now = 2_000 + m as i64;
        s.broadcast_message(&key, id(2), b"gm".to_vec(), MessageType::Text, None, m, now).unwrap();
    }
    // The sixty-first inside the span is rate limited.
    assert_eq!(
        s.broadcast_message(&key, id(2), b"gm".to_vec(), MessageType::Text, None, 60, 2_059),
        Err(PodComError::RateLimitExceeded)
    );

    // A deposits five units of escrow.
    s.deposit_escrow(&key, id(1), 5, 3_000).unwrap();
    assert_eq!(s.channels[0].account.escrow_balance, 5);

    // Withdrawing six exceeds the holding.
    assert_eq!(
        s.withdraw_escrow(&key, id(1), 6, 3_001).err(),
        Some(PodComError::InsufficientFunds)
    );

    // Withdrawing five empties it.
    s.withdraw_escrow(&key, id(1), 5, 3_002).unwrap();
    assert_eq!(s.channels[0].account.escrow_balance, 0);
}
