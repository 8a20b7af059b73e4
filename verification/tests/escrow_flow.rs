use pod_com::errors::PodComError;
use pod_com::state::ProtocolState;
use pod_com::types::ChannelVisibility;

fn id(n: u8) -> [u8; 32] {
    [n; 32]
}

fn channel_for_escrow() -> (ProtocolState, Vec<u8>) {
    let mut s = ProtocolState::new();
    s.register_agent(id(1), 1, b"loc://a".to_vec(), 1).unwrap();
    let ev = s
        .create_channel_v2(id(1), b"paid".to_vec(), Vec::new(), ChannelVisibility::Public, 10, 2, 5)
        .unwrap();
    let key = ev.channel;
    (s, key)
}

fn escrow_total(s: &ProtocolState, key: &Vec<u8>) -> u64 {
    let mut total: u64 = 0;
    for e in &s.escrows {
        if &e.channel == key {
            total += e.amount;
        }
    }
    total
}

#[test]
fn deposit_bounds() {
    let (mut s, key) = channel_for_escrow();
    assert_eq!(
        s.deposit_escrow(&key, id(1), 0, 10).err(),
        Some(PodComError::InsufficientFunds)
    );
    assert_eq!(
        s.deposit_escrow(&key, id(1), 10_000_000_001, 10).err(),
        Some(PodComError::InsufficientFunds)
    );
    assert!(s.deposit_escrow(&key, id(1), 10_000_000_000, 10).is_ok());
    assert_eq!(s.channels[0].account.escrow_balance, 10_000_000_000);
}

#[test]
fn withdraw_requires_own_holding() {
    let (mut s, key) = channel_for_escrow();
    s.deposit_escrow(&key, id(1), 5, 10).unwrap();
    // No holding of their own: unauthorized, whatever the channel holds.
    assert_eq!(
        s.withdraw_escrow(&key, id(2), 1, 11).err(),
        Some(PodComError::Unauthorized)
    );
    assert_eq!(s.channels[0].account.escrow_balance, 5);
}

#[test]
fn balance_tracks_every_operation() {
    let (mut s, key) = channel_for_escrow();
    let steps: [(u8, bool, u64); 7] = [
        (1, true, 5),
        (2, true, 8),
        (1, false, 3),
        (3, true, 2),
        (2, false, 8),
        (1, true, 4),
        (3, false, 1),
    ];
    for (who, is_deposit, amount) in steps {
        if is_deposit {
            s.deposit_escrow(&key, id(who), amount, 100).unwrap();
        } else {
            s.withdraw_escrow(&key, id(who), amount, 100).unwrap();
        }
        // The channel's aggregate equals the sum of its records, after
        // every single operation.
        assert_eq!(s.channels[0].account.escrow_balance, escrow_total(&s, &key));
    }
    assert_eq!(s.channels[0].account.escrow_balance, 7);
    // Per-depositor holdings: 1 holds 6, 2 holds 0, 3 holds 1.
    assert_eq!(escrow_total(&s, &key), 7);
    assert_eq!(
        s.withdraw_escrow(&key, id(2), 1, 101).err(),
        Some(PodComError::InsufficientFunds)
    );
}

#[test]
fn withdraw_more_than_own_amount_fails() {
    let (mut s, key) = channel_for_escrow();
    s.deposit_escrow(&key, id(1), 5, 10).unwrap();
    s.deposit_escrow(&key, id(2), 9, 11).unwrap();
    // Depositor 1 cannot reach depositor 2's funds.
    assert_eq!(
        s.withdraw_escrow(&key, id(1), 6, 12).err(),
        Some(PodComError::InsufficientFunds)
    );
    assert_eq!(s.channels[0].account.escrow_balance, 14);
    s.withdraw_escrow(&key, id(1), 5, 13).unwrap();
    assert_eq!(s.channels[0].account.escrow_balance, 9);
    // The drained holding stays, at zero.
    assert_eq!(s.escrows.len(), 2);
    assert_eq!(s.escrows[0].amount, 0);
}

#[test]
fn deposit_accumulates_per_depositor() {
    let (mut s, key) = channel_for_escrow();
    s.deposit_escrow(&key, id(1), 5, 10).unwrap();
    s.deposit_escrow(&key, id(1), 7, 11).unwrap();
    assert_eq!(s.escrows.len(), 1);
    assert_eq!(s.escrows[0].amount, 12);
    assert_eq!(s.escrows[0].created_at, 10);
    assert_eq!(s.channels[0].account.escrow_balance, 12);
}

#[test]
fn escrow_is_scoped_per_channel() {
    let (mut s, key_a) = channel_for_escrow();
    let ev = s
        .create_channel_v2(id(1), b"other".to_vec(), Vec::new(), ChannelVisibility::Public, 10, 0, 6)
        .unwrap();
    let key_b = ev.channel;
    s.deposit_escrow(&key_a, id(1), 5, 10).unwrap();
    s.deposit_escrow(&key_b, id(1), 11, 10).unwrap();
    assert_eq!(s.channels[0].account.escrow_balance, 5);
    assert_eq!(s.channels[1].account.escrow_balance, 11);
    s.withdraw_escrow(&key_b, id(1), 11, 12).unwrap();
    assert_eq!(s.channels[0].account.escrow_balance, 5);
    assert_eq!(s.channels[1].account.escrow_balance, 0);
}
