use vstd::prelude::*;
use crate::types::{ChannelVisibility, MessageStatus, MessageType};

verus! {

// Identities come in two shapes. A raw account identity — the signer the
// host authenticated — is 32 bytes. An agent identity, and every other
// record address, is a derived key: a byte string built by the scheme in
// `keys`. All communication fields hold agent identities, never raw ones.

/// A registered agent.
#[derive(Clone, Debug, PartialEq, Eq)]
pub struct AgentAccount {
    /// Raw identity of the owning account; only this signer may mutate the
    /// record.
    pub pubkey: [u8; 32],
    /// Capability bitmask; the high bit is reserved, so at most half of the
    /// 64-bit range is accepted.
    pub capabilities: u64,
    /// External locator of the agent's metadata, 1 to 200 bytes, not all
    /// whitespace.
    pub metadata_uri: Vec<u8>,
    /// Reputation score; starts at `INITIAL_REPUTATION`.
    pub reputation: u64,
    /// Timestamp of the last mutation.
    pub last_updated: i64,
}

/// A direct point-to-point message.
#[derive(Clone, Debug, PartialEq, Eq)]
pub struct MessageAccount {
    /// Agent identity of the sender.
    pub sender: Vec<u8>,
    /// Agent identity of the recipient.
    pub recipient: Vec<u8>,
    /// Hash of the payload; the payload itself never reaches the ledger.
    pub payload_hash: [u8; 32],
    pub message_type: MessageType,
    pub created_at: i64,
    /// `created_at` plus `EXPIRATION_SECONDS`; no status change after this.
    pub expires_at: i64,
    pub status: MessageStatus,
}

/// A group-communication channel.
#[derive(Clone, Debug, PartialEq, Eq)]
pub struct ChannelAccount {
    /// Raw identity of the creator.
    pub creator: [u8; 32],
    /// Channel name, stored trimmed, at most 50 bytes.
    pub name: Vec<u8>,
    /// Channel description, at most 200 bytes.
    pub description: Vec<u8>,
    pub visibility: ChannelVisibility,
    pub max_participants: u32,
    pub current_participants: u32,
    /// Fee per broadcast, in native units.
    pub fee_per_message: u64,
    /// Sum of all escrow amounts held for this channel.
    pub escrow_balance: u64,
    pub created_at: i64,
    pub is_active: bool,
}

/// A channel together with its derived key. The key is fixed when the
/// channel is created; renaming the channel later does not move it.
#[derive(Clone, Debug, PartialEq, Eq)]
pub struct ChannelEntry {
    /// Derived key of the channel, its address for every reference.
    pub key: Vec<u8>,
    pub account: ChannelAccount,
}

/// Membership of one agent in one channel. Never deleted: leaving clears
/// `is_active`.
#[derive(Clone, Debug, PartialEq, Eq)]
pub struct ChannelParticipant {
    /// Derived key of the channel.
    pub channel: Vec<u8>,
    /// Agent identity of the member.
    pub participant: Vec<u8>,
    pub joined_at: i64,
    pub is_active: bool,
    /// Broadcasts accepted in the current rate-limit window.
    pub messages_sent: u64,
    /// Timestamp of the last accepted broadcast; 0 means none yet.
    pub last_message_at: i64,
}

/// An invitation into a private channel, usable at most once.
#[derive(Clone, Debug, PartialEq, Eq)]
pub struct ChannelInvitation {
    /// Derived key of the channel.
    pub channel: Vec<u8>,
    /// Raw identity of the inviter.
    pub inviter: [u8; 32],
    /// Agent identity of the invited agent.
    pub invitee: Vec<u8>,
    pub created_at: i64,
    /// `created_at` plus `EXPIRATION_SECONDS`; unusable after this.
    pub expires_at: i64,
    /// Set when a join consumes the invitation; an accepted invitation is
    /// spent.
    pub is_accepted: bool,
}

/// A broadcast message stored in full on the plain persistence path.
#[derive(Clone, Debug, PartialEq, Eq)]
pub struct ChannelMessage {
    /// Derived key of the channel.
    pub channel: Vec<u8>,
    /// Agent identity of the sender.
    pub sender: Vec<u8>,
    /// Message body, at most `MAX_MESSAGE_CONTENT_LENGTH` bytes.
    pub content: Vec<u8>,
    pub message_type: MessageType,
    pub created_at: i64,
    pub edited_at: Option<i64>,
    /// Derived key of the message this one replies to, if any.
    pub reply_to: Option<Vec<u8>>,
}

/// A broadcast message together with the caller-supplied nonce that
/// addresses it; the nonce lets one sender place many messages in one
/// channel.
#[derive(Clone, Debug, PartialEq, Eq)]
pub struct StoredChannelMessage {
    pub nonce: u64,
    pub message: ChannelMessage,
}

/// Escrow held for one depositor in one channel.
#[derive(Clone, Debug, PartialEq, Eq)]
pub struct EscrowAccount {
    /// Derived key of the channel.
    pub channel: Vec<u8>,
    /// Raw identity of the depositor; only this signer may withdraw.
    pub depositor: [u8; 32],
    /// Held amount in native units; decreases only by the depositor's own
    /// withdrawals.
    pub amount: u64,
    pub created_at: i64,
}

/// A broadcast message on the compressed persistence path: the ledger keeps
/// a hash commitment and an external content locator instead of the body.
#[derive(Clone, Debug, PartialEq, Eq)]
pub struct CompressedChannelMessage {
    /// Derived key of the channel.
    pub channel: Vec<u8>,
    /// Agent identity of the sender.
    pub sender: Vec<u8>,
    /// Field-sized hash of the content, computed here, never taken from the
    /// caller.
    pub content_hash: [u8; 32],
    /// Locator of the full content in the external store.
    pub ipfs_hash: Vec<u8>,
    pub message_type: MessageType,
    pub created_at: i64,
    pub edited_at: Option<i64>,
    pub reply_to: Option<Vec<u8>>,
}

/// Membership on the compressed persistence path; extended metadata lives in
/// the external store, committed by its hash.
#[derive(Clone, Debug, PartialEq, Eq)]
pub struct CompressedChannelParticipant {
    /// Derived key of the channel.
    pub channel: Vec<u8>,
    /// Agent identity of the member.
    pub participant: Vec<u8>,
    pub joined_at: i64,
    pub messages_sent: u64,
    pub last_message_at: i64,
    /// Field-sized hash of the serialized extended metadata, computed here.
    pub metadata_hash: [u8; 32],
}

/// Full broadcast content as the external store keeps it.
#[derive(Clone, Debug, PartialEq, Eq)]
pub struct ChannelMessageContent {
    pub content: Vec<u8>,
    pub attachments: Vec<Vec<u8>>,
    pub metadata: Vec<(Vec<u8>, Vec<u8>)>,
}

/// Extended member metadata as the external store keeps it.
#[derive(Clone, Debug, PartialEq, Eq)]
pub struct ParticipantExtendedMetadata {
    pub display_name: Option<Vec<u8>>,
    pub permissions: Vec<Vec<u8>>,
    pub custom_data: Vec<(Vec<u8>, Vec<u8>)>,
}

// Monitoring events. Each instruction that commits returns the event it
// emits, so an indexer sees exactly what changed.

/// A new agent was registered.
#[derive(Clone, Debug, PartialEq, Eq)]
pub struct AgentRegistered {
    /// Agent identity of the new agent.
    pub agent: Vec<u8>,
    pub capabilities: u64,
    pub metadata_uri: Vec<u8>,
    pub timestamp: i64,
}

/// A direct message was recorded.
#[derive(Clone, Debug, PartialEq, Eq)]
pub struct MessageSent {
    /// Agent identity of the sender.
    pub sender: Vec<u8>,
    /// Agent identity of the recipient.
    pub recipient: Vec<u8>,
    pub message_type: MessageType,
    pub timestamp: i64,
}

/// A channel was created.
#[derive(Clone, Debug, PartialEq, Eq)]
pub struct ChannelCreated {
    /// Derived key of the channel.
    pub channel: Vec<u8>,
    /// Raw identity of the creator.
    pub creator: [u8; 32],
    pub name: Vec<u8>,
    pub visibility: ChannelVisibility,
    pub timestamp: i64,
}

/// An agent joined a channel.
#[derive(Clone, Debug, PartialEq, Eq)]
pub struct ChannelJoined {
    /// Derived key of the channel.
    pub channel: Vec<u8>,
    /// Agent identity of the member.
    pub participant: Vec<u8>,
    pub timestamp: i64,
}

/// A broadcast was committed on the compressed path. Carries no content.
#[derive(Clone, Debug, PartialEq, Eq)]
pub struct MessageBroadcast {
    /// Derived key of the channel.
    pub channel: Vec<u8>,
    /// Agent identity of the sender.
    pub sender: Vec<u8>,
    pub message_type: MessageType,
    pub timestamp: i64,
}

/// Escrow was deposited.
#[derive(Clone, Debug, PartialEq, Eq)]
pub struct EscrowDeposit {
    /// Derived key of the channel.
    pub channel: Vec<u8>,
    /// Raw identity of the depositor.
    pub depositor: [u8; 32],
    pub amount: u64,
    pub timestamp: i64,
}

/// Escrow was withdrawn.
#[derive(Clone, Debug, PartialEq, Eq)]
pub struct EscrowWithdrawal {
    /// Derived key of the channel.
    pub channel: Vec<u8>,
    /// Raw identity of the depositor.
    pub depositor: [u8; 32],
    pub amount: u64,
    pub timestamp: i64,
}

/// A batch of compressed message hashes was committed.
#[derive(Clone, Debug, PartialEq, Eq)]
pub struct BatchSyncCompleted {
    /// Derived key of the channel.
    pub channel: Vec<u8>,
    /// Merkle root the commitment service returned for the batch.
    pub merkle_root: [u8; 32],
    pub count: u32,
    pub timestamp: i64,
}

} // verus!
