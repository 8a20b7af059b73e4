use vstd::prelude::*;

verus! {

/// Tagged error codes surfaced by the protocol's instructions.
///
/// Every validation failure aborts the whole instruction atomically: an
/// instruction that returns one of these codes leaves the state exactly as
/// it found it.
#[derive(Clone, Copy, Debug, PartialEq, Eq, Structural)]
pub enum PodComError {
    /// A metadata locator was empty, all whitespace, or longer than
    /// `MAX_METADATA_URI_LENGTH` bytes.
    InvalidMetadataUriLength,
    /// The caller is not the identity that the operation demands.
    Unauthorized,
    /// A direct message may no longer change status: the clock has passed
    /// its expiry.
    MessageExpired,
    /// The requested message status is not reachable by the caller.
    InvalidMessageStatusTransition,
    /// The channel has no room left, or a capacity field was out of range.
    ChannelFull,
    /// The caller already holds a participant record for the channel.
    AlreadyInChannel,
    /// The referenced channel or participant record is missing or inactive.
    NotInChannel,
    /// An escrow amount was out of range or exceeds the held balance.
    InsufficientFunds,
    /// A channel name was empty, all whitespace, or longer than
    /// `MAX_CHANNEL_NAME_LENGTH` bytes.
    ChannelNameTooLong,
    /// A channel description was longer than
    /// `MAX_CHANNEL_DESCRIPTION_LENGTH` bytes.
    ChannelDescriptionTooLong,
    /// The caller's reputation is below the channel-creation threshold.
    InsufficientReputation,
    /// The sliding-window rate limit rejected a broadcast, or a batch
    /// commitment was larger than `MAX_BATCH_SYNC_HASHES`.
    RateLimitExceeded,
    /// A message body exceeded the length bound of its persistence path.
    MessageContentTooLong,
    /// A private channel was joined without a matching usable invitation.
    PrivateChannelRequiresInvitation,
    /// A record was created at a derived key that is already occupied.
    /// Uniqueness of derived keys on creation is the protocol's only
    /// concurrency-control primitive.
    DuplicateRecord,
}

} // verus!
