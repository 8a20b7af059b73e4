use vstd::prelude::*;
use crate::bytes::{copy_bytes, opt_bytes_eq};
use crate::encode::{encode_participant_metadata, encoded_metadata, metadata_encodable};
use crate::errors::PodComError;
use crate::keys::{agent_key_spec, derive_agent_key};
use crate::rate_limit::{apply_rate_limit, rate_accepts, rate_next_count};
use crate::records::{
    BatchSyncCompleted, ChannelJoined, CompressedChannelMessage, CompressedChannelParticipant,
    MessageBroadcast, ParticipantExtendedMetadata,
};
use crate::state::{
    channel_index_of, channel_with_count, has_agent, has_channel,
    invitation_index_of, invitation_usable, lemma_active_count_update, lemma_channel_index_unique,
    lemma_invitation_index_unique, lemma_participant_index_unique, participant_index_of,
    participant_is_active, same_state, ProtocolState,
};
use crate::broadcast::participant_after_broadcast;
use crate::membership::invitation_spent;
use crate::types::{ChannelVisibility, MessageType, MAX_BATCH_SYNC_HASHES,
    MAX_MESSAGE_CONTENT_LENGTH};

verus! {

// The compressed persistence path commits a field-sized content hash and an
// external content locator instead of the payload. The hash function lives
// in an outside crate; everything the protocol decides from it is verified
// against the name `bn254_hash_of` alone.

/// The field-sized hash commitment of a byte string; a function of the
/// bytes alone.
pub uninterp spec fn bn254_hash_of(data: Seq<u8>) -> Seq<u8>;

/// Relies on `light_hasher::hash_to_field_size::hash_to_bn254_field_size_be`:
/// Keccak-256 of the input followed by a fixed domain byte, with the
/// leading byte then zeroed so the value fits below the BN254 scalar field
/// modulus. Its source shows it total when the crate's `keccak` feature is
/// on — which this crate turns on — and its result depends on the input
/// bytes alone.
#[verifier::external_body]
fn bn254_hash(data: &Vec<u8>) -> (r: [u8; 32])
    ensures
        r@ == bn254_hash_of(data@),
{
    light_hasher::hash_to_field_size::hash_to_bn254_field_size_be(data.as_slice())
}

impl ProtocolState {
    /// Broadcasts on the compressed path: the ledger keeps no message
    /// record; the returned record, carrying the server-computed content
    /// hash and the caller's content locator, goes to the external
    /// commitment service, serialized by `encode_compressed_message`.
    ///
    /// Membership and rate limiting work exactly as on the plain path, and
    /// the member's counters move on acceptance; the content bound is ten
    /// times looser because the payload stays off the ledger. Unlike the
    /// plain path this one reports a `MessageBroadcast` event — without
    /// content — and does not ask the channel to be active.
    pub fn broadcast_message_compressed(
        &mut self,
        channel_key: &Vec<u8>,
        caller: [u8; 32],
        content: Vec<u8>,
        message_type: MessageType,
        reply_to: Option<Vec<u8>>,
        ipfs_hash: Vec<u8>,
        now: i64,
    ) -> (r: Result<(CompressedChannelMessage, MessageBroadcast), PodComError>)
        requires
            old(self).wf(),
            1 <= now,
        ensures
            final(self).wf(),
            r is Err ==> same_state(*old(self), *final(self)),
            !has_channel(old(self).channels@, channel_key@) ==> (r matches Err(e) && e
                == PodComError::NotInChannel),
            has_channel(old(self).channels@, channel_key@) && !has_agent(
                old(self).agents@,
                caller@,
            ) ==> (r matches Err(e) && e == PodComError::Unauthorized),
            has_channel(old(self).channels@, channel_key@) && has_agent(old(self).agents@, caller@)
                && !participant_is_active(
                old(self).participants@,
                channel_key@,
                agent_key_spec(caller@),
            ) ==> (r matches Err(e) && e == PodComError::NotInChannel),
            has_channel(old(self).channels@, channel_key@) && has_agent(old(self).agents@, caller@)
                && participant_is_active(
                old(self).participants@,
                channel_key@,
                agent_key_spec(caller@),
            ) && content@.len() > 10 * MAX_MESSAGE_CONTENT_LENGTH ==> (r matches Err(e) && e
                == PodComError::MessageContentTooLong),
            r is Ok <==> has_channel(old(self).channels@, channel_key@) && has_agent(
                old(self).agents@,
                caller@,
            ) && participant_is_active(
                old(self).participants@,
                channel_key@,
                agent_key_spec(caller@),
            ) && content@.len() <= 10 * MAX_MESSAGE_CONTENT_LENGTH && rate_accepts(
                old(self).participants@[participant_index_of(
                    old(self).participants@,
                    channel_key@,
                    agent_key_spec(caller@),
                )].messages_sent,
                old(self).participants@[participant_index_of(
                    old(self).participants@,
                    channel_key@,
                    agent_key_spec(caller@),
                )].last_message_at,
                now,
            ),
            r is Ok ==> {
                let pi = participant_index_of(
                    old(self).participants@,
                    channel_key@,
                    agent_key_spec(caller@),
                );
                &&& final(self).participants@.len() == old(self).participants@.len()
                &&& participant_after_broadcast(
                    old(self).participants@[pi],
                    final(self).participants@[pi],
                    rate_next_count(
                        old(self).participants@[pi].messages_sent,
                        old(self).participants@[pi].last_message_at,
                        now,
                    ),
                    now,
                )
                &&& forall|j: int|
                    0 <= j < old(self).participants@.len() && j != pi
                        ==> final(self).participants@[j] == old(self).participants@[j]
            },
            r matches Ok(out) ==> {
                let m = out.0;
                &&& m.channel@ == channel_key@
                &&& m.sender@ == agent_key_spec(caller@)
                &&& m.content_hash@ == bn254_hash_of(content@)
                &&& m.ipfs_hash@ == ipfs_hash@
                &&& m.message_type == message_type
                &&& m.created_at == now
                &&& m.edited_at is None
                &&& opt_bytes_eq(m.reply_to, reply_to)
            },
            r matches Ok(out) ==> out.1.channel@ == channel_key@ && out.1.sender@
                == agent_key_spec(caller@) && out.1.message_type == message_type && out.1.timestamp
                == now,
            final(self).agents@ == old(self).agents@,
            final(self).messages@ == old(self).messages@,
            final(self).channels@ == old(self).channels@,
            final(self).invitations@ == old(self).invitations@,
            final(self).channel_messages@ == old(self).channel_messages@,
            final(self).escrows@ == old(self).escrows@,
    {
        if self.find_channel(channel_key).is_none() {
            return Err(PodComError::NotInChannel);
        }
        if self.find_agent(&caller).is_none() {
            return Err(PodComError::Unauthorized);
        }
        let agent_key = derive_agent_key(&caller);
        let pi = match self.find_participant(channel_key, &agent_key) {
            Some(i) => i,
            None => {
                return Err(PodComError::NotInChannel);
            },
        };
        proof {
            lemma_participant_index_unique(*self, channel_key@, agent_key@, pi as int);
        }
        if !self.participants[pi].is_active {
            return Err(PodComError::NotInChannel);
        }
        if content.len() > 10 * MAX_MESSAGE_CONTENT_LENGTH {
            return Err(PodComError::MessageContentTooLong);
        }
        let counters = match apply_rate_limit(
            self.participants[pi].messages_sent,
            self.participants[pi].last_message_at,
            now,
        ) {
            Ok(c) => c,
            Err(e) => {
                return Err(e);
            },
        };
        let ghost pre = *self;
        let p = &mut self.participants[pi];
        p.messages_sent = counters.0;
        p.last_message_at = counters.1;
        let content_hash = bn254_hash(&content);
        let record = CompressedChannelMessage {
            channel: copy_bytes(channel_key),
            sender: copy_bytes(&agent_key),
            content_hash,
            ipfs_hash,
            message_type,
            created_at: now,
            edited_at: None,
            reply_to,
        };
        let event = MessageBroadcast {
            channel: copy_bytes(channel_key),
            sender: agent_key,
            message_type,
            timestamp: now,
        };
        proof {
            let post = *self;
            assert forall|i: int, j: int| 0 <= i < j < post.participants@.len() implies !((
            #[trigger] post.participants@[i]).channel@ == (#[trigger] post.participants@[j]).channel@
                && post.participants@[i].participant@ == post.participants@[j].participant@) by {
                assert(post.participants@[i].channel@ == pre.participants@[i].channel@
                    && post.participants@[i].participant@ == pre.participants@[i].participant@);
                assert(post.participants@[j].channel@ == pre.participants@[j].channel@
                    && post.participants@[j].participant@ == pre.participants@[j].participant@);
            }
            assert forall|i: int| 0 <= i < post.participants@.len() implies has_channel(
                post.channels@,
                (#[trigger] post.participants@[i]).channel@,
            ) by {
                let x = post.participants@[i].channel@;
                assert(x == pre.participants@[i].channel@);
                let w = choose|k: int|
                    0 <= k < pre.channels@.len() && (#[trigger] pre.channels@[k]).key@ == x;
                assert(post.channels@[w].key@ == x);
            }
            assert(post.participants@ =~= pre.participants@.update(
                pi as int,
                post.participants@[pi as int],
            ));
            assert forall|i: int| 0 <= i < post.channels@.len() implies {
                let ce = #[trigger] post.channels@[i];
                &&& crate::state::escrow_sum(post.escrows@, ce.key@)
                    == ce.account.escrow_balance as int
                &&& crate::state::active_count(post.participants@, ce.key@)
                    <= ce.account.current_participants as int
                &&& ce.account.current_participants <= ce.account.max_participants
            } by {
                let ce = post.channels@[i];
                lemma_active_count_update(
                    pre.participants@,
                    ce.key@,
                    pi as int,
                    post.participants@[pi as int],
                );
            }
            assert forall|i: int| 0 <= i < post.participants@.len() implies (
            #[trigger] post.participants@[i]).last_message_at >= 0 by {
                if i != pi as int {
                    assert(post.participants@[i] == pre.participants@[i]);
                }
            }
            assert(post.wf());
        }
        Ok((record, event))
    }

    /// Joins the caller's agent to the channel at `channel_key` on the
    /// compressed path: the membership record lives in the external store,
    /// committed by the returned record; on the ledger only the channel's
    /// participant count grows.
    ///
    /// The metadata hash is computed here from the supplied metadata, never
    /// taken from the caller, so a spoofed hash cannot be committed. The
    /// invitation policy is the canonical one, the same as `join_channel`:
    /// a private channel demands an unaccepted, unexpired invitation for
    /// this agent, and the join consumes it.
    pub fn join_channel_compressed(
        &mut self,
        channel_key: &Vec<u8>,
        caller: [u8; 32],
        metadata: &ParticipantExtendedMetadata,
        now: i64,
    ) -> (r: Result<(CompressedChannelParticipant, ChannelJoined), PodComError>)
        requires
            old(self).wf(),
            metadata_encodable(*metadata),
        ensures
            final(self).wf(),
            r is Err ==> same_state(*old(self), *final(self)),
            !has_channel(old(self).channels@, channel_key@) ==> (r matches Err(e) && e
                == PodComError::NotInChannel),
            has_channel(old(self).channels@, channel_key@) && !has_agent(
                old(self).agents@,
                caller@,
            ) ==> (r matches Err(e) && e == PodComError::Unauthorized),
            has_channel(old(self).channels@, channel_key@) && has_agent(old(self).agents@, caller@)
                && old(self).channels@[channel_index_of(
                old(self).channels@,
                channel_key@,
            )].account.current_participants >= old(self).channels@[channel_index_of(
                old(self).channels@,
                channel_key@,
            )].account.max_participants ==> (r matches Err(e) && e == PodComError::ChannelFull),
            r is Ok <==> has_channel(old(self).channels@, channel_key@) && has_agent(
                old(self).agents@,
                caller@,
            ) && old(self).channels@[channel_index_of(
                old(self).channels@,
                channel_key@,
            )].account.current_participants < old(self).channels@[channel_index_of(
                old(self).channels@,
                channel_key@,
            )].account.max_participants && (old(self).channels@[channel_index_of(
                old(self).channels@,
                channel_key@,
            )].account.visibility == ChannelVisibility::Private ==> invitation_usable(
                old(self).invitations@,
                channel_key@,
                agent_key_spec(caller@),
                now,
            )),
            r is Ok ==> {
                let ci = channel_index_of(old(self).channels@, channel_key@);
                &&& final(self).channels@.len() == old(self).channels@.len()
                &&& channel_with_count(
                    old(self).channels@[ci],
                    final(self).channels@[ci],
                    old(self).channels@[ci].account.current_participants + 1,
                )
                &&& forall|j: int|
                    0 <= j < old(self).channels@.len() && j != ci ==> final(self).channels@[j]
                        == old(self).channels@[j]
            },
            r is Ok && old(self).channels@[channel_index_of(
                old(self).channels@,
                channel_key@,
            )].account.visibility == ChannelVisibility::Private ==> {
                let ii = invitation_index_of(
                    old(self).invitations@,
                    channel_key@,
                    agent_key_spec(caller@),
                );
                &&& final(self).invitations@.len() == old(self).invitations@.len()
                &&& invitation_spent(old(self).invitations@[ii], final(self).invitations@[ii])
                &&& forall|j: int|
                    0 <= j < old(self).invitations@.len() && j != ii ==> final(self).invitations@[j]
                        == old(self).invitations@[j]
            },
            r is Ok && old(self).channels@[channel_index_of(
                old(self).channels@,
                channel_key@,
            )].account.visibility == ChannelVisibility::Public ==> final(self).invitations@ == old(
                self,
            ).invitations@,
            r matches Ok(out) ==> {
                let p = out.0;
                &&& p.channel@ == channel_key@
                &&& p.participant@ == agent_key_spec(caller@)
                &&& p.joined_at == now
                &&& p.messages_sent == 0
                &&& p.last_message_at == 0
                &&& p.metadata_hash@ == bn254_hash_of(encoded_metadata(*metadata))
            },
            r matches Ok(out) ==> out.1.channel@ == channel_key@ && out.1.participant@
                == agent_key_spec(caller@) && out.1.timestamp == now,
            final(self).agents@ == old(self).agents@,
            final(self).messages@ == old(self).messages@,
            final(self).participants@ == old(self).participants@,
            final(self).channel_messages@ == old(self).channel_messages@,
            final(self).escrows@ == old(self).escrows@,
    {
        let ci = match self.find_channel(channel_key) {
            Some(i) => i,
            None => {
                return Err(PodComError::NotInChannel);
            },
        };
        proof {
            lemma_channel_index_unique(*self, channel_key@, ci as int);
        }
        if self.find_agent(&caller).is_none() {
            return Err(PodComError::Unauthorized);
        }
        let current = self.channels[ci].account.current_participants;
        let maxp = self.channels[ci].account.max_participants;
        if current >= maxp {
            return Err(PodComError::ChannelFull);
        }
        let agent_key = derive_agent_key(&caller);
        let is_private = self.channels[ci].account.visibility == ChannelVisibility::Private;
        let mut invitation_idx: Option<usize> = None;
        if is_private {
            match self.find_invitation(channel_key, &agent_key) {
                None => {
                    return Err(PodComError::PrivateChannelRequiresInvitation);
                },
                Some(ii) => {
                    proof {
                        lemma_invitation_index_unique(*self, channel_key@, agent_key@, ii as int);
                    }
                    if self.invitations[ii].is_accepted || now > self.invitations[ii].expires_at {
                        return Err(PodComError::PrivateChannelRequiresInvitation);
                    }
                    invitation_idx = Some(ii);
                },
            }
        }
        let metadata_bytes = encode_participant_metadata(metadata);
        let metadata_hash = bn254_hash(&metadata_bytes);
        let ghost pre = *self;
        let record = CompressedChannelParticipant {
            channel: copy_bytes(channel_key),
            participant: copy_bytes(&agent_key),
            joined_at: now,
            messages_sent: 0,
            last_message_at: 0,
            metadata_hash,
        };
        let event = ChannelJoined {
            channel: copy_bytes(channel_key),
            participant: agent_key,
            timestamp: now,
        };
        let c = &mut self.channels[ci];
        c.account.current_participants = current + 1;
        match invitation_idx {
            Some(ii) => {
                let inv = &mut self.invitations[ii];
                inv.is_accepted = true;
            },
            None => {},
        }
        proof {
            let post = *self;
            let ck = channel_key@;
            assert forall|i: int, j: int| 0 <= i < j < post.channels@.len() implies (
            #[trigger] post.channels@[i]).key@ != (#[trigger] post.channels@[j]).key@ by {
                assert(post.channels@[i].key@ == pre.channels@[i].key@);
                assert(post.channels@[j].key@ == pre.channels@[j].key@);
            }
            assert forall|i: int, j: int| 0 <= i < j < post.invitations@.len() implies !((
            #[trigger] post.invitations@[i]).channel@ == (#[trigger] post.invitations@[j]).channel@
                && post.invitations@[i].invitee@ == post.invitations@[j].invitee@) by {
                assert(post.invitations@[i].channel@ == pre.invitations@[i].channel@
                    && post.invitations@[i].invitee@ == pre.invitations@[i].invitee@);
                assert(post.invitations@[j].channel@ == pre.invitations@[j].channel@
                    && post.invitations@[j].invitee@ == pre.invitations@[j].invitee@);
            }
            assert forall|i: int| 0 <= i < post.participants@.len() implies has_channel(
                post.channels@,
                (#[trigger] post.participants@[i]).channel@,
            ) by {
                let x = post.participants@[i].channel@;
                let w = choose|k: int|
                    0 <= k < pre.channels@.len() && (#[trigger] pre.channels@[k]).key@ == x;
                assert(post.channels@[w].key@ == x);
            }
            assert forall|i: int| 0 <= i < post.invitations@.len() implies has_channel(
                post.channels@,
                (#[trigger] post.invitations@[i]).channel@,
            ) by {
                let x = post.invitations@[i].channel@;
                assert(x == pre.invitations@[i].channel@);
                let w = choose|k: int|
                    0 <= k < pre.channels@.len() && (#[trigger] pre.channels@[k]).key@ == x;
                assert(post.channels@[w].key@ == x);
            }
            assert forall|i: int| 0 <= i < post.escrows@.len() implies has_channel(
                post.channels@,
                (#[trigger] post.escrows@[i]).channel@,
            ) by {
                let x = post.escrows@[i].channel@;
                let w = choose|k: int|
                    0 <= k < pre.channels@.len() && (#[trigger] pre.channels@[k]).key@ == x;
                assert(post.channels@[w].key@ == x);
            }
            assert forall|i: int| 0 <= i < post.channels@.len() implies {
                let ce = #[trigger] post.channels@[i];
                &&& crate::state::escrow_sum(post.escrows@, ce.key@)
                    == ce.account.escrow_balance as int
                &&& crate::state::active_count(post.participants@, ce.key@)
                    <= ce.account.current_participants as int
                &&& ce.account.current_participants <= ce.account.max_participants
            } by {
                let ce = post.channels@[i];
                if i != ci as int {
                    assert(ce == pre.channels@[i]);
                }
            }
            assert(post.wf());
        }
        Ok((record, event))
    }

    /// Validates a batch commitment of compressed message hashes: only the
    /// channel's creator may sync, and a batch is capped at
    /// `MAX_BATCH_SYNC_HASHES` hashes.
    ///
    /// The commitment itself is the external service's work; once it
    /// returns a Merkle root, `batch_sync_completed_event` reports the
    /// sync.
    pub fn batch_sync_compressed_messages(
        &self,
        channel_key: &Vec<u8>,
        authority: [u8; 32],
        message_hashes: &Vec<[u8; 32]>,
        sync_timestamp: i64,
    ) -> (r: Result<(), PodComError>)
        requires
            self.wf(),
        ensures
            !has_channel(self.channels@, channel_key@) ==> r == Err::<(), PodComError>(
                PodComError::NotInChannel,
            ),
            has_channel(self.channels@, channel_key@) && message_hashes@.len()
                > MAX_BATCH_SYNC_HASHES ==> r == Err::<(), PodComError>(
                PodComError::RateLimitExceeded,
            ),
            has_channel(self.channels@, channel_key@) && message_hashes@.len()
                <= MAX_BATCH_SYNC_HASHES && self.channels@[channel_index_of(
                self.channels@,
                channel_key@,
            )].account.creator@ != authority@ ==> r == Err::<(), PodComError>(
                PodComError::Unauthorized,
            ),
            r is Ok <==> has_channel(self.channels@, channel_key@) && message_hashes@.len()
                <= MAX_BATCH_SYNC_HASHES && self.channels@[channel_index_of(
                self.channels@,
                channel_key@,
            )].account.creator@ == authority@,
    {
        let ci = match self.find_channel(channel_key) {
            Some(i) => i,
            None => {
                return Err(PodComError::NotInChannel);
            },
        };
        proof {
            lemma_channel_index_unique(*self, channel_key@, ci as int);
        }
        if message_hashes.len() > MAX_BATCH_SYNC_HASHES {
            return Err(PodComError::RateLimitExceeded);
        }
        if !crate::bytes::id_eq(&authority, &self.channels[ci].account.creator) {
            return Err(PodComError::Unauthorized);
        }
        Ok(())
    }
}

/// Builds the monitoring event for a completed batch sync from the Merkle
/// root the commitment service returned and the count of committed hashes.
pub fn batch_sync_completed_event(
    channel_key: &Vec<u8>,
    merkle_root: [u8; 32],
    count: u32,
    sync_timestamp: i64,
) -> (ev: BatchSyncCompleted)
    ensures
        ev.channel@ == channel_key@,
        ev.merkle_root@ == merkle_root@,
        ev.count == count,
        ev.timestamp == sync_timestamp,
{
    BatchSyncCompleted {
        channel: copy_bytes(channel_key),
        merkle_root,
        count,
        timestamp: sync_timestamp,
    }
}

} // verus!
