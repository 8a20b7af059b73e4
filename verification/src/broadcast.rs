use vstd::prelude::*;
use crate::bytes::{copy_bytes, opt_bytes_eq};
use crate::errors::PodComError;
use crate::keys::{agent_key_spec, derive_agent_key};
use crate::rate_limit::{apply_rate_limit, rate_accepts, rate_next_count};
use crate::records::{ChannelMessage, ChannelParticipant, StoredChannelMessage};
use crate::state::{
    channel_index_of, has_agent, has_channel, has_channel_message,
    lemma_active_count_update, lemma_channel_index_unique, lemma_participant_index_unique,
    participant_index_of, participant_is_active, same_state, ProtocolState,
};
use crate::types::{MessageType, MAX_MESSAGE_CONTENT_LENGTH};

verus! {

/// `post` is `pre` with its rate-limiter counters moved to `count` and
/// `now`, everything else untouched.
pub open spec fn participant_after_broadcast(
    pre: ChannelParticipant,
    post: ChannelParticipant,
    count: int,
    now: i64,
) -> bool {
    &&& post.channel@ == pre.channel@
    &&& post.participant@ == pre.participant@
    &&& post.joined_at == pre.joined_at
    &&& post.is_active == pre.is_active
    &&& post.messages_sent == count
    &&& post.last_message_at == now
}

impl ProtocolState {
    /// Broadcasts a message into the channel at `channel_key` on the plain
    /// persistence path, storing the full content.
    ///
    /// The channel must be active and the caller's agent an active member;
    /// the caller-supplied `nonce` addresses the record, so one sender can
    /// place many messages in one channel, but never two under one nonce.
    /// The sliding-window rate limiter must accept the broadcast, and on
    /// acceptance the member's counters move. This path reports no
    /// monitoring event; only the compressed path does, an asymmetry kept
    /// deliberately.
    pub fn broadcast_message(
        &mut self,
        channel_key: &Vec<u8>,
        caller: [u8; 32],
        content: Vec<u8>,
        message_type: MessageType,
        reply_to: Option<Vec<u8>>,
        nonce: u64,
        now: i64,
    ) -> (r: Result<(), PodComError>)
        requires
            old(self).wf(),
            1 <= now,
        ensures
            final(self).wf(),
            r is Err ==> same_state(*old(self), *final(self)),
            !has_channel(old(self).channels@, channel_key@) ==> r == Err::<(), PodComError>(
                PodComError::NotInChannel,
            ),
            has_channel(old(self).channels@, channel_key@) && !old(self).channels@[channel_index_of(
                old(self).channels@,
                channel_key@,
            )].account.is_active ==> r == Err::<(), PodComError>(PodComError::Unauthorized),
            has_channel(old(self).channels@, channel_key@) && old(self).channels@[channel_index_of(
                old(self).channels@,
                channel_key@,
            )].account.is_active && !has_agent(old(self).agents@, caller@) ==> r == Err::<
                (),
                PodComError,
            >(PodComError::Unauthorized),
            has_channel(old(self).channels@, channel_key@) && old(self).channels@[channel_index_of(
                old(self).channels@,
                channel_key@,
            )].account.is_active && has_agent(old(self).agents@, caller@) && !participant_is_active(
                old(self).participants@,
                channel_key@,
                agent_key_spec(caller@),
            ) ==> r == Err::<(), PodComError>(PodComError::NotInChannel),
            has_channel(old(self).channels@, channel_key@) && old(self).channels@[channel_index_of(
                old(self).channels@,
                channel_key@,
            )].account.is_active && has_agent(old(self).agents@, caller@) && participant_is_active(
                old(self).participants@,
                channel_key@,
                agent_key_spec(caller@),
            ) && has_channel_message(
                old(self).channel_messages@,
                channel_key@,
                agent_key_spec(caller@),
                nonce,
            ) ==> r == Err::<(), PodComError>(PodComError::DuplicateRecord),
            r is Ok <==> has_channel(old(self).channels@, channel_key@) && old(
                self,
            ).channels@[channel_index_of(old(self).channels@, channel_key@)].account.is_active
                && has_agent(old(self).agents@, caller@) && participant_is_active(
                old(self).participants@,
                channel_key@,
                agent_key_spec(caller@),
            ) && !has_channel_message(
                old(self).channel_messages@,
                channel_key@,
                agent_key_spec(caller@),
                nonce,
            ) && content@.len() <= MAX_MESSAGE_CONTENT_LENGTH && rate_accepts(
                old(self).participants@[participant_index_of(
                    old(self).participants@,
                    channel_key@,
                    agent_key_spec(caller@),
                )].messages_sent,
                old(self).participants@[participant_index_of(
                    old(self).participants@,
                    channel_key@,
                    agent_key_spec(caller@),
                )].last_message_at,
                now,
            ),
            r is Ok ==> {
                let pi = participant_index_of(
                    old(self).participants@,
                    channel_key@,
                    agent_key_spec(caller@),
                );
                &&& final(self).participants@.len() == old(self).participants@.len()
                &&& participant_after_broadcast(
                    old(self).participants@[pi],
                    final(self).participants@[pi],
                    rate_next_count(
                        old(self).participants@[pi].messages_sent,
                        old(self).participants@[pi].last_message_at,
                        now,
                    ),
                    now,
                )
                &&& forall|j: int|
                    0 <= j < old(self).participants@.len() && j != pi
                        ==> final(self).participants@[j] == old(self).participants@[j]
            },
            r is Ok ==> {
                let m = final(self).channel_messages@.last();
                &&& final(self).channel_messages@ == old(self).channel_messages@.push(m)
                &&& m.nonce == nonce
                &&& m.message.channel@ == channel_key@
                &&& m.message.sender@ == agent_key_spec(caller@)
                &&& m.message.content@ == content@
                &&& m.message.message_type == message_type
                &&& m.message.created_at == now
                &&& m.message.edited_at is None
                &&& opt_bytes_eq(m.message.reply_to, reply_to)
            },
            final(self).agents@ == old(self).agents@,
            final(self).messages@ == old(self).messages@,
            final(self).channels@ == old(self).channels@,
            final(self).invitations@ == old(self).invitations@,
            final(self).escrows@ == old(self).escrows@,
    {
        let ci = match self.find_channel(channel_key) {
            Some(i) => i,
            None => {
                return Err(PodComError::NotInChannel);
            },
        };
        proof {
            lemma_channel_index_unique(*self, channel_key@, ci as int);
        }
        if !self.channels[ci].account.is_active {
            return Err(PodComError::Unauthorized);
        }
        if self.find_agent(&caller).is_none() {
            return Err(PodComError::Unauthorized);
        }
        let agent_key = derive_agent_key(&caller);
        let pi = match self.find_participant(channel_key, &agent_key) {
            Some(i) => i,
            None => {
                return Err(PodComError::NotInChannel);
            },
        };
        proof {
            lemma_participant_index_unique(*self, channel_key@, agent_key@, pi as int);
        }
        if !self.participants[pi].is_active {
            return Err(PodComError::NotInChannel);
        }
        if self.find_channel_message(channel_key, &agent_key, nonce).is_some() {
            return Err(PodComError::DuplicateRecord);
        }
        if content.len() > MAX_MESSAGE_CONTENT_LENGTH {
            return Err(PodComError::MessageContentTooLong);
        }
        let counters = match apply_rate_limit(
            self.participants[pi].messages_sent,
            self.participants[pi].last_message_at,
            now,
        ) {
            Ok(c) => c,
            Err(e) => {
                return Err(e);
            },
        };
        let ghost pre = *self;
        let p = &mut self.participants[pi];
        p.messages_sent = counters.0;
        p.last_message_at = counters.1;
        let record = StoredChannelMessage {
            nonce,
            message: ChannelMessage {
                channel: copy_bytes(channel_key),
                sender: agent_key,
                content,
                message_type,
                created_at: now,
                edited_at: None,
                reply_to,
            },
        };
        self.channel_messages.push(record);
        proof {
            let post = *self;
            assert forall|i: int, j: int| 0 <= i < j < post.participants@.len() implies !((
            #[trigger] post.participants@[i]).channel@ == (#[trigger] post.participants@[j]).channel@
                && post.participants@[i].participant@ == post.participants@[j].participant@) by {
                assert(post.participants@[i].channel@ == pre.participants@[i].channel@
                    && post.participants@[i].participant@ == pre.participants@[i].participant@);
                assert(post.participants@[j].channel@ == pre.participants@[j].channel@
                    && post.participants@[j].participant@ == pre.participants@[j].participant@);
            }
            assert forall|i: int, j: int| 0 <= i < j < post.channel_messages@.len() implies !((
            #[trigger] post.channel_messages@[i]).message.channel@ == (
            #[trigger] post.channel_messages@[j]).message.channel@
                && post.channel_messages@[i].message.sender@
                == post.channel_messages@[j].message.sender@ && post.channel_messages@[i].nonce
                == post.channel_messages@[j].nonce) by {
                if j < pre.channel_messages@.len() {
                    assert(post.channel_messages@[i] == pre.channel_messages@[i]);
                    assert(post.channel_messages@[j] == pre.channel_messages@[j]);
                } else {
                    assert(post.channel_messages@[i] == pre.channel_messages@[i]);
                }
            }
            assert forall|i: int| 0 <= i < post.participants@.len() implies has_channel(
                post.channels@,
                (#[trigger] post.participants@[i]).channel@,
            ) by {
                let x = post.participants@[i].channel@;
                assert(x == pre.participants@[i].channel@);
                let w = choose|k: int|
                    0 <= k < pre.channels@.len() && (#[trigger] pre.channels@[k]).key@ == x;
                assert(post.channels@[w].key@ == x);
            }
            assert(post.participants@ =~= pre.participants@.update(
                pi as int,
                post.participants@[pi as int],
            ));
            assert forall|i: int| 0 <= i < post.channels@.len() implies {
                let ce = #[trigger] post.channels@[i];
                &&& crate::state::escrow_sum(post.escrows@, ce.key@)
                    == ce.account.escrow_balance as int
                &&& crate::state::active_count(post.participants@, ce.key@)
                    <= ce.account.current_participants as int
                &&& ce.account.current_participants <= ce.account.max_participants
            } by {
                let ce = post.channels@[i];
                lemma_active_count_update(
                    pre.participants@,
                    ce.key@,
                    pi as int,
                    post.participants@[pi as int],
                );
            }
            assert forall|i: int| 0 <= i < post.participants@.len() implies (
            #[trigger] post.participants@[i]).last_message_at >= 0 by {
                if i != pi as int {
                    assert(post.participants@[i] == pre.participants@[i]);
                }
            }
            assert(post.wf());
        }
        Ok(())
    }
}

} // verus!
