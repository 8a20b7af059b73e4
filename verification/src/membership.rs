use vstd::prelude::*;
use crate::bytes::copy_bytes;
use crate::errors::PodComError;
use crate::keys::{agent_key_spec, derive_agent_key};
use crate::records::{ChannelInvitation, ChannelJoined, ChannelParticipant};
use crate::state::{
    channel_index_of, channel_with_count, has_agent, has_channel, has_invitation, has_participant,
    invitation_index_of, invitation_usable, lemma_active_count_ge_one, lemma_active_count_push,
    lemma_active_count_update, lemma_channel_index_unique, lemma_invitation_index_unique,
    lemma_participant_index_unique, participant_index_of, participant_is_active, same_state,
    ProtocolState,
};
use crate::types::{ChannelVisibility, EXPIRATION_SECONDS};

verus! {

/// `post` is `pre` marked accepted, every other field untouched. A spent
/// invitation can never satisfy `invitation_usable` again.
pub open spec fn invitation_spent(pre: ChannelInvitation, post: ChannelInvitation) -> bool {
    &&& post.channel@ == pre.channel@
    &&& post.inviter@ == pre.inviter@
    &&& post.invitee@ == pre.invitee@
    &&& post.created_at == pre.created_at
    &&& post.expires_at == pre.expires_at
    &&& post.is_accepted
}

/// `post` is `pre` marked inactive, every counter and identity untouched.
pub open spec fn participant_deactivated(
    pre: ChannelParticipant,
    post: ChannelParticipant,
) -> bool {
    &&& post.channel@ == pre.channel@
    &&& post.participant@ == pre.participant@
    &&& post.joined_at == pre.joined_at
    &&& !post.is_active
    &&& post.messages_sent == pre.messages_sent
    &&& post.last_message_at == pre.last_message_at
}

impl ProtocolState {
    /// Joins the caller's agent to the channel at `channel_key`.
    ///
    /// The caller must be a registered agent without a membership record in
    /// this channel, the channel must have room, and a private channel
    /// additionally demands an invitation for this agent that is not yet
    /// accepted and not expired — the join consumes it, so it can never be
    /// used again. The new membership starts active with fresh
    /// rate-limiter counters.
    pub fn join_channel(&mut self, channel_key: &Vec<u8>, caller: [u8; 32], now: i64) -> (r: Result<
        ChannelJoined,
        PodComError,
    >)
        requires
            old(self).wf(),
        ensures
            final(self).wf(),
            r is Err ==> same_state(*old(self), *final(self)),
            !has_channel(old(self).channels@, channel_key@) ==> r == Err::<
                ChannelJoined,
                PodComError,
            >(PodComError::NotInChannel),
            has_channel(old(self).channels@, channel_key@) && !has_agent(
                old(self).agents@,
                caller@,
            ) ==> r == Err::<ChannelJoined, PodComError>(PodComError::Unauthorized),
            has_channel(old(self).channels@, channel_key@) && has_agent(old(self).agents@, caller@)
                && has_participant(
                old(self).participants@,
                channel_key@,
                agent_key_spec(caller@),
            ) ==> r == Err::<ChannelJoined, PodComError>(PodComError::AlreadyInChannel),
            has_channel(old(self).channels@, channel_key@) && has_agent(old(self).agents@, caller@)
                && !has_participant(old(self).participants@, channel_key@, agent_key_spec(caller@))
                && old(self).channels@[channel_index_of(
                old(self).channels@,
                channel_key@,
            )].account.current_participants >= old(self).channels@[channel_index_of(
                old(self).channels@,
                channel_key@,
            )].account.max_participants ==> r == Err::<ChannelJoined, PodComError>(
                PodComError::ChannelFull,
            ),
            r is Ok <==> has_channel(old(self).channels@, channel_key@) && has_agent(
                old(self).agents@,
                caller@,
            ) && !has_participant(old(self).participants@, channel_key@, agent_key_spec(caller@))
                && old(self).channels@[channel_index_of(
                old(self).channels@,
                channel_key@,
            )].account.current_participants < old(self).channels@[channel_index_of(
                old(self).channels@,
                channel_key@,
            )].account.max_participants && (old(self).channels@[channel_index_of(
                old(self).channels@,
                channel_key@,
            )].account.visibility == ChannelVisibility::Private ==> invitation_usable(
                old(self).invitations@,
                channel_key@,
                agent_key_spec(caller@),
                now,
            )),
            r is Ok ==> {
                let p = final(self).participants@.last();
                &&& final(self).participants@ == old(self).participants@.push(p)
                &&& p.channel@ == channel_key@
                &&& p.participant@ == agent_key_spec(caller@)
                &&& p.joined_at == now
                &&& p.is_active
                &&& p.messages_sent == 0
                &&& p.last_message_at == 0
            },
            r is Ok ==> {
                let ci = channel_index_of(old(self).channels@, channel_key@);
                &&& final(self).channels@.len() == old(self).channels@.len()
                &&& channel_with_count(
                    old(self).channels@[ci],
                    final(self).channels@[ci],
                    old(self).channels@[ci].account.current_participants + 1,
                )
                &&& forall|j: int|
                    0 <= j < old(self).channels@.len() && j != ci ==> final(self).channels@[j]
                        == old(self).channels@[j]
            },
            r is Ok && old(self).channels@[channel_index_of(
                old(self).channels@,
                channel_key@,
            )].account.visibility == ChannelVisibility::Private ==> {
                let ii = invitation_index_of(
                    old(self).invitations@,
                    channel_key@,
                    agent_key_spec(caller@),
                );
                &&& final(self).invitations@.len() == old(self).invitations@.len()
                &&& invitation_spent(old(self).invitations@[ii], final(self).invitations@[ii])
                &&& forall|j: int|
                    0 <= j < old(self).invitations@.len() && j != ii ==> final(self).invitations@[j]
                        == old(self).invitations@[j]
            },
            r is Ok && old(self).channels@[channel_index_of(
                old(self).channels@,
                channel_key@,
            )].account.visibility == ChannelVisibility::Public ==> final(self).invitations@ == old(
                self,
            ).invitations@,
            final(self).agents@ == old(self).agents@,
            final(self).messages@ == old(self).messages@,
            final(self).channel_messages@ == old(self).channel_messages@,
            final(self).escrows@ == old(self).escrows@,
            r matches Ok(ev) ==> ev.channel@ == channel_key@ && ev.participant@ == agent_key_spec(
                caller@,
            ) && ev.timestamp == now,
    {
        let ci = match self.find_channel(channel_key) {
            Some(i) => i,
            None => {
                return Err(PodComError::NotInChannel);
            },
        };
        proof {
            lemma_channel_index_unique(*self, channel_key@, ci as int);
        }
        if self.find_agent(&caller).is_none() {
            return Err(PodComError::Unauthorized);
        }
        let agent_key = derive_agent_key(&caller);
        if self.find_participant(channel_key, &agent_key).is_some() {
            return Err(PodComError::AlreadyInChannel);
        }
        let current = self.channels[ci].account.current_participants;
        let maxp = self.channels[ci].account.max_participants;
        if current >= maxp {
            return Err(PodComError::ChannelFull);
        }
        let is_private = self.channels[ci].account.visibility == ChannelVisibility::Private;
        let mut invitation_idx: Option<usize> = None;
        if is_private {
            match self.find_invitation(channel_key, &agent_key) {
                None => {
                    return Err(PodComError::PrivateChannelRequiresInvitation);
                },
                Some(ii) => {
                    proof {
                        lemma_invitation_index_unique(*self, channel_key@, agent_key@, ii as int);
                    }
                    if self.invitations[ii].is_accepted || now > self.invitations[ii].expires_at {
                        return Err(PodComError::PrivateChannelRequiresInvitation);
                    }
                    invitation_idx = Some(ii);
                },
            }
        }
        let ghost pre = *self;
        let record = ChannelParticipant {
            channel: copy_bytes(channel_key),
            participant: copy_bytes(&agent_key),
            joined_at: now,
            is_active: true,
            messages_sent: 0,
            last_message_at: 0,
        };
        self.participants.push(record);
        let c = &mut self.channels[ci];
        c.account.current_participants = current + 1;
        match invitation_idx {
            Some(ii) => {
                let inv = &mut self.invitations[ii];
                inv.is_accepted = true;
            },
            None => {},
        }
        proof {
            let post = *self;
            let ck = channel_key@;
            assert forall|i: int, j: int| 0 <= i < j < post.participants@.len() implies !((
            #[trigger] post.participants@[i]).channel@ == (#[trigger] post.participants@[j]).channel@
                && post.participants@[i].participant@ == post.participants@[j].participant@) by {
                if j < pre.participants@.len() {
                    assert(post.participants@[i] == pre.participants@[i]);
                    assert(post.participants@[j] == pre.participants@[j]);
                } else {
                    assert(post.participants@[i] == pre.participants@[i]);
                    assert(!has_participant(pre.participants@, ck, agent_key@));
                }
            }
            assert forall|i: int, j: int| 0 <= i < j < post.channels@.len() implies (
            #[trigger] post.channels@[i]).key@ != (#[trigger] post.channels@[j]).key@ by {
                assert(post.channels@[i].key@ == pre.channels@[i].key@);
                assert(post.channels@[j].key@ == pre.channels@[j].key@);
            }
            assert forall|i: int, j: int| 0 <= i < j < post.invitations@.len() implies !((
            #[trigger] post.invitations@[i]).channel@ == (#[trigger] post.invitations@[j]).channel@
                && post.invitations@[i].invitee@ == post.invitations@[j].invitee@) by {
                assert(post.invitations@[i].channel@ == pre.invitations@[i].channel@
                    && post.invitations@[i].invitee@ == pre.invitations@[i].invitee@);
                assert(post.invitations@[j].channel@ == pre.invitations@[j].channel@
                    && post.invitations@[j].invitee@ == pre.invitations@[j].invitee@);
            }
            assert forall|i: int| 0 <= i < post.participants@.len() implies has_channel(
                post.channels@,
                (#[trigger] post.participants@[i]).channel@,
            ) by {
                let x = post.participants@[i].channel@;
                if i < pre.participants@.len() {
                    assert(x == pre.participants@[i].channel@);
                    let w = choose|k: int|
                        0 <= k < pre.channels@.len() && (#[trigger] pre.channels@[k]).key@ == x;
                    assert(post.channels@[w].key@ == x);
                } else {
                    assert(post.channels@[ci as int].key@ == x);
                }
            }
            assert forall|i: int| 0 <= i < post.invitations@.len() implies has_channel(
                post.channels@,
                (#[trigger] post.invitations@[i]).channel@,
            ) by {
                let x = post.invitations@[i].channel@;
                assert(x == pre.invitations@[i].channel@);
                let w = choose|k: int|
                    0 <= k < pre.channels@.len() && (#[trigger] pre.channels@[k]).key@ == x;
                assert(post.channels@[w].key@ == x);
            }
            assert forall|i: int| 0 <= i < post.escrows@.len() implies has_channel(
                post.channels@,
                (#[trigger] post.escrows@[i]).channel@,
            ) by {
                let x = post.escrows@[i].channel@;
                let w = choose|k: int|
                    0 <= k < pre.channels@.len() && (#[trigger] pre.channels@[k]).key@ == x;
                assert(post.channels@[w].key@ == x);
            }
            assert forall|i: int| 0 <= i < post.channels@.len() implies {
                let ce = #[trigger] post.channels@[i];
                &&& crate::state::escrow_sum(post.escrows@, ce.key@)
                    == ce.account.escrow_balance as int
                &&& crate::state::active_count(post.participants@, ce.key@)
                    <= ce.account.current_participants as int
                &&& ce.account.current_participants <= ce.account.max_participants
            } by {
                let ce = post.channels@[i];
                lemma_active_count_push(pre.participants@, ce.key@, post.participants@.last());
                if i != ci as int {
                    assert(ce == pre.channels@[i]);
                    assert(ce.key@ != ck);
                }
            }
            assert forall|i: int| 0 <= i < post.participants@.len() implies (
            #[trigger] post.participants@[i]).last_message_at >= 0 by {
                if i < pre.participants@.len() {
                    assert(post.participants@[i] == pre.participants@[i]);
                }
            }
            assert(post.wf());
        }
        Ok(ChannelJoined { channel: copy_bytes(channel_key), participant: agent_key, timestamp: now })
    }

    /// Removes the caller's agent from the channel at `channel_key`.
    ///
    /// The membership record stays, marked inactive, with its counters
    /// intact; the channel's participant count drops by one. The count can
    /// never underflow: an active membership record forces it to be
    /// positive.
    pub fn leave_channel(&mut self, channel_key: &Vec<u8>, caller: [u8; 32]) -> (r: Result<
        (),
        PodComError,
    >)
        requires
            old(self).wf(),
        ensures
            final(self).wf(),
            r is Err ==> same_state(*old(self), *final(self)),
            !has_channel(old(self).channels@, channel_key@) ==> r == Err::<(), PodComError>(
                PodComError::NotInChannel,
            ),
            has_channel(old(self).channels@, channel_key@) && !has_agent(
                old(self).agents@,
                caller@,
            ) ==> r == Err::<(), PodComError>(PodComError::Unauthorized),
            has_channel(old(self).channels@, channel_key@) && has_agent(old(self).agents@, caller@)
                && !participant_is_active(
                old(self).participants@,
                channel_key@,
                agent_key_spec(caller@),
            ) ==> r == Err::<(), PodComError>(PodComError::NotInChannel),
            r is Ok <==> has_channel(old(self).channels@, channel_key@) && has_agent(
                old(self).agents@,
                caller@,
            ) && participant_is_active(
                old(self).participants@,
                channel_key@,
                agent_key_spec(caller@),
            ),
            r is Ok ==> {
                let pi = participant_index_of(
                    old(self).participants@,
                    channel_key@,
                    agent_key_spec(caller@),
                );
                &&& final(self).participants@.len() == old(self).participants@.len()
                &&& participant_deactivated(
                    old(self).participants@[pi],
                    final(self).participants@[pi],
                )
                &&& forall|j: int|
                    0 <= j < old(self).participants@.len() && j != pi
                        ==> final(self).participants@[j] == old(self).participants@[j]
            },
            r is Ok ==> {
                let ci = channel_index_of(old(self).channels@, channel_key@);
                &&& final(self).channels@.len() == old(self).channels@.len()
                &&& old(self).channels@[ci].account.current_participants >= 1
                &&& channel_with_count(
                    old(self).channels@[ci],
                    final(self).channels@[ci],
                    old(self).channels@[ci].account.current_participants - 1,
                )
                &&& forall|j: int|
                    0 <= j < old(self).channels@.len() && j != ci ==> final(self).channels@[j]
                        == old(self).channels@[j]
            },
            final(self).agents@ == old(self).agents@,
            final(self).messages@ == old(self).messages@,
            final(self).invitations@ == old(self).invitations@,
            final(self).channel_messages@ == old(self).channel_messages@,
            final(self).escrows@ == old(self).escrows@,
    {
        let ci = match self.find_channel(channel_key) {
            Some(i) => i,
            None => {
                return Err(PodComError::NotInChannel);
            },
        };
        proof {
            lemma_channel_index_unique(*self, channel_key@, ci as int);
        }
        if self.find_agent(&caller).is_none() {
            return Err(PodComError::Unauthorized);
        }
        let agent_key = derive_agent_key(&caller);
        let pi = match self.find_participant(channel_key, &agent_key) {
            Some(i) => i,
            None => {
                return Err(PodComError::NotInChannel);
            },
        };
        proof {
            lemma_participant_index_unique(*self, channel_key@, agent_key@, pi as int);
        }
        if !self.participants[pi].is_active {
            return Err(PodComError::NotInChannel);
        }
        proof {
            lemma_active_count_ge_one(self.participants@, channel_key@, pi as int);
        }
        let ghost pre = *self;
        let current = self.channels[ci].account.current_participants;
        let p = &mut self.participants[pi];
        p.is_active = false;
        let c = &mut self.channels[ci];
        c.account.current_participants = current - 1;
        proof {
            let post = *self;
            let ck = channel_key@;
            assert forall|i: int, j: int| 0 <= i < j < post.participants@.len() implies !((
            #[trigger] post.participants@[i]).channel@ == (#[trigger] post.participants@[j]).channel@
                && post.participants@[i].participant@ == post.participants@[j].participant@) by {
                assert(post.participants@[i].channel@ == pre.participants@[i].channel@
                    && post.participants@[i].participant@ == pre.participants@[i].participant@);
                assert(post.participants@[j].channel@ == pre.participants@[j].channel@
                    && post.participants@[j].participant@ == pre.participants@[j].participant@);
            }
            assert forall|i: int, j: int| 0 <= i < j < post.channels@.len() implies (
            #[trigger] post.channels@[i]).key@ != (#[trigger] post.channels@[j]).key@ by {
                assert(post.channels@[i].key@ == pre.channels@[i].key@);
                assert(post.channels@[j].key@ == pre.channels@[j].key@);
            }
            assert forall|i: int| 0 <= i < post.participants@.len() implies has_channel(
                post.channels@,
                (#[trigger] post.participants@[i]).channel@,
            ) by {
                let x = post.participants@[i].channel@;
                assert(x == pre.participants@[i].channel@);
                let w = choose|k: int|
                    0 <= k < pre.channels@.len() && (#[trigger] pre.channels@[k]).key@ == x;
                assert(post.channels@[w].key@ == x);
            }
            assert forall|i: int| 0 <= i < post.invitations@.len() implies has_channel(
                post.channels@,
                (#[trigger] post.invitations@[i]).channel@,
            ) by {
                let x = post.invitations@[i].channel@;
                let w = choose|k: int|
                    0 <= k < pre.channels@.len() && (#[trigger] pre.channels@[k]).key@ == x;
                assert(post.channels@[w].key@ == x);
            }
            assert forall|i: int| 0 <= i < post.escrows@.len() implies has_channel(
                post.channels@,
                (#[trigger] post.escrows@[i]).channel@,
            ) by {
                let x = post.escrows@[i].channel@;
                let w = choose|k: int|
                    0 <= k < pre.channels@.len() && (#[trigger] pre.channels@[k]).key@ == x;
                assert(post.channels@[w].key@ == x);
            }
            assert(post.participants@ =~= pre.participants@.update(
                pi as int,
                post.participants@[pi as int],
            ));
            assert forall|i: int| 0 <= i < post.channels@.len() implies {
                let ce = #[trigger] post.channels@[i];
                &&& crate::state::escrow_sum(post.escrows@, ce.key@)
                    == ce.account.escrow_balance as int
                &&& crate::state::active_count(post.participants@, ce.key@)
                    <= ce.account.current_participants as int
                &&& ce.account.current_participants <= ce.account.max_participants
            } by {
                let ce = post.channels@[i];
                lemma_active_count_update(
                    pre.participants@,
                    ce.key@,
                    pi as int,
                    post.participants@[pi as int],
                );
                if i != ci as int {
                    assert(ce == pre.channels@[i]);
                    assert(ce.key@ != ck);
                }
            }
            assert forall|i: int| 0 <= i < post.participants@.len() implies (
            #[trigger] post.participants@[i]).last_message_at >= 0 by {
                assert(post.participants@[i].last_message_at
                    == pre.participants@[i].last_message_at);
            }
            assert(post.wf());
        }
        Ok(())
    }

    /// Invites `invitee` — an agent identity — into the channel at
    /// `channel_key`.
    ///
    /// The inviter must be a registered agent and either the channel's
    /// creator or an active member. One invitation per invitee and channel:
    /// a second one lands on the occupied derived key. The invitation
    /// starts unaccepted and expires `EXPIRATION_SECONDS` after creation.
    pub fn invite_to_channel(
        &mut self,
        channel_key: &Vec<u8>,
        inviter: [u8; 32],
        invitee: Vec<u8>,
        now: i64,
    ) -> (r: Result<(), PodComError>)
        requires
            old(self).wf(),
            0 <= now,
            now <= i64::MAX - EXPIRATION_SECONDS,
        ensures
            final(self).wf(),
            r is Err ==> same_state(*old(self), *final(self)),
            !has_channel(old(self).channels@, channel_key@) ==> r == Err::<(), PodComError>(
                PodComError::NotInChannel,
            ),
            has_channel(old(self).channels@, channel_key@) && !has_agent(
                old(self).agents@,
                inviter@,
            ) ==> r == Err::<(), PodComError>(PodComError::Unauthorized),
            has_channel(old(self).channels@, channel_key@) && has_agent(old(self).agents@, inviter@)
                && !(old(self).channels@[channel_index_of(
                old(self).channels@,
                channel_key@,
            )].account.creator@ == inviter@ || participant_is_active(
                old(self).participants@,
                channel_key@,
                agent_key_spec(inviter@),
            )) ==> r == Err::<(), PodComError>(PodComError::Unauthorized),
            r is Ok <==> has_channel(old(self).channels@, channel_key@) && has_agent(
                old(self).agents@,
                inviter@,
            ) && (old(self).channels@[channel_index_of(
                old(self).channels@,
                channel_key@,
            )].account.creator@ == inviter@ || participant_is_active(
                old(self).participants@,
                channel_key@,
                agent_key_spec(inviter@),
            )) && !has_invitation(old(self).invitations@, channel_key@, invitee@),
            r is Ok ==> {
                let inv = final(self).invitations@.last();
                &&& final(self).invitations@ == old(self).invitations@.push(inv)
                &&& inv.channel@ == channel_key@
                &&& inv.inviter@ == inviter@
                &&& inv.invitee@ == invitee@
                &&& inv.created_at == now
                &&& inv.expires_at == now + EXPIRATION_SECONDS
                &&& !inv.is_accepted
            },
            final(self).agents@ == old(self).agents@,
            final(self).messages@ == old(self).messages@,
            final(self).channels@ == old(self).channels@,
            final(self).participants@ == old(self).participants@,
            final(self).channel_messages@ == old(self).channel_messages@,
            final(self).escrows@ == old(self).escrows@,
    {
        let ci = match self.find_channel(channel_key) {
            Some(i) => i,
            None => {
                return Err(PodComError::NotInChannel);
            },
        };
        proof {
            lemma_channel_index_unique(*self, channel_key@, ci as int);
        }
        if self.find_agent(&inviter).is_none() {
            return Err(PodComError::Unauthorized);
        }
        if !crate::bytes::id_eq(&inviter, &self.channels[ci].account.creator) {
            let inviter_key = derive_agent_key(&inviter);
            match self.find_participant(channel_key, &inviter_key) {
                None => {
                    return Err(PodComError::Unauthorized);
                },
                Some(pi) => {
                    proof {
                        lemma_participant_index_unique(
                            *self,
                            channel_key@,
                            inviter_key@,
                            pi as int,
                        );
                    }
                    if !self.participants[pi].is_active {
                        return Err(PodComError::Unauthorized);
                    }
                },
            }
        }
        if self.find_invitation(channel_key, &invitee).is_some() {
            return Err(PodComError::DuplicateRecord);
        }
        let ghost pre = *self;
        let record = ChannelInvitation {
            channel: copy_bytes(channel_key),
            inviter,
            invitee,
            created_at: now,
            expires_at: now + EXPIRATION_SECONDS,
            is_accepted: false,
        };
        self.invitations.push(record);
        proof {
            let post = *self;
            let ck = channel_key@;
            assert forall|i: int, j: int| 0 <= i < j < post.invitations@.len() implies !((
            #[trigger] post.invitations@[i]).channel@ == (#[trigger] post.invitations@[j]).channel@
                && post.invitations@[i].invitee@ == post.invitations@[j].invitee@) by {
                if j < pre.invitations@.len() {
                    assert(post.invitations@[i] == pre.invitations@[i]);
                    assert(post.invitations@[j] == pre.invitations@[j]);
                } else {
                    assert(post.invitations@[i] == pre.invitations@[i]);
                }
            }
            assert forall|i: int| 0 <= i < post.invitations@.len() implies has_channel(
                post.channels@,
                (#[trigger] post.invitations@[i]).channel@,
            ) by {
                let x = post.invitations@[i].channel@;
                if i < pre.invitations@.len() {
                    assert(post.invitations@[i] == pre.invitations@[i]);
                } else {
                    assert(post.channels@[ci as int].key@ == x);
                }
            }
            assert(post.wf());
        }
        Ok(())
    }
}

} // verus!
