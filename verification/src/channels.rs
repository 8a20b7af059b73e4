use vstd::prelude::*;
use crate::bytes::{copy_bytes, id_eq};
use crate::errors::PodComError;
use crate::keys::{agent_key_spec, channel_key_spec, derive_agent_key, derive_channel_key};
use crate::records::{ChannelAccount, ChannelCreated, ChannelEntry, ChannelParticipant};
use crate::state::{
    channel_index_of, has_agent, has_channel, lemma_active_count_absent, lemma_active_count_push,
    lemma_channel_index_unique, lemma_escrow_sum_absent, same_state, ProtocolState,
};
use crate::types::{
    is_blank, is_blank_bytes, trim_bytes, trimmed, ChannelVisibility, MAX_CHANNEL_DESCRIPTION_LENGTH,
    MAX_CHANNEL_NAME_LENGTH, MAX_FEE_PER_MESSAGE, MAX_PARTICIPANTS_PER_CHANNEL,
    MIN_REPUTATION_FOR_CHANNELS,
};

verus! {

/// Inputs every channel creation validates: a non-blank name of at most
/// `MAX_CHANNEL_NAME_LENGTH` bytes, a description of at most
/// `MAX_CHANNEL_DESCRIPTION_LENGTH` bytes, a capacity between one and
/// `MAX_PARTICIPANTS_PER_CHANNEL`, and a fee of at most
/// `MAX_FEE_PER_MESSAGE`.
pub open spec fn channel_inputs_ok(
    name: Seq<u8>,
    description: Seq<u8>,
    max_participants: u32,
    fee_per_message: u64,
) -> bool {
    &&& !is_blank(name)
    &&& name.len() <= MAX_CHANNEL_NAME_LENGTH
    &&& description.len() <= MAX_CHANNEL_DESCRIPTION_LENGTH
    &&& 1 <= max_participants <= MAX_PARTICIPANTS_PER_CHANNEL
    &&& fee_per_message <= MAX_FEE_PER_MESSAGE
}

/// What a fresh channel record looks like. The stored name and description
/// are the trimmed inputs; the key is derived from the creator and the
/// trimmed name and never changes afterwards, even if the name does.
pub open spec fn fresh_channel(
    e: ChannelEntry,
    creator: Seq<u8>,
    name: Seq<u8>,
    description: Seq<u8>,
    visibility: ChannelVisibility,
    max_participants: u32,
    fee_per_message: u64,
    now: i64,
    active: bool,
) -> bool {
    &&& e.key@ == channel_key_spec(creator, trimmed(name))
    &&& e.account.creator@ == creator
    &&& e.account.name@ == trimmed(name)
    &&& e.account.description@ == trimmed(description)
    &&& e.account.visibility == visibility
    &&& e.account.max_participants == max_participants
    &&& e.account.current_participants == 1
    &&& e.account.fee_per_message == fee_per_message
    &&& e.account.escrow_balance == 0
    &&& e.account.created_at == now
    &&& e.account.is_active == active
}

/// `post` is `pre` with each supplied field replaced and everything else,
/// the derived key above all, untouched.
pub open spec fn channel_after_update(
    pre: ChannelEntry,
    post: ChannelEntry,
    name: Option<Vec<u8>>,
    description: Option<Vec<u8>>,
    max_participants: Option<u32>,
    fee_per_message: Option<u64>,
    is_active: Option<bool>,
) -> bool {
    &&& post.key@ == pre.key@
    &&& post.account.creator@ == pre.account.creator@
    &&& post.account.name@ == (match name {
        Some(n) => n@,
        None => pre.account.name@,
    })
    &&& post.account.description@ == (match description {
        Some(d) => d@,
        None => pre.account.description@,
    })
    &&& post.account.visibility == pre.account.visibility
    &&& post.account.max_participants == (match max_participants {
        Some(m) => m,
        None => pre.account.max_participants,
    })
    &&& post.account.current_participants == pre.account.current_participants
    &&& post.account.fee_per_message == (match fee_per_message {
        Some(f) => f,
        None => pre.account.fee_per_message,
    })
    &&& post.account.escrow_balance == pre.account.escrow_balance
    &&& post.account.created_at == pre.account.created_at
    &&& post.account.is_active == (match is_active {
        Some(a) => a,
        None => pre.account.is_active,
    })
}

impl ProtocolState {
    /// Creates a channel for the signer `creator`, who is counted as its
    /// first participant without a membership record of their own.
    ///
    /// The stored name and description are the trimmed inputs; the length
    /// bounds apply to the inputs as given. A second channel by the same
    /// creator under the same trimmed name lands on the occupied derived
    /// key. The channel starts with an empty escrow and inactive; the
    /// membership-enrolling variant `create_channel_v2` starts active.
    pub fn create_channel(
        &mut self,
        creator: [u8; 32],
        name: Vec<u8>,
        description: Vec<u8>,
        visibility: ChannelVisibility,
        max_participants: u32,
        fee_per_message: u64,
        now: i64,
    ) -> (r: Result<ChannelCreated, PodComError>)
        requires
            old(self).wf(),
        ensures
            final(self).wf(),
            r is Err ==> same_state(*old(self), *final(self)),
            (is_blank(name@) || name@.len() > MAX_CHANNEL_NAME_LENGTH) ==> r == Err::<
                ChannelCreated,
                PodComError,
            >(PodComError::ChannelNameTooLong),
            !is_blank(name@) && name@.len() <= MAX_CHANNEL_NAME_LENGTH && description@.len()
                > MAX_CHANNEL_DESCRIPTION_LENGTH ==> r == Err::<ChannelCreated, PodComError>(
                PodComError::ChannelDescriptionTooLong,
            ),
            !is_blank(name@) && name@.len() <= MAX_CHANNEL_NAME_LENGTH && description@.len()
                <= MAX_CHANNEL_DESCRIPTION_LENGTH && (max_participants == 0 || max_participants
                > MAX_PARTICIPANTS_PER_CHANNEL) ==> r == Err::<ChannelCreated, PodComError>(
                PodComError::ChannelFull,
            ),
            !is_blank(name@) && name@.len() <= MAX_CHANNEL_NAME_LENGTH && description@.len()
                <= MAX_CHANNEL_DESCRIPTION_LENGTH && 1 <= max_participants
                <= MAX_PARTICIPANTS_PER_CHANNEL && fee_per_message > MAX_FEE_PER_MESSAGE ==> r
                == Err::<ChannelCreated, PodComError>(PodComError::InsufficientFunds),
            channel_inputs_ok(name@, description@, max_participants, fee_per_message)
                && has_channel(old(self).channels@, channel_key_spec(creator@, trimmed(name@)))
                ==> r == Err::<ChannelCreated, PodComError>(PodComError::DuplicateRecord),
            r is Ok <==> channel_inputs_ok(name@, description@, max_participants, fee_per_message)
                && !has_channel(old(self).channels@, channel_key_spec(creator@, trimmed(name@))),
            r is Ok ==> {
                let e = final(self).channels@.last();
                &&& final(self).channels@ == old(self).channels@.push(e)
                &&& fresh_channel(
                    e,
                    creator@,
                    name@,
                    description@,
                    visibility,
                    max_participants,
                    fee_per_message,
                    now,
                    false,
                )
            },
            final(self).agents@ == old(self).agents@,
            final(self).messages@ == old(self).messages@,
            final(self).participants@ == old(self).participants@,
            final(self).invitations@ == old(self).invitations@,
            final(self).channel_messages@ == old(self).channel_messages@,
            final(self).escrows@ == old(self).escrows@,
            r matches Ok(ev) ==> ev.channel@ == channel_key_spec(creator@, trimmed(name@))
                && ev.creator@ == creator@ && ev.name@ == trimmed(name@) && ev.visibility
                == visibility && ev.timestamp == now,
    {
        if is_blank_bytes(&name) || name.len() > MAX_CHANNEL_NAME_LENGTH {
            return Err(PodComError::ChannelNameTooLong);
        }
        if description.len() > MAX_CHANNEL_DESCRIPTION_LENGTH {
            return Err(PodComError::ChannelDescriptionTooLong);
        }
        if max_participants == 0 || max_participants > MAX_PARTICIPANTS_PER_CHANNEL {
            return Err(PodComError::ChannelFull);
        }
        if fee_per_message > MAX_FEE_PER_MESSAGE {
            return Err(PodComError::InsufficientFunds);
        }
        let trimmed_name = trim_bytes(&name);
        let trimmed_description = trim_bytes(&description);
        let key = derive_channel_key(&creator, &trimmed_name);
        if self.find_channel(&key).is_some() {
            return Err(PodComError::DuplicateRecord);
        }
        let ghost pre = *self;
        let event = ChannelCreated {
            channel: copy_bytes(&key),
            creator,
            name: copy_bytes(&trimmed_name),
            visibility,
            timestamp: now,
        };
        let entry = ChannelEntry {
            key,
            account: ChannelAccount {
                creator,
                name: trimmed_name,
                description: trimmed_description,
                visibility,
                max_participants,
                current_participants: 1,
                fee_per_message,
                escrow_balance: 0,
                created_at: now,
                is_active: false,
            },
        };
        self.channels.push(entry);
        proof {
            assert(self.channels@.subrange(0, pre.channels@.len() as int) =~= pre.channels@);
            self.lemma_wf_after_channel_push(pre);
        }
        Ok(event)
    }

    /// Creates a channel and atomically enrolls the creator's agent as its
    /// first member, active from the start.
    ///
    /// Beyond the validation of `create_channel`, the creator must be a
    /// registered agent with reputation at least
    /// `MIN_REPUTATION_FOR_CHANNELS`. The channel starts active.
    pub fn create_channel_v2(
        &mut self,
        creator: [u8; 32],
        name: Vec<u8>,
        description: Vec<u8>,
        visibility: ChannelVisibility,
        max_participants: u32,
        fee_per_message: u64,
        now: i64,
    ) -> (r: Result<ChannelCreated, PodComError>)
        requires
            old(self).wf(),
        ensures
            final(self).wf(),
            r is Err ==> same_state(*old(self), *final(self)),
            !has_agent(old(self).agents@, creator@) ==> r == Err::<ChannelCreated, PodComError>(
                PodComError::Unauthorized,
            ),
            (has_agent(old(self).agents@, creator@) && (exists|i: int|
                0 <= i < old(self).agents@.len() && (#[trigger] old(self).agents@[i]).pubkey@
                    == creator@ && old(self).agents@[i].reputation < MIN_REPUTATION_FOR_CHANNELS))
                ==> r == Err::<ChannelCreated, PodComError>(PodComError::InsufficientReputation),
            r is Ok <==> (exists|i: int|
                0 <= i < old(self).agents@.len() && (#[trigger] old(self).agents@[i]).pubkey@
                    == creator@ && old(self).agents@[i].reputation
                    >= MIN_REPUTATION_FOR_CHANNELS) && channel_inputs_ok(
                name@,
                description@,
                max_participants,
                fee_per_message,
            ) && !has_channel(old(self).channels@, channel_key_spec(creator@, trimmed(name@))),
            r is Ok ==> {
                let e = final(self).channels@.last();
                &&& final(self).channels@ == old(self).channels@.push(e)
                &&& fresh_channel(
                    e,
                    creator@,
                    name@,
                    description@,
                    visibility,
                    max_participants,
                    fee_per_message,
                    now,
                    true,
                )
            },
            r is Ok ==> {
                let p = final(self).participants@.last();
                &&& final(self).participants@ == old(self).participants@.push(p)
                &&& p.channel@ == channel_key_spec(creator@, trimmed(name@))
                &&& p.participant@ == agent_key_spec(creator@)
                &&& p.joined_at == now
                &&& p.is_active
                &&& p.messages_sent == 0
                &&& p.last_message_at == 0
            },
            final(self).agents@ == old(self).agents@,
            final(self).messages@ == old(self).messages@,
            final(self).invitations@ == old(self).invitations@,
            final(self).channel_messages@ == old(self).channel_messages@,
            final(self).escrows@ == old(self).escrows@,
            r matches Ok(ev) ==> ev.channel@ == channel_key_spec(creator@, trimmed(name@))
                && ev.creator@ == creator@ && ev.name@ == trimmed(name@) && ev.visibility
                == visibility && ev.timestamp == now,
    {
        let ai = match self.find_agent(&creator) {
            Some(i) => i,
            None => {
                return Err(PodComError::Unauthorized);
            },
        };
        if self.agents[ai].reputation < MIN_REPUTATION_FOR_CHANNELS {
            proof {
                assert(0 <= ai < old(self).agents@.len() && (old(self).agents@[ai as int]).pubkey@
                    == creator@ && old(self).agents@[ai as int].reputation
                    < MIN_REPUTATION_FOR_CHANNELS);
            }
            return Err(PodComError::InsufficientReputation);
        }
        proof {
            assert forall|i: int|
                0 <= i < old(self).agents@.len() && (#[trigger] old(self).agents@[i]).pubkey@
                    == creator@ implies old(self).agents@[i].reputation
                >= MIN_REPUTATION_FOR_CHANNELS by {
                if i != ai as int {
                    assert(old(self).agents@[i].pubkey@ != old(self).agents@[ai as int].pubkey@);
                }
            }
        }
        if is_blank_bytes(&name) || name.len() > MAX_CHANNEL_NAME_LENGTH {
            return Err(PodComError::ChannelNameTooLong);
        }
        if description.len() > MAX_CHANNEL_DESCRIPTION_LENGTH {
            return Err(PodComError::ChannelDescriptionTooLong);
        }
        if max_participants == 0 || max_participants > MAX_PARTICIPANTS_PER_CHANNEL {
            return Err(PodComError::ChannelFull);
        }
        if fee_per_message > MAX_FEE_PER_MESSAGE {
            return Err(PodComError::InsufficientFunds);
        }
        let trimmed_name = trim_bytes(&name);
        let trimmed_description = trim_bytes(&description);
        let key = derive_channel_key(&creator, &trimmed_name);
        if self.find_channel(&key).is_some() {
            return Err(PodComError::DuplicateRecord);
        }
        let agent_key = derive_agent_key(&creator);
        let ghost pre = *self;
        let event = ChannelCreated {
            channel: copy_bytes(&key),
            creator,
            name: copy_bytes(&trimmed_name),
            visibility,
            timestamp: now,
        };
        let member = ChannelParticipant {
            channel: copy_bytes(&key),
            participant: agent_key,
            joined_at: now,
            is_active: true,
            messages_sent: 0,
            last_message_at: 0,
        };
        let entry = ChannelEntry {
            key,
            account: ChannelAccount {
                creator,
                name: trimmed_name,
                description: trimmed_description,
                visibility,
                max_participants,
                current_participants: 1,
                fee_per_message,
                escrow_balance: 0,
                created_at: now,
                is_active: true,
            },
        };
        self.channels.push(entry);
        self.participants.push(member);
        proof {
            let post = *self;
            let ck = post.channels@.last().key@;
            assert forall|i: int| 0 <= i < pre.participants@.len() implies (
            #[trigger] pre.participants@[i]).channel@ != ck by {
                if pre.participants@[i].channel@ == ck {
                    assert(has_channel(pre.channels@, ck));
                }
            }
            assert forall|i: int, j: int| 0 <= i < j < post.participants@.len() implies !((
            #[trigger] post.participants@[i]).channel@ == (#[trigger] post.participants@[j]).channel@
                && post.participants@[i].participant@ == post.participants@[j].participant@) by {
                if j < pre.participants@.len() {
                    assert(post.participants@[i] == pre.participants@[i]);
                    assert(post.participants@[j] == pre.participants@[j]);
                } else {
                    assert(post.participants@[i] == pre.participants@[i]);
                }
            }
            assert forall|i: int, j: int| 0 <= i < j < post.channels@.len() implies (
            #[trigger] post.channels@[i]).key@ != (#[trigger] post.channels@[j]).key@ by {
                if j < pre.channels@.len() {
                    assert(post.channels@[i] == pre.channels@[i]);
                    assert(post.channels@[j] == pre.channels@[j]);
                } else {
                    assert(post.channels@[i] == pre.channels@[i]);
                    assert(!has_channel(pre.channels@, ck));
                }
            }
            assert forall|i: int| 0 <= i < post.participants@.len() implies has_channel(
                post.channels@,
                (#[trigger] post.participants@[i]).channel@,
            ) by {
                let x = post.participants@[i].channel@;
                if i < pre.participants@.len() {
                    assert(x == pre.participants@[i].channel@);
                    let w = choose|k: int|
                        0 <= k < pre.channels@.len() && (#[trigger] pre.channels@[k]).key@ == x;
                    assert(post.channels@[w].key@ == x);
                } else {
                    assert(post.channels@[post.channels@.len() - 1].key@ == x);
                }
            }
            assert forall|i: int| 0 <= i < post.invitations@.len() implies has_channel(
                post.channels@,
                (#[trigger] post.invitations@[i]).channel@,
            ) by {
                let x = post.invitations@[i].channel@;
                let w = choose|k: int|
                    0 <= k < pre.channels@.len() && (#[trigger] pre.channels@[k]).key@ == x;
                assert(post.channels@[w].key@ == x);
            }
            assert forall|i: int| 0 <= i < post.escrows@.len() implies has_channel(
                post.channels@,
                (#[trigger] post.escrows@[i]).channel@,
            ) by {
                let x = post.escrows@[i].channel@;
                let w = choose|k: int|
                    0 <= k < pre.channels@.len() && (#[trigger] pre.channels@[k]).key@ == x;
                assert(post.channels@[w].key@ == x);
            }
            assert forall|i: int| 0 <= i < pre.escrows@.len() implies (
            #[trigger] pre.escrows@[i]).channel@ != ck by {
                if pre.escrows@[i].channel@ == ck {
                    assert(has_channel(pre.channels@, ck));
                }
            }
            assert forall|i: int| 0 <= i < post.channels@.len() implies {
                let ce = #[trigger] post.channels@[i];
                &&& crate::state::escrow_sum(post.escrows@, ce.key@)
                    == ce.account.escrow_balance as int
                &&& crate::state::active_count(post.participants@, ce.key@)
                    <= ce.account.current_participants as int
                &&& ce.account.current_participants <= ce.account.max_participants
            } by {
                let ce = post.channels@[i];
                lemma_active_count_push(pre.participants@, ce.key@, post.participants@.last());
                if i < pre.channels@.len() {
                    assert(ce == pre.channels@[i]);
                    assert(ce.key@ != ck);
                } else {
                    lemma_escrow_sum_absent(post.escrows@, ck);
                    lemma_active_count_absent(pre.participants@, ck);
                }
            }
            assert forall|i: int| 0 <= i < post.participants@.len() implies (
            #[trigger] post.participants@[i]).last_message_at >= 0 by {
                if i < pre.participants@.len() {
                    assert(post.participants@[i] == pre.participants@[i]);
                }
            }
            assert(post.wf());
        }
        Ok(event)
    }

    /// Updates any subset of a channel's settings; only the creator may.
    ///
    /// The capacity can never drop below the current participant count, and
    /// the channel's derived key never moves, even when the name changes.
    /// The update path applies the length bounds to the supplied values as
    /// given, without trimming.
    pub fn update_channel(
        &mut self,
        channel_key: &Vec<u8>,
        caller: [u8; 32],
        name: Option<Vec<u8>>,
        description: Option<Vec<u8>>,
        max_participants: Option<u32>,
        fee_per_message: Option<u64>,
        is_active: Option<bool>,
    ) -> (r: Result<(), PodComError>)
        requires
            old(self).wf(),
        ensures
            final(self).wf(),
            r is Err ==> same_state(*old(self), *final(self)),
            !has_channel(old(self).channels@, channel_key@) ==> r == Err::<(), PodComError>(
                PodComError::NotInChannel,
            ),
            has_channel(old(self).channels@, channel_key@) && old(self).channels@[channel_index_of(
                old(self).channels@,
                channel_key@,
            )].account.creator@ != caller@ ==> r == Err::<(), PodComError>(
                PodComError::Unauthorized,
            ),
            r is Ok <==> has_channel(old(self).channels@, channel_key@) && old(
                self,
            ).channels@[channel_index_of(old(self).channels@, channel_key@)].account.creator@
                == caller@ && (name matches Some(n) ==> n@.len() <= MAX_CHANNEL_NAME_LENGTH) && (
            description matches Some(d) ==> d@.len() <= MAX_CHANNEL_DESCRIPTION_LENGTH) && (
            max_participants matches Some(m) ==> m >= old(self).channels@[channel_index_of(
                old(self).channels@,
                channel_key@,
            )].account.current_participants),
            r is Ok ==> {
                let ci = channel_index_of(old(self).channels@, channel_key@);
                &&& final(self).channels@.len() == old(self).channels@.len()
                &&& channel_after_update(
                    old(self).channels@[ci],
                    final(self).channels@[ci],
                    name,
                    description,
                    max_participants,
                    fee_per_message,
                    is_active,
                )
                &&& forall|j: int|
                    0 <= j < old(self).channels@.len() && j != ci ==> final(self).channels@[j]
                        == old(self).channels@[j]
            },
            final(self).agents@ == old(self).agents@,
            final(self).messages@ == old(self).messages@,
            final(self).participants@ == old(self).participants@,
            final(self).invitations@ == old(self).invitations@,
            final(self).channel_messages@ == old(self).channel_messages@,
            final(self).escrows@ == old(self).escrows@,
    {
        let ci = match self.find_channel(channel_key) {
            Some(i) => i,
            None => {
                return Err(PodComError::NotInChannel);
            },
        };
        proof {
            lemma_channel_index_unique(*self, channel_key@, ci as int);
        }
        if !id_eq(&caller, &self.channels[ci].account.creator) {
            return Err(PodComError::Unauthorized);
        }
        match &name {
            Some(n) => {
                if n.len() > MAX_CHANNEL_NAME_LENGTH {
                    return Err(PodComError::ChannelNameTooLong);
                }
            },
            None => {},
        }
        match &description {
            Some(d) => {
                if d.len() > MAX_CHANNEL_DESCRIPTION_LENGTH {
                    return Err(PodComError::ChannelDescriptionTooLong);
                }
            },
            None => {},
        }
        match &max_participants {
            Some(m) => {
                if *m < self.channels[ci].account.current_participants {
                    return Err(PodComError::ChannelFull);
                }
            },
            None => {},
        }
        let ghost pre = *self;
        let c = &mut self.channels[ci];
        match name {
            Some(n) => {
                c.account.name = n;
            },
            None => {},
        }
        match description {
            Some(d) => {
                c.account.description = d;
            },
            None => {},
        }
        match max_participants {
            Some(m) => {
                c.account.max_participants = m;
            },
            None => {},
        }
        match fee_per_message {
            Some(f) => {
                c.account.fee_per_message = f;
            },
            None => {},
        }
        match is_active {
            Some(a) => {
                c.account.is_active = a;
            },
            None => {},
        }
        proof {
            let post = *self;
            assert forall|i: int, j: int| 0 <= i < j < post.channels@.len() implies (
            #[trigger] post.channels@[i]).key@ != (#[trigger] post.channels@[j]).key@ by {
                assert(post.channels@[i].key@ == pre.channels@[i].key@);
                assert(post.channels@[j].key@ == pre.channels@[j].key@);
            }
            assert forall|i: int| 0 <= i < post.participants@.len() implies has_channel(
                post.channels@,
                (#[trigger] post.participants@[i]).channel@,
            ) by {
                let x = post.participants@[i].channel@;
                let w = choose|k: int|
                    0 <= k < pre.channels@.len() && (#[trigger] pre.channels@[k]).key@ == x;
                assert(post.channels@[w].key@ == x);
            }
            assert forall|i: int| 0 <= i < post.invitations@.len() implies has_channel(
                post.channels@,
                (#[trigger] post.invitations@[i]).channel@,
            ) by {
                let x = post.invitations@[i].channel@;
                let w = choose|k: int|
                    0 <= k < pre.channels@.len() && (#[trigger] pre.channels@[k]).key@ == x;
                assert(post.channels@[w].key@ == x);
            }
            assert forall|i: int| 0 <= i < post.escrows@.len() implies has_channel(
                post.channels@,
                (#[trigger] post.escrows@[i]).channel@,
            ) by {
                let x = post.escrows@[i].channel@;
                let w = choose|k: int|
                    0 <= k < pre.channels@.len() && (#[trigger] pre.channels@[k]).key@ == x;
                assert(post.channels@[w].key@ == x);
            }
            assert forall|i: int| 0 <= i < post.channels@.len() implies {
                let ce = #[trigger] post.channels@[i];
                &&& crate::state::escrow_sum(post.escrows@, ce.key@)
                    == ce.account.escrow_balance as int
                &&& crate::state::active_count(post.participants@, ce.key@)
                    <= ce.account.current_participants as int
                &&& ce.account.current_participants <= ce.account.max_participants
            } by {
                let ce = post.channels@[i];
                if i != ci as int {
                    assert(ce == pre.channels@[i]);
                }
            }
            assert(post.wf());
        }
        Ok(())
    }

    /// Validates a participant-enumeration request against an active
    /// channel.
    ///
    /// Record enumeration by filter is delegated to an external indexer;
    /// the ledger's own answer is deliberately empty and only confirms that
    /// the channel exists and is active.
    pub fn get_channel_participants(&self, channel_key: &Vec<u8>) -> (r: Result<
        Vec<Vec<u8>>,
        PodComError,
    >)
        requires
            self.wf(),
        ensures
            r is Ok <==> has_channel(self.channels@, channel_key@) && self.channels@[channel_index_of(
                self.channels@,
                channel_key@,
            )].account.is_active,
            r is Err ==> r == Err::<Vec<Vec<u8>>, PodComError>(PodComError::NotInChannel),
            r matches Ok(v) ==> v@.len() == 0,
    {
        let ci = match self.find_channel(channel_key) {
            Some(i) => i,
            None => {
                return Err(PodComError::NotInChannel);
            },
        };
        proof {
            lemma_channel_index_unique(*self, channel_key@, ci as int);
        }
        if !self.channels[ci].account.is_active {
            return Err(PodComError::NotInChannel);
        }
        Ok(Vec::new())
    }

    /// Re-establishes well-formedness after pushing one fresh channel whose
    /// key no record references yet.
    proof fn lemma_wf_after_channel_push(self, pre: ProtocolState)
        requires
            pre.wf(),
            self.channels@.len() == pre.channels@.len() + 1,
            self.channels@.subrange(0, pre.channels@.len() as int) == pre.channels@,
            !has_channel(pre.channels@, self.channels@.last().key@),
            self.channels@.last().account.escrow_balance == 0,
            self.channels@.last().account.current_participants == 1,
            self.channels@.last().account.max_participants >= 1,
            self.agents@ == pre.agents@,
            self.messages@ == pre.messages@,
            self.participants@ == pre.participants@,
            self.invitations@ == pre.invitations@,
            self.channel_messages@ == pre.channel_messages@,
            self.escrows@ == pre.escrows@,
        ensures
            self.wf(),
    {
        let post = self;
        let ck = post.channels@.last().key@;
        assert forall|i: int, j: int| 0 <= i < j < post.channels@.len() implies (
        #[trigger] post.channels@[i]).key@ != (#[trigger] post.channels@[j]).key@ by {
            if j < pre.channels@.len() {
                assert(post.channels@[i] == pre.channels@[i]);
                assert(post.channels@[j] == pre.channels@[j]);
            } else {
                assert(post.channels@[i] == pre.channels@[i]);
            }
        }
        assert forall|i: int| 0 <= i < post.participants@.len() implies has_channel(
            post.channels@,
            (#[trigger] post.participants@[i]).channel@,
        ) by {
            let x = post.participants@[i].channel@;
            let w = choose|k: int|
                0 <= k < pre.channels@.len() && (#[trigger] pre.channels@[k]).key@ == x;
            assert(post.channels@[w].key@ == x);
        }
        assert forall|i: int| 0 <= i < post.invitations@.len() implies has_channel(
            post.channels@,
            (#[trigger] post.invitations@[i]).channel@,
        ) by {
            let x = post.invitations@[i].channel@;
            let w = choose|k: int|
                0 <= k < pre.channels@.len() && (#[trigger] pre.channels@[k]).key@ == x;
            assert(post.channels@[w].key@ == x);
        }
        assert forall|i: int| 0 <= i < post.escrows@.len() implies has_channel(
            post.channels@,
            (#[trigger] post.escrows@[i]).channel@,
        ) by {
            let x = post.escrows@[i].channel@;
            let w = choose|k: int|
                0 <= k < pre.channels@.len() && (#[trigger] pre.channels@[k]).key@ == x;
            assert(post.channels@[w].key@ == x);
        }
        assert forall|i: int| 0 <= i < pre.escrows@.len() implies (
        #[trigger] pre.escrows@[i]).channel@ != ck by {
            if pre.escrows@[i].channel@ == ck {
                assert(has_channel(pre.channels@, ck));
            }
        }
        assert forall|i: int| 0 <= i < pre.participants@.len() implies (
        #[trigger] pre.participants@[i]).channel@ != ck by {
            if pre.participants@[i].channel@ == ck {
                assert(has_channel(pre.channels@, ck));
            }
        }
        assert forall|i: int| 0 <= i < post.channels@.len() implies {
            let ce = #[trigger] post.channels@[i];
            &&& crate::state::escrow_sum(post.escrows@, ce.key@)
                == ce.account.escrow_balance as int
            &&& crate::state::active_count(post.participants@, ce.key@)
                <= ce.account.current_participants as int
            &&& ce.account.current_participants <= ce.account.max_participants
        } by {
            let ce = post.channels@[i];
            if i < pre.channels@.len() {
                assert(ce == pre.channels@[i]);
            } else {
                lemma_escrow_sum_absent(post.escrows@, ck);
                lemma_active_count_absent(post.participants@, ck);
            }
        }
        assert(post.wf());
    }
}

} // verus!
