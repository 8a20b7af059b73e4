use vstd::prelude::*;
use crate::bytes::copy_bytes;
use crate::errors::PodComError;
use crate::keys::agent_key_spec;
use crate::keys::derive_agent_key;
use crate::records::{AgentAccount, AgentRegistered};
use crate::state::{has_agent, same_state, ProtocolState};
use crate::types::{is_blank_bytes, metadata_uri_ok, INITIAL_REPUTATION, MAX_METADATA_URI_LENGTH};

verus! {

/// What an agent record looks like after a partial update: reputation and
/// owner are untouched, each optional field is replaced when supplied, and
/// the update timestamp is refreshed.
pub open spec fn agent_after_update(
    pre: AgentAccount,
    post: AgentAccount,
    capabilities: Option<u64>,
    metadata_uri: Option<Vec<u8>>,
    now: i64,
) -> bool {
    &&& post.pubkey@ == pre.pubkey@
    &&& post.reputation == pre.reputation
    &&& post.capabilities == (match capabilities {
        Some(c) => c,
        None => pre.capabilities,
    })
    &&& post.metadata_uri@ == (match metadata_uri {
        Some(u) => u@,
        None => pre.metadata_uri@,
    })
    &&& post.last_updated == now
}

impl ProtocolState {
    /// Registers a new agent for the signer `owner`.
    ///
    /// Rejects a blank or overlong metadata locator, a capability mask that
    /// uses the reserved high half of the range, and a second registration
    /// for the same owner — the derived agent key is already occupied.
    /// On success the new record starts with reputation
    /// `INITIAL_REPUTATION`, and the returned event names the derived agent
    /// identity.
    pub fn register_agent(
        &mut self,
        owner: [u8; 32],
        capabilities: u64,
        metadata_uri: Vec<u8>,
        now: i64,
    ) -> (r: Result<AgentRegistered, PodComError>)
        requires
            old(self).wf(),
        ensures
            final(self).wf(),
            r is Err ==> same_state(*old(self), *final(self)),
            !metadata_uri_ok(metadata_uri@) ==> r == Err::<AgentRegistered, PodComError>(
                PodComError::InvalidMetadataUriLength,
            ),
            metadata_uri_ok(metadata_uri@) && capabilities > u64::MAX / 2 ==> r == Err::<
                AgentRegistered,
                PodComError,
            >(PodComError::Unauthorized),
            metadata_uri_ok(metadata_uri@) && capabilities <= u64::MAX / 2 && has_agent(
                old(self).agents@,
                owner@,
            ) ==> r == Err::<AgentRegistered, PodComError>(PodComError::DuplicateRecord),
            r is Ok <==> metadata_uri_ok(metadata_uri@) && capabilities <= u64::MAX / 2
                && !has_agent(old(self).agents@, owner@),
            r is Ok ==> {
                let a = final(self).agents@.last();
                &&& final(self).agents@ == old(self).agents@.push(a)
                &&& a.pubkey@ == owner@
                &&& a.capabilities == capabilities
                &&& a.metadata_uri@ == metadata_uri@
                &&& a.reputation == INITIAL_REPUTATION
                &&& a.last_updated == now
            },
            r is Ok ==> has_agent(final(self).agents@, owner@),
            final(self).messages@ == old(self).messages@,
            final(self).channels@ == old(self).channels@,
            final(self).participants@ == old(self).participants@,
            final(self).invitations@ == old(self).invitations@,
            final(self).channel_messages@ == old(self).channel_messages@,
            final(self).escrows@ == old(self).escrows@,
            r matches Ok(ev) ==> ev.agent@ == agent_key_spec(owner@) && ev.capabilities
                == capabilities && ev.metadata_uri@ == metadata_uri@ && ev.timestamp == now,
    {
        if is_blank_bytes(&metadata_uri) || metadata_uri.len() > MAX_METADATA_URI_LENGTH {
            return Err(PodComError::InvalidMetadataUriLength);
        }
        if capabilities > u64::MAX / 2 {
            return Err(PodComError::Unauthorized);
        }
        if self.find_agent(&owner).is_some() {
            return Err(PodComError::DuplicateRecord);
        }
        let agent_key = derive_agent_key(&owner);
        let event = AgentRegistered {
            agent: agent_key,
            capabilities,
            metadata_uri: copy_bytes(&metadata_uri),
            timestamp: now,
        };
        let record = AgentAccount {
            pubkey: owner,
            capabilities,
            metadata_uri,
            reputation: INITIAL_REPUTATION,
            last_updated: now,
        };
        self.agents.push(record);
        proof {
            let post = self.agents@;
            let pre = old(self).agents@;
            assert forall|i: int, j: int| 0 <= i < j < post.len() implies (
            #[trigger] post[i]).pubkey@ != (#[trigger] post[j]).pubkey@ by {
                if j < pre.len() {
                    assert(post[i] == pre[i] && post[j] == pre[j]);
                } else {
                    assert(post[i] == pre[i]);
                    assert(post[j].pubkey@ == owner@);
                }
            }
            assert(self.wf());
        }
        Ok(event)
    }

    /// Updates the caller's own agent record: any subset of capabilities and
    /// metadata locator, refreshing the update timestamp.
    ///
    /// Fails `Unauthorized` when the caller owns no agent record, and
    /// rejects a supplied locator that is blank or overlong. Reputation
    /// never changes here.
    pub fn update_agent(
        &mut self,
        caller: [u8; 32],
        capabilities: Option<u64>,
        metadata_uri: Option<Vec<u8>>,
        now: i64,
    ) -> (r: Result<(), PodComError>)
        requires
            old(self).wf(),
        ensures
            final(self).wf(),
            r is Err ==> same_state(*old(self), *final(self)),
            !has_agent(old(self).agents@, caller@) ==> r == Err::<(), PodComError>(
                PodComError::Unauthorized,
            ),
            has_agent(old(self).agents@, caller@) && (metadata_uri matches Some(u)
                && !metadata_uri_ok(u@)) ==> r == Err::<(), PodComError>(
                PodComError::InvalidMetadataUriLength,
            ),
            r is Ok <==> has_agent(old(self).agents@, caller@) && (metadata_uri matches Some(u)
                ==> metadata_uri_ok(u@)),
            r is Ok ==> exists|i: int|
                {
                    &&& 0 <= i < old(self).agents@.len()
                    &&& (#[trigger] old(self).agents@[i]).pubkey@ == caller@
                    &&& agent_after_update(
                        old(self).agents@[i],
                        final(self).agents@[i],
                        capabilities,
                        metadata_uri,
                        now,
                    )
                    &&& final(self).agents@.len() == old(self).agents@.len()
                    &&& forall|j: int|
                        0 <= j < old(self).agents@.len() && j != i ==> final(self).agents@[j] == old(
                            self,
                        ).agents@[j]
                },
            final(self).messages@ == old(self).messages@,
            final(self).channels@ == old(self).channels@,
            final(self).participants@ == old(self).participants@,
            final(self).invitations@ == old(self).invitations@,
            final(self).channel_messages@ == old(self).channel_messages@,
            final(self).escrows@ == old(self).escrows@,
    {
        let idx = match self.find_agent(&caller) {
            Some(i) => i,
            None => {
                return Err(PodComError::Unauthorized);
            },
        };
        match &metadata_uri {
            Some(u) => {
                if is_blank_bytes(u) || u.len() > MAX_METADATA_URI_LENGTH {
                    return Err(PodComError::InvalidMetadataUriLength);
                }
            },
            None => {},
        }
        let agent = &mut self.agents[idx];
        match capabilities {
            Some(c) => {
                agent.capabilities = c;
            },
            None => {},
        }
        match metadata_uri {
            Some(u) => {
                agent.metadata_uri = u;
            },
            None => {},
        }
        agent.last_updated = now;
        proof {
            let post = self.agents@;
            let pre = old(self).agents@;
            assert(post =~= pre.update(idx as int, post[idx as int]));
            assert forall|i: int, j: int| 0 <= i < j < post.len() implies (
            #[trigger] post[i]).pubkey@ != (#[trigger] post[j]).pubkey@ by {
                assert(post[i].pubkey@ == pre[i].pubkey@);
                assert(post[j].pubkey@ == pre[j].pubkey@);
            }
            assert(self.wf());
        }
        Ok(())
    }
}

} // verus!
