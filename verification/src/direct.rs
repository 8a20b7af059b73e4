use vstd::prelude::*;
use crate::bytes::copy_bytes;
use crate::errors::PodComError;
use crate::keys::{agent_key_spec, derive_agent_key};
use crate::records::{MessageAccount, MessageSent};
use crate::state::{
    has_agent, has_message, lemma_message_index_unique, message_index_of, same_state,
    ProtocolState,
};
use crate::types::{
    message_type_code_spec, MessageStatus, MessageType, EXPIRATION_SECONDS,
};

verus! {

// The point-to-point path predates broadcast channels and is kept for
// compatibility. It shares the identity-consistency rule: a message's
// sender is always the caller's derived agent identity, never the raw
// account identity.

/// Who may move a direct message to `status`: the recipient alone may mark
/// it delivered or read, sender and recipient alike may mark it failed, and
/// nothing may be moved back to pending.
pub open spec fn status_change_allowed(
    sender: Seq<u8>,
    recipient: Seq<u8>,
    caller_agent: Seq<u8>,
    status: MessageStatus,
) -> bool {
    match status {
        MessageStatus::Pending => false,
        MessageStatus::Delivered => caller_agent == recipient,
        MessageStatus::Read => caller_agent == recipient,
        MessageStatus::Failed => caller_agent == sender || caller_agent == recipient,
    }
}

/// `post` is `pre` with only its status replaced.
pub open spec fn message_with_status(
    pre: MessageAccount,
    post: MessageAccount,
    status: MessageStatus,
) -> bool {
    &&& post.sender@ == pre.sender@
    &&& post.recipient@ == pre.recipient@
    &&& post.payload_hash@ == pre.payload_hash@
    &&& post.message_type == pre.message_type
    &&& post.created_at == pre.created_at
    &&& post.expires_at == pre.expires_at
    &&& post.status == status
}

impl ProtocolState {
    /// Records a direct message from the caller's agent to the agent at
    /// `recipient`.
    ///
    /// The ledger keeps only the payload hash; the message starts pending
    /// and expires `EXPIRATION_SECONDS` after creation. One record per
    /// (sender, recipient, payload hash, type code): a repeat lands on the
    /// occupied derived key. Note that the type code folds `Custom`
    /// payloads into one byte.
    pub fn send_message(
        &mut self,
        caller: [u8; 32],
        recipient: Vec<u8>,
        payload_hash: [u8; 32],
        message_type: MessageType,
        now: i64,
    ) -> (r: Result<MessageSent, PodComError>)
        requires
            old(self).wf(),
            0 <= now,
            now <= i64::MAX - EXPIRATION_SECONDS,
        ensures
            final(self).wf(),
            r is Err ==> same_state(*old(self), *final(self)),
            !has_agent(old(self).agents@, caller@) ==> r == Err::<MessageSent, PodComError>(
                PodComError::Unauthorized,
            ),
            has_agent(old(self).agents@, caller@) && has_message(
                old(self).messages@,
                agent_key_spec(caller@),
                recipient@,
                payload_hash@,
                message_type_code_spec(message_type),
            ) ==> r == Err::<MessageSent, PodComError>(PodComError::DuplicateRecord),
            r is Ok <==> has_agent(old(self).agents@, caller@) && !has_message(
                old(self).messages@,
                agent_key_spec(caller@),
                recipient@,
                payload_hash@,
                message_type_code_spec(message_type),
            ),
            r is Ok ==> {
                let m = final(self).messages@.last();
                &&& final(self).messages@ == old(self).messages@.push(m)
                &&& m.sender@ == agent_key_spec(caller@)
                &&& m.recipient@ == recipient@
                &&& m.payload_hash@ == payload_hash@
                &&& m.message_type == message_type
                &&& m.created_at == now
                &&& m.expires_at == now + EXPIRATION_SECONDS
                &&& m.status == MessageStatus::Pending
            },
            final(self).agents@ == old(self).agents@,
            final(self).channels@ == old(self).channels@,
            final(self).participants@ == old(self).participants@,
            final(self).invitations@ == old(self).invitations@,
            final(self).channel_messages@ == old(self).channel_messages@,
            final(self).escrows@ == old(self).escrows@,
            r matches Ok(ev) ==> ev.sender@ == agent_key_spec(caller@) && ev.recipient@
                == recipient@ && ev.message_type == message_type && ev.timestamp == now,
    {
        if self.find_agent(&caller).is_none() {
            return Err(PodComError::Unauthorized);
        }
        let sender_key = derive_agent_key(&caller);
        if self.find_message(&sender_key, &recipient, &payload_hash, &message_type).is_some() {
            return Err(PodComError::DuplicateRecord);
        }
        let ghost pre = *self;
        let event = MessageSent {
            sender: copy_bytes(&sender_key),
            recipient: copy_bytes(&recipient),
            message_type,
            timestamp: now,
        };
        let record = MessageAccount {
            sender: sender_key,
            recipient,
            payload_hash,
            message_type,
            created_at: now,
            expires_at: now + EXPIRATION_SECONDS,
            status: MessageStatus::Pending,
        };
        self.messages.push(record);
        proof {
            let post = *self;
            assert forall|i: int, j: int| 0 <= i < j < post.messages@.len() implies !((
            #[trigger] post.messages@[i]).sender@ == (#[trigger] post.messages@[j]).sender@
                && post.messages@[i].recipient@ == post.messages@[j].recipient@
                && post.messages@[i].payload_hash@ == post.messages@[j].payload_hash@
                && message_type_code_spec(post.messages@[i].message_type)
                == message_type_code_spec(post.messages@[j].message_type)) by {
                if j < pre.messages@.len() {
                    assert(post.messages@[i] == pre.messages@[i]);
                    assert(post.messages@[j] == pre.messages@[j]);
                } else {
                    assert(post.messages@[i] == pre.messages@[i]);
                }
            }
            assert(post.wf());
        }
        Ok(event)
    }

    /// Moves the direct message with the given derived-key material to
    /// `new_status`, on behalf of the caller's agent.
    ///
    /// An expired message rejects every change, checked before any actor
    /// test, so even an authorized actor sees `MessageExpired`. Otherwise
    /// only the recipient may mark it delivered or read, sender or
    /// recipient may mark it failed, and a move to pending is never a valid
    /// transition.
    pub fn update_message_status(
        &mut self,
        caller: [u8; 32],
        sender: &Vec<u8>,
        recipient: &Vec<u8>,
        payload_hash: &[u8; 32],
        message_type: &MessageType,
        new_status: MessageStatus,
        now: i64,
    ) -> (r: Result<(), PodComError>)
        requires
            old(self).wf(),
        ensures
            final(self).wf(),
            r is Err ==> same_state(*old(self), *final(self)),
            !has_message(
                old(self).messages@,
                sender@,
                recipient@,
                payload_hash@,
                message_type_code_spec(*message_type),
            ) ==> r == Err::<(), PodComError>(PodComError::Unauthorized),
            has_message(
                old(self).messages@,
                sender@,
                recipient@,
                payload_hash@,
                message_type_code_spec(*message_type),
            ) && !has_agent(old(self).agents@, caller@) ==> r == Err::<(), PodComError>(
                PodComError::Unauthorized,
            ),
            has_message(
                old(self).messages@,
                sender@,
                recipient@,
                payload_hash@,
                message_type_code_spec(*message_type),
            ) && has_agent(old(self).agents@, caller@) && now > old(self).messages@[message_index_of(
                old(self).messages@,
                sender@,
                recipient@,
                payload_hash@,
                message_type_code_spec(*message_type),
            )].expires_at ==> r == Err::<(), PodComError>(PodComError::MessageExpired),
            has_message(
                old(self).messages@,
                sender@,
                recipient@,
                payload_hash@,
                message_type_code_spec(*message_type),
            ) && has_agent(old(self).agents@, caller@) && now <= old(
                self,
            ).messages@[message_index_of(
                old(self).messages@,
                sender@,
                recipient@,
                payload_hash@,
                message_type_code_spec(*message_type),
            )].expires_at && !status_change_allowed(
                sender@,
                recipient@,
                agent_key_spec(caller@),
                new_status,
            ) ==> r == (if new_status == MessageStatus::Pending {
                Err::<(), PodComError>(PodComError::InvalidMessageStatusTransition)
            } else {
                Err::<(), PodComError>(PodComError::Unauthorized)
            }),
            r is Ok <==> has_message(
                old(self).messages@,
                sender@,
                recipient@,
                payload_hash@,
                message_type_code_spec(*message_type),
            ) && has_agent(old(self).agents@, caller@) && now <= old(
                self,
            ).messages@[message_index_of(
                old(self).messages@,
                sender@,
                recipient@,
                payload_hash@,
                message_type_code_spec(*message_type),
            )].expires_at && status_change_allowed(
                sender@,
                recipient@,
                agent_key_spec(caller@),
                new_status,
            ),
            r is Ok ==> {
                let mi = message_index_of(
                    old(self).messages@,
                    sender@,
                    recipient@,
                    payload_hash@,
                    message_type_code_spec(*message_type),
                );
                &&& final(self).messages@.len() == old(self).messages@.len()
                &&& message_with_status(
                    old(self).messages@[mi],
                    final(self).messages@[mi],
                    new_status,
                )
                &&& forall|j: int|
                    0 <= j < old(self).messages@.len() && j != mi ==> final(self).messages@[j]
                        == old(self).messages@[j]
            },
            final(self).agents@ == old(self).agents@,
            final(self).channels@ == old(self).channels@,
            final(self).participants@ == old(self).participants@,
            final(self).invitations@ == old(self).invitations@,
            final(self).channel_messages@ == old(self).channel_messages@,
            final(self).escrows@ == old(self).escrows@,
    {
        let mi = match self.find_message(sender, recipient, payload_hash, message_type) {
            Some(i) => i,
            None => {
                return Err(PodComError::Unauthorized);
            },
        };
        proof {
            lemma_message_index_unique(
                *self,
                sender@,
                recipient@,
                payload_hash@,
                message_type_code_spec(*message_type),
                mi as int,
            );
        }
        if self.find_agent(&caller).is_none() {
            return Err(PodComError::Unauthorized);
        }
        if now > self.messages[mi].expires_at {
            return Err(PodComError::MessageExpired);
        }
        let caller_key = derive_agent_key(&caller);
        let allowed = match new_status {
            MessageStatus::Pending => false,
            MessageStatus::Delivered => crate::bytes::bytes_eq(&caller_key, &self.messages[mi].recipient),
            MessageStatus::Read => crate::bytes::bytes_eq(&caller_key, &self.messages[mi].recipient),
            MessageStatus::Failed => crate::bytes::bytes_eq(&caller_key, &self.messages[mi].sender)
                || crate::bytes::bytes_eq(&caller_key, &self.messages[mi].recipient),
        };
        if !allowed {
            if new_status == MessageStatus::Pending {
                return Err(PodComError::InvalidMessageStatusTransition);
            }
            return Err(PodComError::Unauthorized);
        }
        let ghost pre = *self;
        let m = &mut self.messages[mi];
        m.status = new_status;
        proof {
            let post = *self;
            assert forall|i: int, j: int| 0 <= i < j < post.messages@.len() implies !((
            #[trigger] post.messages@[i]).sender@ == (#[trigger] post.messages@[j]).sender@
                && post.messages@[i].recipient@ == post.messages@[j].recipient@
                && post.messages@[i].payload_hash@ == post.messages@[j].payload_hash@
                && message_type_code_spec(post.messages@[i].message_type)
                == message_type_code_spec(post.messages@[j].message_type)) by {
                assert(post.messages@[i].sender@ == pre.messages@[i].sender@
                    && post.messages@[i].recipient@ == pre.messages@[i].recipient@
                    && post.messages@[i].payload_hash@ == pre.messages@[i].payload_hash@
                    && post.messages@[i].message_type == pre.messages@[i].message_type);
                assert(post.messages@[j].sender@ == pre.messages@[j].sender@
                    && post.messages@[j].recipient@ == pre.messages@[j].recipient@
                    && post.messages@[j].payload_hash@ == pre.messages@[j].payload_hash@
                    && post.messages@[j].message_type == pre.messages@[j].message_type);
            }
            assert(post.wf());
        }
        Ok(())
    }
}

} // verus!
