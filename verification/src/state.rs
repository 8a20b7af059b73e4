use vstd::prelude::*;
use crate::bytes::{bytes_eq, id_eq};
use crate::records::{
    AgentAccount, ChannelEntry, ChannelInvitation, ChannelParticipant, EscrowAccount,
    MessageAccount, StoredChannelMessage,
};
use crate::types::{message_type_code, message_type_code_spec, MessageType};

verus! {

/// The durable records of one protocol deployment, as the host ledger keeps
/// them. Each instruction is a method that runs atomically: it validates,
/// then applies exactly one mutation, or returns an error and changes
/// nothing.
///
/// Records are created once and mutated in place; none is ever deleted.
/// Within each store, the derived key of every record is unique — the
/// `has_*` predicates and the instruction contracts carry that invariant.
pub struct ProtocolState {
    pub agents: Vec<AgentAccount>,
    pub messages: Vec<MessageAccount>,
    pub channels: Vec<ChannelEntry>,
    pub participants: Vec<ChannelParticipant>,
    pub invitations: Vec<ChannelInvitation>,
    pub channel_messages: Vec<StoredChannelMessage>,
    pub escrows: Vec<EscrowAccount>,
}

/// Some agent record is owned by `owner`.
pub open spec fn has_agent(agents: Seq<AgentAccount>, owner: Seq<u8>) -> bool {
    exists|i: int| 0 <= i < agents.len() && (#[trigger] agents[i]).pubkey@ == owner
}

/// Some channel sits at the derived key `key`.
pub open spec fn has_channel(channels: Seq<ChannelEntry>, key: Seq<u8>) -> bool {
    exists|i: int| 0 <= i < channels.len() && (#[trigger] channels[i]).key@ == key
}

/// Some membership record pairs the channel at `ck` with `agent`.
pub open spec fn has_participant(ps: Seq<ChannelParticipant>, ck: Seq<u8>, agent: Seq<u8>) -> bool {
    exists|i: int|
        0 <= i < ps.len() && (#[trigger] ps[i]).channel@ == ck && ps[i].participant@ == agent
}

/// Some invitation pairs the channel at `ck` with `invitee`.
pub open spec fn has_invitation(
    inv: Seq<ChannelInvitation>,
    ck: Seq<u8>,
    invitee: Seq<u8>,
) -> bool {
    exists|i: int|
        0 <= i < inv.len() && (#[trigger] inv[i]).channel@ == ck && inv[i].invitee@ == invitee
}

/// Some escrow record pairs the channel at `ck` with `depositor`.
pub open spec fn has_escrow(es: Seq<EscrowAccount>, ck: Seq<u8>, depositor: Seq<u8>) -> bool {
    exists|i: int|
        0 <= i < es.len() && (#[trigger] es[i]).channel@ == ck && es[i].depositor@ == depositor
}

/// Some direct message sits at the key derived from sender, recipient,
/// payload hash and type code.
pub open spec fn has_message(
    ms: Seq<MessageAccount>,
    sender: Seq<u8>,
    recipient: Seq<u8>,
    payload_hash: Seq<u8>,
    code: u8,
) -> bool {
    exists|i: int|
        0 <= i < ms.len() && (#[trigger] ms[i]).sender@ == sender && ms[i].recipient@ == recipient
            && ms[i].payload_hash@ == payload_hash && message_type_code_spec(ms[i].message_type)
            == code
}

/// Some broadcast message sits at the key derived from channel, sender and
/// nonce.
pub open spec fn has_channel_message(
    cms: Seq<StoredChannelMessage>,
    ck: Seq<u8>,
    sender: Seq<u8>,
    nonce: u64,
) -> bool {
    exists|i: int|
        0 <= i < cms.len() && (#[trigger] cms[i]).message.channel@ == ck && cms[i].message.sender@
            == sender && cms[i].nonce == nonce
}

/// Index of the channel at `key`; meaningful when `has_channel` holds, and
/// then unique, since channel keys are.
pub open spec fn channel_index_of(channels: Seq<ChannelEntry>, key: Seq<u8>) -> int {
    choose|i: int| 0 <= i < channels.len() && (#[trigger] channels[i]).key@ == key
}

/// Index of the membership record of `agent` in the channel at `ck`;
/// meaningful when `has_participant` holds, and then unique.
pub open spec fn participant_index_of(
    ps: Seq<ChannelParticipant>,
    ck: Seq<u8>,
    agent: Seq<u8>,
) -> int {
    choose|i: int|
        0 <= i < ps.len() && (#[trigger] ps[i]).channel@ == ck && ps[i].participant@ == agent
}

/// Index of the invitation of `invitee` into the channel at `ck`;
/// meaningful when `has_invitation` holds, and then unique.
pub open spec fn invitation_index_of(
    inv: Seq<ChannelInvitation>,
    ck: Seq<u8>,
    invitee: Seq<u8>,
) -> int {
    choose|i: int|
        0 <= i < inv.len() && (#[trigger] inv[i]).channel@ == ck && inv[i].invitee@ == invitee
}

/// Index of the direct message at the key derived from sender, recipient,
/// payload hash and type code; meaningful when `has_message` holds, and
/// then unique.
pub open spec fn message_index_of(
    ms: Seq<MessageAccount>,
    sender: Seq<u8>,
    recipient: Seq<u8>,
    payload_hash: Seq<u8>,
    code: u8,
) -> int {
    choose|i: int|
        0 <= i < ms.len() && (#[trigger] ms[i]).sender@ == sender && ms[i].recipient@ == recipient
            && ms[i].payload_hash@ == payload_hash && message_type_code_spec(ms[i].message_type)
            == code
}

/// `agent` holds an active membership record in the channel at `ck`.
pub open spec fn participant_is_active(
    ps: Seq<ChannelParticipant>,
    ck: Seq<u8>,
    agent: Seq<u8>,
) -> bool {
    has_participant(ps, ck, agent) && ps[participant_index_of(ps, ck, agent)].is_active
}

/// `invitee` holds an invitation into the channel at `ck` that a join may
/// still consume at time `now`: recorded, not yet accepted, not expired.
pub open spec fn invitation_usable(
    inv: Seq<ChannelInvitation>,
    ck: Seq<u8>,
    invitee: Seq<u8>,
    now: i64,
) -> bool {
    &&& has_invitation(inv, ck, invitee)
    &&& !inv[invitation_index_of(inv, ck, invitee)].is_accepted
    &&& now <= inv[invitation_index_of(inv, ck, invitee)].expires_at
}

/// Sum of all escrow amounts held for the channel at `ck`.
pub open spec fn escrow_sum(es: Seq<EscrowAccount>, ck: Seq<u8>) -> int
    decreases es.len(),
{
    if es.len() == 0 {
        0
    } else {
        escrow_sum(es.drop_last(), ck) + if es.last().channel@ == ck {
            es.last().amount as int
        } else {
            0
        }
    }
}

/// Number of active membership records of the channel at `ck`.
pub open spec fn active_count(ps: Seq<ChannelParticipant>, ck: Seq<u8>) -> int
    decreases ps.len(),
{
    if ps.len() == 0 {
        0
    } else {
        active_count(ps.drop_last(), ck) + if ps.last().is_active && ps.last().channel@ == ck {
            1int
        } else {
            0int
        }
    }
}

/// Both states hold exactly the same records.
pub open spec fn same_state(a: ProtocolState, b: ProtocolState) -> bool {
    &&& a.agents@ == b.agents@
    &&& a.messages@ == b.messages@
    &&& a.channels@ == b.channels@
    &&& a.participants@ == b.participants@
    &&& a.invitations@ == b.invitations@
    &&& a.channel_messages@ == b.channel_messages@
    &&& a.escrows@ == b.escrows@
}

impl ProtocolState {
    /// Derived keys are unique within every store: the host creates at most
    /// one record per key, and the key schemes are injective.
    pub open spec fn keys_unique(self) -> bool {
        &&& forall|i: int, j: int|
            0 <= i < j < self.agents@.len() ==> (#[trigger] self.agents@[i]).pubkey@ != (
            #[trigger] self.agents@[j]).pubkey@
        &&& forall|i: int, j: int|
            0 <= i < j < self.channels@.len() ==> (#[trigger] self.channels@[i]).key@ != (
            #[trigger] self.channels@[j]).key@
        &&& forall|i: int, j: int|
            0 <= i < j < self.participants@.len() ==> !((#[trigger] self.participants@[i]).channel@
                == (#[trigger] self.participants@[j]).channel@ && self.participants@[i].participant@
                == self.participants@[j].participant@)
        &&& forall|i: int, j: int|
            0 <= i < j < self.invitations@.len() ==> !((#[trigger] self.invitations@[i]).channel@
                == (#[trigger] self.invitations@[j]).channel@ && self.invitations@[i].invitee@
                == self.invitations@[j].invitee@)
        &&& forall|i: int, j: int|
            0 <= i < j < self.escrows@.len() ==> !((#[trigger] self.escrows@[i]).channel@ == (
            #[trigger] self.escrows@[j]).channel@ && self.escrows@[i].depositor@
                == self.escrows@[j].depositor@)
        &&& forall|i: int, j: int|
            0 <= i < j < self.messages@.len() ==> !((#[trigger] self.messages@[i]).sender@ == (
            #[trigger] self.messages@[j]).sender@ && self.messages@[i].recipient@
                == self.messages@[j].recipient@ && self.messages@[i].payload_hash@
                == self.messages@[j].payload_hash@ && message_type_code_spec(
                self.messages@[i].message_type,
            ) == message_type_code_spec(self.messages@[j].message_type))
        &&& forall|i: int, j: int|
            0 <= i < j < self.channel_messages@.len() ==> !((#[trigger] self.channel_messages@[i]).message.channel@
                == (#[trigger] self.channel_messages@[j]).message.channel@
                && self.channel_messages@[i].message.sender@
                == self.channel_messages@[j].message.sender@ && self.channel_messages@[i].nonce
                == self.channel_messages@[j].nonce)
    }

    /// Membership, invitation and escrow records always reference a channel
    /// that exists.
    pub open spec fn refs_hold(self) -> bool {
        &&& forall|i: int|
            0 <= i < self.participants@.len() ==> has_channel(
                self.channels@,
                (#[trigger] self.participants@[i]).channel@,
            )
        &&& forall|i: int|
            0 <= i < self.invitations@.len() ==> has_channel(
                self.channels@,
                (#[trigger] self.invitations@[i]).channel@,
            )
        &&& forall|i: int|
            0 <= i < self.escrows@.len() ==> has_channel(
                self.channels@,
                (#[trigger] self.escrows@[i]).channel@,
            )
    }

    /// The books of every channel balance: the escrow balance equals the sum
    /// of the escrow records held for the channel, and the participant count
    /// dominates the active membership records without exceeding the
    /// capacity.
    pub open spec fn books_hold(self) -> bool {
        forall|i: int|
            0 <= i < self.channels@.len() ==> {
                let c = #[trigger] self.channels@[i];
                &&& escrow_sum(self.escrows@, c.key@) == c.account.escrow_balance as int
                &&& active_count(self.participants@, c.key@)
                    <= c.account.current_participants as int
                &&& c.account.current_participants <= c.account.max_participants
            }
    }

    /// Participant counters are usable by the rate limiter: a last-broadcast
    /// timestamp is never negative.
    pub open spec fn counters_hold(self) -> bool {
        forall|i: int|
            0 <= i < self.participants@.len() ==> (#[trigger] self.participants@[i]).last_message_at
                >= 0
    }

    /// Well-formedness of the whole deployment. Every instruction preserves
    /// it; in particular the escrow-sum equality holds after every
    /// operation.
    pub open spec fn wf(self) -> bool {
        &&& self.keys_unique()
        &&& self.refs_hold()
        &&& self.books_hold()
        &&& self.counters_hold()
    }

    /// A deployment with no records yet.
    pub fn new() -> (r: ProtocolState)
        ensures
            r.wf(),
            r.agents@.len() == 0,
            r.messages@.len() == 0,
            r.channels@.len() == 0,
            r.participants@.len() == 0,
            r.invitations@.len() == 0,
            r.channel_messages@.len() == 0,
            r.escrows@.len() == 0,
    {
        ProtocolState {
            agents: Vec::new(),
            messages: Vec::new(),
            channels: Vec::new(),
            participants: Vec::new(),
            invitations: Vec::new(),
            channel_messages: Vec::new(),
            escrows: Vec::new(),
        }
    }

    /// Finds the agent record owned by `owner`.
    pub fn find_agent(&self, owner: &[u8; 32]) -> (r: Option<usize>)
        ensures
            match r {
                Some(i) => i < self.agents@.len() && self.agents@[i as int].pubkey@ == owner@,
                None => !has_agent(self.agents@, owner@),
            },
    {
        let n = self.agents.len();
        let mut i: usize = 0;
        while i < n
            invariant
                0 <= i <= n,
                n == self.agents@.len(),
                forall|j: int| 0 <= j < i ==> (#[trigger] self.agents@[j]).pubkey@ != owner@,
            decreases n - i,
        {
            if id_eq(&self.agents[i].pubkey, owner) {
                return Some(i);
            }
            i = i + 1;
        }
        None
    }

    /// Finds the channel at the derived key `key`.
    pub fn find_channel(&self, key: &Vec<u8>) -> (r: Option<usize>)
        ensures
            match r {
                Some(i) => i < self.channels@.len() && self.channels@[i as int].key@ == key@,
                None => !has_channel(self.channels@, key@),
            },
    {
        let n = self.channels.len();
        let mut i: usize = 0;
        while i < n
            invariant
                0 <= i <= n,
                n == self.channels@.len(),
                forall|j: int| 0 <= j < i ==> (#[trigger] self.channels@[j]).key@ != key@,
            decreases n - i,
        {
            if bytes_eq(&self.channels[i].key, key) {
                return Some(i);
            }
            i = i + 1;
        }
        None
    }

    /// Finds the membership record of `agent` in the channel at `ck`.
    pub fn find_participant(&self, ck: &Vec<u8>, agent: &Vec<u8>) -> (r: Option<usize>)
        ensures
            match r {
                Some(i) => i < self.participants@.len() && self.participants@[i as int].channel@
                    == ck@ && self.participants@[i as int].participant@ == agent@,
                None => !has_participant(self.participants@, ck@, agent@),
            },
    {
        let n = self.participants.len();
        let mut i: usize = 0;
        while i < n
            invariant
                0 <= i <= n,
                n == self.participants@.len(),
                forall|j: int|
                    0 <= j < i ==> !((#[trigger] self.participants@[j]).channel@ == ck@
                        && self.participants@[j].participant@ == agent@),
            decreases n - i,
        {
            if bytes_eq(&self.participants[i].channel, ck) && bytes_eq(
                &self.participants[i].participant,
                agent,
            ) {
                return Some(i);
            }
            i = i + 1;
        }
        None
    }

    /// Finds the invitation of `invitee` into the channel at `ck`.
    pub fn find_invitation(&self, ck: &Vec<u8>, invitee: &Vec<u8>) -> (r: Option<usize>)
        ensures
            match r {
                Some(i) => i < self.invitations@.len() && self.invitations@[i as int].channel@
                    == ck@ && self.invitations@[i as int].invitee@ == invitee@,
                None => !has_invitation(self.invitations@, ck@, invitee@),
            },
    {
        let n = self.invitations.len();
        let mut i: usize = 0;
        while i < n
            invariant
                0 <= i <= n,
                n == self.invitations@.len(),
                forall|j: int|
                    0 <= j < i ==> !((#[trigger] self.invitations@[j]).channel@ == ck@
                        && self.invitations@[j].invitee@ == invitee@),
            decreases n - i,
        {
            if bytes_eq(&self.invitations[i].channel, ck) && bytes_eq(
                &self.invitations[i].invitee,
                invitee,
            ) {
                return Some(i);
            }
            i = i + 1;
        }
        None
    }

    /// Finds the escrow record of `depositor` in the channel at `ck`.
    pub fn find_escrow(&self, ck: &Vec<u8>, depositor: &[u8; 32]) -> (r: Option<usize>)
        ensures
            match r {
                Some(i) => i < self.escrows@.len() && self.escrows@[i as int].channel@ == ck@
                    && self.escrows@[i as int].depositor@ == depositor@,
                None => !has_escrow(self.escrows@, ck@, depositor@),
            },
    {
        let n = self.escrows.len();
        let mut i: usize = 0;
        while i < n
            invariant
                0 <= i <= n,
                n == self.escrows@.len(),
                forall|j: int|
                    0 <= j < i ==> !((#[trigger] self.escrows@[j]).channel@ == ck@
                        && self.escrows@[j].depositor@ == depositor@),
            decreases n - i,
        {
            if bytes_eq(&self.escrows[i].channel, ck) && id_eq(&self.escrows[i].depositor, depositor)
            {
                return Some(i);
            }
            i = i + 1;
        }
        None
    }

    /// Finds the direct message at the key derived from sender, recipient,
    /// payload hash and type.
    pub fn find_message(
        &self,
        sender: &Vec<u8>,
        recipient: &Vec<u8>,
        payload_hash: &[u8; 32],
        t: &MessageType,
    ) -> (r: Option<usize>)
        ensures
            match r {
                Some(i) => i < self.messages@.len() && self.messages@[i as int].sender@ == sender@
                    && self.messages@[i as int].recipient@ == recipient@
                    && self.messages@[i as int].payload_hash@ == payload_hash@
                    && message_type_code_spec(self.messages@[i as int].message_type)
                    == message_type_code_spec(*t),
                None => !has_message(
                    self.messages@,
                    sender@,
                    recipient@,
                    payload_hash@,
                    message_type_code_spec(*t),
                ),
            },
    {
        let code = message_type_code(t);
        let n = self.messages.len();
        let mut i: usize = 0;
        while i < n
            invariant
                0 <= i <= n,
                n == self.messages@.len(),
                code == message_type_code_spec(*t),
                forall|j: int|
                    0 <= j < i ==> !((#[trigger] self.messages@[j]).sender@ == sender@
                        && self.messages@[j].recipient@ == recipient@
                        && self.messages@[j].payload_hash@ == payload_hash@
                        && message_type_code_spec(self.messages@[j].message_type) == code),
            decreases n - i,
        {
            if bytes_eq(&self.messages[i].sender, sender) && bytes_eq(
                &self.messages[i].recipient,
                recipient,
            ) && id_eq(&self.messages[i].payload_hash, payload_hash) && message_type_code(
                &self.messages[i].message_type,
            ) == code {
                return Some(i);
            }
            i = i + 1;
        }
        None
    }

    /// Finds the broadcast message of `sender` in the channel at `ck` under
    /// `nonce`.
    pub fn find_channel_message(&self, ck: &Vec<u8>, sender: &Vec<u8>, nonce: u64) -> (r: Option<
        usize,
    >)
        ensures
            match r {
                Some(i) => i < self.channel_messages@.len()
                    && self.channel_messages@[i as int].message.channel@ == ck@
                    && self.channel_messages@[i as int].message.sender@ == sender@
                    && self.channel_messages@[i as int].nonce == nonce,
                None => !has_channel_message(self.channel_messages@, ck@, sender@, nonce),
            },
    {
        let n = self.channel_messages.len();
        let mut i: usize = 0;
        while i < n
            invariant
                0 <= i <= n,
                n == self.channel_messages@.len(),
                forall|j: int|
                    0 <= j < i ==> !((#[trigger] self.channel_messages@[j]).message.channel@ == ck@
                        && self.channel_messages@[j].message.sender@ == sender@
                        && self.channel_messages@[j].nonce == nonce),
            decreases n - i,
        {
            if self.channel_messages[i].nonce == nonce && bytes_eq(
                &self.channel_messages[i].message.channel,
                ck,
            ) && bytes_eq(&self.channel_messages[i].message.sender, sender) {
                return Some(i);
            }
            i = i + 1;
        }
        None
    }
}

/// `post` is `pre` with its escrow balance replaced by `balance` and every
/// other field untouched.
pub open spec fn channel_with_balance(pre: ChannelEntry, post: ChannelEntry, balance: int) -> bool {
    &&& post.key@ == pre.key@
    &&& post.account.creator@ == pre.account.creator@
    &&& post.account.name@ == pre.account.name@
    &&& post.account.description@ == pre.account.description@
    &&& post.account.visibility == pre.account.visibility
    &&& post.account.max_participants == pre.account.max_participants
    &&& post.account.current_participants == pre.account.current_participants
    &&& post.account.fee_per_message == pre.account.fee_per_message
    &&& post.account.escrow_balance as int == balance
    &&& post.account.created_at == pre.account.created_at
    &&& post.account.is_active == pre.account.is_active
}

/// `post` is `pre` with its participant count replaced by `count` and every
/// other field untouched.
pub open spec fn channel_with_count(pre: ChannelEntry, post: ChannelEntry, count: int) -> bool {
    &&& post.key@ == pre.key@
    &&& post.account.creator@ == pre.account.creator@
    &&& post.account.name@ == pre.account.name@
    &&& post.account.description@ == pre.account.description@
    &&& post.account.visibility == pre.account.visibility
    &&& post.account.max_participants == pre.account.max_participants
    &&& post.account.current_participants as int == count
    &&& post.account.fee_per_message == pre.account.fee_per_message
    &&& post.account.escrow_balance == pre.account.escrow_balance
    &&& post.account.created_at == pre.account.created_at
    &&& post.account.is_active == pre.account.is_active
}

/// In a well-formed state, any index holding the channel at `key` is the
/// index `channel_index_of` picks.
pub proof fn lemma_channel_index_unique(s: ProtocolState, key: Seq<u8>, i: int)
    requires
        s.wf(),
        0 <= i < s.channels@.len(),
        s.channels@[i].key@ == key,
    ensures
        channel_index_of(s.channels@, key) == i,
{
    let cs = s.channels@;
    assert(has_channel(cs, key));
    let w = channel_index_of(cs, key);
    assert(0 <= w < cs.len() && cs[w].key@ == key);
    if w != i {
        if w < i {
            assert((cs[w]).key@ != (cs[i]).key@);
        } else {
            assert((cs[i]).key@ != (cs[w]).key@);
        }
    }
}

/// In a well-formed state, any index holding the membership of `agent` in
/// the channel at `ck` is the index `participant_index_of` picks.
pub proof fn lemma_participant_index_unique(s: ProtocolState, ck: Seq<u8>, agent: Seq<u8>, i: int)
    requires
        s.wf(),
        0 <= i < s.participants@.len(),
        s.participants@[i].channel@ == ck,
        s.participants@[i].participant@ == agent,
    ensures
        participant_index_of(s.participants@, ck, agent) == i,
{
    let ps = s.participants@;
    assert(has_participant(ps, ck, agent));
    let w = participant_index_of(ps, ck, agent);
    assert(0 <= w < ps.len() && ps[w].channel@ == ck && ps[w].participant@ == agent);
    if w != i {
        if w < i {
            assert(!((ps[w]).channel@ == (ps[i]).channel@ && ps[w].participant@
                == ps[i].participant@));
        } else {
            assert(!((ps[i]).channel@ == (ps[w]).channel@ && ps[i].participant@
                == ps[w].participant@));
        }
    }
}

/// In a well-formed state, any index holding the invitation of `invitee`
/// into the channel at `ck` is the index `invitation_index_of` picks.
pub proof fn lemma_invitation_index_unique(s: ProtocolState, ck: Seq<u8>, invitee: Seq<u8>, i: int)
    requires
        s.wf(),
        0 <= i < s.invitations@.len(),
        s.invitations@[i].channel@ == ck,
        s.invitations@[i].invitee@ == invitee,
    ensures
        invitation_index_of(s.invitations@, ck, invitee) == i,
{
    let inv = s.invitations@;
    assert(has_invitation(inv, ck, invitee));
    let w = invitation_index_of(inv, ck, invitee);
    assert(0 <= w < inv.len() && inv[w].channel@ == ck && inv[w].invitee@ == invitee);
    if w != i {
        if w < i {
            assert(!((inv[w]).channel@ == (inv[i]).channel@ && inv[w].invitee@
                == inv[i].invitee@));
        } else {
            assert(!((inv[i]).channel@ == (inv[w]).channel@ && inv[i].invitee@
                == inv[w].invitee@));
        }
    }
}

/// In a well-formed state, any index holding the direct message with the
/// given derived-key material is the index `message_index_of` picks.
pub proof fn lemma_message_index_unique(
    s: ProtocolState,
    sender: Seq<u8>,
    recipient: Seq<u8>,
    payload_hash: Seq<u8>,
    code: u8,
    i: int,
)
    requires
        s.wf(),
        0 <= i < s.messages@.len(),
        s.messages@[i].sender@ == sender,
        s.messages@[i].recipient@ == recipient,
        s.messages@[i].payload_hash@ == payload_hash,
        message_type_code_spec(s.messages@[i].message_type) == code,
    ensures
        message_index_of(s.messages@, sender, recipient, payload_hash, code) == i,
{
    let ms = s.messages@;
    assert(has_message(ms, sender, recipient, payload_hash, code));
    let w = message_index_of(ms, sender, recipient, payload_hash, code);
    assert(0 <= w < ms.len() && ms[w].sender@ == sender && ms[w].recipient@ == recipient
        && ms[w].payload_hash@ == payload_hash && message_type_code_spec(ms[w].message_type)
        == code);
    if w != i {
        if w < i {
            assert(!((ms[w]).sender@ == (ms[i]).sender@ && ms[w].recipient@ == ms[i].recipient@
                && ms[w].payload_hash@ == ms[i].payload_hash@ && message_type_code_spec(
                ms[w].message_type,
            ) == message_type_code_spec(ms[i].message_type)));
        } else {
            assert(!((ms[i]).sender@ == (ms[w]).sender@ && ms[i].recipient@ == ms[w].recipient@
                && ms[i].payload_hash@ == ms[w].payload_hash@ && message_type_code_spec(
                ms[i].message_type,
            ) == message_type_code_spec(ms[w].message_type)));
        }
    }
}

/// Appending an escrow record adds its amount to the sum of its own channel
/// and leaves every other channel's sum unchanged.
pub proof fn lemma_escrow_sum_push(es: Seq<EscrowAccount>, ck: Seq<u8>, e: EscrowAccount)
    ensures
        escrow_sum(es.push(e), ck) == escrow_sum(es, ck) + if e.channel@ == ck {
            e.amount as int
        } else {
            0
        },
{
    assert(es.push(e).drop_last() =~= es);
    assert(es.push(e).last() == e);
}

/// Replacing the record at `i` by one for the same channel shifts that
/// channel's sum by the amount difference and leaves other channels' sums
/// unchanged.
pub proof fn lemma_escrow_sum_update(
    es: Seq<EscrowAccount>,
    ck: Seq<u8>,
    i: int,
    e: EscrowAccount,
)
    requires
        0 <= i < es.len(),
        es[i].channel@ == e.channel@,
    ensures
        escrow_sum(es.update(i, e), ck) == escrow_sum(es, ck) + if e.channel@ == ck {
            e.amount as int - es[i].amount as int
        } else {
            0
        },
    decreases es.len(),
{
    let upd = es.update(i, e);
    if i == es.len() - 1 {
        assert(upd.drop_last() =~= es.drop_last());
        assert(upd.last() == e);
        assert(es.last() == es[i]);
    } else {
        assert(upd.drop_last() =~= es.drop_last().update(i, e));
        assert(upd.last() == es.last());
        lemma_escrow_sum_update(es.drop_last(), ck, i, e);
        assert(es.drop_last()[i] == es[i]);
    }
}

/// A channel no escrow record references holds a zero sum.
pub proof fn lemma_escrow_sum_absent(es: Seq<EscrowAccount>, ck: Seq<u8>)
    requires
        forall|i: int| 0 <= i < es.len() ==> (#[trigger] es[i]).channel@ != ck,
    ensures
        escrow_sum(es, ck) == 0,
    decreases es.len(),
{
    if es.len() > 0 {
        assert(es.last() == es[es.len() - 1]);
        lemma_escrow_sum_absent(es.drop_last(), ck);
    }
}

/// Each single escrow record contributes no more than its channel's sum:
/// the sum of non-negative amounts dominates every member.
pub proof fn lemma_escrow_sum_ge_member(es: Seq<EscrowAccount>, ck: Seq<u8>, i: int)
    requires
        0 <= i < es.len(),
        es[i].channel@ == ck,
    ensures
        escrow_sum(es, ck) >= es[i].amount as int,
    decreases es.len(),
{
    if i == es.len() - 1 {
        assert(es.last() == es[i]);
        lemma_escrow_sum_nonneg(es.drop_last(), ck);
    } else {
        lemma_escrow_sum_ge_member(es.drop_last(), ck, i);
        assert(es.drop_last()[i] == es[i]);
    }
}

/// An escrow sum is never negative.
pub proof fn lemma_escrow_sum_nonneg(es: Seq<EscrowAccount>, ck: Seq<u8>)
    ensures
        escrow_sum(es, ck) >= 0,
    decreases es.len(),
{
    if es.len() > 0 {
        lemma_escrow_sum_nonneg(es.drop_last(), ck);
    }
}

/// Appending a membership record raises the active count of its own channel
/// by one when it is active, and changes no other channel's count.
pub proof fn lemma_active_count_push(
    ps: Seq<ChannelParticipant>,
    ck: Seq<u8>,
    p: ChannelParticipant,
)
    ensures
        active_count(ps.push(p), ck) == active_count(ps, ck) + if p.is_active && p.channel@ == ck {
            1int
        } else {
            0int
        },
{
    assert(ps.push(p).drop_last() =~= ps);
    assert(ps.push(p).last() == p);
}

/// Replacing the membership record at `i` by one for the same channel and
/// agent shifts that channel's active count by the activity difference.
pub proof fn lemma_active_count_update(
    ps: Seq<ChannelParticipant>,
    ck: Seq<u8>,
    i: int,
    p: ChannelParticipant,
)
    requires
        0 <= i < ps.len(),
        ps[i].channel@ == p.channel@,
    ensures
        active_count(ps.update(i, p), ck) == active_count(ps, ck) + if p.channel@ == ck {
            (if p.is_active {
                1int
            } else {
                0int
            }) - (if ps[i].is_active {
                1int
            } else {
                0int
            })
        } else {
            0int
        },
    decreases ps.len(),
{
    let upd = ps.update(i, p);
    if i == ps.len() - 1 {
        assert(upd.drop_last() =~= ps.drop_last());
        assert(upd.last() == p);
        assert(ps.last() == ps[i]);
    } else {
        assert(upd.drop_last() =~= ps.drop_last().update(i, p));
        assert(upd.last() == ps.last());
        lemma_active_count_update(ps.drop_last(), ck, i, p);
        assert(ps.drop_last()[i] == ps[i]);
    }
}

/// A channel no membership record references has an active count of zero.
pub proof fn lemma_active_count_absent(ps: Seq<ChannelParticipant>, ck: Seq<u8>)
    requires
        forall|i: int| 0 <= i < ps.len() ==> (#[trigger] ps[i]).channel@ != ck,
    ensures
        active_count(ps, ck) == 0,
    decreases ps.len(),
{
    if ps.len() > 0 {
        assert(ps.last() == ps[ps.len() - 1]);
        lemma_active_count_absent(ps.drop_last(), ck);
    }
}

/// An active membership record forces its channel's active count to at
/// least one.
pub proof fn lemma_active_count_ge_one(ps: Seq<ChannelParticipant>, ck: Seq<u8>, i: int)
    requires
        0 <= i < ps.len(),
        ps[i].channel@ == ck,
        ps[i].is_active,
    ensures
        active_count(ps, ck) >= 1,
    decreases ps.len(),
{
    if i == ps.len() - 1 {
        assert(ps.last() == ps[i]);
        lemma_active_count_nonneg(ps.drop_last(), ck);
    } else {
        lemma_active_count_ge_one(ps.drop_last(), ck, i);
        assert(ps.drop_last()[i] == ps[i]);
    }
}

/// An active count is never negative.
pub proof fn lemma_active_count_nonneg(ps: Seq<ChannelParticipant>, ck: Seq<u8>)
    ensures
        active_count(ps, ck) >= 0,
    decreases ps.len(),
{
    if ps.len() > 0 {
        lemma_active_count_nonneg(ps.drop_last(), ck);
    }
}

} // verus!
