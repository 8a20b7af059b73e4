use vstd::prelude::*;
use crate::bytes::{append_bytes, append_id};
use crate::types::{message_type_code, message_type_code_spec, MessageType};

verus! {

// Every durable record sits at a derived key: a byte string built
// deterministically from a fixed ASCII tag naming the record kind, followed
// by the identities and parameters that define the record. A caller who
// knows the parameters can always recompute the address, and the host's
// uniqueness rule on creation — at most one record per key — is the
// protocol's only concurrency-control primitive. The lemmas at the end of
// this module prove the scheme injective kind by kind, so two distinct
// parameter lists never collide.

/// The ASCII bytes of `"agent"`.
pub open spec fn agent_tag() -> Seq<u8> {
    seq![97u8, 103u8, 101u8, 110u8, 116u8]
}

/// The ASCII bytes of `"message"`.
pub open spec fn message_tag() -> Seq<u8> {
    seq![109u8, 101u8, 115u8, 115u8, 97u8, 103u8, 101u8]
}

/// The ASCII bytes of `"channel"`.
pub open spec fn channel_tag() -> Seq<u8> {
    seq![99u8, 104u8, 97u8, 110u8, 110u8, 101u8, 108u8]
}

/// The ASCII bytes of `"participant"`.
pub open spec fn participant_tag() -> Seq<u8> {
    seq![112u8, 97u8, 114u8, 116u8, 105u8, 99u8, 105u8, 112u8, 97u8, 110u8, 116u8]
}

/// The ASCII bytes of `"invitation"`.
pub open spec fn invitation_tag() -> Seq<u8> {
    seq![105u8, 110u8, 118u8, 105u8, 116u8, 97u8, 116u8, 105u8, 111u8, 110u8]
}

/// The ASCII bytes of `"channel_message"`.
pub open spec fn channel_message_tag() -> Seq<u8> {
    seq![
        99u8,
        104u8,
        97u8,
        110u8,
        110u8,
        101u8,
        108u8,
        95u8,
        109u8,
        101u8,
        115u8,
        115u8,
        97u8,
        103u8,
        101u8,
    ]
}

/// The ASCII bytes of `"escrow"`.
pub open spec fn escrow_tag() -> Seq<u8> {
    seq![101u8, 115u8, 99u8, 114u8, 111u8, 119u8]
}

/// The eight little-endian bytes of `n`.
pub open spec fn u64_le_spec(n: u64) -> Seq<u8> {
    seq![
        (n & 0xff) as u8,
        ((n >> 8) & 0xff) as u8,
        ((n >> 16) & 0xff) as u8,
        ((n >> 24) & 0xff) as u8,
        ((n >> 32) & 0xff) as u8,
        ((n >> 40) & 0xff) as u8,
        ((n >> 48) & 0xff) as u8,
        ((n >> 56) & 0xff) as u8,
    ]
}

/// Appends the eight little-endian bytes of `n` to `out`.
pub fn append_u64_le(out: &mut Vec<u8>, n: u64)
    ensures
        final(out)@ == old(out)@ + u64_le_spec(n),
{
    out.push((n & 0xff) as u8);
    out.push(((n >> 8) & 0xff) as u8);
    out.push(((n >> 16) & 0xff) as u8);
    out.push(((n >> 24) & 0xff) as u8);
    out.push(((n >> 32) & 0xff) as u8);
    out.push(((n >> 40) & 0xff) as u8);
    out.push(((n >> 48) & 0xff) as u8);
    out.push(((n >> 56) & 0xff) as u8);
    proof {
        assert(out@ =~= old(out)@ + u64_le_spec(n));
    }
}

/// Key of the agent record owned by `owner`.
pub open spec fn agent_key_spec(owner: Seq<u8>) -> Seq<u8> {
    agent_tag() + owner
}

/// Key of the direct message defined by sender, recipient, payload hash and
/// message-type code.
pub open spec fn message_key_spec(
    sender: Seq<u8>,
    recipient: Seq<u8>,
    payload_hash: Seq<u8>,
    t: MessageType,
) -> Seq<u8> {
    message_tag() + sender + recipient + payload_hash + seq![message_type_code_spec(t)]
}

/// Key of the channel created by `creator` under `name`.
pub open spec fn channel_key_spec(creator: Seq<u8>, name: Seq<u8>) -> Seq<u8> {
    channel_tag() + creator + name
}

/// Key of the membership of `agent` in the channel at `channel_key`.
pub open spec fn participant_key_spec(channel_key: Seq<u8>, agent: Seq<u8>) -> Seq<u8> {
    participant_tag() + channel_key + agent
}

/// Key of the invitation of `invitee` into the channel at `channel_key`.
pub open spec fn invitation_key_spec(channel_key: Seq<u8>, invitee: Seq<u8>) -> Seq<u8> {
    invitation_tag() + channel_key + invitee
}

/// Key of the broadcast message sent by `sender` into the channel at
/// `channel_key` under `nonce`.
pub open spec fn channel_message_key_spec(
    channel_key: Seq<u8>,
    sender: Seq<u8>,
    nonce: u64,
) -> Seq<u8> {
    channel_message_tag() + channel_key + sender + u64_le_spec(nonce)
}

/// Key of the escrow held by `depositor` in the channel at `channel_key`.
pub open spec fn escrow_key_spec(channel_key: Seq<u8>, depositor: Seq<u8>) -> Seq<u8> {
    escrow_tag() + channel_key + depositor
}

/// Derives the agent identity of `owner`: the key of its agent record.
pub fn derive_agent_key(owner: &[u8; 32]) -> (r: Vec<u8>)
    ensures
        r@ == agent_key_spec(owner@),
        r@.len() == 37,
{
    let mut out: Vec<u8> = Vec::new();
    out.push(97);
    out.push(103);
    out.push(101);
    out.push(110);
    out.push(116);
    proof {
        assert(out@ =~= agent_tag());
    }
    append_id(&mut out, owner);
    out
}

/// Derives the key of a direct message record.
pub fn derive_message_key(
    sender: &Vec<u8>,
    recipient: &Vec<u8>,
    payload_hash: &[u8; 32],
    t: &MessageType,
) -> (r: Vec<u8>)
    ensures
        r@ == message_key_spec(sender@, recipient@, payload_hash@, *t),
{
    let mut out: Vec<u8> = Vec::new();
    out.push(109);
    out.push(101);
    out.push(115);
    out.push(115);
    out.push(97);
    out.push(103);
    out.push(101);
    proof {
        assert(out@ =~= message_tag());
    }
    append_bytes(&mut out, sender);
    append_bytes(&mut out, recipient);
    append_id(&mut out, payload_hash);
    out.push(message_type_code(t));
    proof {
        assert(out@ =~= message_key_spec(sender@, recipient@, payload_hash@, *t));
    }
    out
}

/// Derives the key of a channel record.
pub fn derive_channel_key(creator: &[u8; 32], name: &Vec<u8>) -> (r: Vec<u8>)
    ensures
        r@ == channel_key_spec(creator@, name@),
{
    let mut out: Vec<u8> = Vec::new();
    out.push(99);
    out.push(104);
    out.push(97);
    out.push(110);
    out.push(110);
    out.push(101);
    out.push(108);
    proof {
        assert(out@ =~= channel_tag());
    }
    append_id(&mut out, creator);
    append_bytes(&mut out, name);
    out
}

/// Derives the key of a channel-membership record.
pub fn derive_participant_key(channel_key: &Vec<u8>, agent: &Vec<u8>) -> (r: Vec<u8>)
    ensures
        r@ == participant_key_spec(channel_key@, agent@),
{
    let mut out: Vec<u8> = Vec::new();
    out.push(112);
    out.push(97);
    out.push(114);
    out.push(116);
    out.push(105);
    out.push(99);
    out.push(105);
    out.push(112);
    out.push(97);
    out.push(110);
    out.push(116);
    proof {
        assert(out@ =~= participant_tag());
    }
    append_bytes(&mut out, channel_key);
    append_bytes(&mut out, agent);
    out
}

/// Derives the key of a channel-invitation record.
pub fn derive_invitation_key(channel_key: &Vec<u8>, invitee: &Vec<u8>) -> (r: Vec<u8>)
    ensures
        r@ == invitation_key_spec(channel_key@, invitee@),
{
    let mut out: Vec<u8> = Vec::new();
    out.push(105);
    out.push(110);
    out.push(118);
    out.push(105);
    out.push(116);
    out.push(97);
    out.push(116);
    out.push(105);
    out.push(111);
    out.push(110);
    proof {
        assert(out@ =~= invitation_tag());
    }
    append_bytes(&mut out, channel_key);
    append_bytes(&mut out, invitee);
    out
}

/// Derives the key of a broadcast-message record.
pub fn derive_channel_message_key(channel_key: &Vec<u8>, sender: &Vec<u8>, nonce: u64) -> (r: Vec<
    u8,
>)
    ensures
        r@ == channel_message_key_spec(channel_key@, sender@, nonce),
{
    let mut out: Vec<u8> = Vec::new();
    out.push(99);
    out.push(104);
    out.push(97);
    out.push(110);
    out.push(110);
    out.push(101);
    out.push(108);
    out.push(95);
    out.push(109);
    out.push(101);
    out.push(115);
    out.push(115);
    out.push(97);
    out.push(103);
    out.push(101);
    proof {
        assert(out@ =~= channel_message_tag());
    }
    append_bytes(&mut out, channel_key);
    append_bytes(&mut out, sender);
    append_u64_le(&mut out, nonce);
    out
}

/// Derives the key of an escrow record.
pub fn derive_escrow_key(channel_key: &Vec<u8>, depositor: &[u8; 32]) -> (r: Vec<u8>)
    ensures
        r@ == escrow_key_spec(channel_key@, depositor@),
{
    let mut out: Vec<u8> = Vec::new();
    out.push(101);
    out.push(115);
    out.push(99);
    out.push(114);
    out.push(111);
    out.push(119);
    proof {
        assert(out@ =~= escrow_tag());
    }
    append_bytes(&mut out, channel_key);
    append_id(&mut out, depositor);
    out
}

/// Splitting a concatenation at equal prefix lengths recovers both halves.
proof fn lemma_split_head(a1: Seq<u8>, b1: Seq<u8>, a2: Seq<u8>, b2: Seq<u8>)
    requires
        a1.len() == a2.len(),
        a1 + b1 == a2 + b2,
    ensures
        a1 == a2,
        b1 == b2,
{
    assert((a1 + b1).len() == a1.len() + b1.len());
    assert((a2 + b2).len() == a2.len() + b2.len());
    assert(b1.len() == b2.len());
    assert forall|i: int| 0 <= i < a1.len() implies a1[i] == a2[i] by {
        assert((a1 + b1)[i] == a1[i]);
        assert((a2 + b2)[i] == a2[i]);
        assert((a1 + b1)[i] == (a2 + b2)[i]);
    }
    assert forall|i: int| 0 <= i < b1.len() implies b1[i] == b2[i] by {
        assert((a1 + b1)[a1.len() + i] == b1[i]);
        assert((a2 + b2)[a2.len() + i] == b2[i]);
        assert((a1 + b1)[a1.len() + i] == (a2 + b2)[a2.len() + i]);
    }
    assert(a1 =~= a2);
    assert(b1 =~= b2);
}

/// Splitting a concatenation at equal suffix lengths recovers both halves.
proof fn lemma_split_tail(a1: Seq<u8>, b1: Seq<u8>, a2: Seq<u8>, b2: Seq<u8>)
    requires
        b1.len() == b2.len(),
        a1 + b1 == a2 + b2,
    ensures
        a1 == a2,
        b1 == b2,
{
    assert((a1 + b1).len() == a1.len() + b1.len());
    assert((a2 + b2).len() == a2.len() + b2.len());
    lemma_split_head(a1, b1, a2, b2);
}

/// The eight little-endian bytes of a 64-bit value determine the value.
proof fn lemma_u64_le_injective(n1: u64, n2: u64)
    requires
        u64_le_spec(n1) == u64_le_spec(n2),
    ensures
        n1 == n2,
{
    assert(u64_le_spec(n1)[0] == u64_le_spec(n2)[0]);
    assert(u64_le_spec(n1)[1] == u64_le_spec(n2)[1]);
    assert(u64_le_spec(n1)[2] == u64_le_spec(n2)[2]);
    assert(u64_le_spec(n1)[3] == u64_le_spec(n2)[3]);
    assert(u64_le_spec(n1)[4] == u64_le_spec(n2)[4]);
    assert(u64_le_spec(n1)[5] == u64_le_spec(n2)[5]);
    assert(u64_le_spec(n1)[6] == u64_le_spec(n2)[6]);
    assert(u64_le_spec(n1)[7] == u64_le_spec(n2)[7]);
    assert(((n1 & 0xff) as u8 == (n2 & 0xff) as u8 && ((n1 >> 8) & 0xff) as u8 == ((n2 >> 8)
        & 0xff) as u8 && ((n1 >> 16) & 0xff) as u8 == ((n2 >> 16) & 0xff) as u8 && ((n1 >> 24)
        & 0xff) as u8 == ((n2 >> 24) & 0xff) as u8 && ((n1 >> 32) & 0xff) as u8 == ((n2 >> 32)
        & 0xff) as u8 && ((n1 >> 40) & 0xff) as u8 == ((n2 >> 40) & 0xff) as u8 && ((n1 >> 48)
        & 0xff) as u8 == ((n2 >> 48) & 0xff) as u8 && ((n1 >> 56) & 0xff) as u8 == ((n2 >> 56)
        & 0xff) as u8) ==> n1 == n2) by (bit_vector);
}

/// Two equal agent keys name the same owner: one agent record per owner
/// identity is addressable, and a second registration for the same owner
/// lands on the occupied key.
pub proof fn lemma_agent_key_injective(o1: Seq<u8>, o2: Seq<u8>)
    requires
        agent_key_spec(o1) == agent_key_spec(o2),
    ensures
        o1 == o2,
{
    lemma_split_head(agent_tag(), o1, agent_tag(), o2);
}

/// Two equal channel keys name the same creator and name.
pub proof fn lemma_channel_key_injective(c1: Seq<u8>, n1: Seq<u8>, c2: Seq<u8>, n2: Seq<u8>)
    requires
        c1.len() == 32,
        c2.len() == 32,
        channel_key_spec(c1, n1) == channel_key_spec(c2, n2),
    ensures
        c1 == c2,
        n1 == n2,
{
    assert(channel_key_spec(c1, n1) =~= channel_tag() + (c1 + n1));
    assert(channel_key_spec(c2, n2) =~= channel_tag() + (c2 + n2));
    lemma_split_head(channel_tag(), c1 + n1, channel_tag(), c2 + n2);
    lemma_split_head(c1, n1, c2, n2);
}

/// Two equal participant keys name the same channel and agent, provided the
/// agent identities have the agent-key length.
pub proof fn lemma_participant_key_injective(
    ck1: Seq<u8>,
    a1: Seq<u8>,
    ck2: Seq<u8>,
    a2: Seq<u8>,
)
    requires
        a1.len() == a2.len(),
        participant_key_spec(ck1, a1) == participant_key_spec(ck2, a2),
    ensures
        ck1 == ck2,
        a1 == a2,
{
    assert(participant_key_spec(ck1, a1) =~= participant_tag() + (ck1 + a1));
    assert(participant_key_spec(ck2, a2) =~= participant_tag() + (ck2 + a2));
    lemma_split_head(participant_tag(), ck1 + a1, participant_tag(), ck2 + a2);
    lemma_split_tail(ck1, a1, ck2, a2);
}

/// Two equal invitation keys name the same channel and invitee, provided
/// the invitee identities have the agent-key length.
pub proof fn lemma_invitation_key_injective(ck1: Seq<u8>, i1: Seq<u8>, ck2: Seq<u8>, i2: Seq<u8>)
    requires
        i1.len() == i2.len(),
        invitation_key_spec(ck1, i1) == invitation_key_spec(ck2, i2),
    ensures
        ck1 == ck2,
        i1 == i2,
{
    assert(invitation_key_spec(ck1, i1) =~= invitation_tag() + (ck1 + i1));
    assert(invitation_key_spec(ck2, i2) =~= invitation_tag() + (ck2 + i2));
    lemma_split_head(invitation_tag(), ck1 + i1, invitation_tag(), ck2 + i2);
    lemma_split_tail(ck1, i1, ck2, i2);
}

/// Two equal escrow keys name the same channel and depositor.
pub proof fn lemma_escrow_key_injective(ck1: Seq<u8>, d1: Seq<u8>, ck2: Seq<u8>, d2: Seq<u8>)
    requires
        d1.len() == 32,
        d2.len() == 32,
        escrow_key_spec(ck1, d1) == escrow_key_spec(ck2, d2),
    ensures
        ck1 == ck2,
        d1 == d2,
{
    assert(escrow_key_spec(ck1, d1) =~= escrow_tag() + (ck1 + d1));
    assert(escrow_key_spec(ck2, d2) =~= escrow_tag() + (ck2 + d2));
    lemma_split_head(escrow_tag(), ck1 + d1, escrow_tag(), ck2 + d2);
    lemma_split_tail(ck1, d1, ck2, d2);
}

/// Two equal direct-message keys name the same sender, recipient, payload
/// hash and type code, provided the identities have the agent-key length.
pub proof fn lemma_message_key_injective(
    s1: Seq<u8>,
    r1: Seq<u8>,
    h1: Seq<u8>,
    t1: MessageType,
    s2: Seq<u8>,
    r2: Seq<u8>,
    h2: Seq<u8>,
    t2: MessageType,
)
    requires
        s1.len() == s2.len(),
        r1.len() == r2.len(),
        h1.len() == 32,
        h2.len() == 32,
        message_key_spec(s1, r1, h1, t1) == message_key_spec(s2, r2, h2, t2),
    ensures
        s1 == s2,
        r1 == r2,
        h1 == h2,
        message_type_code_spec(t1) == message_type_code_spec(t2),
{
    let x1 = seq![message_type_code_spec(t1)];
    let x2 = seq![message_type_code_spec(t2)];
    assert(message_tag() + s1 + r1 + h1 + x1 =~= message_tag() + (s1 + r1 + h1 + x1));
    assert(message_tag() + s2 + r2 + h2 + x2 =~= message_tag() + (s2 + r2 + h2 + x2));
    lemma_split_head(message_tag(), s1 + r1 + h1 + x1, message_tag(), s2 + r2 + h2 + x2);
    assert(s1 + r1 + h1 + x1 =~= s1 + (r1 + h1 + x1));
    assert(s2 + r2 + h2 + x2 =~= s2 + (r2 + h2 + x2));
    lemma_split_head(s1, r1 + h1 + x1, s2, r2 + h2 + x2);
    assert(r1 + h1 + x1 =~= r1 + (h1 + x1));
    assert(r2 + h2 + x2 =~= r2 + (h2 + x2));
    lemma_split_head(r1, h1 + x1, r2, h2 + x2);
    lemma_split_head(h1, x1, h2, x2);
    assert(x1[0] == x2[0]);
}

/// Two equal broadcast-message keys name the same channel, sender and
/// nonce, provided the sender identities have the agent-key length.
pub proof fn lemma_channel_message_key_injective(
    ck1: Seq<u8>,
    s1: Seq<u8>,
    n1: u64,
    ck2: Seq<u8>,
    s2: Seq<u8>,
    n2: u64,
)
    requires
        s1.len() == s2.len(),
        channel_message_key_spec(ck1, s1, n1) == channel_message_key_spec(ck2, s2, n2),
    ensures
        ck1 == ck2,
        s1 == s2,
        n1 == n2,
{
    let x1 = u64_le_spec(n1);
    let x2 = u64_le_spec(n2);
    assert(channel_message_tag() + ck1 + s1 + x1 =~= (channel_message_tag() + ck1) + (s1 + x1));
    assert(channel_message_tag() + ck2 + s2 + x2 =~= (channel_message_tag() + ck2) + (s2 + x2));
    lemma_split_tail(channel_message_tag() + ck1, s1 + x1, channel_message_tag() + ck2, s2 + x2);
    lemma_split_head(channel_message_tag(), ck1, channel_message_tag(), ck2);
    lemma_split_head(s1, x1, s2, x2);
    lemma_u64_le_injective(n1, n2);
}

} // verus!
