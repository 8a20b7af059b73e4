use vstd::prelude::*;
use crate::keys::u64_le_spec;
use crate::records::{CompressedChannelMessage, CompressedChannelParticipant,
    ParticipantExtendedMetadata};
use crate::types::MessageType;

verus! {

// The wire format of the records handed to the commitment service, defined
// field by field: fixed-width integers little-endian, byte strings behind a
// 32-bit length, options behind a one-byte tag, lists behind a 32-bit
// count, an enum as its variant index followed by its payload, and a
// 32-byte hash verbatim. Fields follow declaration order.

/// Byte strings and lists carry 32-bit length prefixes, so anything longer
/// cannot be framed.
pub const MAX_ENCODABLE_LENGTH: usize = 0xffff_ffff;

/// The four little-endian bytes of `n`.
pub open spec fn u32_le_spec(n: u32) -> Seq<u8> {
    seq![
        (n & 0xff) as u8,
        ((n >> 8) & 0xff) as u8,
        ((n >> 16) & 0xff) as u8,
        ((n >> 24) & 0xff) as u8,
    ]
}

/// The eight little-endian bytes of `n`, two's complement.
pub open spec fn i64_le_spec(n: i64) -> Seq<u8> {
    u64_le_spec(n as u64)
}

/// A byte string framed by its 32-bit length.
pub open spec fn enc_bytes(b: Seq<u8>) -> Seq<u8>
    recommends
        b.len() <= MAX_ENCODABLE_LENGTH,
{
    u32_le_spec(b.len() as u32) + b
}

/// An optional timestamp: absent is one zero byte, present a one byte and
/// the value.
pub open spec fn enc_opt_i64(o: Option<i64>) -> Seq<u8> {
    match o {
        None => seq![0u8],
        Some(v) => seq![1u8] + i64_le_spec(v),
    }
}

/// An optional byte string: absent is one zero byte, present a one byte and
/// the framed string.
pub open spec fn enc_opt_bytes(o: Option<Vec<u8>>) -> Seq<u8> {
    match o {
        None => seq![0u8],
        Some(v) => seq![1u8] + enc_bytes(v@),
    }
}

/// A message type: its variant index, and for `Custom` the payload byte.
pub open spec fn enc_message_type(t: MessageType) -> Seq<u8> {
    match t {
        MessageType::Text => seq![0u8],
        MessageType::Data => seq![1u8],
        MessageType::Command => seq![2u8],
        MessageType::Response => seq![3u8],
        MessageType::Custom(x) => seq![4u8, x],
    }
}

/// The framed items of a list of byte strings, in order.
pub open spec fn enc_bytes_items(l: Seq<Vec<u8>>) -> Seq<u8>
    decreases l.len(),
{
    if l.len() == 0 {
        Seq::empty()
    } else {
        enc_bytes_items(l.drop_last()) + enc_bytes(l.last()@)
    }
}

/// The framed items of a list of byte-string pairs, in order.
pub open spec fn enc_pair_items(l: Seq<(Vec<u8>, Vec<u8>)>) -> Seq<u8>
    decreases l.len(),
{
    if l.len() == 0 {
        Seq::empty()
    } else {
        enc_pair_items(l.drop_last()) + enc_bytes(l.last().0@) + enc_bytes(l.last().1@)
    }
}

/// Extended member metadata on the wire: optional display name, counted
/// permission list, counted key-value list.
pub open spec fn encoded_metadata(m: ParticipantExtendedMetadata) -> Seq<u8> {
    enc_opt_bytes(m.display_name) + u32_le_spec(m.permissions@.len() as u32) + enc_bytes_items(
        m.permissions@,
    ) + u32_le_spec(m.custom_data@.len() as u32) + enc_pair_items(m.custom_data@)
}

/// Every length in the metadata fits its 32-bit frame.
pub open spec fn metadata_encodable(m: ParticipantExtendedMetadata) -> bool {
    &&& (m.display_name matches Some(d) ==> d@.len() <= MAX_ENCODABLE_LENGTH)
    &&& m.permissions@.len() <= MAX_ENCODABLE_LENGTH
    &&& forall|i: int|
        0 <= i < m.permissions@.len() ==> (#[trigger] m.permissions@[i])@.len()
            <= MAX_ENCODABLE_LENGTH
    &&& m.custom_data@.len() <= MAX_ENCODABLE_LENGTH
    &&& forall|i: int|
        0 <= i < m.custom_data@.len() ==> (#[trigger] m.custom_data@[i]).0@.len()
            <= MAX_ENCODABLE_LENGTH && m.custom_data@[i].1@.len() <= MAX_ENCODABLE_LENGTH
}

/// A compressed broadcast record on the wire, fields in declaration order;
/// the content hash rides verbatim.
pub open spec fn encoded_compressed_message(m: CompressedChannelMessage) -> Seq<u8> {
    enc_bytes(m.channel@) + enc_bytes(m.sender@) + m.content_hash@ + enc_bytes(m.ipfs_hash@)
        + enc_message_type(m.message_type) + i64_le_spec(m.created_at) + enc_opt_i64(m.edited_at)
        + enc_opt_bytes(m.reply_to)
}

/// Every length in the compressed broadcast record fits its frame.
pub open spec fn compressed_message_encodable(m: CompressedChannelMessage) -> bool {
    &&& m.channel@.len() <= MAX_ENCODABLE_LENGTH
    &&& m.sender@.len() <= MAX_ENCODABLE_LENGTH
    &&& m.ipfs_hash@.len() <= MAX_ENCODABLE_LENGTH
    &&& (m.reply_to matches Some(x) ==> x@.len() <= MAX_ENCODABLE_LENGTH)
}

/// A compressed membership record on the wire, fields in declaration
/// order; the metadata hash rides verbatim.
pub open spec fn encoded_compressed_participant(m: CompressedChannelParticipant) -> Seq<u8> {
    enc_bytes(m.channel@) + enc_bytes(m.participant@) + i64_le_spec(m.joined_at) + u64_le_spec(
        m.messages_sent,
    ) + i64_le_spec(m.last_message_at) + m.metadata_hash@
}

/// Every length in the compressed membership record fits its frame.
pub open spec fn compressed_participant_encodable(m: CompressedChannelParticipant) -> bool {
    &&& m.channel@.len() <= MAX_ENCODABLE_LENGTH
    &&& m.participant@.len() <= MAX_ENCODABLE_LENGTH
}

/// Appends the four little-endian bytes of `n`.
pub fn push_u32_le(out: &mut Vec<u8>, n: u32)
    ensures
        final(out)@ == old(out)@ + u32_le_spec(n),
{
    out.push((n & 0xff) as u8);
    out.push(((n >> 8) & 0xff) as u8);
    out.push(((n >> 16) & 0xff) as u8);
    out.push(((n >> 24) & 0xff) as u8);
    proof {
        assert(out@ =~= old(out)@ + u32_le_spec(n));
    }
}

/// Appends the eight little-endian bytes of `n`.
pub fn push_i64_le(out: &mut Vec<u8>, n: i64)
    ensures
        final(out)@ == old(out)@ + i64_le_spec(n),
{
    crate::keys::append_u64_le(out, n as u64);
}

/// Appends a byte string framed by its 32-bit length.
pub fn push_enc_bytes(out: &mut Vec<u8>, b: &Vec<u8>)
    requires
        b@.len() <= MAX_ENCODABLE_LENGTH,
    ensures
        final(out)@ == old(out)@ + enc_bytes(b@),
{
    push_u32_le(out, b.len() as u32);
    crate::bytes::append_bytes(out, b);
    proof {
        assert(out@ =~= old(out)@ + enc_bytes(b@));
    }
}

/// Appends a 32-byte hash verbatim.
pub fn push_hash(out: &mut Vec<u8>, h: &[u8; 32])
    ensures
        final(out)@ == old(out)@ + h@,
{
    crate::bytes::append_id(out, h);
}

/// Appends an optional timestamp.
pub fn push_opt_i64(out: &mut Vec<u8>, o: &Option<i64>)
    ensures
        final(out)@ == old(out)@ + enc_opt_i64(*o),
{
    match o {
        None => {
            out.push(0);
            proof {
                assert(out@ =~= old(out)@ + enc_opt_i64(*o));
            }
        },
        Some(v) => {
            out.push(1);
            push_i64_le(out, *v);
            proof {
                assert(out@ =~= old(out)@ + enc_opt_i64(*o));
            }
        },
    }
}

/// Appends an optional byte string.
pub fn push_opt_bytes(out: &mut Vec<u8>, o: &Option<Vec<u8>>)
    requires
        (*o) matches Some(x) ==> x@.len() <= MAX_ENCODABLE_LENGTH,
    ensures
        final(out)@ == old(out)@ + enc_opt_bytes(*o),
{
    match o {
        None => {
            out.push(0);
            proof {
                assert(out@ =~= old(out)@ + enc_opt_bytes(*o));
            }
        },
        Some(v) => {
            out.push(1);
            push_enc_bytes(out, v);
            proof {
                assert(out@ =~= old(out)@ + enc_opt_bytes(*o));
            }
        },
    }
}

/// Appends a message type.
pub fn push_message_type(out: &mut Vec<u8>, t: &MessageType)
    ensures
        final(out)@ == old(out)@ + enc_message_type(*t),
{
    match t {
        MessageType::Text => {
            out.push(0);
        },
        MessageType::Data => {
            out.push(1);
        },
        MessageType::Command => {
            out.push(2);
        },
        MessageType::Response => {
            out.push(3);
        },
        MessageType::Custom(x) => {
            out.push(4);
            out.push(*x);
        },
    }
    proof {
        assert(out@ =~= old(out)@ + enc_message_type(*t));
    }
}

/// Serializes extended member metadata; the server hashes these bytes
/// itself rather than trusting a caller-supplied hash.
pub fn encode_participant_metadata(m: &ParticipantExtendedMetadata) -> (r: Vec<u8>)
    requires
        metadata_encodable(*m),
    ensures
        r@ == encoded_metadata(*m),
{
    let mut out: Vec<u8> = Vec::new();
    push_opt_bytes(&mut out, &m.display_name);
    push_u32_le(&mut out, m.permissions.len() as u32);
    let ghost mark1 = out@;
    let n = m.permissions.len();
    let mut i: usize = 0;
    while i < n
        invariant
            0 <= i <= n,
            n == m.permissions@.len(),
            metadata_encodable(*m),
            out@ =~= mark1 + enc_bytes_items(m.permissions@.subrange(0, i as int)),
        decreases n - i,
    {
        push_enc_bytes(&mut out, &m.permissions[i]);
        proof {
            let sub = m.permissions@.subrange(0, i + 1);
            assert(sub.drop_last() =~= m.permissions@.subrange(0, i as int));
            assert(sub.last() == m.permissions@[i as int]);
            assert(out@ =~= mark1 + enc_bytes_items(sub));
        }
        i = i + 1;
    }
    proof {
        assert(m.permissions@.subrange(0, n as int) =~= m.permissions@);
    }
    push_u32_le(&mut out, m.custom_data.len() as u32);
    let ghost mark2 = out@;
    let k = m.custom_data.len();
    let mut j: usize = 0;
    while j < k
        invariant
            0 <= j <= k,
            k == m.custom_data@.len(),
            metadata_encodable(*m),
            out@ =~= mark2 + enc_pair_items(m.custom_data@.subrange(0, j as int)),
        decreases k - j,
    {
        push_enc_bytes(&mut out, &m.custom_data[j].0);
        push_enc_bytes(&mut out, &m.custom_data[j].1);
        proof {
            let sub = m.custom_data@.subrange(0, j + 1);
            assert(sub.drop_last() =~= m.custom_data@.subrange(0, j as int));
            assert(sub.last() == m.custom_data@[j as int]);
            assert(out@ =~= mark2 + enc_pair_items(sub));
        }
        j = j + 1;
    }
    proof {
        assert(m.custom_data@.subrange(0, k as int) =~= m.custom_data@);
        assert(out@ =~= encoded_metadata(*m));
    }
    out
}

/// Serializes a compressed broadcast record for the commitment service.
pub fn encode_compressed_message(m: &CompressedChannelMessage) -> (r: Vec<u8>)
    requires
        compressed_message_encodable(*m),
    ensures
        r@ == encoded_compressed_message(*m),
{
    let mut out: Vec<u8> = Vec::new();
    push_enc_bytes(&mut out, &m.channel);
    push_enc_bytes(&mut out, &m.sender);
    push_hash(&mut out, &m.content_hash);
    push_enc_bytes(&mut out, &m.ipfs_hash);
    push_message_type(&mut out, &m.message_type);
    push_i64_le(&mut out, m.created_at);
    push_opt_i64(&mut out, &m.edited_at);
    push_opt_bytes(&mut out, &m.reply_to);
    proof {
        assert(out@ =~= encoded_compressed_message(*m));
    }
    out
}

/// Serializes a compressed membership record for the commitment service.
pub fn encode_compressed_participant(m: &CompressedChannelParticipant) -> (r: Vec<u8>)
    requires
        compressed_participant_encodable(*m),
    ensures
        r@ == encoded_compressed_participant(*m),
{
    let mut out: Vec<u8> = Vec::new();
    push_enc_bytes(&mut out, &m.channel);
    push_enc_bytes(&mut out, &m.participant);
    push_i64_le(&mut out, m.joined_at);
    crate::keys::append_u64_le(&mut out, m.messages_sent);
    push_i64_le(&mut out, m.last_message_at);
    push_hash(&mut out, &m.metadata_hash);
    proof {
        assert(out@ =~= encoded_compressed_participant(*m));
    }
    out
}

} // verus!
