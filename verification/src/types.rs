use vstd::prelude::*;

verus! {

/// Longest accepted metadata locator, in bytes.
pub const MAX_METADATA_URI_LENGTH: usize = 200;

/// Lifetime of a direct message or channel invitation, in seconds.
pub const EXPIRATION_SECONDS: i64 = 7 * 24 * 60 * 60;

/// Longest accepted channel name, in bytes.
pub const MAX_CHANNEL_NAME_LENGTH: usize = 50;

/// Longest accepted channel description, in bytes.
pub const MAX_CHANNEL_DESCRIPTION_LENGTH: usize = 200;

/// Largest accepted channel capacity.
pub const MAX_PARTICIPANTS_PER_CHANNEL: u32 = 1000;

/// Longest accepted broadcast body on the plain persistence path, in bytes.
/// The compressed path accepts ten times as much.
pub const MAX_MESSAGE_CONTENT_LENGTH: usize = 1000;

/// Broadcasts allowed per sliding window.
pub const RATE_LIMIT_MESSAGES_PER_MINUTE: u64 = 60;

/// Length of the sliding rate-limit window, in seconds.
pub const RATE_LIMIT_WINDOW_SECONDS: i64 = 60;

/// Reputation required to create a channel through the membership-enrolling
/// variant.
pub const MIN_REPUTATION_FOR_CHANNELS: u64 = 50;

/// Reputation granted to a freshly registered agent.
pub const INITIAL_REPUTATION: u64 = 100;

/// Largest accepted per-message fee, in native units.
pub const MAX_FEE_PER_MESSAGE: u64 = 1_000_000_000;

/// Largest accepted single escrow deposit, in native units.
pub const MAX_ESCROW_DEPOSIT: u64 = 10_000_000_000;

/// Largest accepted batch of message hashes in one commitment sync.
pub const MAX_BATCH_SYNC_HASHES: usize = 100;

/// Kind of a message payload.
#[derive(Clone, Copy, Debug, PartialEq, Eq, Structural)]
pub enum MessageType {
    Text,
    Data,
    Command,
    Response,
    Custom(u8),
}

/// Delivery status of a direct message.
#[derive(Clone, Copy, Debug, PartialEq, Eq, Structural)]
pub enum MessageStatus {
    Pending,
    Delivered,
    Read,
    Failed,
}

/// Who may join a channel without an invitation.
#[derive(Clone, Copy, Debug, PartialEq, Eq, Structural)]
pub enum ChannelVisibility {
    Public,
    Private,
}

/// The numeric discriminant of a message type, as it feeds derived-key
/// material: `Text = 0`, `Data = 1`, `Command = 2`, `Response = 3`,
/// `Custom(x) = 4 + x`, reduced into one byte.
pub open spec fn message_type_code_spec(t: MessageType) -> u8 {
    match t {
        MessageType::Text => 0u8,
        MessageType::Data => 1u8,
        MessageType::Command => 2u8,
        MessageType::Response => 3u8,
        MessageType::Custom(x) => ((4 + x as int) % 256) as u8,
    }
}

/// Computes the one-byte discriminant that addresses records by message
/// type.
pub fn message_type_code(t: &MessageType) -> (r: u8)
    ensures
        r == message_type_code_spec(*t),
{
    match t {
        MessageType::Text => 0,
        MessageType::Data => 1,
        MessageType::Command => 2,
        MessageType::Response => 3,
        MessageType::Custom(x) => {
            let w: u16 = 4 + (*x as u16);
            (w % 256) as u8
        },
    }
}

/// ASCII whitespace, the set that locator and name validation strips.
pub open spec fn is_ascii_space(c: u8) -> bool {
    c == 32 || c == 9 || c == 10 || c == 12 || c == 13
}

/// A byte string that trims to nothing: empty or all ASCII whitespace.
pub open spec fn is_blank(s: Seq<u8>) -> bool {
    forall|i: int| 0 <= i < s.len() ==> is_ascii_space(#[trigger] s[i])
}

/// `s` with its leading ASCII whitespace removed.
pub open spec fn trim_start_spec(s: Seq<u8>) -> Seq<u8>
    decreases s.len(),
{
    if s.len() == 0 {
        s
    } else if is_ascii_space(s[0]) {
        trim_start_spec(s.subrange(1, s.len() as int))
    } else {
        s
    }
}

/// `s` with its trailing ASCII whitespace removed.
pub open spec fn trim_end_spec(s: Seq<u8>) -> Seq<u8>
    decreases s.len(),
{
    if s.len() == 0 {
        s
    } else if is_ascii_space(s[s.len() - 1]) {
        trim_end_spec(s.subrange(0, s.len() - 1))
    } else {
        s
    }
}

/// `s` with leading and trailing ASCII whitespace removed.
pub open spec fn trimmed(s: Seq<u8>) -> Seq<u8> {
    trim_end_spec(trim_start_spec(s))
}

/// A metadata locator the registry accepts: not blank, at most
/// `MAX_METADATA_URI_LENGTH` bytes.
pub open spec fn metadata_uri_ok(uri: Seq<u8>) -> bool {
    !is_blank(uri) && uri.len() <= MAX_METADATA_URI_LENGTH
}

/// Decides whether one byte is ASCII whitespace.
pub fn is_space_byte(c: u8) -> (r: bool)
    ensures
        r == is_ascii_space(c),
{
    c == 32 || c == 9 || c == 10 || c == 12 || c == 13
}

/// Decides whether a byte string is empty or all whitespace.
pub fn is_blank_bytes(v: &Vec<u8>) -> (r: bool)
    ensures
        r == is_blank(v@),
{
    let mut i: usize = 0;
    while i < v.len()
        invariant
            0 <= i <= v@.len(),
            forall|j: int| 0 <= j < i ==> is_ascii_space(#[trigger] v@[j]),
        decreases v@.len() - i,
    {
        let c = v[i];
        if !(c == 32 || c == 9 || c == 10 || c == 12 || c == 13) {
            return false;
        }
        i = i + 1;
    }
    true
}

proof fn lemma_trim_start_at(s: Seq<u8>, k: int)
    requires
        0 <= k <= s.len(),
        forall|j: int| 0 <= j < k ==> is_ascii_space(#[trigger] s[j]),
        k < s.len() ==> !is_ascii_space(s[k]),
    ensures
        trim_start_spec(s) =~= s.subrange(k, s.len() as int),
    decreases k,
{
    if k == 0 {
        if s.len() == 0 {
            assert(trim_start_spec(s) =~= s.subrange(0, s.len() as int));
        } else {
            assert(!is_ascii_space(s[0]));
            assert(trim_start_spec(s) =~= s.subrange(0, s.len() as int));
        }
    } else {
        let t = s.subrange(1, s.len() as int);
        assert(is_ascii_space(s[0]));
        assert(forall|j: int| 0 <= j < k - 1 ==> is_ascii_space(#[trigger] t[j]));
        lemma_trim_start_at(t, k - 1);
        assert(t.subrange(k - 1, t.len() as int) =~= s.subrange(k, s.len() as int));
    }
}

proof fn lemma_trim_end_at(s: Seq<u8>, k: int)
    requires
        0 <= k <= s.len(),
        forall|j: int| k <= j < s.len() ==> is_ascii_space(#[trigger] s[j]),
        k > 0 ==> !is_ascii_space(s[k - 1]),
    ensures
        trim_end_spec(s) =~= s.subrange(0, k),
    decreases s.len() - k,
{
    if k == s.len() {
        if s.len() == 0 {
            assert(trim_end_spec(s) =~= s.subrange(0, k));
        } else {
            assert(!is_ascii_space(s[s.len() - 1]));
            assert(trim_end_spec(s) =~= s.subrange(0, k));
        }
    } else {
        let t = s.subrange(0, s.len() - 1);
        assert(is_ascii_space(s[s.len() - 1]));
        assert(forall|j: int| k <= j < t.len() ==> is_ascii_space(#[trigger] t[j]));
        lemma_trim_end_at(t, k);
        assert(t.subrange(0, k) =~= s.subrange(0, k));
    }
}

/// Copies `v` with leading and trailing ASCII whitespace removed.
pub fn trim_bytes(v: &Vec<u8>) -> (r: Vec<u8>)
    ensures
        r@ == trimmed(v@),
        r@.len() <= v@.len(),
{
    let n = v.len();
    let mut start: usize = 0;
    while start < n && is_space_byte(v[start])
        invariant
            0 <= start <= n,
            n == v@.len(),
            forall|j: int| 0 <= j < start ==> is_ascii_space(#[trigger] v@[j]),
        decreases n - start,
    {
        start = start + 1;
    }
    proof {
        lemma_trim_start_at(v@, start as int);
    }
    let mut end: usize = n;
    while end > start && is_space_byte(v[end - 1])
        invariant
            start <= end <= n,
            n == v@.len(),
            forall|j: int| end <= j < n ==> is_ascii_space(#[trigger] v@[j]),
        decreases end,
    {
        end = end - 1;
    }
    proof {
        let mid = v@.subrange(start as int, n as int);
        assert(forall|j: int| end - start <= j < mid.len() ==> is_ascii_space(#[trigger] mid[j]));
        assert(end > start ==> mid[end - start - 1] == v@[end - 1]);
        lemma_trim_end_at(mid, end - start);
        assert(mid.subrange(0, end - start) =~= v@.subrange(start as int, end as int));
    }
    let mut r: Vec<u8> = Vec::new();
    let mut i: usize = start;
    while i < end
        invariant
            start <= i <= end <= n,
            n == v@.len(),
            r@ =~= v@.subrange(start as int, i as int),
        decreases end - i,
    {
        r.push(v[i]);
        proof {
            assert(r@ =~= v@.subrange(start as int, i + 1));
        }
        i = i + 1;
    }
    proof {
        assert(r@ =~= trimmed(v@));
    }
    r
}

} // verus!
