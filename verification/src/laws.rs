use vstd::prelude::*;
use crate::rate_limit::{rate_accepts, rate_next_count};
use crate::state::{
    escrow_sum, has_agent, has_invitation, invitation_index_of, invitation_usable, ProtocolState,
};
use crate::types::{metadata_uri_ok, RATE_LIMIT_MESSAGES_PER_MINUTE, RATE_LIMIT_WINDOW_SECONDS};

verus! {

// The protocol-wide guarantees, written out as statements of their own.
// Each follows from the instruction contracts and the well-formedness
// predicate, and stands here so a reader sees the guarantee itself rather
// than reconstructing it from clauses.

/// Registration is once per owner: in any state that already holds an
/// agent record for `owner` — in particular any state a successful
/// `register_agent(owner, ..)` produced — the success condition of a
/// second registration is false, so by `register_agent`'s contract the
/// second call returns `DuplicateRecord` and changes nothing.
pub proof fn lemma_duplicate_registration_rejected(
    s: ProtocolState,
    owner: Seq<u8>,
    capabilities: u64,
    metadata_uri: Seq<u8>,
)
    requires
        has_agent(s.agents@, owner),
    ensures
        !(metadata_uri_ok(metadata_uri) && capabilities <= u64::MAX / 2 && !has_agent(
            s.agents@,
            owner,
        )),
{
}

/// In every well-formed state — and every instruction keeps the state
/// well-formed — each channel's escrow balance equals the sum of the
/// escrow amounts recorded for it.
pub proof fn lemma_escrow_balance_is_sum(s: ProtocolState, i: int)
    requires
        s.wf(),
        0 <= i < s.channels@.len(),
    ensures
        escrow_sum(s.escrows@, s.channels@[i].key@) == s.channels@[i].account.escrow_balance as int,
{
}

/// An accepted invitation is spent for good: no join can use it at any
/// time, since `invitation_usable` demands an unaccepted record and
/// nothing ever clears the accepted mark. With `join_channel`'s contract —
/// a successful private join marks the invitation accepted — a consumed
/// invitation can never admit a second join.
pub proof fn lemma_spent_invitation_unusable(
    s: ProtocolState,
    ck: Seq<u8>,
    invitee: Seq<u8>,
    at_any_time: i64,
)
    requires
        has_invitation(s.invitations@, ck, invitee),
        s.invitations@[invitation_index_of(s.invitations@, ck, invitee)].is_accepted,
    ensures
        !invitation_usable(s.invitations@, ck, invitee, at_any_time),
{
}

/// The limiter's counters after a whole run of broadcast attempts at the
/// given times, or nothing as soon as one attempt is rejected.
pub open spec fn limiter_run(count: u64, last: i64, times: Seq<i64>) -> Option<(u64, i64)>
    decreases times.len(),
{
    if times.len() == 0 {
        Some((count, last))
    } else {
        match limiter_run(count, last, times.drop_last()) {
            None => None,
            Some(s) => if rate_accepts(s.0, s.1, times.last()) {
                Some(
                    (rate_next_count(s.0, s.1, times.last()) as u64, times.last()),
                )
            } else {
                None
            },
        }
    }
}

/// The times of an `n`-send burst beginning at `start`, one send per
/// second: `start, start + 1, …, start + n - 1`.
pub open spec fn burst_times(start: i64, n: nat) -> Seq<i64>
    decreases n,
{
    if n == 0 {
        Seq::empty()
    } else {
        burst_times(start, (n - 1) as nat).push((start + n - 1) as i64)
    }
}

/// A one-per-second burst from fresh counters fills the window to the
/// brim: `n` sends at `start, start + 1, …, start + n - 1` — sixty sends
/// spanning fifty-nine seconds when `n` is sixty — are all accepted, and
/// the counters end at `(n, start + n - 1)`.
pub proof fn lemma_window_burst_accepted(start: i64, n: nat)
    requires
        1 <= start,
        start + n <= i64::MAX,
        1 <= n <= RATE_LIMIT_MESSAGES_PER_MINUTE,
    ensures
        limiter_run(0, 0, burst_times(start, n)) == Some(
            ((n as u64), (start + n - 1) as i64),
        ),
    decreases n,
{
    let times = burst_times(start, n);
    assert(times.drop_last() =~= burst_times(start, (n - 1) as nat));
    assert(times.last() == (start + n - 1) as i64);
    if n == 1 {
        assert(rate_accepts(0, 0, start));
    } else {
        lemma_window_burst_accepted(start, (n - 1) as nat);
        assert((start + n - 1) as i64 - (start + n - 2) as i64 == 1);
        assert(rate_accepts((n - 1) as u64, (start + n - 2) as i64, (start + n - 1) as i64));
        assert(rate_next_count((n - 1) as u64, (start + n - 2) as i64, (start + n - 1) as i64)
            == n);
    }
}

/// The send after a full burst is refused while the last window runs: with
/// the counters a sixty-send burst leaves behind, any further send less
/// than a full window after the burst's last second — the sixty-first
/// send inside the burst's span above all — comes back rejected.
pub proof fn lemma_window_burst_then_rejected(start: i64, t: i64)
    requires
        1 <= start,
        start + RATE_LIMIT_MESSAGES_PER_MINUTE <= i64::MAX,
        t - (start + RATE_LIMIT_MESSAGES_PER_MINUTE - 1) < RATE_LIMIT_WINDOW_SECONDS,
    ensures
        limiter_run(
            0,
            0,
            burst_times(start, RATE_LIMIT_MESSAGES_PER_MINUTE as nat).push(t),
        ) is None,
{
    lemma_window_burst_accepted(start, RATE_LIMIT_MESSAGES_PER_MINUTE as nat);
    let burst = burst_times(start, RATE_LIMIT_MESSAGES_PER_MINUTE as nat);
    let full = burst.push(t);
    assert(full.drop_last() =~= burst);
    assert(full.last() == t);
    assert(!rate_accepts(
        RATE_LIMIT_MESSAGES_PER_MINUTE,
        (start + RATE_LIMIT_MESSAGES_PER_MINUTE - 1) as i64,
        t,
    ));
}

/// A fresh participant's first broadcast is always accepted and opens a
/// window of one.
pub proof fn lemma_first_broadcast_accepted(messages_sent: u64, now: i64)
    ensures
        rate_accepts(messages_sent, 0, now),
        rate_next_count(messages_sent, 0, now) == 1,
{
}

/// Inside a running window a full counter rejects the next broadcast: with
/// `RATE_LIMIT_MESSAGES_PER_MINUTE` or more sends in the window, a send
/// before the window closes is refused.
pub proof fn lemma_window_cap_rejects(count: u64, last: i64, now: i64)
    requires
        last != 0,
        count >= RATE_LIMIT_MESSAGES_PER_MINUTE,
        now - last < RATE_LIMIT_WINDOW_SECONDS,
    ensures
        !rate_accepts(count, last, now),
{
}

/// The minimum spacing is unconditional: less than one second after the
/// last accepted broadcast, the next one is refused no matter the count.
pub proof fn lemma_minimum_spacing_rejects(count: u64, last: i64, now: i64)
    requires
        last != 0,
        now - last < 1,
    ensures
        !rate_accepts(count, last, now),
{
}

/// A full window's silence resets the limiter: once
/// `RATE_LIMIT_WINDOW_SECONDS` have passed since the last accepted
/// broadcast, the next one is accepted whatever the count, and the counter
/// restarts at one.
pub proof fn lemma_window_gap_resets(count: u64, last: i64, now: i64)
    requires
        last != 0,
        now - last >= RATE_LIMIT_WINDOW_SECONDS,
    ensures
        rate_accepts(count, last, now),
        rate_next_count(count, last, now) == 1,
{
}

} // verus!
