use vstd::prelude::*;
use crate::errors::PodComError;
use crate::types::{RATE_LIMIT_MESSAGES_PER_MINUTE, RATE_LIMIT_WINDOW_SECONDS};

verus! {

// The sliding window is anchored at a participant's last accepted
// broadcast, not kept as a rolling log: `messages_sent` counts broadcasts
// in the window that started at most `RATE_LIMIT_WINDOW_SECONDS` ago, and
// `last_message_at == 0` means the participant has never broadcast.

/// Whether the sliding window accepts a broadcast at `now` from a
/// participant whose counters read `messages_sent` and `last_message_at`.
///
/// A first broadcast is always accepted. After that, at least one second
/// must have passed since the last one, and inside a running window the
/// count must still be below `RATE_LIMIT_MESSAGES_PER_MINUTE`.
pub open spec fn rate_accepts(messages_sent: u64, last_message_at: i64, now: i64) -> bool {
    if last_message_at == 0 {
        true
    } else {
        let delta = now - last_message_at;
        &&& delta >= 1
        &&& (delta >= RATE_LIMIT_WINDOW_SECONDS || messages_sent
            < RATE_LIMIT_MESSAGES_PER_MINUTE)
    }
}

/// The window counter after an accepted broadcast: 1 when a new window
/// opens (first broadcast ever, or a gap of a full window), the old count
/// plus one inside a running window.
pub open spec fn rate_next_count(messages_sent: u64, last_message_at: i64, now: i64) -> int {
    if last_message_at == 0 {
        1
    } else if now - last_message_at < RATE_LIMIT_WINDOW_SECONDS {
        messages_sent + 1
    } else {
        1
    }
}

/// Applies the sliding-window rate limiter to one broadcast attempt.
///
/// Returns the updated `(messages_sent, last_message_at)` pair on
/// acceptance; on acceptance `last_message_at` always becomes `now`.
pub fn apply_rate_limit(messages_sent: u64, last_message_at: i64, now: i64) -> (r: Result<
    (u64, i64),
    PodComError,
>)
    requires
        0 <= last_message_at,
        0 <= now,
    ensures
        r is Ok <==> rate_accepts(messages_sent, last_message_at, now),
        r matches Ok(c) ==> c.0 == rate_next_count(messages_sent, last_message_at, now) && c.1
            == now,
        r is Err ==> r == Err::<(u64, i64), PodComError>(PodComError::RateLimitExceeded),
{
    if last_message_at == 0 {
        return Ok((1, now));
    }
    let delta = now - last_message_at;
    if delta < 1 {
        return Err(PodComError::RateLimitExceeded);
    }
    if delta < RATE_LIMIT_WINDOW_SECONDS {
        if messages_sent >= RATE_LIMIT_MESSAGES_PER_MINUTE {
            return Err(PodComError::RateLimitExceeded);
        }
        Ok((messages_sent + 1, now))
    } else {
        Ok((1, now))
    }
}

} // verus!
