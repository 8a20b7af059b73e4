//! Verified core of the PoD agent-communication protocol.
//!
//! The crate models the protocol's durable records and proves its
//! state-transition rules: agent identity registration, direct and broadcast
//! messaging, channel membership and invitations, a sliding-window rate
//! limiter, escrow accounting, and the compressed persistence path that
//! commits content hashes instead of full payloads.
//!
//! Each instruction runs atomically against a [`state::ProtocolState`]: it
//! either applies exactly the mutation its contract states, or returns an
//! error and leaves the state untouched. The host ledger, signature checks,
//! the wall clock, native funds movement and the external commitment service
//! stay outside: the clock enters as one trusted timestamp per instruction,
//! and external results enter as arguments.

pub mod broadcast;
pub mod bytes;
pub mod channels;
pub mod compressed;
pub mod direct;
pub mod encode;
pub mod errors;
pub mod escrow;
pub mod identity;
pub mod keys;
pub mod laws;
pub mod membership;
pub mod prover;
pub mod rate_limit;
pub mod records;
pub mod state;
pub mod types;
