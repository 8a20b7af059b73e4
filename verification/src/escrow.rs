use vstd::prelude::*;
use crate::bytes::copy_bytes;
use crate::errors::PodComError;
use crate::records::{EscrowAccount, EscrowDeposit, EscrowWithdrawal};
use crate::state::{
    channel_with_balance, escrow_sum, has_channel, has_escrow, lemma_escrow_sum_ge_member,
    lemma_escrow_sum_push, lemma_escrow_sum_update, same_state, ProtocolState,
};
use crate::types::MAX_ESCROW_DEPOSIT;

verus! {

impl ProtocolState {
    /// Deposits `amount` native units into the caller's escrow holding for
    /// the channel at `channel_key`, creating the holding on first use.
    ///
    /// The host moves the funds; this instruction does the book-keeping that
    /// must commit atomically with that transfer. An amount of zero or above
    /// `MAX_ESCROW_DEPOSIT` is rejected, as is a deposit the 64-bit balance
    /// could not hold. On success the channel's escrow balance and the sum
    /// of its escrow records both grow by exactly `amount`.
    pub fn deposit_escrow(
        &mut self,
        channel_key: &Vec<u8>,
        depositor: [u8; 32],
        amount: u64,
        now: i64,
    ) -> (r: Result<EscrowDeposit, PodComError>)
        requires
            old(self).wf(),
        ensures
            final(self).wf(),
            r is Err ==> same_state(*old(self), *final(self)),
            (amount == 0 || amount > MAX_ESCROW_DEPOSIT) ==> r == Err::<EscrowDeposit, PodComError>(
                PodComError::InsufficientFunds,
            ),
            0 < amount <= MAX_ESCROW_DEPOSIT && !has_channel(old(self).channels@, channel_key@)
                ==> r == Err::<EscrowDeposit, PodComError>(PodComError::NotInChannel),
            r is Ok <==> 0 < amount <= MAX_ESCROW_DEPOSIT && has_channel(
                old(self).channels@,
                channel_key@,
            ) && escrow_sum(old(self).escrows@, channel_key@) + amount <= u64::MAX,
            r is Ok ==> escrow_sum(final(self).escrows@, channel_key@) == escrow_sum(
                old(self).escrows@,
                channel_key@,
            ) + amount,
            r is Ok ==> exists|ci: int|
                {
                    &&& 0 <= ci < old(self).channels@.len()
                    &&& (#[trigger] old(self).channels@[ci]).key@ == channel_key@
                    &&& channel_with_balance(
                        old(self).channels@[ci],
                        final(self).channels@[ci],
                        old(self).channels@[ci].account.escrow_balance + amount,
                    )
                    &&& final(self).channels@.len() == old(self).channels@.len()
                    &&& forall|j: int|
                        0 <= j < old(self).channels@.len() && j != ci ==> final(self).channels@[j]
                            == old(self).channels@[j]
                },
            r is Ok && !has_escrow(old(self).escrows@, channel_key@, depositor@) ==> {
                let e = final(self).escrows@.last();
                &&& final(self).escrows@ == old(self).escrows@.push(e)
                &&& e.channel@ == channel_key@
                &&& e.depositor@ == depositor@
                &&& e.amount == amount
                &&& e.created_at == now
            },
            r is Ok && has_escrow(old(self).escrows@, channel_key@, depositor@) ==> exists|i: int|
                {
                    &&& 0 <= i < old(self).escrows@.len()
                    &&& (#[trigger] old(self).escrows@[i]).channel@ == channel_key@
                    &&& old(self).escrows@[i].depositor@ == depositor@
                    &&& final(self).escrows@.len() == old(self).escrows@.len()
                    &&& final(self).escrows@[i].channel@ == channel_key@
                    &&& final(self).escrows@[i].depositor@ == depositor@
                    &&& final(self).escrows@[i].amount == old(self).escrows@[i].amount + amount
                    &&& final(self).escrows@[i].created_at == old(self).escrows@[i].created_at
                    &&& forall|j: int|
                        0 <= j < old(self).escrows@.len() && j != i ==> final(self).escrows@[j]
                            == old(self).escrows@[j]
                },
            final(self).agents@ == old(self).agents@,
            final(self).messages@ == old(self).messages@,
            final(self).participants@ == old(self).participants@,
            final(self).invitations@ == old(self).invitations@,
            final(self).channel_messages@ == old(self).channel_messages@,
            r matches Ok(ev) ==> ev.channel@ == channel_key@ && ev.depositor@ == depositor@
                && ev.amount == amount && ev.timestamp == now,
    {
        if amount == 0 || amount > MAX_ESCROW_DEPOSIT {
            return Err(PodComError::InsufficientFunds);
        }
        let ci = match self.find_channel(channel_key) {
            Some(i) => i,
            None => {
                return Err(PodComError::NotInChannel);
            },
        };
        let balance = self.channels[ci].account.escrow_balance;
        proof {
            assert(escrow_sum(self.escrows@, channel_key@) == balance as int);
        }
        if amount > u64::MAX - balance {
            return Err(PodComError::InsufficientFunds);
        }
        let ghost pre = *self;
        match self.find_escrow(channel_key, &depositor) {
            Some(ei) => {
                proof {
                    lemma_escrow_sum_ge_member(self.escrows@, channel_key@, ei as int);
                }
                let held = self.escrows[ei].amount;
                let e = &mut self.escrows[ei];
                e.amount = held + amount;
            },
            None => {
                let record = EscrowAccount {
                    channel: copy_bytes(channel_key),
                    depositor,
                    amount,
                    created_at: now,
                };
                self.escrows.push(record);
            },
        }
        let c = &mut self.channels[ci];
        c.account.escrow_balance = balance + amount;
        proof {
            let post = *self;
            let ck = channel_key@;
            if has_escrow(pre.escrows@, ck, depositor@) {
                let ei = choose|i: int|
                    0 <= i < pre.escrows@.len() && (#[trigger] pre.escrows@[i]).channel@ == ck
                        && pre.escrows@[i].depositor@ == depositor@;
                assert(post.escrows@ =~= pre.escrows@.update(ei, post.escrows@[ei]));
            }
            // Uniqueness of escrow and channel keys is untouched.
            assert forall|i: int, j: int| 0 <= i < j < post.escrows@.len() implies !((
            #[trigger] post.escrows@[i]).channel@ == (#[trigger] post.escrows@[j]).channel@
                && post.escrows@[i].depositor@ == post.escrows@[j].depositor@) by {
                if j < pre.escrows@.len() {
                    assert(post.escrows@[i].channel@ == pre.escrows@[i].channel@
                        && post.escrows@[i].depositor@ == pre.escrows@[i].depositor@);
                    assert(post.escrows@[j].channel@ == pre.escrows@[j].channel@
                        && post.escrows@[j].depositor@ == pre.escrows@[j].depositor@);
                } else {
                    assert(post.escrows@[i] == pre.escrows@[i]);
                    assert(!has_escrow(pre.escrows@, ck, depositor@));
                }
            }
            assert forall|i: int, j: int| 0 <= i < j < post.channels@.len() implies (
            #[trigger] post.channels@[i]).key@ != (#[trigger] post.channels@[j]).key@ by {
                assert(post.channels@[i].key@ == pre.channels@[i].key@);
                assert(post.channels@[j].key@ == pre.channels@[j].key@);
            }
            // References still point at existing channels.
            assert forall|i: int| 0 <= i < post.participants@.len() implies has_channel(
                post.channels@,
                (#[trigger] post.participants@[i]).channel@,
            ) by {
                let x = post.participants@[i].channel@;
                let w = choose|k: int|
                    0 <= k < pre.channels@.len() && (#[trigger] pre.channels@[k]).key@ == x;
                assert(post.channels@[w].key@ == x);
            }
            assert forall|i: int| 0 <= i < post.invitations@.len() implies has_channel(
                post.channels@,
                (#[trigger] post.invitations@[i]).channel@,
            ) by {
                let x = post.invitations@[i].channel@;
                let w = choose|k: int|
                    0 <= k < pre.channels@.len() && (#[trigger] pre.channels@[k]).key@ == x;
                assert(post.channels@[w].key@ == x);
            }
            assert forall|i: int| 0 <= i < post.escrows@.len() implies has_channel(
                post.channels@,
                (#[trigger] post.escrows@[i]).channel@,
            ) by {
                let x = post.escrows@[i].channel@;
                if i < pre.escrows@.len() {
                    assert(x == pre.escrows@[i].channel@);
                    let w = choose|k: int|
                        0 <= k < pre.channels@.len() && (#[trigger] pre.channels@[k]).key@ == x;
                    assert(post.channels@[w].key@ == x);
                } else {
                    assert(post.channels@[ci as int].key@ == x);
                }
            }
            // The books of every channel still balance.
            assert forall|i: int| 0 <= i < post.channels@.len() implies {
                let ce = #[trigger] post.channels@[i];
                &&& escrow_sum(post.escrows@, ce.key@) == ce.account.escrow_balance as int
                &&& crate::state::active_count(post.participants@, ce.key@)
                    <= ce.account.current_participants as int
                &&& ce.account.current_participants <= ce.account.max_participants
            } by {
                let ce = post.channels@[i];
                if has_escrow(pre.escrows@, ck, depositor@) {
                    let ei = choose|k: int|
                        0 <= k < pre.escrows@.len() && (#[trigger] pre.escrows@[k]).channel@ == ck
                            && pre.escrows@[k].depositor@ == depositor@;
                    lemma_escrow_sum_update(pre.escrows@, ce.key@, ei, post.escrows@[ei]);
                } else {
                    lemma_escrow_sum_push(pre.escrows@, ce.key@, post.escrows@.last());
                }
                if i != ci as int {
                    assert(ce == pre.channels@[i]);
                    assert(ce.key@ != ck);
                }
                assert(crate::state::active_count(post.participants@, ce.key@)
                    == crate::state::active_count(pre.participants@, ce.key@));
            }
            assert(post.wf());
        }
        Ok(
            EscrowDeposit {
                channel: copy_bytes(channel_key),
                depositor,
                amount,
                timestamp: now,
            },
        )
    }

    /// Withdraws `amount` native units from the caller's own escrow holding
    /// for the channel at `channel_key`.
    ///
    /// Only the depositor of the targeted holding may withdraw, and never
    /// more than the holding carries. The record keeps its history: a
    /// drained holding stays at amount zero. On success the channel's
    /// escrow balance and the sum of its escrow records both shrink by
    /// exactly `amount`.
    pub fn withdraw_escrow(
        &mut self,
        channel_key: &Vec<u8>,
        depositor: [u8; 32],
        amount: u64,
        now: i64,
    ) -> (r: Result<EscrowWithdrawal, PodComError>)
        requires
            old(self).wf(),
        ensures
            final(self).wf(),
            r is Err ==> same_state(*old(self), *final(self)),
            !has_channel(old(self).channels@, channel_key@) ==> r == Err::<
                EscrowWithdrawal,
                PodComError,
            >(PodComError::NotInChannel),
            has_channel(old(self).channels@, channel_key@) && !has_escrow(
                old(self).escrows@,
                channel_key@,
                depositor@,
            ) ==> r == Err::<EscrowWithdrawal, PodComError>(PodComError::Unauthorized),
            r is Ok <==> has_channel(old(self).channels@, channel_key@) && exists|i: int|
                0 <= i < old(self).escrows@.len() && (#[trigger] old(self).escrows@[i]).channel@
                    == channel_key@ && old(self).escrows@[i].depositor@ == depositor@ && amount
                    <= old(self).escrows@[i].amount,
            has_channel(old(self).channels@, channel_key@) && has_escrow(
                old(self).escrows@,
                channel_key@,
                depositor@,
            ) && r is Err ==> r == Err::<EscrowWithdrawal, PodComError>(
                PodComError::InsufficientFunds,
            ),
            r is Ok ==> escrow_sum(final(self).escrows@, channel_key@) == escrow_sum(
                old(self).escrows@,
                channel_key@,
            ) - amount,
            r is Ok ==> exists|ci: int|
                {
                    &&& 0 <= ci < old(self).channels@.len()
                    &&& (#[trigger] old(self).channels@[ci]).key@ == channel_key@
                    &&& channel_with_balance(
                        old(self).channels@[ci],
                        final(self).channels@[ci],
                        old(self).channels@[ci].account.escrow_balance - amount,
                    )
                    &&& final(self).channels@.len() == old(self).channels@.len()
                    &&& forall|j: int|
                        0 <= j < old(self).channels@.len() && j != ci ==> final(self).channels@[j]
                            == old(self).channels@[j]
                },
            r is Ok ==> exists|i: int|
                {
                    &&& 0 <= i < old(self).escrows@.len()
                    &&& (#[trigger] old(self).escrows@[i]).channel@ == channel_key@
                    &&& old(self).escrows@[i].depositor@ == depositor@
                    &&& final(self).escrows@.len() == old(self).escrows@.len()
                    &&& final(self).escrows@[i].channel@ == channel_key@
                    &&& final(self).escrows@[i].depositor@ == depositor@
                    &&& final(self).escrows@[i].amount == old(self).escrows@[i].amount - amount
                    &&& final(self).escrows@[i].created_at == old(self).escrows@[i].created_at
                    &&& forall|j: int|
                        0 <= j < old(self).escrows@.len() && j != i ==> final(self).escrows@[j]
                            == old(self).escrows@[j]
                },
            final(self).agents@ == old(self).agents@,
            final(self).messages@ == old(self).messages@,
            final(self).participants@ == old(self).participants@,
            final(self).invitations@ == old(self).invitations@,
            final(self).channel_messages@ == old(self).channel_messages@,
            r matches Ok(ev) ==> ev.channel@ == channel_key@ && ev.depositor@ == depositor@
                && ev.amount == amount && ev.timestamp == now,
    {
        let ci = match self.find_channel(channel_key) {
            Some(i) => i,
            None => {
                return Err(PodComError::NotInChannel);
            },
        };
        let ei = match self.find_escrow(channel_key, &depositor) {
            Some(i) => i,
            None => {
                return Err(PodComError::Unauthorized);
            },
        };
        let held = self.escrows[ei].amount;
        if amount > held {
            return Err(PodComError::InsufficientFunds);
        }
        proof {
            lemma_escrow_sum_ge_member(self.escrows@, channel_key@, ei as int);
        }
        let ghost pre = *self;
        let balance = self.channels[ci].account.escrow_balance;
        let e = &mut self.escrows[ei];
        e.amount = held - amount;
        let c = &mut self.channels[ci];
        c.account.escrow_balance = balance - amount;
        proof {
            let post = *self;
            let ck = channel_key@;
            assert(post.escrows@ =~= pre.escrows@.update(ei as int, post.escrows@[ei as int]));
            assert forall|i: int, j: int| 0 <= i < j < post.escrows@.len() implies !((
            #[trigger] post.escrows@[i]).channel@ == (#[trigger] post.escrows@[j]).channel@
                && post.escrows@[i].depositor@ == post.escrows@[j].depositor@) by {
                assert(post.escrows@[i].channel@ == pre.escrows@[i].channel@
                    && post.escrows@[i].depositor@ == pre.escrows@[i].depositor@);
                assert(post.escrows@[j].channel@ == pre.escrows@[j].channel@
                    && post.escrows@[j].depositor@ == pre.escrows@[j].depositor@);
            }
            assert forall|i: int, j: int| 0 <= i < j < post.channels@.len() implies (
            #[trigger] post.channels@[i]).key@ != (#[trigger] post.channels@[j]).key@ by {
                assert(post.channels@[i].key@ == pre.channels@[i].key@);
                assert(post.channels@[j].key@ == pre.channels@[j].key@);
            }
            assert forall|i: int| 0 <= i < post.participants@.len() implies has_channel(
                post.channels@,
                (#[trigger] post.participants@[i]).channel@,
            ) by {
                let x = post.participants@[i].channel@;
                let w = choose|k: int|
                    0 <= k < pre.channels@.len() && (#[trigger] pre.channels@[k]).key@ == x;
                assert(post.channels@[w].key@ == x);
            }
            assert forall|i: int| 0 <= i < post.invitations@.len() implies has_channel(
                post.channels@,
                (#[trigger] post.invitations@[i]).channel@,
            ) by {
                let x = post.invitations@[i].channel@;
                let w = choose|k: int|
                    0 <= k < pre.channels@.len() && (#[trigger] pre.channels@[k]).key@ == x;
                assert(post.channels@[w].key@ == x);
            }
            assert forall|i: int| 0 <= i < post.escrows@.len() implies has_channel(
                post.channels@,
                (#[trigger] post.escrows@[i]).channel@,
            ) by {
                let x = post.escrows@[i].channel@;
                assert(x == pre.escrows@[i].channel@);
                let w = choose|k: int|
                    0 <= k < pre.channels@.len() && (#[trigger] pre.channels@[k]).key@ == x;
                assert(post.channels@[w].key@ == x);
            }
            assert forall|i: int| 0 <= i < post.channels@.len() implies {
                let ce = #[trigger] post.channels@[i];
                &&& escrow_sum(post.escrows@, ce.key@) == ce.account.escrow_balance as int
                &&& crate::state::active_count(post.participants@, ce.key@)
                    <= ce.account.current_participants as int
                &&& ce.account.current_participants <= ce.account.max_participants
            } by {
                let ce = post.channels@[i];
                lemma_escrow_sum_update(pre.escrows@, ce.key@, ei as int, post.escrows@[ei as int]);
                if i != ci as int {
                    assert(ce == pre.channels@[i]);
                    assert(ce.key@ != ck);
                }
                assert(crate::state::active_count(post.participants@, ce.key@)
                    == crate::state::active_count(pre.participants@, ce.key@));
            }
            assert(post.wf());
        }
        Ok(
            EscrowWithdrawal {
                channel: copy_bytes(channel_key),
                depositor,
                amount,
                timestamp: now,
            },
        )
    }
}

} // verus!
