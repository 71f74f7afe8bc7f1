//! Sequences of calls on a group, and what stays true along them.
use vstd::prelude::*;
use crate::account::lemma_index_of_distinct;
use crate::contract::{accept, lemma_remove_keeps_distinct, ContractView, GroupType, Step};
use crate::effects::{EffectsView, PartyView};
use crate::well_formed::{
    lemma_add_member_keeps_wf, lemma_admin_switches_keep_wf, lemma_contribute_keeps_wf,
    lemma_emergency_withdraw_keeps_wf, lemma_initialize_keeps_wf, lemma_payout_keeps_wf,
    lemma_remove_member_keeps_wf, lemma_reset_cycle_keeps_wf, lemma_withdraw_savings_keeps_wf,
};

verus! {

/// One call on a group's entry points, with its arguments (a payout carries
/// the token balance the contract held when it was made).
pub enum Call {
    Initialize {
        admin: Seq<u8>,
        token: Seq<u8>,
        name: Seq<u8>,
        contribution_amount: i128,
        group_type: GroupType,
        target_amount: Option<i128>,
        lock_until_target: bool,
        expected_cycle_days: Option<u32>,
    },
    AddMember(Seq<u8>),
    RemoveMember(Seq<u8>),
    Contribute(Seq<u8>, i128),
    Payout(Seq<u8>, i128),
    FinishPayout,
    WithdrawSavings(Seq<u8>, i128),
    EmergencyWithdraw(Seq<u8>),
    Pause,
    Unpause,
    ResetCycle,
    ResetRotation,
}

impl ContractView {
    /// What `call` does to the group.
    pub open spec fn step(self, call: Call) -> Step {
        match call {
            Call::Initialize {
                admin,
                token,
                name,
                contribution_amount,
                group_type,
                target_amount,
                lock_until_target,
                expected_cycle_days,
            } => self.initialize_step(
                admin,
                token,
                name,
                contribution_amount,
                group_type,
                target_amount,
                lock_until_target,
                expected_cycle_days,
            ),
            Call::AddMember(a) => self.add_member_step(a),
            Call::RemoveMember(a) => self.remove_member_step(a),
            Call::Contribute(a, x) => self.contribute_step(a, x),
            Call::Payout(a, b) => self.payout_step(a, b),
            Call::FinishPayout => accept(
                None,
                ContractView { is_executing_payout: false, ..self },
                EffectsView { transfer: None, event: None },
            ),
            Call::WithdrawSavings(a, x) => self.withdraw_savings_step(a, x),
            Call::EmergencyWithdraw(a) => self.emergency_withdraw_step(a),
            Call::Pause => self.pause_step(),
            Call::Unpause => self.unpause_step(),
            Call::ResetCycle => self.reset_cycle_step(),
            Call::ResetRotation => self.reset_rotation_step(),
        }
    }

    /// The group after `call`: a refused call leaves it as it was.
    pub open spec fn after(self, call: Call) -> ContractView {
        match self.step(call).result {
            Ok((t, _)) => t,
            Err(_) => self,
        }
    }

    /// The group after each of `calls` in turn.
    pub open spec fn run(self, calls: Seq<Call>) -> ContractView
        decreases calls.len(),
    {
        if calls.len() == 0 {
            self
        } else {
            self.run(calls.drop_last()).after(calls.last())
        }
    }
}

/// Running two sequences of calls is running the first, then the second.
pub proof fn lemma_run_append(s: ContractView, a: Seq<Call>, b: Seq<Call>)
    ensures
        s.run(a + b) == s.run(a).run(b),
    decreases b.len(),
{
    if b.len() == 0 {
        assert(a + b =~= a);
    } else {
        assert((a + b).drop_last() =~= a + b.drop_last());
        lemma_run_append(s, a, b.drop_last());
    }
}

/// Every call keeps a group well formed.
pub proof fn lemma_after_keeps_wf(s: ContractView, c: Call)
    requires
        s.wf(),
    ensures
        s.after(c).wf(),
{
    if s.step(c).result is Ok {
        match c {
            Call::Initialize {
                admin,
                token,
                name,
                contribution_amount,
                group_type,
                target_amount,
                lock_until_target,
                expected_cycle_days,
            } => lemma_initialize_keeps_wf(
                s,
                admin,
                token,
                name,
                contribution_amount,
                group_type,
                target_amount,
                lock_until_target,
                expected_cycle_days,
            ),
            Call::AddMember(a) => lemma_add_member_keeps_wf(s, a),
            Call::RemoveMember(a) => lemma_remove_member_keeps_wf(s, a),
            Call::Contribute(a, x) => lemma_contribute_keeps_wf(s, a, x),
            Call::Payout(a, b) => lemma_payout_keeps_wf(s, a, b),
            Call::WithdrawSavings(a, x) => lemma_withdraw_savings_keeps_wf(s, a, x),
            Call::EmergencyWithdraw(a) => lemma_emergency_withdraw_keeps_wf(s, a),
            Call::ResetCycle => lemma_reset_cycle_keeps_wf(s),
            _ => lemma_admin_switches_keep_wf(s),
        }
    }
}

/// Every sequence of calls keeps a group well formed.
pub proof fn lemma_run_keeps_wf(s: ContractView, calls: Seq<Call>)
    requires
        s.wf(),
    ensures
        s.run(calls).wf(),
    decreases calls.len(),
{
    if calls.len() > 0 {
        lemma_run_keeps_wf(s, calls.drop_last());
        lemma_after_keeps_wf(s.run(calls.drop_last()), calls.last());
    }
}

/// The members already paid in the rotation, in order.
pub open spec fn keeps_paid_prefix(s: ContractView, t: ContractView) -> bool {
    &&& s.next_payout_index <= t.next_payout_index
    &&& s.next_payout_index <= t.accounts.len()
    &&& forall|k: int| 0 <= k < s.next_payout_index ==> #[trigger] t.accounts[k] == s.accounts[k]
    &&& (s.config is Some ==> t.config is Some)
}

/// Apart from a rotation reset, no call lowers the payout position or
/// changes the members already paid in the rotation.
pub proof fn lemma_after_keeps_paid_prefix(s: ContractView, c: Call)
    requires
        s.wf(),
        !(c is ResetRotation),
    ensures
        keeps_paid_prefix(s, s.after(c)),
{
    let t = s.after(c);
    if s.step(c).result is Ok {
        match c {
            Call::RemoveMember(a) => {
                let i = s.member_index(a);
                assert forall|k: int| 0 <= k < s.next_payout_index implies #[trigger] t.accounts[k]
                    == s.accounts[k] by {
                    assert(k < i);
                }
            },
            Call::AddMember(a) => {
                assert forall|k: int| 0 <= k < s.next_payout_index implies #[trigger] t.accounts[k]
                    == s.accounts[k] by {}
            },
            _ => {},
        }
    }
}

/// Over calls without a rotation reset, the payout position never goes back
/// and the members already paid stay where they were.
pub proof fn lemma_run_keeps_paid_prefix(s: ContractView, calls: Seq<Call>)
    requires
        s.wf(),
        forall|i: int| 0 <= i < calls.len() ==> !(#[trigger] calls[i] is ResetRotation),
    ensures
        keeps_paid_prefix(s, s.run(calls)),
    decreases calls.len(),
{
    if calls.len() > 0 {
        let front = calls.drop_last();
        assert forall|i: int| 0 <= i < front.len() implies !(#[trigger] front[i] is ResetRotation) by {
            assert(front[i] == calls[i]);
        }
        lemma_run_keeps_paid_prefix(s, front);
        lemma_run_keeps_wf(s, front);
        let u = s.run(front);
        assert(!(calls[calls.len() - 1] is ResetRotation));
        lemma_after_keeps_paid_prefix(u, calls.last());
    }
}

/// A member of a well-formed group stands at their position.
pub proof fn lemma_member_at(s: ContractView, i: int)
    requires
        s.wf(),
        0 <= i < s.accounts.len(),
    ensures
        s.is_member(s.accounts[i]),
        s.member_index(s.accounts[i]) == i,
{
    lemma_index_of_distinct(s.accounts, i);
}

/// `m` has paid in during the current cycle.
pub open spec fn has_paid_this_cycle(s: ContractView, m: Seq<u8>) -> bool {
    &&& s.config is Some
    &&& s.is_member(m)
    &&& s.state_of(m).last_contribution_cycle_id == s.current_cycle_id
}

/// The calls that can let `m` pay in again in the same cycle: a new cycle,
/// `m`'s emergency refund, and `m`'s removal.
pub open spec fn reopens_contribution(c: Call, m: Seq<u8>) -> bool {
    ||| c is ResetCycle
    ||| c matches Call::EmergencyWithdraw(a) && a == m
    ||| c matches Call::RemoveMember(a) && a == m
}

/// No other call makes a member who paid in during the cycle look as if
/// they had not.
pub proof fn lemma_after_keeps_payment(s: ContractView, c: Call, m: Seq<u8>)
    requires
        s.wf(),
        has_paid_this_cycle(s, m),
        !reopens_contribution(c, m),
    ensures
        has_paid_this_cycle(s.after(c), m),
{
    let t = s.after(c);
    let i = s.member_index(m);
    lemma_member_at(s, i);
    lemma_after_keeps_wf(s, c);
    if s.step(c).result is Ok {
        match c {
            Call::AddMember(a) => {
                lemma_member_at(t, i);
            },
            Call::RemoveMember(a) => {
                let r = s.member_index(a);
                lemma_member_at(s, r);
                let i2 = if i < r { i } else { i - 1 };
                assert(t.accounts[i2] == m);
                lemma_member_at(t, i2);
            },
            _ => {
                assert(t.accounts == s.accounts);
                lemma_member_at(t, i);
            },
        }
    }
}

/// Over calls none of which reopens contributions for `m`, a member who
/// paid in during the cycle stays so.
pub proof fn lemma_run_keeps_payment(s: ContractView, calls: Seq<Call>, m: Seq<u8>)
    requires
        s.wf(),
        has_paid_this_cycle(s, m),
        forall|i: int| 0 <= i < calls.len() ==> !reopens_contribution(#[trigger] calls[i], m),
    ensures
        has_paid_this_cycle(s.run(calls), m),
    decreases calls.len(),
{
    if calls.len() > 0 {
        let front = calls.drop_last();
        assert forall|i: int| 0 <= i < front.len() implies !reopens_contribution(
            #[trigger] front[i],
            m,
        ) by {
            assert(front[i] == calls[i]);
        }
        lemma_run_keeps_payment(s, front, m);
        lemma_run_keeps_wf(s, front);
        assert(!reopens_contribution(calls[calls.len() - 1], m));
        lemma_after_keeps_payment(s.run(front), calls.last(), m);
    }
}

/// No call but `unpause` lifts a pause.
pub proof fn lemma_run_keeps_pause(s: ContractView, calls: Seq<Call>)
    requires
        s.wf(),
        s.is_paused,
        forall|i: int| 0 <= i < calls.len() ==> !(#[trigger] calls[i] is Unpause),
    ensures
        s.run(calls).is_paused,
        s.run(calls).wf(),
    decreases calls.len(),
{
    lemma_run_keeps_wf(s, calls);
    if calls.len() > 0 {
        let front = calls.drop_last();
        assert forall|i: int| 0 <= i < front.len() implies !(#[trigger] front[i] is Unpause) by {
            assert(front[i] == calls[i]);
        }
        lemma_run_keeps_pause(s, front);
        assert(!(calls[calls.len() - 1] is Unpause));
    }
}

/// A rotational group whose member count, once frozen, is its number of
/// members, and in which nobody has taken an emergency refund this cycle.
pub open spec fn steady_pool(s: ContractView) -> bool {
    &&& s.config matches Some(c) && c.group_type == GroupType::Rotational
    &&& (s.cycle_member_count matches Some(n) ==> n == s.accounts.len())
    &&& forall|i: int| 0 <= i < s.refunded_in.len() ==> #[trigger] s.refunded_in[i] < s.current_cycle_id
}

/// The calls that change who is in the cycle: admissions, removals and
/// emergency refunds.
pub open spec fn changes_membership(c: Call) -> bool {
    ||| c is AddMember
    ||| c is RemoveMember
    ||| c is EmergencyWithdraw
}

/// A new cycle of a rotational group starts steady.
pub proof fn lemma_new_cycle_is_steady(s: ContractView)
    requires
        s.wf(),
        s.config matches Some(c) && c.group_type == GroupType::Rotational,
        s.reset_cycle_step().result is Ok,
    ensures
        steady_pool(s.reset_cycle_step().result->Ok_0.0),
{
    let t = s.reset_cycle_step().result->Ok_0.0;
    assert forall|i: int| 0 <= i < t.refunded_in.len() implies #[trigger] t.refunded_in[i]
        < t.current_cycle_id by {
        assert(s.refunded_in[i] <= s.current_cycle_id);
    }
}

proof fn lemma_after_keeps_steady(s: ContractView, c: Call)
    requires
        s.wf(),
        steady_pool(s),
        !changes_membership(c),
    ensures
        steady_pool(s.after(c)),
{
    let t = s.after(c);
    if s.step(c).result is Ok {
        match c {
            Call::Contribute(a, x) => {
                let i = s.member_index(a);
                assert(s.refunded_in[i] < s.current_cycle_id);
                assert forall|k: int| 0 <= k < t.refunded_in.len() implies #[trigger] t.refunded_in[
                    k
                ] < t.current_cycle_id by {
                    if k != i {
                        assert(t.refunded_in[k] == s.refunded_in[k]);
                    }
                }
            },
            Call::ResetCycle => lemma_new_cycle_is_steady(s),
            _ => {},
        }
    }
}

/// While nobody joins, leaves or takes an emergency refund, a steady group
/// stays steady.
pub proof fn lemma_run_keeps_steady(s: ContractView, calls: Seq<Call>)
    requires
        s.wf(),
        steady_pool(s),
        forall|i: int| 0 <= i < calls.len() ==> !changes_membership(#[trigger] calls[i]),
    ensures
        steady_pool(s.run(calls)),
        s.run(calls).wf(),
    decreases calls.len(),
{
    lemma_run_keeps_wf(s, calls);
    if calls.len() > 0 {
        let front = calls.drop_last();
        assert forall|i: int| 0 <= i < front.len() implies !changes_membership(#[trigger] front[i]) by {
            assert(front[i] == calls[i]);
        }
        lemma_run_keeps_steady(s, front);
        assert(!changes_membership(calls[calls.len() - 1]));
        lemma_after_keeps_steady(s.run(front), calls.last());
    }
}

/// A member's savings: zero for an account that is no member.
pub open spec fn savings(s: ContractView, m: Seq<u8>) -> int {
    s.state_of(m).total_contributions as int
}

/// What `call` moves from the contract to `m`.
pub open spec fn paid_to(s: ContractView, c: Call, m: Seq<u8>) -> int {
    match s.step(c).result {
        Ok((_, e)) => match e.transfer {
            Some(t) => if t.from == PartyView::Contract && t.to == PartyView::Account(m) {
                t.amount as int
            } else {
                0
            },
            None => 0,
        },
        Err(_) => 0,
    }
}

/// What `call` moves from `m` to the contract.
pub open spec fn paid_by(s: ContractView, c: Call, m: Seq<u8>) -> int {
    match s.step(c).result {
        Ok((_, e)) => match e.transfer {
            Some(t) => if t.from == PartyView::Account(m) && t.to == PartyView::Contract {
                t.amount as int
            } else {
                0
            },
            None => 0,
        },
        Err(_) => 0,
    }
}

/// All that `calls` move from the contract to `m`.
pub open spec fn total_paid_to(s: ContractView, calls: Seq<Call>, m: Seq<u8>) -> int
    decreases calls.len(),
{
    if calls.len() == 0 {
        0
    } else {
        total_paid_to(s, calls.drop_last(), m) + paid_to(s.run(calls.drop_last()), calls.last(), m)
    }
}

/// All that `calls` move from `m` to the contract.
pub open spec fn total_paid_by(s: ContractView, calls: Seq<Call>, m: Seq<u8>) -> int
    decreases calls.len(),
{
    if calls.len() == 0 {
        0
    } else {
        total_paid_by(s, calls.drop_last(), m) + paid_by(s.run(calls.drop_last()), calls.last(), m)
    }
}

pub open spec fn goal_based(s: ContractView) -> bool {
    s.config matches Some(c) && c.group_type == GroupType::GoalBased
}

/// In a goal-based group no call pays a member more than they pay in plus
/// the savings they had, and what is paid out comes off their savings.
proof fn lemma_after_keeps_savings_balance(s: ContractView, c: Call, m: Seq<u8>)
    requires
        s.wf(),
        goal_based(s),
    ensures
        goal_based(s.after(c)),
        paid_to(s, c, m) + savings(s.after(c), m) <= paid_by(s, c, m) + savings(s, m),
{
    let t = s.after(c);
    lemma_after_keeps_wf(s, c);
    if s.is_member(m) {
        let j = s.member_index(m);
        lemma_member_at(s, j);
        assert(0 <= s.states[j].current_cycle_contribution <= s.states[j].total_contributions);
    }
    if s.step(c).result is Ok {
        match c {
            Call::AddMember(a) => {
                if s.is_member(m) {
                    lemma_member_at(t, s.member_index(m));
                } else if a == m {
                    lemma_member_at(t, s.accounts.len() as int);
                } else {
                    assert forall|k: int| 0 <= k < t.accounts.len() implies t.accounts[k] != m by {
                        if k < s.accounts.len() {
                            assert(t.accounts[k] == s.accounts[k]);
                        }
                    }
                }
            },
            Call::RemoveMember(a) => {
                let r = s.member_index(a);
                lemma_member_at(s, r);
                lemma_remove_keeps_distinct(s.accounts, r);
                if s.is_member(m) && a != m {
                    let j = s.member_index(m);
                    let j2 = if j < r { j } else { j - 1 };
                    assert(t.accounts[j2] == m);
                    lemma_member_at(t, j2);
                } else if !s.is_member(m) {
                    assert forall|k: int| 0 <= k < t.accounts.len() implies t.accounts[k] != m by {
                        let k2 = if k < r { k } else { k + 1 };
                        assert(t.accounts[k] == s.accounts[k2]);
                    }
                } else {
                    assert forall|k: int| 0 <= k < t.accounts.len() implies t.accounts[k] != m by {}
                }
            },
            Call::Contribute(a, x) => {
                lemma_member_at(s, s.member_index(a));
                if s.is_member(m) {
                    lemma_member_at(t, s.member_index(m));
                }
            },
            Call::WithdrawSavings(a, x) => {
                lemma_member_at(s, s.member_index(a));
                if s.is_member(m) {
                    lemma_member_at(t, s.member_index(m));
                }
            },
            Call::EmergencyWithdraw(a) => {
                lemma_member_at(s, s.member_index(a));
                if s.is_member(m) {
                    lemma_member_at(t, s.member_index(m));
                }
            },
            _ => {
                assert(t.accounts == s.accounts);
                assert(t.states == s.states);
            },
        }
    }
}

/// Over any calls on a goal-based group, what is paid to a member, plus the
/// savings they are left with, is at most what they paid in plus the savings
/// they started with.
pub proof fn lemma_run_keeps_savings_balance(s: ContractView, calls: Seq<Call>, m: Seq<u8>)
    requires
        s.wf(),
        goal_based(s),
    ensures
        goal_based(s.run(calls)),
        s.run(calls).wf(),
        total_paid_to(s, calls, m) + savings(s.run(calls), m) <= total_paid_by(s, calls, m)
            + savings(s, m),
    decreases calls.len(),
{
    lemma_run_keeps_wf(s, calls);
    if calls.len() > 0 {
        let front = calls.drop_last();
        lemma_run_keeps_savings_balance(s, front, m);
        lemma_after_keeps_savings_balance(s.run(front), calls.last(), m);
    }
}

} // verus!
