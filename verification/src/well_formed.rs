//! Every accepted step keeps a group well formed.
use vstd::prelude::*;
use crate::account::lemma_index_of_distinct;
use crate::contract::{lemma_remove_keeps_distinct, ContractView, GroupType, MemberState};

verus! {

/// Replacing one record by another with the same cycle of last payment keeps
/// the records well formed, provided the new one is.
proof fn lemma_same_cycle_update(s: ContractView, i: int, x: MemberState)
    requires
        s.wf(),
        0 <= i < s.states.len(),
        x.last_contribution_cycle_id == s.states[i].last_contribution_cycle_id,
        0 <= x.current_cycle_contribution <= x.total_contributions,
    ensures
        (ContractView { states: s.states.update(i, x), ..s }).wf(),
{
    let t = ContractView { states: s.states.update(i, x), ..s };
    assert forall|k: int| 0 <= k < t.states.len() implies #[trigger] t.states[
        k
    ].last_contribution_cycle_id <= t.current_cycle_id by {
        if k != i {
            assert(t.states[k] == s.states[k]);
        }
    }
    assert forall|k: int| 0 <= k < t.states.len() implies 0 <= #[trigger] t.states[
        k
    ].current_cycle_contribution <= t.states[k].total_contributions by {
        if k != i {
            assert(t.states[k] == s.states[k]);
        }
    }
}

pub proof fn lemma_initialize_keeps_wf(
    s: ContractView,
    admin: Seq<u8>,
    token: Seq<u8>,
    name: Seq<u8>,
    contribution_amount: i128,
    group_type: GroupType,
    target_amount: Option<i128>,
    lock_until_target: bool,
    expected_cycle_days: Option<u32>,
)
    requires
        s.wf(),
        s.initialize_step(
            admin,
            token,
            name,
            contribution_amount,
            group_type,
            target_amount,
            lock_until_target,
            expected_cycle_days,
        ).result is Ok,
    ensures
        s.initialize_step(
            admin,
            token,
            name,
            contribution_amount,
            group_type,
            target_amount,
            lock_until_target,
            expected_cycle_days,
        ).result->Ok_0.0.wf(),
{
    let t = s.initialize_step(
        admin,
        token,
        name,
        contribution_amount,
        group_type,
        target_amount,
        lock_until_target,
        expected_cycle_days,
    ).result->Ok_0.0;
}

pub proof fn lemma_add_member_keeps_wf(s: ContractView, a: Seq<u8>)
    requires
        s.wf(),
        s.add_member_step(a).result is Ok,
    ensures
        s.add_member_step(a).result->Ok_0.0.wf(),
{
    if !s.is_member(a) {
        let t = s.add_member_step(a).result->Ok_0.0;
        let n = s.accounts.len() as int;
        assert forall|i: int, j: int|
            0 <= i < t.accounts.len() && 0 <= j < t.accounts.len() && i != j implies t.accounts[i]
            != t.accounts[j] by {
            if i == n {
                assert(s.accounts.contains(s.accounts[j]));
            } else if j == n {
                assert(s.accounts.contains(s.accounts[i]));
            }
        }
        assert forall|k: int| 0 <= k < t.refunded_in.len() implies #[trigger] t.refunded_in[k]
            <= t.current_cycle_id by {
            if k < n {
                assert(t.refunded_in[k] == s.refunded_in[k]);
            }
        }
        assert forall|k: int| 0 <= k < t.states.len() implies #[trigger] t.states[
            k
        ].last_contribution_cycle_id <= t.current_cycle_id by {
            if k < n {
                assert(t.states[k] == s.states[k]);
            }
        }
        assert forall|k: int| 0 <= k < t.states.len() implies 0 <= #[trigger] t.states[
            k
        ].current_cycle_contribution <= t.states[k].total_contributions by {
            if k < n {
                assert(t.states[k] == s.states[k]);
            }
        }
    }
}

pub proof fn lemma_remove_member_keeps_wf(s: ContractView, a: Seq<u8>)
    requires
        s.wf(),
        s.remove_member_step(a).result is Ok,
    ensures
        s.remove_member_step(a).result->Ok_0.0.wf(),
{
    let i = s.member_index(a);
    let t = s.remove_member_step(a).result->Ok_0.0;
    assert(0 <= i < s.accounts.len());
    lemma_remove_keeps_distinct(s.accounts, i);
    assert forall|k: int| 0 <= k < t.refunded_in.len() implies #[trigger] t.refunded_in[k]
        <= t.current_cycle_id by {
        let k2 = if k < i { k } else { k + 1 };
        assert(t.refunded_in[k] == s.refunded_in[k2]);
    }
    assert forall|k: int| 0 <= k < t.states.len() implies #[trigger] t.states[
        k
    ].last_contribution_cycle_id <= t.current_cycle_id by {
        let k2 = if k < i { k } else { k + 1 };
        assert(t.states[k] == s.states[k2]);
    }
    assert forall|k: int| 0 <= k < t.states.len() implies 0 <= #[trigger] t.states[
        k
    ].current_cycle_contribution <= t.states[k].total_contributions by {
        let k2 = if k < i { k } else { k + 1 };
        assert(t.states[k] == s.states[k2]);
    }
}

pub proof fn lemma_contribute_keeps_wf(s: ContractView, a: Seq<u8>, amount: i128)
    requires
        s.wf(),
        s.contribute_step(a, amount).result is Ok,
    ensures
        s.contribute_step(a, amount).result->Ok_0.0.wf(),
{
    let i = s.member_index(a);
    let t = s.contribute_step(a, amount).result->Ok_0.0;
    assert(0 <= s.states[i].current_cycle_contribution <= s.states[i].total_contributions);
    assert(t.states =~= s.states.update(i, t.states[i]));
    assert(s.accounts.len() >= 1);
    assert forall|k: int| 0 <= k < t.refunded_in.len() implies #[trigger] t.refunded_in[k]
        <= t.current_cycle_id by {
        if k != i {
            assert(t.refunded_in[k] == s.refunded_in[k]);
        }
    }
    assert forall|k: int| 0 <= k < t.states.len() implies #[trigger] t.states[
        k
    ].last_contribution_cycle_id <= t.current_cycle_id by {
        if k != i {
            assert(t.states[k] == s.states[k]);
        }
    }
    assert forall|k: int| 0 <= k < t.states.len() implies 0 <= #[trigger] t.states[
        k
    ].current_cycle_contribution <= t.states[k].total_contributions by {
        if k != i {
            assert(t.states[k] == s.states[k]);
        }
    }
}

pub proof fn lemma_payout_keeps_wf(s: ContractView, a: Seq<u8>, balance: i128)
    requires
        s.wf(),
        s.payout_step(a, balance).result is Ok,
    ensures
        s.payout_step(a, balance).result->Ok_0.0.wf(),
{
    let next = s.next_payout_index as int;
    let x = MemberState { has_received_payout: true, ..s.states[next] };
    lemma_same_cycle_update(s, next, x);
}

pub proof fn lemma_withdraw_savings_keeps_wf(s: ContractView, a: Seq<u8>, amount: i128)
    requires
        s.wf(),
        s.withdraw_savings_step(a, amount).result is Ok,
    ensures
        s.withdraw_savings_step(a, amount).result->Ok_0.0.wf(),
{
    let i = s.member_index(a);
    let t = s.withdraw_savings_step(a, amount).result->Ok_0.0;
    lemma_same_cycle_update(s, i, t.states[i]);
    assert(t.states =~= s.states.update(i, t.states[i]));
}

pub proof fn lemma_emergency_withdraw_keeps_wf(s: ContractView, a: Seq<u8>)
    requires
        s.wf(),
        s.emergency_withdraw_step(a).result is Ok,
    ensures
        s.emergency_withdraw_step(a).result->Ok_0.0.wf(),
{
    let i = s.member_index(a);
    let t = s.emergency_withdraw_step(a).result->Ok_0.0;
    assert(0 <= s.states[i].current_cycle_contribution <= s.states[i].total_contributions);
    assert(t.states =~= s.states.update(i, t.states[i]));
    assert forall|k: int| 0 <= k < t.refunded_in.len() implies #[trigger] t.refunded_in[k]
        <= t.current_cycle_id by {
        if k != i {
            assert(t.refunded_in[k] == s.refunded_in[k]);
        }
    }
    assert forall|k: int| 0 <= k < t.states.len() implies #[trigger] t.states[
        k
    ].last_contribution_cycle_id <= t.current_cycle_id by {
        if k != i {
            assert(t.states[k] == s.states[k]);
        }
    }
    assert forall|k: int| 0 <= k < t.states.len() implies 0 <= #[trigger] t.states[
        k
    ].current_cycle_contribution <= t.states[k].total_contributions by {
        if k != i {
            assert(t.states[k] == s.states[k]);
        }
    }
}

pub proof fn lemma_reset_cycle_keeps_wf(s: ContractView)
    requires
        s.wf(),
        s.reset_cycle_step().result is Ok,
    ensures
        s.reset_cycle_step().result->Ok_0.0.wf(),
{
    let t = s.reset_cycle_step().result->Ok_0.0;
    assert forall|k: int| 0 <= k < t.refunded_in.len() implies #[trigger] t.refunded_in[k]
        <= t.current_cycle_id by {
        assert(s.refunded_in[k] <= s.current_cycle_id);
    }
}

pub proof fn lemma_admin_switches_keep_wf(s: ContractView)
    requires
        s.wf(),
    ensures
        s.pause_step().result is Ok ==> s.pause_step().result->Ok_0.0.wf(),
        s.unpause_step().result is Ok ==> s.unpause_step().result->Ok_0.0.wf(),
        s.reset_rotation_step().result is Ok ==> s.reset_rotation_step().result->Ok_0.0.wf(),
        (ContractView { is_executing_payout: false, ..s }).wf(),
{
}

} // verus!
