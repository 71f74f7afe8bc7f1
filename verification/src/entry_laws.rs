//! When each entry point is accepted, and what it then does, stated directly
//! over the group's state and the call's inputs.
use vstd::prelude::*;
use crate::calls::lemma_member_at;
use crate::contract::{
    fresh_state, ContractView, GroupType, MemberState, DEFAULT_CYCLE_DAYS, MAX_CONTRIBUTION,
};
use crate::ttl::LEDGERS_PER_DAY;
use crate::effects::{pay_in_from, pay_out_to};
use crate::error::GroupError;
use crate::savings_group::BasicView;
use crate::well_formed::{
    lemma_contribute_keeps_wf, lemma_emergency_withdraw_keeps_wf, lemma_payout_keeps_wf,
    lemma_withdraw_savings_keeps_wf,
};

verus! {

/// Every account other than `m` keeps its membership and its savings record
/// from `s` to `t`.
pub open spec fn others_kept(s: ContractView, t: ContractView, m: Seq<u8>) -> bool {
    forall|a: Seq<u8>|
        a != m ==> t.is_member(a) == s.is_member(a) && #[trigger] t.state_of(a) == s.state_of(a)
}

/// A record changed in place at `m`'s position leaves every other member's
/// record as it was.
proof fn lemma_update_keeps_others(s: ContractView, t: ContractView, m: Seq<u8>)
    requires
        s.wf(),
        t.wf(),
        s.is_member(m),
        t.accounts == s.accounts,
        t.states.len() == s.states.len(),
        forall|k: int| 0 <= k < s.states.len() && k != s.member_index(m) ==> #[trigger] t.states[k]
            == s.states[k],
    ensures
        others_kept(s, t, m),
{
    let i = s.member_index(m);
    lemma_member_at(s, i);
    assert forall|a: Seq<u8>| a != m implies (t.is_member(a) == s.is_member(a)
        && #[trigger] t.state_of(a) == s.state_of(a)) by {
        if s.is_member(a) {
            let j = s.member_index(a);
            lemma_member_at(s, j);
            lemma_member_at(t, j);
        }
    }
}

/// Removing `m`'s entry from both sequences leaves every other member's
/// record as it was.
proof fn lemma_remove_keeps_others(s: ContractView, t: ContractView, m: Seq<u8>)
    requires
        s.wf(),
        t.wf(),
        s.is_member(m),
        t.accounts == s.accounts.remove(s.member_index(m)),
        t.states == s.states.remove(s.member_index(m)),
    ensures
        others_kept(s, t, m),
{
    let i = s.member_index(m);
    lemma_member_at(s, i);
    assert forall|a: Seq<u8>| a != m implies #[trigger] t.is_member(a) == s.is_member(a)
        && t.state_of(a) == s.state_of(a) by {
        if s.is_member(a) {
            let j = s.member_index(a);
            lemma_member_at(s, j);
            let j2 = if j < i { j } else { j - 1 };
            assert(t.accounts[j2] == a);
            assert(t.states[j2] == s.states[j]);
            lemma_member_at(t, j2);
        } else {
            assert forall|k: int| 0 <= k < t.accounts.len() implies t.accounts[k] != a by {
                let k2 = if k < i { k } else { k + 1 };
                assert(t.accounts[k] == s.accounts[k2]);
            }
        }
    }
    assert forall|a: Seq<u8>| a != m implies (t.is_member(a) == s.is_member(a)
        && #[trigger] t.state_of(a) == s.state_of(a)) by {
        assert(t.is_member(a) == s.is_member(a));
    }
}

/// A rotational payout is accepted exactly when no payout is under way, the
/// group is not paused, the named recipient is the member whose turn it is,
/// the cycle's member count is set and the contract holds the whole pool;
/// nothing about the recipient's history matters. It then pays the pool,
/// contribution times member count, to that member, moves the turn on by one,
/// marks the member as paid, and touches nobody else's record.
pub proof fn payout_acceptance(s: ContractView, r: Seq<u8>, balance: i128)
    requires
        s.wf(),
        s.config matches Some(c) && c.group_type == GroupType::Rotational,
    ensures
        s.payout_step(r, balance).result is Ok <==> {
            &&& !s.is_executing_payout
            &&& !s.is_paused
            &&& s.next_payout_index < s.accounts.len()
            &&& s.accounts[s.next_payout_index as int] == r
            &&& s.cycle_member_count is Some
            &&& s.config->Some_0.contribution_amount * s.cycle_member_count->Some_0 <= balance
        },
        s.payout_step(r, balance).result matches Ok((t, e)) ==> {
            &&& e.transfer == pay_out_to(
                r,
                (s.config->Some_0.contribution_amount * s.cycle_member_count->Some_0) as i128,
            )
            &&& t.next_payout_index == s.next_payout_index + 1
            &&& t.accounts == s.accounts
            &&& t.state_of(r) == MemberState { has_received_payout: true, ..s.state_of(r) }
            &&& others_kept(s, t, r)
            &&& t.cycle_member_count == s.cycle_member_count
            &&& t.current_cycle_id == s.current_cycle_id
        },
{
    if s.payout_step(r, balance).result is Ok {
        let t = s.payout_step(r, balance).result->Ok_0.0;
        let n = s.next_payout_index as int;
        lemma_payout_keeps_wf(s, r, balance);
        lemma_member_at(s, n);
        lemma_member_at(t, n);
        lemma_update_keeps_others(s, t, r);
    }
}

/// In particular, once the rotation is reset its first member can be paid
/// again, whatever they were paid before.
pub proof fn rotation_restarts_with_the_first_member(s: ContractView, balance: i128)
    requires
        s.wf(),
        s.config matches Some(c) && c.group_type == GroupType::Rotational,
        !s.is_executing_payout,
        !s.is_paused,
        s.accounts.len() > 0,
        s.cycle_member_count is Some,
        s.config->Some_0.contribution_amount * s.cycle_member_count->Some_0 <= balance,
    ensures
        s.reset_rotation_step().result is Ok,
        s.reset_rotation_step().result->Ok_0.0.payout_step(s.accounts[0], balance).result is Ok,
{
}

/// A contribution is accepted exactly when no payout is under way, the group
/// is not paused and initialized, the amount is positive (and the fixed
/// amount in a rotational group), the contributor is a member who has not
/// paid in this cycle, the new total fits, and (for a rotational member
/// counted back after a refund) the member count fits; the member's place in
/// the rotation does not matter. It then takes the amount from the member,
/// adds it to their savings as this cycle's payment, and touches nobody
/// else's record.
pub proof fn contribute_acceptance(s: ContractView, m: Seq<u8>, amount: i128)
    requires
        s.wf(),
    ensures
        s.contribute_step(m, amount).result is Ok <==> {
            &&& !s.is_executing_payout
            &&& !s.is_paused
            &&& s.config is Some
            &&& amount > 0
            &&& (s.config->Some_0.group_type == GroupType::Rotational ==> amount
                == s.config->Some_0.contribution_amount)
            &&& s.is_member(m)
            &&& s.state_of(m).last_contribution_cycle_id != s.current_cycle_id
            &&& s.state_of(m).total_contributions + amount <= i128::MAX
            &&& !(s.config->Some_0.group_type == GroupType::Rotational && s.refunded_in[s.member_index(
                m,
            )] == s.current_cycle_id && s.cycle_member_count == Some(i128::MAX))
        },
        s.contribute_step(m, amount).result matches Ok((t, e)) ==> {
            &&& e.transfer == pay_in_from(m, amount)
            &&& t.is_member(m)
            &&& t.state_of(m).total_contributions == s.state_of(m).total_contributions + amount
            &&& t.state_of(m).last_contribution_cycle_id == s.current_cycle_id
            &&& t.state_of(m).current_cycle_contribution == amount
            &&& t.state_of(m).has_received_payout == s.state_of(m).has_received_payout
            &&& t.accounts == s.accounts
            &&& t.next_payout_index == s.next_payout_index
            &&& t.current_cycle_id == s.current_cycle_id
            &&& others_kept(s, t, m)
        },
{
    if s.contribute_step(m, amount).result is Ok {
        let t = s.contribute_step(m, amount).result->Ok_0.0;
        let i = s.member_index(m);
        lemma_contribute_keeps_wf(s, m, amount);
        lemma_member_at(s, i);
        lemma_member_at(t, i);
        lemma_update_keeps_others(s, t, m);
    }
}

/// A removal is accepted exactly when no payout is under way, the group is
/// not paused and initialized, and the account is a member whose payout turn
/// has not passed. The member then leaves the rotation, the others keeping
/// their order and records, and gets back exactly what they paid in this
/// cycle and still have saved, if anything.
pub proof fn remove_member_acceptance(s: ContractView, m: Seq<u8>)
    requires
        s.wf(),
    ensures
        s.remove_member_step(m).result is Ok <==> {
            &&& !s.is_executing_payout
            &&& !s.is_paused
            &&& s.config is Some
            &&& s.is_member(m)
            &&& s.member_index(m) >= s.next_payout_index
        },
        s.remove_member_step(m).result matches Ok((t, e)) ==> {
            let st = s.state_of(m);
            &&& e.transfer == if st.last_contribution_cycle_id == s.current_cycle_id
                && st.current_cycle_contribution > 0 {
                pay_out_to(m, st.current_cycle_contribution)
            } else {
                None
            }
            &&& !t.is_member(m)
            &&& t.accounts == s.accounts.remove(s.member_index(m))
            &&& t.next_payout_index == s.next_payout_index
            &&& others_kept(s, t, m)
        },
{
    if s.remove_member_step(m).result is Ok {
        let t = s.remove_member_step(m).result->Ok_0.0;
        let i = s.member_index(m);
        lemma_member_at(s, i);
        crate::well_formed::lemma_remove_member_keeps_wf(s, m);
        crate::contract::lemma_remove_keeps_distinct(s.accounts, i);
        lemma_remove_keeps_others(s, t, m);
        assert forall|k: int| 0 <= k < t.accounts.len() implies t.accounts[k] != m by {}
        assert(!t.is_member(m));
        assert(others_kept(s, t, m));
        assert(t.accounts == s.accounts.remove(i));
        let e = s.remove_member_step(m).result->Ok_0.1;
        assert(e.transfer == if s.state_of(m).last_contribution_cycle_id == s.current_cycle_id
            && s.state_of(m).current_cycle_contribution > 0 {
            pay_out_to(m, s.state_of(m).current_cycle_contribution)
        } else {
            None
        });
    }
}

/// While the group is paused, an emergency withdrawal is accepted exactly
/// when the account is a member who paid in this cycle and still has a
/// positive refundable contribution, whatever they saved before. It then pays
/// that contribution back, takes it off their savings, marks them as not
/// having paid in this cycle, and touches nobody else's record.
pub proof fn emergency_withdraw_acceptance(s: ContractView, m: Seq<u8>)
    requires
        s.wf(),
    ensures
        s.emergency_withdraw_step(m).result is Ok <==> {
            &&& s.is_paused
            &&& s.is_member(m)
            &&& s.state_of(m).last_contribution_cycle_id == s.current_cycle_id
            &&& s.state_of(m).current_cycle_contribution > 0
        },
        s.emergency_withdraw_step(m).result matches Ok((t, e)) ==> {
            let st = s.state_of(m);
            &&& e.transfer == pay_out_to(m, st.current_cycle_contribution)
            &&& t.state_of(m).total_contributions == st.total_contributions
                - st.current_cycle_contribution
            &&& t.state_of(m).current_cycle_contribution == 0
            &&& t.state_of(m).last_contribution_cycle_id != t.current_cycle_id
            &&& t.accounts == s.accounts
            &&& others_kept(s, t, m)
        },
{
    if s.emergency_withdraw_step(m).result is Ok {
        let t = s.emergency_withdraw_step(m).result->Ok_0.0;
        let i = s.member_index(m);
        lemma_emergency_withdraw_keeps_wf(s, m);
        lemma_member_at(s, i);
        lemma_member_at(t, i);
        lemma_update_keeps_others(s, t, m);
    }
}

/// A withdrawal is accepted exactly when no payout is under way, the group is
/// not paused, it is a goal-based group, the amount is positive and within
/// the member's savings, and a group locked until its target has reached it
/// for this member. It then pays the amount and takes it off their savings,
/// touching nobody else's record.
pub proof fn withdraw_savings_acceptance(s: ContractView, m: Seq<u8>, amount: i128)
    requires
        s.wf(),
    ensures
        s.withdraw_savings_step(m, amount).result is Ok <==> {
            &&& !s.is_executing_payout
            &&& !s.is_paused
            &&& s.config matches Some(c) && c.group_type == GroupType::GoalBased
            &&& 0 < amount <= s.state_of(m).total_contributions
            &&& !(s.config->Some_0.lock_until_target && (s.config->Some_0.target_amount matches Some(
                target,
            ) && s.state_of(m).total_contributions < target))
        },
        s.withdraw_savings_step(m, amount).result matches Ok((t, e)) ==> {
            &&& e.transfer == pay_out_to(m, amount)
            &&& t.state_of(m).total_contributions == s.state_of(m).total_contributions - amount
            &&& t.state_of(m).current_cycle_contribution <= t.state_of(m).total_contributions
            &&& t.accounts == s.accounts
            &&& others_kept(s, t, m)
        },
{
    if s.withdraw_savings_step(m, amount).result is Ok {
        let t = s.withdraw_savings_step(m, amount).result->Ok_0.0;
        let i = s.member_index(m);
        lemma_withdraw_savings_keeps_wf(s, m, amount);
        lemma_member_at(s, i);
        lemma_member_at(t, i);
        lemma_update_keeps_others(s, t, m);
    }
}

/// A basic payout is accepted exactly when the group is initialized, the
/// recipient is a member and the contract holds the amount asked for; it
/// then pays exactly that amount to the recipient and changes nothing else.
pub proof fn basic_payout_acceptance(s: BasicView, r: Seq<u8>, amount: i128, balance: i128)
    requires
        s.wf(),
    ensures
        s.payout_step(r, amount, balance).result is Ok <==> {
            &&& s.config is Some
            &&& s.is_member(r)
            &&& amount <= balance
        },
        s.payout_step(r, amount, balance).result matches Ok((t, e)) ==> {
            &&& e.transfer == pay_out_to(r, amount)
            &&& t == s
        },
{
}

/// A basic contribution is accepted exactly when the group is initialized,
/// the amount is the fixed one, the contributor is a member and the new total
/// fits; it then takes exactly that amount from the member and adds it to
/// their recorded contributions.
pub proof fn basic_contribute_acceptance(s: BasicView, m: Seq<u8>, amount: i128)
    requires
        s.wf(),
    ensures
        s.contribute_step(m, amount).result is Ok <==> {
            &&& s.config is Some
            &&& amount == s.config->Some_0.contribution_amount
            &&& s.is_member(m)
            &&& s.contribution_of(m) + amount <= i128::MAX
            &&& s.contribution_of(m) + amount >= i128::MIN
        },
        s.contribute_step(m, amount).result matches Ok((t, e)) ==> {
            &&& e.transfer == pay_in_from(m, amount)
            &&& t.contribution_of(m) == s.contribution_of(m) + amount
            &&& t.accounts == s.accounts
        },
{
    if s.is_member(m) {
        crate::account::lemma_index_of_distinct(s.accounts, s.accounts.index_of(m));
    }
}

/// Appending a fresh account leaves every earlier member's record as it was,
/// and the newcomer starts with a fresh one.
proof fn lemma_push_keeps_others(s: ContractView, t: ContractView, m: Seq<u8>)
    requires
        s.wf(),
        t.wf(),
        !s.is_member(m),
        t.accounts == s.accounts.push(m),
        t.states == s.states.push(fresh_state()),
    ensures
        others_kept(s, t, m),
        t.is_member(m),
        t.state_of(m) == fresh_state(),
{
    let n = s.accounts.len() as int;
    lemma_member_at(t, n);
    assert forall|a: Seq<u8>| a != m implies #[trigger] t.is_member(a) == s.is_member(a)
        && t.state_of(a) == s.state_of(a) by {
        if s.is_member(a) {
            let j = s.member_index(a);
            lemma_member_at(s, j);
            assert(t.accounts[j] == a);
            lemma_member_at(t, j);
        } else if t.is_member(a) {
            let j = t.member_index(a);
            lemma_member_at(t, j);
            assert(s.accounts[j] == a);
        }
    }
    assert forall|a: Seq<u8>| a != m implies (t.is_member(a) == s.is_member(a)
        && #[trigger] t.state_of(a) == s.state_of(a)) by {
        assert(t.is_member(a) == s.is_member(a));
    }
}

/// Admitting a member is accepted exactly when the group is initialized and
/// not paused and, for a newcomer, the rotation still has room. A newcomer
/// joins at the end of the rotation with a fresh record and nobody else's
/// record changes; admitting a member again changes nothing. No money moves.
pub proof fn add_member_acceptance(s: ContractView, m: Seq<u8>)
    requires
        s.wf(),
    ensures
        s.add_member_step(m).result is Ok <==> {
            &&& !s.is_paused
            &&& s.config is Some
            &&& (s.is_member(m) || s.accounts.len() < u32::MAX)
        },
        s.add_member_step(m).result matches Ok((t, e)) ==> {
            &&& e.transfer is None
            &&& t.is_member(m)
            &&& others_kept(s, t, m)
            &&& t.next_payout_index == s.next_payout_index
            &&& t.current_cycle_id == s.current_cycle_id
            &&& (s.is_member(m) ==> t == s)
            &&& (!s.is_member(m) ==> t.accounts == s.accounts.push(m) && t.state_of(m)
                == fresh_state())
        },
{
    if s.add_member_step(m).result is Ok && !s.is_member(m) {
        let t = s.add_member_step(m).result->Ok_0.0;
        crate::well_formed::lemma_add_member_keeps_wf(s, m);
        lemma_push_keeps_others(s, t, m);
    }
}

/// Starting a new cycle is accepted exactly when no payout is under way, the
/// group is initialized and not paused, and the cycle number can grow. The
/// cycle number goes up by one, the members, their records and the payout
/// turn stay, no money moves, and no member counts as having paid in the new
/// cycle.
pub proof fn reset_cycle_acceptance(s: ContractView)
    requires
        s.wf(),
    ensures
        s.reset_cycle_step().result is Ok <==> {
            &&& !s.is_executing_payout
            &&& !s.is_paused
            &&& s.config is Some
            &&& s.current_cycle_id < u32::MAX
        },
        s.reset_cycle_step().result matches Ok((t, e)) ==> {
            &&& e.transfer is None
            &&& t.current_cycle_id == s.current_cycle_id + 1
            &&& t.accounts == s.accounts
            &&& t.states == s.states
            &&& t.next_payout_index == s.next_payout_index
            &&& forall|a: Seq<u8>| #[trigger] t.is_member(a) ==> t.state_of(a).last_contribution_cycle_id
                != t.current_cycle_id
        },
{
    if s.reset_cycle_step().result is Ok {
        let t = s.reset_cycle_step().result->Ok_0.0;
        assert forall|a: Seq<u8>| #[trigger] t.is_member(a) implies t.state_of(
            a,
        ).last_contribution_cycle_id != t.current_cycle_id by {
            lemma_member_at(s, s.member_index(a));
        }
    }
}

/// Pausing is accepted exactly when the group is initialized and not yet
/// paused, lifting the pause exactly when it is initialized; either only
/// sets the pause flag and moves no money.
pub proof fn pause_acceptance(s: ContractView)
    requires
        s.wf(),
    ensures
        s.pause_step().result is Ok <==> !s.is_paused && s.config is Some,
        s.pause_step().result matches Ok((t, e)) ==> e.transfer is None && t.is_paused && (
        ContractView { is_paused: s.is_paused, ..t }) == s,
        s.unpause_step().result is Ok <==> s.config is Some,
        s.unpause_step().result matches Ok((t, e)) ==> e.transfer is None && !t.is_paused && (
        ContractView { is_paused: s.is_paused, ..t }) == s,
{
}

/// A basic group admits a member exactly when it is initialized and, for a
/// newcomer, there is room; the newcomer starts with nothing contributed and
/// an existing member is left as they were.
pub proof fn basic_add_member_acceptance(s: BasicView, m: Seq<u8>)
    requires
        s.wf(),
    ensures
        s.add_member_step(m).result is Ok <==> {
            &&& s.config is Some
            &&& (s.is_member(m) || s.accounts.len() < u32::MAX)
        },
        s.add_member_step(m).result matches Ok((t, e)) ==> {
            &&& e.transfer is None
            &&& t.is_member(m)
            &&& t.contribution_of(m) == s.contribution_of(m)
            &&& (s.is_member(m) ==> t == s)
            &&& (!s.is_member(m) ==> t.accounts == s.accounts.push(m))
        },
{
    if s.add_member_step(m).result is Ok && !s.is_member(m) {
        let t = s.add_member_step(m).result->Ok_0.0;
        let n = s.accounts.len() as int;
        assert(t.accounts[n] == m);
        assert(t.accounts.no_duplicates()) by {
            assert forall|i: int, j: int| 0 <= i < j < t.accounts.len() implies t.accounts[i]
                != t.accounts[j] by {
                if j == n {
                    assert(s.accounts[i] == t.accounts[i]);
                }
            }
        }
        crate::account::lemma_index_of_distinct(t.accounts, n);
    }
}

/// Setting a group up is accepted exactly when it has not been set up yet,
/// the contribution is positive and within the ceiling, and the cycle length
/// in ledgers (thirty days unless named) fits. The group then starts in its
/// first cycle with no members, the settings as given, and no money moves.
pub proof fn initialize_acceptance(
    s: ContractView,
    admin: Seq<u8>,
    token: Seq<u8>,
    name: Seq<u8>,
    amount: i128,
    group_type: GroupType,
    target: Option<i128>,
    lock: bool,
    days: Option<u32>,
)
    requires
        s.wf(),
    ensures
        ({
            let d: int = match days {
                Some(x) => x as int,
                None => DEFAULT_CYCLE_DAYS as int,
            };
            let step = s.initialize_step(admin, token, name, amount, group_type, target, lock, days);
            &&& step.auth is None
            &&& step.result is Ok <==> {
                &&& s.config is None
                &&& 0 < amount <= MAX_CONTRIBUTION
                &&& d * LEDGERS_PER_DAY <= u32::MAX
            }
            &&& step.result matches Ok((t, e)) ==> {
                &&& e.transfer is None
                &&& t.wf()
                &&& t.accounts.len() == 0
                &&& t.current_cycle_id == 1
                &&& t.next_payout_index == 0
                &&& t.cycle_member_count is None
                &&& !t.is_executing_payout
                &&& t.config matches Some(c) && c.admin == admin && c.token == token && c.name
                    == name && c.contribution_amount == amount && c.group_type == group_type
                    && c.target_amount == target && c.lock_until_target == lock
                    && c.cycle_length_ledgers == d * LEDGERS_PER_DAY
            }
        }),
{
}

} // verus!
