//! Properties of the savings groups that span several operations.
use vstd::prelude::*;
use crate::account::lemma_index_of_distinct;
use crate::calls::{
    changes_membership, goal_based, has_paid_this_cycle, lemma_after_keeps_wf, lemma_member_at,
    lemma_run_append, lemma_run_keeps_paid_prefix, lemma_run_keeps_pause, lemma_run_keeps_payment,
    lemma_run_keeps_savings_balance, lemma_run_keeps_steady, lemma_run_keeps_wf,
    reopens_contribution, savings, steady_pool, total_paid_by, total_paid_to, Call,
};
use crate::contract::{lemma_remove_keeps_distinct, ContractView, GroupType};
use crate::well_formed::{lemma_emergency_withdraw_keeps_wf, lemma_withdraw_savings_keeps_wf};
use crate::effects::{pay_in_from, pay_out_to, EffectsView, EventView};
use crate::error::GroupError;
use crate::savings_group::BasicView;

verus! {

/// A group is initialized once: every later attempt is refused, whatever it
/// asks for, before any authorization is demanded.
pub proof fn initialize_only_once(
    s: ContractView,
    admin: Seq<u8>,
    token: Seq<u8>,
    name: Seq<u8>,
    contribution_amount: i128,
    group_type: GroupType,
    target_amount: Option<i128>,
    lock_until_target: bool,
    expected_cycle_days: Option<u32>,
)
    requires
        s.config is Some,
    ensures
        s.initialize_step(
            admin,
            token,
            name,
            contribution_amount,
            group_type,
            target_amount,
            lock_until_target,
            expected_cycle_days,
        ).result == Err::<(ContractView, EffectsView), GroupError>(GroupError::AlreadyInitialized),
        s.initialize_step(
            admin,
            token,
            name,
            contribution_amount,
            group_type,
            target_amount,
            lock_until_target,
            expected_cycle_days,
        ).auth is None,
{
}

/// Once the group is set up, no operation changes its settings: neither the
/// admin nor anyone else can alter the contribution amount, the token, the
/// group type or the savings target.
pub proof fn settings_are_fixed(s: ContractView, a: Seq<u8>, amount: i128, balance: i128)
    requires
        s.wf(),
        s.config is Some,
    ensures
        s.add_member_step(a).result matches Ok((s2, _)) ==> s2.config == s.config,
        s.remove_member_step(a).result matches Ok((s2, _)) ==> s2.config == s.config,
        s.contribute_step(a, amount).result matches Ok((s2, _)) ==> s2.config == s.config,
        s.payout_step(a, balance).result matches Ok((s2, _)) ==> s2.config == s.config,
        s.withdraw_savings_step(a, amount).result matches Ok((s2, _)) ==> s2.config == s.config,
        s.emergency_withdraw_step(a).result matches Ok((s2, _)) ==> s2.config == s.config,
        s.pause_step().result matches Ok((s2, _)) ==> s2.config == s.config,
        s.unpause_step().result matches Ok((s2, _)) ==> s2.config == s.config,
        s.reset_cycle_step().result matches Ok((s2, _)) ==> s2.config == s.config,
        s.reset_rotation_step().result matches Ok((s2, _)) ==> s2.config == s.config,
{
}

/// Tokens leave the contract only for members of the group: every accepted
/// payout, removal refund, withdrawal and emergency refund pays the member it
/// names, and nobody else.
pub proof fn funds_go_only_to_members(s: ContractView, a: Seq<u8>, amount: i128, balance: i128)
    requires
        s.wf(),
    ensures
        s.payout_step(a, balance).result is Ok ==> s.is_member(a),
        s.remove_member_step(a).result is Ok ==> s.is_member(a),
        s.withdraw_savings_step(a, amount).result is Ok ==> s.is_member(a),
        s.emergency_withdraw_step(a).result is Ok ==> s.is_member(a),
        s.contribute_step(a, amount).result matches Ok((_, e)) ==> e.transfer
            == pay_in_from(a, amount),
{
    if s.payout_step(a, balance).result is Ok {
        assert(s.accounts[s.next_payout_index as int] == a);
    }
}

/// A payout goes to the member whose turn it is, and is exactly the fixed
/// contribution times the cycle's member count, frozen at the cycle's first
/// contribution.
pub proof fn payout_is_the_full_pool_to_the_next_member(
    s: ContractView,
    recipient: Seq<u8>,
    balance: i128,
)
    requires
        s.wf(),
        s.payout_step(recipient, balance).result is Ok,
    ensures
        s.next_recipient() == Ok::<Seq<u8>, GroupError>(recipient),
        s.cycle_member_count is Some,
        ({
            let (s2, e) = s.payout_step(recipient, balance).result->Ok_0;
            let pool = s.config->Some_0.contribution_amount * s.cycle_member_count->Some_0;
            &&& e.transfer == pay_out_to(recipient, pool as i128)
            &&& pool <= balance
            &&& s2.next_payout_index == s.next_payout_index + 1
            &&& s2.accounts == s.accounts
        }),
{
}

/// While nobody joins, leaves or takes an emergency refund (a new cycle
/// included), every payout of a steady rotational group is the fixed
/// contribution times the number of members; every new cycle starts steady.
pub proof fn fixed_payout_while_membership_is_steady(
    s: ContractView,
    calls: Seq<Call>,
    recipient: Seq<u8>,
    balance: i128,
)
    requires
        s.wf(),
        steady_pool(s),
        forall|i: int| 0 <= i < calls.len() ==> !changes_membership(#[trigger] calls[i]),
    ensures
        ({
            let v = s.run(calls);
            v.payout_step(recipient, balance).result matches Ok((_, e)) ==> e.transfer
                == pay_out_to(
                recipient,
                (v.config->Some_0.contribution_amount * v.accounts.len()) as i128,
            )
        }),
{
    lemma_run_keeps_steady(s, calls);
}

/// A pause lasts until the admin lifts it: whatever calls come in between,
/// new members, contributions, payouts, removals, withdrawals, cycle resets
/// and a second pause are refused (a call made during a payout transfer is
/// refused as reentrant first), and emergency withdrawals stay open.
pub proof fn pause_lasts_until_unpause(
    s: ContractView,
    calls: Seq<Call>,
    a: Seq<u8>,
    amount: i128,
    balance: i128,
)
    requires
        s.wf(),
        s.is_paused,
        forall|i: int| 0 <= i < calls.len() ==> !(#[trigger] calls[i] is Unpause),
    ensures
        ({
            let v = s.run(calls);
            let refused = if v.is_executing_payout {
                GroupError::ReentrancyDetected
            } else {
                GroupError::ContractPaused
            };
            &&& v.is_paused
            &&& v.add_member_step(a).result == Err::<(ContractView, EffectsView), GroupError>(
                GroupError::ContractPaused,
            )
            &&& v.pause_step().result == Err::<(ContractView, EffectsView), GroupError>(
                GroupError::ContractPaused,
            )
            &&& v.contribute_step(a, amount).result == Err::<(ContractView, EffectsView), GroupError>(
                refused,
            )
            &&& v.payout_step(a, balance).result == Err::<(ContractView, EffectsView), GroupError>(
                refused,
            )
            &&& v.remove_member_step(a).result == Err::<(ContractView, EffectsView), GroupError>(
                refused,
            )
            &&& v.withdraw_savings_step(a, amount).result == Err::<
                (ContractView, EffectsView),
                GroupError,
            >(refused)
            &&& v.reset_cycle_step().result == Err::<(ContractView, EffectsView), GroupError>(
                refused,
            )
            &&& v.emergency_withdraw_step(a).result != Err::<(ContractView, EffectsView), GroupError>(
                GroupError::NotPaused,
            )
        }),
{
    lemma_run_keeps_pause(s, calls);
}

/// In a goal-based group nobody gets more than they put in: over any calls,
/// what the contract pays a member (withdrawals, emergency refunds, removal
/// refunds) is at most what the member paid in plus the savings they started
/// with, and their savings never go negative.
pub proof fn nobody_takes_out_more_than_they_put_in(s: ContractView, calls: Seq<Call>, m: Seq<u8>)
    requires
        s.wf(),
        goal_based(s),
    ensures
        total_paid_to(s, calls, m) <= total_paid_by(s, calls, m) + savings(s, m),
        savings(s.run(calls), m) >= 0,
        !s.is_member(m) ==> total_paid_to(s, calls, m) <= total_paid_by(s, calls, m),
{
    lemma_run_keeps_savings_balance(s, calls, m);
    let v = s.run(calls);
    if v.is_member(m) {
        let j = v.member_index(m);
        assert(0 <= v.states[j].current_cycle_contribution <= v.states[j].total_contributions);
    }
}

/// A member is paid at most once per rotation: once paid, whatever calls
/// follow until the rotation is reset, the member counts as paid, every
/// later payout goes to someone else, and the member cannot be removed.
pub proof fn paid_at_most_once_per_rotation(
    s: ContractView,
    calls: Seq<Call>,
    k: int,
    j: int,
    recipient: Seq<u8>,
    balance: i128,
)
    requires
        s.wf(),
        0 <= k < j <= calls.len(),
        calls[k] == Call::Payout(recipient, balance),
        s.run(calls.take(k)).payout_step(recipient, balance).result is Ok,
        forall|i: int| k < i < j ==> !(#[trigger] calls[i] is ResetRotation),
    ensures
        ({
            let v = s.run(calls.take(j));
            &&& v.payout_received(recipient) == Ok::<bool, GroupError>(true)
            &&& forall|r: Seq<u8>, b: i128| #[trigger]
                v.payout_step(r, b).result is Ok ==> r != recipient
            &&& v.remove_member_step(recipient).result is Err
        }),
{
    let u = s.run(calls.take(k));
    lemma_run_keeps_wf(s, calls.take(k));
    let u2 = u.after(calls[k]);
    lemma_after_keeps_wf(u, calls[k]);
    assert(calls.take(k + 1).drop_last() =~= calls.take(k));
    assert(s.run(calls.take(k + 1)) == u2);
    let mid = calls.subrange(k + 1, j);
    assert(calls.take(j) =~= calls.take(k + 1) + mid);
    lemma_run_append(s, calls.take(k + 1), mid);
    assert forall|i: int| 0 <= i < mid.len() implies !(#[trigger] mid[i] is ResetRotation) by {
        assert(mid[i] == calls[k + 1 + i]);
    }
    lemma_run_keeps_paid_prefix(u2, mid);
    lemma_run_keeps_wf(u2, mid);
    let v = u2.run(mid);
    let n = u.next_payout_index as int;
    assert(v.accounts[n] == u2.accounts[n]);
    lemma_member_at(v, n);
    assert forall|r: Seq<u8>, b: i128| #[trigger] v.payout_step(r, b).result is Ok implies r
        != recipient by {
        lemma_member_at(v, v.next_payout_index as int);
    }
}

/// A member pays in at most once per cycle: after a contribution, whatever
/// calls follow, short of a new cycle, the member's emergency refund or
/// removal, a further contribution by the member is refused.
pub proof fn one_contribution_per_cycle(
    s: ContractView,
    calls: Seq<Call>,
    k: int,
    j: int,
    member: Seq<u8>,
    amount: i128,
    later_amount: i128,
)
    requires
        s.wf(),
        0 <= k < j <= calls.len(),
        calls[k] == Call::Contribute(member, amount),
        s.run(calls.take(k)).contribute_step(member, amount).result is Ok,
        forall|i: int| k < i < j ==> !reopens_contribution(#[trigger] calls[i], member),
    ensures
        s.run(calls.take(j)).contribute_step(member, later_amount).result is Err,
{
    let u = s.run(calls.take(k));
    lemma_run_keeps_wf(s, calls.take(k));
    let u2 = u.after(calls[k]);
    lemma_after_keeps_wf(u, calls[k]);
    let i = u.member_index(member);
    lemma_member_at(u, i);
    lemma_member_at(u2, i);
    assert(has_paid_this_cycle(u2, member));
    assert(calls.take(k + 1).drop_last() =~= calls.take(k));
    let mid = calls.subrange(k + 1, j);
    assert(calls.take(j) =~= calls.take(k + 1) + mid);
    lemma_run_append(s, calls.take(k + 1), mid);
    assert forall|x: int| 0 <= x < mid.len() implies !reopens_contribution(
        #[trigger] mid[x],
        member,
    ) by {
        assert(mid[x] == calls[k + 1 + x]);
    }
    lemma_run_keeps_payment(u2, mid, member);
}

/// A new cycle lets every member contribute again: after a contribution and
/// a cycle reset, the same contribution is accepted (as long as the member's
/// total does not overflow).
pub proof fn new_cycle_reopens_contributions(s: ContractView, member: Seq<u8>, amount: i128)
    requires
        s.wf(),
        s.contribute_step(member, amount).result is Ok,
        s.contribute_step(member, amount).result->Ok_0.0.reset_cycle_step().result is Ok,
        s.state_of(member).total_contributions + 2 * amount <= i128::MAX,
    ensures
        s.contribute_step(member, amount).result->Ok_0.0.reset_cycle_step().result->Ok_0.0.contribute_step(
            member,
            amount,
        ).result is Ok,
{
}

/// While the group is paused, contributions, payouts, new members, removals,
/// withdrawals and cycle resets are refused, and emergency withdrawals are
/// open.
pub proof fn pause_blocks_the_group(s: ContractView, a: Seq<u8>, amount: i128, balance: i128)
    requires
        s.wf(),
        s.is_paused,
        !s.is_executing_payout,
    ensures
        s.contribute_step(a, amount).result == Err::<(ContractView, EffectsView), GroupError>(
            GroupError::ContractPaused,
        ),
        s.payout_step(a, balance).result == Err::<(ContractView, EffectsView), GroupError>(
            GroupError::ContractPaused,
        ),
        s.add_member_step(a).result == Err::<(ContractView, EffectsView), GroupError>(
            GroupError::ContractPaused,
        ),
        s.remove_member_step(a).result == Err::<(ContractView, EffectsView), GroupError>(
            GroupError::ContractPaused,
        ),
        s.withdraw_savings_step(a, amount).result == Err::<(ContractView, EffectsView), GroupError>(
            GroupError::ContractPaused,
        ),
        s.reset_cycle_step().result == Err::<(ContractView, EffectsView), GroupError>(
            GroupError::ContractPaused,
        ),
        s.emergency_withdraw_step(a).result != Err::<(ContractView, EffectsView), GroupError>(
            GroupError::NotPaused,
        ),
{
}

/// While a payout transfer is under way, no reentrant call can contribute,
/// pay out, remove a member, withdraw or reset.
pub proof fn guard_blocks_reentry(s: ContractView, a: Seq<u8>, amount: i128, balance: i128)
    requires
        s.is_executing_payout,
    ensures
        s.contribute_step(a, amount).result == Err::<(ContractView, EffectsView), GroupError>(
            GroupError::ReentrancyDetected,
        ),
        s.payout_step(a, balance).result == Err::<(ContractView, EffectsView), GroupError>(
            GroupError::ReentrancyDetected,
        ),
        s.remove_member_step(a).result == Err::<(ContractView, EffectsView), GroupError>(
            GroupError::ReentrancyDetected,
        ),
        s.withdraw_savings_step(a, amount).result == Err::<(ContractView, EffectsView), GroupError>(
            GroupError::ReentrancyDetected,
        ),
        s.reset_cycle_step().result == Err::<(ContractView, EffectsView), GroupError>(
            GroupError::ReentrancyDetected,
        ),
        s.reset_rotation_step().result == Err::<(ContractView, EffectsView), GroupError>(
            GroupError::ReentrancyDetected,
        ),
{
}

/// Adding a member twice is the same as adding them once.
pub proof fn add_member_is_idempotent(s: ContractView, a: Seq<u8>)
    requires
        s.wf(),
        s.add_member_step(a).result is Ok,
    ensures
        ({
            let s2 = s.add_member_step(a).result->Ok_0.0;
            &&& s2.add_member_step(a).result is Ok
            &&& s2.add_member_step(a).result->Ok_0.0 == s2
        }),
{
    let s2 = s.add_member_step(a).result->Ok_0.0;
    if !s.is_member(a) {
        assert(s2.accounts[s.accounts.len() as int] == a);
    }
}

/// Removing a member who has just been added, outside a payout and before
/// the cycle's member count is frozen, gives back the group as it was, with
/// nothing to refund.
pub proof fn remove_undoes_add(s: ContractView, a: Seq<u8>)
    requires
        s.wf(),
        !s.is_member(a),
        !s.is_executing_payout,
        s.cycle_member_count is None,
        s.add_member_step(a).result is Ok,
    ensures
        ({
            let s2 = s.add_member_step(a).result->Ok_0.0;
            &&& s2.remove_member_step(a).result is Ok
            &&& s2.remove_member_step(a).result->Ok_0 == (s, EffectsView {
                transfer: None,
                event: Some(EventView::MemberRemoved(a)),
            })
        }),
{
    let s2 = s.add_member_step(a).result->Ok_0.0;
    let n = s.accounts.len() as int;
    assert(s2.accounts[n] == a);
    assert forall|i: int, j: int| 0 <= i < s2.accounts.len() && 0 <= j < s2.accounts.len() && i
        != j implies s2.accounts[i] != s2.accounts[j] by {
        if i == n {
            assert(s.accounts.contains(s.accounts[j]));
        } else if j == n {
            assert(s.accounts.contains(s.accounts[i]));
        }
    }
    lemma_index_of_distinct(s2.accounts, n);
    assert(s2.accounts.remove(n) =~= s.accounts);
    assert(s2.states.remove(n) =~= s.states);
    assert(s2.refunded_in.remove(n) =~= s.refunded_in);
    assert(s2.member_index(a) == n);
    assert(s2.states[n].last_contribution_cycle_id != s2.current_cycle_id);
    let s3 = s2.remove_member_step(a).result->Ok_0.0;
    assert(s3 =~= s);
}

/// A withdrawal never takes more than the member's savings, and leaves the
/// rest of them in place.
pub proof fn withdrawal_within_savings(s: ContractView, member: Seq<u8>, amount: i128)
    requires
        s.wf(),
        s.withdraw_savings_step(member, amount).result is Ok,
    ensures
        0 < amount <= s.state_of(member).total_contributions,
        ({
            let s2 = s.withdraw_savings_step(member, amount).result->Ok_0.0;
            s2.state_of(member).total_contributions == s.state_of(member).total_contributions
                - amount
        }),
{
    let i = s.member_index(member);
    let s2 = s.withdraw_savings_step(member, amount).result->Ok_0.0;
    lemma_index_of_distinct(s.accounts, i);
}

/// An emergency withdrawal gives back what the member paid in during the
/// current cycle and has not withdrawn, takes it off their total, and takes
/// them out of the cycle, so that the pool shrinks by one member.
pub proof fn emergency_refund_is_the_current_contribution(s: ContractView, member: Seq<u8>)
    requires
        s.wf(),
        s.emergency_withdraw_step(member).result is Ok,
    ensures
        ({
            let before = s.state_of(member);
            let (s2, e) = s.emergency_withdraw_step(member).result->Ok_0;
            let after = s2.state_of(member);
            &&& before.last_contribution_cycle_id == s.current_cycle_id
            &&& before.current_cycle_contribution > 0
            &&& e.transfer == pay_out_to(member, before.current_cycle_contribution)
            &&& after.total_contributions == before.total_contributions
                - before.current_cycle_contribution
            &&& after.current_cycle_contribution == 0
            &&& after.last_contribution_cycle_id != s2.current_cycle_id
            &&& s2.cycle_member_count == crate::contract::count_without_one(s.cycle_member_count)
        }),
{
    lemma_index_of_distinct(s.accounts, s.member_index(member));
}

/// Resetting the rotation makes its first member the next to be paid.
pub proof fn reset_rotation_restarts_the_queue(s: ContractView)
    requires
        s.wf(),
        s.reset_rotation_step().result is Ok,
    ensures
        ({
            let s2 = s.reset_rotation_step().result->Ok_0.0;
            &&& s2.accounts == s.accounts
            &&& s.accounts.len() > 0 ==> s2.next_recipient() == Ok::<Seq<u8>, GroupError>(
                s.accounts[0],
            )
            &&& s.accounts.len() == 0 ==> s2.next_recipient() == Err::<Seq<u8>, GroupError>(
                GroupError::NoNextRecipient,
            )
        }),
{
}

/// Nobody gets back more than they have saved: savings never go negative,
/// and a withdrawal, an emergency refund or a removal refund pays a member
/// at most their savings, taking it off them.
pub proof fn refunds_within_savings(s: ContractView, member: Seq<u8>, amount: i128)
    requires
        s.wf(),
    ensures
        forall|i: int| 0 <= i < s.states.len() ==> 0 <= #[trigger] s.states[i].total_contributions,
        s.withdraw_savings_step(member, amount).result matches Ok((t, e)) ==> {
            &&& e.transfer == pay_out_to(member, amount)
            &&& amount <= s.state_of(member).total_contributions
            &&& t.state_of(member).total_contributions == s.state_of(member).total_contributions
                - amount
        },
        s.emergency_withdraw_step(member).result matches Ok((t, e)) ==> {
            &&& e.transfer == pay_out_to(member, s.state_of(member).current_cycle_contribution)
            &&& s.state_of(member).current_cycle_contribution <= s.state_of(
                member,
            ).total_contributions
            &&& t.state_of(member).total_contributions == s.state_of(member).total_contributions
                - s.state_of(member).current_cycle_contribution
        },
        s.remove_member_step(member).result matches Ok((t, e)) ==> {
            &&& !t.is_member(member)
            &&& (e.transfer is Some ==> e.transfer == pay_out_to(
                member,
                s.state_of(member).current_cycle_contribution,
            ) && s.state_of(member).current_cycle_contribution <= s.state_of(
                member,
            ).total_contributions)
        },
{
    assert forall|i: int| 0 <= i < s.states.len() implies 0 <= #[trigger] s.states[
        i
    ].total_contributions by {
        assert(0 <= s.states[i].current_cycle_contribution <= s.states[i].total_contributions);
    }
    if s.is_member(member) {
        let i = s.member_index(member);
        lemma_member_at(s, i);
        assert(0 <= s.states[i].current_cycle_contribution <= s.states[i].total_contributions);
        if s.withdraw_savings_step(member, amount).result is Ok {
            let t = s.withdraw_savings_step(member, amount).result->Ok_0.0;
            lemma_withdraw_savings_keeps_wf(s, member, amount);
            lemma_member_at(t, i);
        }
        if s.emergency_withdraw_step(member).result is Ok {
            let t = s.emergency_withdraw_step(member).result->Ok_0.0;
            lemma_emergency_withdraw_keeps_wf(s, member);
            lemma_member_at(t, i);
        }
        if s.remove_member_step(member).result is Ok {
            let t = s.remove_member_step(member).result->Ok_0.0;
            lemma_remove_keeps_distinct(s.accounts, i);
            assert forall|x: int| 0 <= x < t.accounts.len() implies t.accounts[x] != member by {}
        }
    }
}

/// In the basic group, payouts go only to members, and a member's recorded
/// contributions grow by exactly what they pay in.
pub proof fn basic_group_flows(
    s: BasicView,
    member: Seq<u8>,
    amount: i128,
    recipient: Seq<u8>,
    payout: i128,
    balance: i128,
)
    requires
        s.wf(),
    ensures
        s.payout_step(recipient, payout, balance).result is Ok ==> s.is_member(recipient),
        s.contribute_step(member, amount).result is Ok ==> s.contribute_step(
            member,
            amount,
        ).result->Ok_0.0.contribution_of(member) == s.contribution_of(member) + amount,
{
    if s.contribute_step(member, amount).result is Ok {
        let i = s.accounts.index_of(member);
        lemma_index_of_distinct(s.accounts, i);
    }
}

} // verus!
