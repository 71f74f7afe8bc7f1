//! The rotational / goal-based savings group: its ledger state, the rules of
//! each entry point, and the decisions they take.
use vstd::prelude::*;
use crate::account::{distinct_accounts, lemma_index_of_distinct, Account};
use crate::effects::{
    auth_of, pay_in_from, pay_out_to, AuthRequest, AuthScope, AuthScopeView, AuthView, Effects,
    EffectsView, Event, EventView, Outcome, OutcomeView, Party, Transfer,
};
use crate::error::GroupError;
use crate::well_formed::{
    lemma_add_member_keeps_wf, lemma_admin_switches_keep_wf, lemma_contribute_keeps_wf,
    lemma_emergency_withdraw_keeps_wf, lemma_initialize_keeps_wf, lemma_payout_keeps_wf,
    lemma_remove_member_keeps_wf, lemma_reset_cycle_keeps_wf, lemma_withdraw_savings_keeps_wf,
};
use crate::ttl::{rotation_life, rotation_ttl, TtlExtension, LEDGERS_PER_DAY, LEDGERS_TO_LIVE};

verus! {

/// The largest fixed contribution a group may ask for.
pub const MAX_CONTRIBUTION: i128 = 1_000_000_000_000_000;

/// The cycle length, in days, of a group that names none.
pub const DEFAULT_CYCLE_DAYS: u32 = 30;

/// How a group saves: rotational groups pay the whole pool to one member per
/// cycle; goal-based groups let each member withdraw their own savings.
#[derive(Clone, Copy, PartialEq, Eq, Structural, Debug)]
pub enum GroupType {
    Rotational,
    GoalBased,
}

/// The savings record of one member.
#[derive(Clone, Copy, PartialEq, Eq, Structural, Debug)]
pub struct MemberState {
    pub total_contributions: i128,
    pub last_contribution_cycle_id: u32,
    pub has_received_payout: bool,
    pub current_cycle_contribution: i128,
}

/// A platform user and the groups they have joined.
pub struct User {
    pub wallet_address: Account,
    pub joined_groups: Vec<u32>,
}

/// The record of a member who has just joined.
pub open spec fn fresh_state() -> MemberState {
    MemberState {
        total_contributions: 0,
        last_contribution_cycle_id: 0,
        has_received_payout: false,
        current_cycle_contribution: 0,
    }
}

/// The settings fixed when the group is initialized.
pub struct GroupConfig {
    pub admin: Account,
    pub token: Account,
    pub name: Vec<u8>,
    pub contribution_amount: i128,
    pub group_type: GroupType,
    pub target_amount: Option<i128>,
    pub lock_until_target: bool,
    pub cycle_length_ledgers: u32,
}

pub struct ConfigView {
    pub admin: Seq<u8>,
    pub token: Seq<u8>,
    pub name: Seq<u8>,
    pub contribution_amount: i128,
    pub group_type: GroupType,
    pub target_amount: Option<i128>,
    pub lock_until_target: bool,
    pub cycle_length_ledgers: u32,
}

impl View for GroupConfig {
    type V = ConfigView;

    open spec fn view(&self) -> ConfigView {
        ConfigView {
            admin: self.admin@,
            token: self.token@,
            name: self.name@,
            contribution_amount: self.contribution_amount,
            group_type: self.group_type,
            target_amount: self.target_amount,
            lock_until_target: self.lock_until_target,
            cycle_length_ledgers: self.cycle_length_ledgers,
        }
    }
}

/// The mathematical state of a group: its settings (none before it is
/// initialized), its members in rotation order with their savings records
/// and the cycle in which each last took an emergency refund (0 for never),
/// and its cycle counters and flags. In a rotational group the cycle's member
/// count is frozen at the cycle's first contribution.
#[verifier::ext_equal]
pub struct ContractView {
    pub config: Option<ConfigView>,
    pub accounts: Seq<Seq<u8>>,
    pub states: Seq<MemberState>,
    pub refunded_in: Seq<u32>,
    pub next_payout_index: u32,
    pub cycle_member_count: Option<i128>,
    pub current_cycle_id: u32,
    pub is_executing_payout: bool,
    pub is_paused: bool,
}

/// What a step of the group does: the authorization it demands (none when
/// it refuses before asking for one), and either the state it leads to with
/// the ledger effects it leaves, or the reason it refuses.
pub struct Step {
    pub auth: Option<AuthView>,
    pub result: Result<(ContractView, EffectsView), GroupError>,
}

pub open spec fn refuse(e: GroupError) -> Step {
    Step { auth: None, result: Err(e) }
}

pub open spec fn refuse_after(auth: Option<AuthView>, e: GroupError) -> Step {
    Step { auth, result: Err(e) }
}

pub open spec fn accept(auth: Option<AuthView>, s: ContractView, e: EffectsView) -> Step {
    Step { auth, result: Ok((s, e)) }
}

/// Effects made of one event and no transfer.
pub open spec fn announce(e: EventView) -> EffectsView {
    EffectsView { transfer: None, event: Some(e) }
}

/// The cycle's member count after a payment into a rotational group: the
/// first payment of the cycle freezes it at the number of members, and a
/// member who took an emergency refund in this cycle and pays again counts
/// again.
pub open spec fn count_after_payment(count: Option<i128>, members: nat, rejoining: bool) -> Option<
    i128,
> {
    match count {
        None => Some(members as i128),
        Some(n) => if rejoining {
            Some((n + 1) as i128)
        } else {
            Some(n)
        },
    }
}

/// The cycle's member count after one member leaves the cycle.
pub open spec fn count_without_one(count: Option<i128>) -> Option<i128> {
    match count {
        Some(c) => if c <= 1 { None } else { Some((c - 1) as i128) },
        None => None,
    }
}

impl ContractView {
    /// The invariant of every reachable group.
    pub open spec fn wf(self) -> bool {
        &&& self.accounts.len() == self.states.len()
        &&& self.refunded_in.len() == self.states.len()
        &&& self.accounts.len() <= u32::MAX
        &&& forall|i: int|
            0 <= i < self.refunded_in.len() ==> #[trigger] self.refunded_in[i]
                <= self.current_cycle_id
        &&& self.accounts.no_duplicates()
        &&& self.next_payout_index <= self.accounts.len()
        &&& forall|i: int|
            0 <= i < self.states.len() ==> #[trigger] self.states[i].last_contribution_cycle_id
                <= self.current_cycle_id
        &&& forall|i: int|
            0 <= i < self.states.len() ==> 0 <= #[trigger] self.states[i].current_cycle_contribution
                <= self.states[i].total_contributions
        &&& (self.config matches Some(c) ==> {
            &&& self.current_cycle_id >= 1
            &&& 0 < c.contribution_amount <= MAX_CONTRIBUTION
            &&& (self.cycle_member_count matches Some(n) ==> n >= 1)
            &&& (c.group_type == GroupType::GoalBased ==> self.cycle_member_count is None)
        })
        &&& (self.config is None ==> {
            &&& self.accounts.len() == 0
            &&& self.next_payout_index == 0
            &&& self.cycle_member_count is None
            &&& !self.is_executing_payout
            &&& !self.is_paused
        })
    }

    pub open spec fn is_member(self, a: Seq<u8>) -> bool {
        self.accounts.contains(a)
    }

    /// The position of a member in the rotation.
    pub open spec fn member_index(self, a: Seq<u8>) -> int {
        self.accounts.index_of(a)
    }

    /// The savings record of `a`; a fresh one for an account that is no member.
    pub open spec fn state_of(self, a: Seq<u8>) -> MemberState {
        if self.is_member(a) {
            self.states[self.member_index(a)]
        } else {
            fresh_state()
        }
    }

    /// Whether `out` and `post` are what `step` says, from the state `self`:
    /// a refusal leaves the state unchanged.
    pub open spec fn realizes(
        self,
        post: ContractView,
        out: OutcomeView<EffectsView, GroupError>,
        step: Step,
    ) -> bool {
        &&& out.auth == step.auth
        &&& match step.result {
            Ok((s2, e)) => post == s2 && out.result == Ok::<EffectsView, GroupError>(e),
            Err(err) => post == self && out.result == Err::<EffectsView, GroupError>(err),
        }
    }
}

impl ContractView {
    /// Setting the group up, once.
    pub open spec fn initialize_step(
        self,
        admin: Seq<u8>,
        token: Seq<u8>,
        name: Seq<u8>,
        contribution_amount: i128,
        group_type: GroupType,
        target_amount: Option<i128>,
        lock_until_target: bool,
        expected_cycle_days: Option<u32>,
    ) -> Step {
        if self.config is Some {
            refuse(GroupError::AlreadyInitialized)
        } else if contribution_amount <= 0 {
            refuse(GroupError::ContributionNotPositive)
        } else if contribution_amount > MAX_CONTRIBUTION {
            refuse(GroupError::ContributionTooLarge)
        } else {
            let auth = None;
            let days: u32 = match expected_cycle_days {
                Some(d) => d,
                None => DEFAULT_CYCLE_DAYS,
            };
            if days * LEDGERS_PER_DAY > u32::MAX {
                refuse_after(auth, GroupError::CycleLengthOverflow)
            } else {
                let config = ConfigView {
                    admin,
                    token,
                    name,
                    contribution_amount,
                    group_type,
                    target_amount,
                    lock_until_target,
                    cycle_length_ledgers: (days * LEDGERS_PER_DAY) as u32,
                };
                accept(
                    auth,
                    ContractView {
                        config: Some(config),
                        accounts: Seq::empty(),
                        states: Seq::empty(),
                        refunded_in: Seq::empty(),
                        next_payout_index: 0,
                        cycle_member_count: None,
                        current_cycle_id: 1,
                        is_executing_payout: false,
                        is_paused: self.is_paused,
                    },
                    announce(EventView::Initialized { admin, token, name, contribution_amount }),
                )
            }
        }
    }

    /// Admitting `new_member` at the end of the rotation; a no-op for a member.
    pub open spec fn add_member_step(self, new_member: Seq<u8>) -> Step {
        if self.is_paused {
            refuse(GroupError::ContractPaused)
        } else if self.config is None {
            refuse(GroupError::NotInitialized)
        } else {
            let auth = auth_of(self.config->Some_0.admin, AuthScopeView::Account(new_member));
            if self.is_member(new_member) {
                accept(auth, self, EffectsView { transfer: None, event: None })
            } else if self.accounts.len() >= u32::MAX {
                refuse_after(auth, GroupError::TooManyMembers)
            } else {
                accept(
                    auth,
                    ContractView {
                        accounts: self.accounts.push(new_member),
                        states: self.states.push(fresh_state()),
                        refunded_in: self.refunded_in.push(0),
                        ..self
                    },
                    announce(EventView::MemberAdded(new_member)),
                )
            }
        }
    }

    /// Removing a member whose payout turn has not come yet, refunding what
    /// they paid in during the current cycle and still have saved; the cycle's
    /// member count loses one.
    pub open spec fn remove_member_step(self, member: Seq<u8>) -> Step {
        if self.is_executing_payout {
            refuse(GroupError::ReentrancyDetected)
        } else if self.is_paused {
            refuse(GroupError::ContractPaused)
        } else if self.config is None {
            refuse(GroupError::NotInitialized)
        } else {
            let c = self.config->Some_0;
            let auth = auth_of(c.admin, AuthScopeView::Account(member));
            if !self.is_member(member) {
                refuse_after(auth, GroupError::NotAMember)
            } else {
                let i = self.member_index(member);
                if i < self.next_payout_index {
                    refuse_after(auth, GroupError::PayoutTurnPassed)
                } else {
                    let st = self.states[i];
                    let contributed = st.last_contribution_cycle_id == self.current_cycle_id;
                    accept(
                        auth,
                        ContractView {
                            accounts: self.accounts.remove(i),
                            states: self.states.remove(i),
                            refunded_in: self.refunded_in.remove(i),
                            cycle_member_count: count_without_one(self.cycle_member_count),
                            ..self
                        },
                        EffectsView {
                            transfer: if contributed && st.current_cycle_contribution > 0 {
                                pay_out_to(member, st.current_cycle_contribution)
                            } else {
                                None
                            },
                            event: Some(EventView::MemberRemoved(member)),
                        },
                    )
                }
            }
        }
    }

    /// Paying `amount` into the pool for the current cycle.
    pub open spec fn contribute_step(self, member: Seq<u8>, amount: i128) -> Step {
        if self.is_executing_payout {
            refuse(GroupError::ReentrancyDetected)
        } else if self.is_paused {
            refuse(GroupError::ContractPaused)
        } else {
            let auth = auth_of(member, AuthScopeView::Invocation);
            match self.config {
                None => refuse_after(auth, GroupError::NotInitialized),
                Some(c) => {
                    let rotational = c.group_type == GroupType::Rotational;
                    if rotational && amount != c.contribution_amount {
                        refuse_after(auth, GroupError::WrongContributionAmount)
                    } else if amount <= 0 {
                        refuse_after(auth, GroupError::AmountNotPositive)
                    } else if !self.is_member(member) {
                        refuse_after(auth, GroupError::NotAMember)
                    } else {
                        let i = self.member_index(member);
                        let st = self.states[i];
                        if st.last_contribution_cycle_id == self.current_cycle_id {
                            refuse_after(auth, GroupError::AlreadyContributed)
                        } else if st.total_contributions + amount > i128::MAX {
                            refuse_after(auth, GroupError::ContributionOverflow)
                        } else if rotational && self.refunded_in[i] == self.current_cycle_id
                            && self.cycle_member_count == Some(i128::MAX) {
                            refuse_after(auth, GroupError::MemberCountOverflow)
                        } else {
                            let new_state = MemberState {
                                total_contributions: (st.total_contributions + amount) as i128,
                                last_contribution_cycle_id: self.current_cycle_id,
                                has_received_payout: st.has_received_payout,
                                current_cycle_contribution: amount,
                            };
                            accept(
                                auth,
                                ContractView {
                                    states: self.states.update(i, new_state),
                                    refunded_in: self.refunded_in.update(i, 0),
                                    cycle_member_count: if rotational {
                                        count_after_payment(
                                            self.cycle_member_count,
                                            self.accounts.len(),
                                            self.refunded_in[i] == self.current_cycle_id,
                                        )
                                    } else {
                                        self.cycle_member_count
                                    },
                                    ..self
                                },
                                EffectsView {
                                    transfer: pay_in_from(member, amount),
                                    event: Some(EventView::Contributed(member, amount)),
                                },
                            )
                        }
                    }
                },
            }
        }
    }

    /// Paying the whole pool, `contribution_amount` times the cycle's member
    /// count, to the member whose turn it is; `contract_balance` is what the
    /// contract holds of the token. The reentrancy guard stays set until the
    /// transfer is done.
    pub open spec fn payout_step(self, expected_recipient: Seq<u8>, contract_balance: i128) -> Step {
        if self.is_executing_payout {
            refuse(GroupError::ReentrancyDetected)
        } else if self.is_paused {
            refuse(GroupError::ContractPaused)
        } else {
            match self.config {
                None => refuse(GroupError::NotInitialized),
                Some(c) => if c.group_type == GroupType::GoalBased {
                    refuse(GroupError::GoalBasedPayout)
                } else {
                    let auth = auth_of(c.admin, AuthScopeView::Account(expected_recipient));
                    let next = self.next_payout_index as int;
                    if next >= self.accounts.len() {
                        refuse_after(auth, GroupError::AllPaidOut)
                    } else if self.accounts[next] != expected_recipient {
                        refuse_after(auth, GroupError::RecipientMismatch)
                    } else {
                        match self.cycle_member_count {
                            None => refuse_after(auth, GroupError::NoActiveCycle),
                            Some(count) => {
                                let pool = c.contribution_amount * count;
                                if pool > i128::MAX || pool < i128::MIN {
                                    refuse_after(auth, GroupError::PoolOverflow)
                                } else if pool > contract_balance {
                                    refuse_after(auth, GroupError::InsufficientPoolFunds)
                                } else {
                                    let st = self.states[next];
                                    accept(
                                        auth,
                                        ContractView {
                                            next_payout_index: (next + 1) as u32,
                                            states: self.states.update(
                                                next,
                                                MemberState { has_received_payout: true, ..st },
                                            ),
                                            is_executing_payout: true,
                                            ..self
                                        },
                                        EffectsView {
                                            transfer: pay_out_to(expected_recipient, pool as i128),
                                            event: Some(
                                                EventView::PaidOut(expected_recipient, pool as i128),
                                            ),
                                        },
                                    )
                                }
                            },
                        }
                    }
                },
            }
        }
    }
}

impl ContractView {
    /// Taking `amount` out of one's own savings in a goal-based group. What
    /// can still be reclaimed of the current cycle's contribution never
    /// exceeds the savings left.
    pub open spec fn withdraw_savings_step(self, member: Seq<u8>, amount: i128) -> Step {
        if self.is_executing_payout {
            refuse(GroupError::ReentrancyDetected)
        } else if self.is_paused {
            refuse(GroupError::ContractPaused)
        } else {
            let auth = auth_of(member, AuthScopeView::Invocation);
            match self.config {
                None => refuse_after(auth, GroupError::NotInitialized),
                Some(c) => {
                    let st = self.state_of(member);
                    if c.group_type == GroupType::Rotational {
                        refuse_after(auth, GroupError::RotationalWithdrawal)
                    } else if amount <= 0 {
                        refuse_after(auth, GroupError::WithdrawalNotPositive)
                    } else if st.total_contributions < amount {
                        refuse_after(auth, GroupError::InsufficientSavings)
                    } else if c.lock_until_target && (c.target_amount matches Some(t)
                        && st.total_contributions < t) {
                        refuse_after(auth, GroupError::TargetNotReached)
                    } else {
                        let rest = (st.total_contributions - amount) as i128;
                        let new_state = MemberState {
                            total_contributions: rest,
                            current_cycle_contribution: if st.current_cycle_contribution <= rest {
                                st.current_cycle_contribution
                            } else {
                                rest
                            },
                            ..st
                        };
                        accept(
                            auth,
                            ContractView {
                                states: self.states.update(self.member_index(member), new_state),
                                ..self
                            },
                            EffectsView {
                                transfer: pay_out_to(member, amount),
                                event: Some(EventView::Withdrawn(member, amount)),
                            },
                        )
                    }
                },
            }
        }
    }

    /// Reclaiming, while the group is paused, what one paid in during the
    /// current cycle and has not withdrawn since; the member then counts as
    /// not having paid in, and leaves the cycle's member count until they pay
    /// again.
    pub open spec fn emergency_withdraw_step(self, member: Seq<u8>) -> Step {
        let auth = auth_of(member, AuthScopeView::Invocation);
        if !self.is_paused {
            refuse_after(auth, GroupError::NotPaused)
        } else if self.config is None {
            refuse_after(auth, GroupError::NotInitialized)
        } else if !self.is_member(member) {
            refuse_after(auth, GroupError::NotAMember)
        } else {
            let i = self.member_index(member);
            let st = self.states[i];
            if st.last_contribution_cycle_id != self.current_cycle_id
                || st.current_cycle_contribution <= 0 {
                refuse_after(auth, GroupError::NoContributionThisCycle)
            } else {
                let amount = st.current_cycle_contribution;
                let new_state = MemberState {
                    total_contributions: (st.total_contributions - amount) as i128,
                    last_contribution_cycle_id: 0,
                    has_received_payout: st.has_received_payout,
                    current_cycle_contribution: 0,
                };
                accept(
                    auth,
                    ContractView {
                        states: self.states.update(i, new_state),
                        refunded_in: self.refunded_in.update(i, self.current_cycle_id),
                        cycle_member_count: count_without_one(self.cycle_member_count),
                        ..self
                    },
                    EffectsView {
                        transfer: pay_out_to(member, amount),
                        event: Some(EventView::EmergencyWithdrawn(member, amount)),
                    },
                )
            }
        }
    }

    /// Pausing the group (admin only).
    pub open spec fn pause_step(self) -> Step {
        if self.is_paused {
            refuse(GroupError::ContractPaused)
        } else if self.config is None {
            refuse(GroupError::NotInitialized)
        } else {
            accept(
                auth_of(self.config->Some_0.admin, AuthScopeView::Invocation),
                ContractView { is_paused: true, ..self },
                announce(EventView::Paused),
            )
        }
    }

    /// Lifting the pause (admin only).
    pub open spec fn unpause_step(self) -> Step {
        if self.config is None {
            refuse(GroupError::NotInitialized)
        } else {
            accept(
                auth_of(self.config->Some_0.admin, AuthScopeView::Invocation),
                ContractView { is_paused: false, ..self },
                announce(EventView::Unpaused),
            )
        }
    }

    /// Starting a new contribution cycle (admin only): every member may
    /// contribute again, and a rotational group's member count thaws.
    pub open spec fn reset_cycle_step(self) -> Step {
        if self.is_executing_payout {
            refuse(GroupError::ReentrancyDetected)
        } else if self.is_paused {
            refuse(GroupError::ContractPaused)
        } else if self.config is None {
            refuse(GroupError::NotInitialized)
        } else {
            let c = self.config->Some_0;
            let auth = auth_of(c.admin, AuthScopeView::Nothing);
            if self.current_cycle_id == u32::MAX {
                refuse_after(auth, GroupError::CycleIdOverflow)
            } else {
                accept(
                    auth,
                    ContractView {
                        current_cycle_id: (self.current_cycle_id + 1) as u32,
                        cycle_member_count: if c.group_type == GroupType::Rotational {
                            None
                        } else {
                            self.cycle_member_count
                        },
                        ..self
                    },
                    announce(EventView::CycleReset),
                )
            }
        }
    }

    /// Starting the rotation again from its first member (admin only).
    pub open spec fn reset_rotation_step(self) -> Step {
        if self.is_executing_payout {
            refuse(GroupError::ReentrancyDetected)
        } else if self.config is None {
            refuse(GroupError::NotInitialized)
        } else {
            accept(
                auth_of(self.config->Some_0.admin, AuthScopeView::Nothing),
                ContractView { next_payout_index: 0, ..self },
                announce(EventView::RotationReset),
            )
        }
    }

    /// The member whose payout turn it is.
    pub open spec fn next_recipient(self) -> Result<Seq<u8>, GroupError> {
        if self.config is None {
            Err(GroupError::NotInitialized)
        } else if self.next_payout_index >= self.accounts.len() {
            Err(GroupError::NoNextRecipient)
        } else {
            Ok(self.accounts[self.next_payout_index as int])
        }
    }

    /// Whether `member` has been paid in the current rotation.
    pub open spec fn payout_received(self, member: Seq<u8>) -> Result<bool, GroupError> {
        if self.config is None {
            Err(GroupError::NotInitialized)
        } else {
            Ok(self.is_member(member) && self.member_index(member) < self.next_payout_index)
        }
    }
}

/// The ledger state of one savings group.
pub struct KoloSavingsContract {
    config: Option<GroupConfig>,
    accounts: Vec<Account>,
    states: Vec<MemberState>,
    refunded_in: Vec<u32>,
    next_payout_index: u32,
    cycle_member_count: Option<i128>,
    current_cycle_id: u32,
    is_executing_payout: bool,
    is_paused: bool,
}

impl KoloSavingsContract {
    pub closed spec fn abstract_state(&self) -> ContractView {
        ContractView {
            config: match self.config {
                Some(c) => Some(c@),
                None => None,
            },
            accounts: self.accounts@.map_values(|a: Account| a@),
            states: self.states@,
            refunded_in: self.refunded_in@,
            next_payout_index: self.next_payout_index,
            cycle_member_count: self.cycle_member_count,
            current_cycle_id: self.current_cycle_id,
            is_executing_payout: self.is_executing_payout,
            is_paused: self.is_paused,
        }
    }
}

impl View for KoloSavingsContract {
    type V = ContractView;

    open spec fn view(&self) -> ContractView {
        self.abstract_state()
    }
}

pub proof fn lemma_remove_keeps_distinct(s: Seq<Seq<u8>>, i: int)
    requires
        s.no_duplicates(),
        0 <= i < s.len(),
    ensures
        s.remove(i).no_duplicates(),
        forall|k: int| 0 <= k < s.remove(i).len() ==> s.remove(i)[k] != s[i],
{
    let r = s.remove(i);
    assert forall|a: int, b: int| 0 <= a < r.len() && 0 <= b < r.len() && a != b implies r[a]
        != r[b] by {
        let a2 = if a < i { a } else { a + 1 };
        let b2 = if b < i { b } else { b + 1 };
        assert(r[a] == s[a2] && r[b] == s[b2]);
    }
    assert forall|k: int| 0 <= k < r.len() implies r[k] != s[i] by {
        let k2 = if k < i { k } else { k + 1 };
        assert(r[k] == s[k2]);
    }
}

/// The cycle's member count after one paid-in member leaves the cycle.
fn count_decremented(count: Option<i128>) -> (r: Option<i128>)
    ensures
        r == count_without_one(count),
{
    match count {
        Some(c) => if c <= 1 {
            None
        } else {
            Some(c - 1)
        },
        None => None,
    }
}

impl KoloSavingsContract {
    /// The empty ledger of a group that is not initialized yet.
    pub fn new() -> (r: KoloSavingsContract)
        ensures
            r@.wf(),
            r@.config is None,
            r@.accounts.len() == 0,
            r@.current_cycle_id == 0,
    {
        let r = KoloSavingsContract {
            config: None,
            accounts: Vec::new(),
            states: Vec::new(),
            refunded_in: Vec::new(),
            next_payout_index: 0,
            cycle_member_count: None,
            current_cycle_id: 0,
            is_executing_payout: false,
            is_paused: false,
        };
        assert(r@.accounts =~= Seq::<Seq<u8>>::empty());
        r
    }

    fn find(&self, a: &Account) -> (r: Option<usize>)
        requires
            self@.wf(),
        ensures
            match r {
                Some(i) => {
                    &&& i < self@.accounts.len()
                    &&& self@.is_member(a@)
                    &&& self@.member_index(a@) == i
                },
                None => !self@.is_member(a@),
            },
    {
        let n = self.accounts.len();
        let mut i: usize = 0;
        while i < n
            invariant
                n == self.accounts@.len(),
                self@.wf(),
                i <= n,
                forall|j: int| 0 <= j < i ==> self@.accounts[j] != a@,
            decreases n - i,
        {
            if self.accounts[i].same_as(a) {
                proof {
                    assert(self@.accounts[i as int] == self.accounts@[i as int]@);
                    lemma_index_of_distinct(self@.accounts, i as int);
                }
                return Some(i);
            }
            assert(self@.accounts[i as int] == self.accounts@[i as int]@);
            i = i + 1;
        }
        None
    }

    /// Initializes the group with its admin, token, name and contribution
    /// rules; a group is initialized once, and needs no authorization.
    pub fn initialize(
        &mut self,
        admin: Account,
        token: Account,
        name: Vec<u8>,
        contribution_amount: i128,
        group_type: GroupType,
        target_amount: Option<i128>,
        lock_until_target: bool,
        expected_cycle_days: Option<u32>,
    ) -> (out: Outcome<Effects, GroupError>)
        requires
            old(self)@.wf(),
        ensures
            final(self)@.wf(),
            old(self)@.realizes(
                final(self)@,
                out@,
                old(self)@.initialize_step(
                    admin@,
                    token@,
                    name@,
                    contribution_amount,
                    group_type,
                    target_amount,
                    lock_until_target,
                    expected_cycle_days,
                ),
            ),
    {
        if self.config.is_some() {
            return Outcome { auth: None, result: Err(GroupError::AlreadyInitialized) };
        }
        if contribution_amount <= 0 {
            return Outcome { auth: None, result: Err(GroupError::ContributionNotPositive) };
        }
        if contribution_amount > MAX_CONTRIBUTION {
            return Outcome { auth: None, result: Err(GroupError::ContributionTooLarge) };
        }
        let auth: Option<AuthRequest> = None;
        let days: u32 = match expected_cycle_days {
            Some(d) => d,
            None => DEFAULT_CYCLE_DAYS,
        };
        let cycle_length_ledgers: u32 = match days.checked_mul(LEDGERS_PER_DAY) {
            Some(c) => c,
            None => {
                return Outcome { auth, result: Err(GroupError::CycleLengthOverflow) };
            },
        };
        let ghost pre = self@;
        let event = Event::Initialized {
            admin: admin.duplicate(),
            token: token.duplicate(),
            name: name.clone(),
            contribution_amount,
        };
        self.config = Some(
            GroupConfig {
                admin,
                token,
                name,
                contribution_amount,
                group_type,
                target_amount,
                lock_until_target,
                cycle_length_ledgers,
            },
        );
        self.next_payout_index = 0;
        self.cycle_member_count = None;
        self.current_cycle_id = 1;
        self.is_executing_payout = false;
        assert(self@.accounts =~= Seq::<Seq<u8>>::empty());
        assert(self@.states =~= Seq::<MemberState>::empty());
        assert(self@.refunded_in =~= Seq::<u32>::empty());
        proof {
            lemma_initialize_keeps_wf(
                pre,
                self@.config->Some_0.admin,
                self@.config->Some_0.token,
                self@.config->Some_0.name,
                contribution_amount,
                group_type,
                target_amount,
                lock_until_target,
                expected_cycle_days,
            );
        }
        Outcome { auth, result: Ok(Effects { transfer: None, event: Some(event) }) }
    }

    /// Adds `new_member` at the end of the rotation (admin only); adding a
    /// member again changes nothing.
    pub fn add_member(&mut self, new_member: Account) -> (out: Outcome<Effects, GroupError>)
        requires
            old(self)@.wf(),
        ensures
            final(self)@.wf(),
            old(self)@.realizes(final(self)@, out@, old(self)@.add_member_step(new_member@)),
    {
        if self.is_paused {
            return Outcome { auth: None, result: Err(GroupError::ContractPaused) };
        }
        let admin = match &self.config {
            Some(c) => c.admin.duplicate(),
            None => {
                return Outcome { auth: None, result: Err(GroupError::NotInitialized) };
            },
        };
        let auth = Some(
            AuthRequest { signer: admin, scope: AuthScope::Account(new_member.duplicate()) },
        );
        match self.find(&new_member) {
            Some(_) => Outcome { auth, result: Ok(Effects { transfer: None, event: None }) },
            None => {
                if self.accounts.len() >= u32::MAX as usize {
                    return Outcome { auth, result: Err(GroupError::TooManyMembers) };
                }
                let ghost pre = self@;
                let event = Event::MemberAdded(new_member.duplicate());
                self.accounts.push(new_member);
                self.states.push(
                    MemberState {
                        total_contributions: 0,
                        last_contribution_cycle_id: 0,
                        has_received_payout: false,
                        current_cycle_contribution: 0,
                    },
                );
                self.refunded_in.push(0);
                proof {
                    assert(self@.accounts =~= pre.accounts.push(new_member@));
                    lemma_add_member_keeps_wf(pre, new_member@);
                }
                Outcome { auth, result: Ok(Effects { transfer: None, event: Some(event) }) }
            },
        }
    }

    /// Removes a member whose payout turn has not come yet (admin only),
    /// refunding what they paid in during the current cycle and still have
    /// saved.
    pub fn remove_member(&mut self, member: Account) -> (out: Outcome<Effects, GroupError>)
        requires
            old(self)@.wf(),
        ensures
            final(self)@.wf(),
            old(self)@.realizes(final(self)@, out@, old(self)@.remove_member_step(member@)),
    {
        if self.is_executing_payout {
            return Outcome { auth: None, result: Err(GroupError::ReentrancyDetected) };
        }
        if self.is_paused {
            return Outcome { auth: None, result: Err(GroupError::ContractPaused) };
        }
        let admin = match &self.config {
            Some(c) => c.admin.duplicate(),
            None => {
                return Outcome { auth: None, result: Err(GroupError::NotInitialized) };
            },
        };
        let auth = Some(AuthRequest { signer: admin, scope: AuthScope::Account(member.duplicate()) });
        let i = match self.find(&member) {
            Some(i) => i,
            None => {
                return Outcome { auth, result: Err(GroupError::NotAMember) };
            },
        };
        if (i as u32) < self.next_payout_index {
            return Outcome { auth, result: Err(GroupError::PayoutTurnPassed) };
        }
        let ghost pre = self@;
        let st = self.states[i];
        let contributed = st.last_contribution_cycle_id == self.current_cycle_id;
        let transfer = if contributed && st.current_cycle_contribution > 0 {
            Some(
                Transfer {
                    from: Party::Contract,
                    to: Party::Account(member.duplicate()),
                    amount: st.current_cycle_contribution,
                },
            )
        } else {
            None
        };
        self.accounts.remove(i);
        self.states.remove(i);
        self.refunded_in.remove(i);
        self.cycle_member_count = count_decremented(self.cycle_member_count);
        proof {
            assert(self@.accounts =~= pre.accounts.remove(i as int));
            lemma_remove_member_keeps_wf(pre, member@);
        }
        Outcome {
            auth,
            result: Ok(Effects { transfer, event: Some(Event::MemberRemoved(member)) }),
        }
    }

    /// Pays `amount` into the pool for the current cycle: exactly the fixed
    /// amount in a rotational group, any positive amount in a goal-based one,
    /// once per cycle.
    pub fn contribute(&mut self, member: Account, amount: i128) -> (out: Outcome<
        Effects,
        GroupError,
    >)
        requires
            old(self)@.wf(),
        ensures
            final(self)@.wf(),
            old(self)@.realizes(final(self)@, out@, old(self)@.contribute_step(member@, amount)),
    {
        if self.is_executing_payout {
            return Outcome { auth: None, result: Err(GroupError::ReentrancyDetected) };
        }
        if self.is_paused {
            return Outcome { auth: None, result: Err(GroupError::ContractPaused) };
        }
        let auth = Some(AuthRequest { signer: member.duplicate(), scope: AuthScope::Invocation });
        let (expected, group_type) = match &self.config {
            Some(c) => (c.contribution_amount, c.group_type),
            None => {
                return Outcome { auth, result: Err(GroupError::NotInitialized) };
            },
        };
        let rotational = group_type == GroupType::Rotational;
        if rotational && amount != expected {
            return Outcome { auth, result: Err(GroupError::WrongContributionAmount) };
        }
        if amount <= 0 {
            return Outcome { auth, result: Err(GroupError::AmountNotPositive) };
        }
        let i = match self.find(&member) {
            Some(i) => i,
            None => {
                return Outcome { auth, result: Err(GroupError::NotAMember) };
            },
        };
        let st = self.states[i];
        if st.last_contribution_cycle_id == self.current_cycle_id {
            return Outcome { auth, result: Err(GroupError::AlreadyContributed) };
        }
        let total = match st.total_contributions.checked_add(amount) {
            Some(t) => t,
            None => {
                return Outcome { auth, result: Err(GroupError::ContributionOverflow) };
            },
        };
        let rejoining = self.refunded_in[i] == self.current_cycle_id;
        if rotational && rejoining && self.cycle_member_count == Some(i128::MAX) {
            return Outcome { auth, result: Err(GroupError::MemberCountOverflow) };
        }
        let ghost pre = self@;
        if rotational {
            self.cycle_member_count = match self.cycle_member_count {
                Some(c) => if rejoining {
                    Some(c + 1)
                } else {
                    Some(c)
                },
                None => Some(self.accounts.len() as i128),
            };
        }
        self.refunded_in.set(i, 0);
        self.states.set(
            i,
            MemberState {
                total_contributions: total,
                last_contribution_cycle_id: self.current_cycle_id,
                has_received_payout: st.has_received_payout,
                current_cycle_contribution: amount,
            },
        );
        proof {
            lemma_contribute_keeps_wf(pre, member@, amount);
        }
        let transfer = Transfer {
            from: Party::Account(member.duplicate()),
            to: Party::Contract,
            amount,
        };
        Outcome {
            auth,
            result: Ok(
                Effects { transfer: Some(transfer), event: Some(Event::Contributed(member, amount)) },
            ),
        }
    }

    /// Pays the whole pool to the member whose turn it is (admin only), given
    /// what the contract holds of the token. The reentrancy guard is left set
    /// until [`Self::finish_payout`] is called after the transfer.
    pub fn payout(&mut self, expected_recipient: Account, contract_balance: i128) -> (out: Outcome<
        Effects,
        GroupError,
    >)
        requires
            old(self)@.wf(),
        ensures
            final(self)@.wf(),
            old(self)@.realizes(
                final(self)@,
                out@,
                old(self)@.payout_step(expected_recipient@, contract_balance),
            ),
    {
        if self.is_executing_payout {
            return Outcome { auth: None, result: Err(GroupError::ReentrancyDetected) };
        }
        if self.is_paused {
            return Outcome { auth: None, result: Err(GroupError::ContractPaused) };
        }
        let (admin, contribution_amount) = match &self.config {
            Some(c) => {
                if c.group_type == GroupType::GoalBased {
                    return Outcome { auth: None, result: Err(GroupError::GoalBasedPayout) };
                }
                (c.admin.duplicate(), c.contribution_amount)
            },
            None => {
                return Outcome { auth: None, result: Err(GroupError::NotInitialized) };
            },
        };
        let auth = Some(
            AuthRequest { signer: admin, scope: AuthScope::Account(expected_recipient.duplicate()) },
        );
        let next = self.next_payout_index;
        if next as usize >= self.accounts.len() {
            return Outcome { auth, result: Err(GroupError::AllPaidOut) };
        }
        assert(self@.accounts[next as int] == self.accounts@[next as int]@);
        if !self.accounts[next as usize].same_as(&expected_recipient) {
            return Outcome { auth, result: Err(GroupError::RecipientMismatch) };
        }
        let count = match self.cycle_member_count {
            Some(c) => c,
            None => {
                return Outcome { auth, result: Err(GroupError::NoActiveCycle) };
            },
        };
        let pool = match contribution_amount.checked_mul(count) {
            Some(p) => p,
            None => {
                return Outcome { auth, result: Err(GroupError::PoolOverflow) };
            },
        };
        if pool > contract_balance {
            return Outcome { auth, result: Err(GroupError::InsufficientPoolFunds) };
        }
        let ghost pre = self@;
        self.is_executing_payout = true;
        self.next_payout_index = next + 1;
        let st = self.states[next as usize];
        self.states.set(next as usize, MemberState { has_received_payout: true, ..st });
        proof {
            lemma_payout_keeps_wf(pre, expected_recipient@, contract_balance);
        }
        let transfer = Transfer {
            from: Party::Contract,
            to: Party::Account(expected_recipient.duplicate()),
            amount: pool,
        };
        Outcome {
            auth,
            result: Ok(
                Effects {
                    transfer: Some(transfer),
                    event: Some(Event::PaidOut(expected_recipient, pool)),
                },
            ),
        }
    }

    /// Releases the reentrancy guard once the payout transfer is done.
    pub fn finish_payout(&mut self)
        requires
            old(self)@.wf(),
        ensures
            final(self)@.wf(),
            final(self)@ == (ContractView { is_executing_payout: false, ..old(self)@ }),
    {
        proof {
            lemma_admin_switches_keep_wf(self@);
        }
        self.is_executing_payout = false;
    }

    /// Withdraws `amount` of one's own savings in a goal-based group; a group
    /// locked until its target keeps savings below the target.
    pub fn withdraw_savings(&mut self, member: Account, amount: i128) -> (out: Outcome<
        Effects,
        GroupError,
    >)
        requires
            old(self)@.wf(),
        ensures
            final(self)@.wf(),
            old(self)@.realizes(
                final(self)@,
                out@,
                old(self)@.withdraw_savings_step(member@, amount),
            ),
    {
        if self.is_executing_payout {
            return Outcome { auth: None, result: Err(GroupError::ReentrancyDetected) };
        }
        if self.is_paused {
            return Outcome { auth: None, result: Err(GroupError::ContractPaused) };
        }
        let auth = Some(AuthRequest { signer: member.duplicate(), scope: AuthScope::Invocation });
        let (group_type, lock_until_target, target_amount) = match &self.config {
            Some(c) => (c.group_type, c.lock_until_target, c.target_amount),
            None => {
                return Outcome { auth, result: Err(GroupError::NotInitialized) };
            },
        };
        if group_type == GroupType::Rotational {
            return Outcome { auth, result: Err(GroupError::RotationalWithdrawal) };
        }
        if amount <= 0 {
            return Outcome { auth, result: Err(GroupError::WithdrawalNotPositive) };
        }
        let i = match self.find(&member) {
            Some(i) => i,
            None => {
                return Outcome { auth, result: Err(GroupError::InsufficientSavings) };
            },
        };
        let st = self.states[i];
        let current = st.total_contributions;
        if current < amount {
            return Outcome { auth, result: Err(GroupError::InsufficientSavings) };
        }
        if lock_until_target {
            if let Some(target) = target_amount {
                if current < target {
                    return Outcome { auth, result: Err(GroupError::TargetNotReached) };
                }
            }
        }
        let ghost pre = self@;
        let rest = current - amount;
        let refundable = if st.current_cycle_contribution <= rest {
            st.current_cycle_contribution
        } else {
            rest
        };
        self.states.set(
            i,
            MemberState { total_contributions: rest, current_cycle_contribution: refundable, ..st },
        );
        proof {
            lemma_withdraw_savings_keeps_wf(pre, member@, amount);
        }
        let transfer = Transfer {
            from: Party::Contract,
            to: Party::Account(member.duplicate()),
            amount,
        };
        Outcome {
            auth,
            result: Ok(
                Effects { transfer: Some(transfer), event: Some(Event::Withdrawn(member, amount)) },
            ),
        }
    }

    /// While the group is paused, gives a member back what they paid in during
    /// the current cycle and have not withdrawn, and takes them out of the
    /// cycle's count.
    pub fn emergency_withdraw(&mut self, member: Account) -> (out: Outcome<Effects, GroupError>)
        requires
            old(self)@.wf(),
        ensures
            final(self)@.wf(),
            old(self)@.realizes(final(self)@, out@, old(self)@.emergency_withdraw_step(member@)),
    {
        let auth = Some(AuthRequest { signer: member.duplicate(), scope: AuthScope::Invocation });
        if !self.is_paused {
            return Outcome { auth, result: Err(GroupError::NotPaused) };
        }
        if self.config.is_none() {
            return Outcome { auth, result: Err(GroupError::NotInitialized) };
        }
        let i = match self.find(&member) {
            Some(i) => i,
            None => {
                return Outcome { auth, result: Err(GroupError::NotAMember) };
            },
        };
        let st = self.states[i];
        if st.last_contribution_cycle_id != self.current_cycle_id
            || st.current_cycle_contribution <= 0 {
            return Outcome { auth, result: Err(GroupError::NoContributionThisCycle) };
        }
        let amount = st.current_cycle_contribution;
        assert(0 <= self@.states[i as int].current_cycle_contribution
            <= self@.states[i as int].total_contributions);
        let total = st.total_contributions - amount;
        let ghost pre = self@;
        self.states.set(
            i,
            MemberState {
                total_contributions: total,
                last_contribution_cycle_id: 0,
                has_received_payout: st.has_received_payout,
                current_cycle_contribution: 0,
            },
        );
        self.refunded_in.set(i, self.current_cycle_id);
        self.cycle_member_count = count_decremented(self.cycle_member_count);
        proof {
            lemma_emergency_withdraw_keeps_wf(pre, member@);
        }
        let transfer = Transfer {
            from: Party::Contract,
            to: Party::Account(member.duplicate()),
            amount,
        };
        Outcome {
            auth,
            result: Ok(
                Effects {
                    transfer: Some(transfer),
                    event: Some(Event::EmergencyWithdrawn(member, amount)),
                },
            ),
        }
    }

    /// Pauses the group (admin only): contributions, payouts, new members,
    /// removals, withdrawals and cycle resets are refused until it is lifted.
    pub fn pause(&mut self) -> (out: Outcome<Effects, GroupError>)
        requires
            old(self)@.wf(),
        ensures
            final(self)@.wf(),
            old(self)@.realizes(final(self)@, out@, old(self)@.pause_step()),
    {
        if self.is_paused {
            return Outcome { auth: None, result: Err(GroupError::ContractPaused) };
        }
        let admin = match &self.config {
            Some(c) => c.admin.duplicate(),
            None => {
                return Outcome { auth: None, result: Err(GroupError::NotInitialized) };
            },
        };
        self.is_paused = true;
        Outcome {
            auth: Some(AuthRequest { signer: admin, scope: AuthScope::Invocation }),
            result: Ok(Effects { transfer: None, event: Some(Event::Paused) }),
        }
    }

    /// Lifts the pause (admin only).
    pub fn unpause(&mut self) -> (out: Outcome<Effects, GroupError>)
        requires
            old(self)@.wf(),
        ensures
            final(self)@.wf(),
            old(self)@.realizes(final(self)@, out@, old(self)@.unpause_step()),
    {
        let admin = match &self.config {
            Some(c) => c.admin.duplicate(),
            None => {
                return Outcome { auth: None, result: Err(GroupError::NotInitialized) };
            },
        };
        self.is_paused = false;
        Outcome {
            auth: Some(AuthRequest { signer: admin, scope: AuthScope::Invocation }),
            result: Ok(Effects { transfer: None, event: Some(Event::Unpaused) }),
        }
    }

    /// Starts a new contribution cycle (admin only). The payout rotation goes
    /// on where it stood.
    pub fn reset_cycle(&mut self) -> (out: Outcome<Effects, GroupError>)
        requires
            old(self)@.wf(),
        ensures
            final(self)@.wf(),
            old(self)@.realizes(final(self)@, out@, old(self)@.reset_cycle_step()),
    {
        if self.is_executing_payout {
            return Outcome { auth: None, result: Err(GroupError::ReentrancyDetected) };
        }
        if self.is_paused {
            return Outcome { auth: None, result: Err(GroupError::ContractPaused) };
        }
        let (admin, group_type) = match &self.config {
            Some(c) => (c.admin.duplicate(), c.group_type),
            None => {
                return Outcome { auth: None, result: Err(GroupError::NotInitialized) };
            },
        };
        let auth = Some(AuthRequest { signer: admin, scope: AuthScope::Nothing });
        if self.current_cycle_id == u32::MAX {
            return Outcome { auth, result: Err(GroupError::CycleIdOverflow) };
        }
        let ghost pre = self@;
        self.current_cycle_id = self.current_cycle_id + 1;
        if group_type == GroupType::Rotational {
            self.cycle_member_count = None;
        }
        proof {
            lemma_reset_cycle_keeps_wf(pre);
        }
        Outcome { auth, result: Ok(Effects { transfer: None, event: Some(Event::CycleReset) }) }
    }

    /// Starts the payout rotation again from its first member (admin only).
    pub fn reset_rotation(&mut self) -> (out: Outcome<Effects, GroupError>)
        requires
            old(self)@.wf(),
        ensures
            final(self)@.wf(),
            old(self)@.realizes(final(self)@, out@, old(self)@.reset_rotation_step()),
    {
        if self.is_executing_payout {
            return Outcome { auth: None, result: Err(GroupError::ReentrancyDetected) };
        }
        let admin = match &self.config {
            Some(c) => c.admin.duplicate(),
            None => {
                return Outcome { auth: None, result: Err(GroupError::NotInitialized) };
            },
        };
        self.next_payout_index = 0;
        Outcome {
            auth: Some(AuthRequest { signer: admin, scope: AuthScope::Nothing }),
            result: Ok(Effects { transfer: None, event: Some(Event::RotationReset) }),
        }
    }

    /// The member whose payout turn it is.
    pub fn get_next_payout_recipient(&self) -> (r: Result<Account, GroupError>)
        requires
            self@.wf(),
        ensures
            match r {
                Ok(a) => self@.next_recipient() == Ok::<Seq<u8>, GroupError>(a@),
                Err(e) => self@.next_recipient() == Err::<Seq<u8>, GroupError>(e),
            },
    {
        if self.config.is_none() {
            return Err(GroupError::NotInitialized);
        }
        let next = self.next_payout_index as usize;
        if next >= self.accounts.len() {
            return Err(GroupError::NoNextRecipient);
        }
        assert(self@.accounts[next as int] == self.accounts@[next as int]@);
        Ok(self.accounts[next].duplicate())
    }

    /// A member's total savings; zero for an account that is no member.
    pub fn get_contribution(&self, member: &Account) -> (r: i128)
        requires
            self@.wf(),
        ensures
            r == self@.state_of(member@).total_contributions,
    {
        match self.find(member) {
            Some(i) => self.states[i].total_contributions,
            None => 0,
        }
    }

    /// Whether `member` has been paid in the current rotation.
    pub fn has_received_payout(&self, member: &Account) -> (r: Result<bool, GroupError>)
        requires
            self@.wf(),
        ensures
            r == self@.payout_received(member@),
    {
        if self.config.is_none() {
            return Err(GroupError::NotInitialized);
        }
        match self.find(member) {
            Some(idx) => Ok((idx as u32) < self.next_payout_index),
            None => Ok(false),
        }
    }

    /// The token the group saves in.
    pub fn token(&self) -> (r: Result<&Account, GroupError>)
        ensures
            match r {
                Ok(t) => self@.config is Some && t@ == self@.config->Some_0.token,
                Err(e) => self@.config is None && e == GroupError::NotInitialized,
            },
    {
        match &self.config {
            Some(c) => Ok(&c.token),
            None => Err(GroupError::NotInitialized),
        }
    }

    /// The time-to-live extension that keeps the group's entries alive for a
    /// whole rotation of its current members.
    pub fn rotation_ttl(&self) -> (r: Result<TtlExtension, GroupError>)
        requires
            self@.wf(),
        ensures
            match r {
                Ok(t) => {
                    &&& self@.config is Some
                    &&& t.extend_to == rotation_life(
                        self@.config->Some_0.cycle_length_ledgers,
                        self@.accounts.len() as u32,
                    )
                    &&& t.threshold == t.extend_to / 2
                    &&& t.extend_to >= LEDGERS_TO_LIVE
                },
                Err(e) => self@.config is None && e == GroupError::NotInitialized,
            },
    {
        match &self.config {
            Some(c) => Ok(rotation_ttl(c.cycle_length_ledgers, self.accounts.len() as u32)),
            None => Err(GroupError::NotInitialized),
        }
    }
    /// Rebuilds a group from its stored parts; `None` when the parts do not
    /// form a well-formed group.
    pub fn restore(
        config: Option<GroupConfig>,
        accounts: Vec<Account>,
        states: Vec<MemberState>,
        refunded_in: Vec<u32>,
        next_payout_index: u32,
        cycle_member_count: Option<i128>,
        current_cycle_id: u32,
        is_executing_payout: bool,
        is_paused: bool,
    ) -> (r: Option<KoloSavingsContract>)
        ensures
            ({
                let v = ContractView {
                    config: match config {
                        Some(c) => Some(c@),
                        None => None,
                    },
                    accounts: accounts@.map_values(|a: Account| a@),
                    states: states@,
                    refunded_in: refunded_in@,
                    next_payout_index,
                    cycle_member_count,
                    current_cycle_id,
                    is_executing_payout,
                    is_paused,
                };
                match r {
                    Some(k) => k@ == v && v.wf(),
                    None => !v.wf(),
                }
            }),
    {
        if !Self::records_consistent(&states, current_cycle_id) {
            return None;
        }
        if !Self::refunds_not_ahead(&refunded_in, current_cycle_id) {
            return None;
        }
        let k = KoloSavingsContract {
            config,
            accounts,
            states,
            refunded_in,
            next_payout_index,
            cycle_member_count,
            current_cycle_id,
            is_executing_payout,
            is_paused,
        };
        let n = k.accounts.len();
        if n != k.states.len() || n != k.refunded_in.len() || n > u32::MAX as usize
            || next_payout_index as usize > n {
            return None;
        }
        if let Some(c) = cycle_member_count {
            if c < 1 {
                return None;
            }
        }
        match &k.config {
            Some(c) => {
                if current_cycle_id == 0 || c.contribution_amount <= 0 || c.contribution_amount
                    > MAX_CONTRIBUTION {
                    return None;
                }
                if c.group_type == GroupType::GoalBased && cycle_member_count.is_some() {
                    return None;
                }
            },
            None => {
                if n != 0 || next_payout_index != 0 || cycle_member_count.is_some()
                    || is_executing_payout || is_paused {
                    return None;
                }
            },
        }
        if !distinct_accounts(&k.accounts) {
            return None;
        }
        Some(k)
    }

    /// Whether no refund is recorded for a cycle not reached yet.
    fn refunds_not_ahead(refunded_in: &Vec<u32>, current_cycle_id: u32) -> (r: bool)
        ensures
            r == forall|j: int|
                0 <= j < refunded_in@.len() ==> #[trigger] refunded_in@[j] <= current_cycle_id,
    {
        let n = refunded_in.len();
        let mut i: usize = 0;
        while i < n
            invariant
                n == refunded_in@.len(),
                i <= n,
                forall|j: int| 0 <= j < i ==> #[trigger] refunded_in@[j] <= current_cycle_id,
            decreases n - i,
        {
            if refunded_in[i] > current_cycle_id {
                return false;
            }
            i = i + 1;
        }
        true
    }

    /// Whether every record's last payment is in a cycle already reached and
    /// its refundable contribution lies between zero and its savings.
    fn records_consistent(states: &Vec<MemberState>, current_cycle_id: u32) -> (r: bool)
        ensures
            r == ((forall|j: int|
                0 <= j < states@.len() ==> #[trigger] states@[j].last_contribution_cycle_id
                    <= current_cycle_id) && (forall|j: int|
                0 <= j < states@.len() ==> 0 <= #[trigger] states@[j].current_cycle_contribution
                    <= states@[j].total_contributions)),
    {
        let n = states.len();
        let mut i: usize = 0;
        while i < n
            invariant
                n == states@.len(),
                i <= n,
                forall|j: int|
                    0 <= j < i ==> #[trigger] states@[j].last_contribution_cycle_id
                        <= current_cycle_id,
                forall|j: int|
                    0 <= j < i ==> 0 <= #[trigger] states@[j].current_cycle_contribution
                        <= states@[j].total_contributions,
            decreases n - i,
        {
            let st = states[i];
            if st.last_contribution_cycle_id > current_cycle_id || st.current_cycle_contribution < 0
                || st.current_cycle_contribution > st.total_contributions {
                return false;
            }
            i = i + 1;
        }
        true
    }

    /// The group's settings; none before it is initialized.
    pub fn config(&self) -> (r: Option<&GroupConfig>)
        ensures
            match r {
                Some(c) => self@.config == Some(c@),
                None => self@.config is None,
            },
    {
        match &self.config {
            Some(c) => Some(c),
            None => None,
        }
    }

    /// The members in rotation order.
    pub fn members(&self) -> (r: &Vec<Account>)
        ensures
            r@.map_values(|a: Account| a@) == self@.accounts,
    {
        &self.accounts
    }

    /// The members' savings records, in rotation order.
    pub fn member_states(&self) -> (r: &Vec<MemberState>)
        ensures
            r@ == self@.states,
    {
        &self.states
    }

    /// The cycle in which each member last took an emergency refund (0 for
    /// never), in rotation order.
    pub fn refund_cycles(&self) -> (r: &Vec<u32>)
        ensures
            r@ == self@.refunded_in,
    {
        &self.refunded_in
    }

    /// The position in the rotation of the member to be paid next.
    pub fn next_payout_index(&self) -> (r: u32)
        ensures
            r == self@.next_payout_index,
    {
        self.next_payout_index
    }

    /// The member count of a rotational group's current cycle, frozen at its
    /// first contribution; none before it.
    pub fn cycle_member_count(&self) -> (r: Option<i128>)
        ensures
            r == self@.cycle_member_count,
    {
        self.cycle_member_count
    }

    /// The number of the current contribution cycle.
    pub fn current_cycle_id(&self) -> (r: u32)
        ensures
            r == self@.current_cycle_id,
    {
        self.current_cycle_id
    }

    /// Whether a payout transfer is under way.
    pub fn is_executing_payout(&self) -> (r: bool)
        ensures
            r == self@.is_executing_payout,
    {
        self.is_executing_payout
    }

    /// Whether the group is paused.
    pub fn is_paused(&self) -> (r: bool)
        ensures
            r == self@.is_paused,
    {
        self.is_paused
    }
}

} // verus!
