use kolo_savings::account::{distinct_accounts, Account};
use kolo_savings::contract::{GroupType, KoloSavingsContract, MemberState, MAX_CONTRIBUTION};
use kolo_savings::effects::{AuthScope, Effects, Event, Outcome, Party};
use kolo_savings::error::GroupError;
use kolo_savings::ttl::{fixed_ttl, rotation_ttl, LEDGERS_TO_LIVE};

fn acct(s: &str) -> Account {
    Account::from_bytes(s.as_bytes().to_vec())
}

fn ok(out: Outcome<Effects, GroupError>) -> Effects {
    match out.result {
        Ok(e) => e,
        Err(e) => panic!("refused: {:?}", e),
    }
}

fn err(out: Outcome<Effects, GroupError>) -> GroupError {
    match out.result {
        Ok(_) => panic!("accepted"),
        Err(e) => e,
    }
}

fn group(kind: GroupType, target: Option<i128>, lock: bool) -> KoloSavingsContract {
    let mut c = KoloSavingsContract::new();
    ok(c.initialize(acct("ADMIN"), acct("TOKEN"), b"Ajo".to_vec(), 100, kind, target, lock, None));
    c
}

fn rotational_with(members: &[&str]) -> KoloSavingsContract {
    let mut c = group(GroupType::Rotational, None, false);
    for m in members {
        ok(c.add_member(acct(m)));
    }
    c
}

fn state(c: &KoloSavingsContract, i: usize) -> MemberState {
    c.member_states()[i]
}

fn transfer_to(e: &Effects, who: &str) -> i128 {
    let t = e.transfer.as_ref().unwrap();
    assert!(matches!(t.from, Party::Contract));
    match &t.to {
        Party::Account(a) => assert!(a.same_as(&acct(who))),
        Party::Contract => panic!("transfer to the contract"),
    }
    t.amount
}

#[test]
fn initialize_sets_up_the_group() {
    let mut c = KoloSavingsContract::new();
    let out = c.initialize(
        acct("ADMIN"),
        acct("TOKEN"),
        b"Ajo".to_vec(),
        100,
        GroupType::Rotational,
        None,
        false,
        None,
    );
    assert!(out.auth.is_none());
    let e = ok(out);
    assert!(matches!(e.event, Some(Event::Initialized { contribution_amount: 100, .. })));
    assert!(e.transfer.is_none());
    let cfg = c.config().unwrap();
    assert_eq!(cfg.cycle_length_ledgers, 30 * 17_280);
    assert_eq!(cfg.contribution_amount, 100);
    assert_eq!(c.current_cycle_id(), 1);
    assert_eq!(c.next_payout_index(), 0);
    assert_eq!(c.cycle_member_count(), None);
    assert!(!c.is_paused());
    assert!(!c.is_executing_payout());
}

#[test]
fn initialize_rejections() {
    let mut c = KoloSavingsContract::new();
    let out = c.initialize(acct("A"), acct("T"), b"x".to_vec(), 0, GroupType::Rotational, None, false, None);
    assert!(out.auth.is_none());
    assert_eq!(err(out), GroupError::ContributionNotPositive);
    let out = c.initialize(
        acct("A"),
        acct("T"),
        b"x".to_vec(),
        MAX_CONTRIBUTION + 1,
        GroupType::Rotational,
        None,
        false,
        None,
    );
    assert_eq!(err(out), GroupError::ContributionTooLarge);
    let out = c.initialize(
        acct("A"),
        acct("T"),
        b"x".to_vec(),
        MAX_CONTRIBUTION,
        GroupType::Rotational,
        None,
        false,
        Some(248_856),
    );
    assert!(out.auth.is_none());
    assert_eq!(err(out), GroupError::CycleLengthOverflow);
    assert!(c.config().is_none());
    ok(c.initialize(acct("A"), acct("T"), b"x".to_vec(), 5, GroupType::GoalBased, None, false, Some(7)));
    assert_eq!(c.config().unwrap().cycle_length_ledgers, 7 * 17_280);
    let again = c.initialize(acct("A"), acct("T"), b"x".to_vec(), 5, GroupType::GoalBased, None, false, None);
    assert_eq!(err(again), GroupError::AlreadyInitialized);
}

#[test]
fn calls_before_initialize_are_refused() {
    let mut c = KoloSavingsContract::new();
    assert_eq!(err(c.add_member(acct("M"))), GroupError::NotInitialized);
    assert_eq!(err(c.remove_member(acct("M"))), GroupError::NotInitialized);
    let out = c.contribute(acct("M"), 100);
    assert!(out.auth.is_some());
    assert_eq!(err(out), GroupError::NotInitialized);
    assert_eq!(err(c.payout(acct("M"), 1000)), GroupError::NotInitialized);
    assert_eq!(err(c.withdraw_savings(acct("M"), 1)), GroupError::NotInitialized);
    assert_eq!(err(c.emergency_withdraw(acct("M"))), GroupError::NotPaused);
    assert_eq!(err(c.pause()), GroupError::NotInitialized);
    assert_eq!(err(c.unpause()), GroupError::NotInitialized);
    assert_eq!(err(c.reset_cycle()), GroupError::NotInitialized);
    assert_eq!(err(c.reset_rotation()), GroupError::NotInitialized);
    assert!(matches!(c.get_next_payout_recipient(), Err(GroupError::NotInitialized)));
    assert!(matches!(c.has_received_payout(&acct("M")), Err(GroupError::NotInitialized)));
    assert!(matches!(c.rotation_ttl(), Err(GroupError::NotInitialized)));
    assert!(matches!(c.token(), Err(GroupError::NotInitialized)));
    assert_eq!(c.get_contribution(&acct("M")), 0);
}

#[test]
fn add_member_appends_once() {
    let mut c = rotational_with(&["A"]);
    let out = c.add_member(acct("B"));
    let auth = out.auth.as_ref().unwrap();
    assert!(auth.signer.same_as(&acct("ADMIN")));
    assert!(matches!(auth.scope, AuthScope::Account(ref a) if a.same_as(&acct("B"))));
    assert!(matches!(ok(out).event, Some(Event::MemberAdded(_))));
    let again = ok(c.add_member(acct("B")));
    assert!(again.event.is_none());
    assert_eq!(c.members().len(), 2);
    assert!(c.members()[1].same_as(&acct("B")));
    assert_eq!(state(&c, 1), MemberState {
        total_contributions: 0,
        last_contribution_cycle_id: 0,
        has_received_payout: false,
        current_cycle_contribution: 0,
    });
}

#[test]
fn contribute_rules() {
    let mut c = rotational_with(&["A", "B"]);
    assert_eq!(err(c.contribute(acct("A"), 99)), GroupError::WrongContributionAmount);
    assert_eq!(err(c.contribute(acct("Z"), 100)), GroupError::NotAMember);
    let e = ok(c.contribute(acct("A"), 100));
    let t = e.transfer.as_ref().unwrap();
    assert_eq!(t.amount, 100);
    assert!(matches!(t.from, Party::Account(ref a) if a.same_as(&acct("A"))));
    assert!(matches!(t.to, Party::Contract));
    assert!(matches!(e.event, Some(Event::Contributed(_, 100))));
    assert_eq!(c.cycle_member_count(), Some(2));
    assert_eq!(state(&c, 0).total_contributions, 100);
    assert_eq!(state(&c, 0).last_contribution_cycle_id, 1);
    assert_eq!(state(&c, 0).current_cycle_contribution, 100);
    assert_eq!(err(c.contribute(acct("A"), 100)), GroupError::AlreadyContributed);
    assert_eq!(c.get_contribution(&acct("A")), 100);
    assert_eq!(c.get_contribution(&acct("Z")), 0);
}

#[test]
fn goal_based_contributions_take_any_positive_amount() {
    let mut c = group(GroupType::GoalBased, None, false);
    ok(c.add_member(acct("A")));
    assert_eq!(err(c.contribute(acct("A"), 0)), GroupError::AmountNotPositive);
    ok(c.contribute(acct("A"), 7));
    assert_eq!(c.get_contribution(&acct("A")), 7);
    assert_eq!(c.cycle_member_count(), None);
}

#[test]
fn payout_rotation() {
    let mut c = rotational_with(&["A", "B"]);
    assert_eq!(err(c.payout(acct("A"), 1000)), GroupError::NoActiveCycle);
    ok(c.contribute(acct("A"), 100));
    ok(c.contribute(acct("B"), 100));
    assert_eq!(err(c.payout(acct("B"), 1000)), GroupError::RecipientMismatch);
    assert_eq!(err(c.payout(acct("A"), 199)), GroupError::InsufficientPoolFunds);
    let out = c.payout(acct("A"), 200);
    let auth = out.auth.as_ref().unwrap();
    assert!(matches!(auth.scope, AuthScope::Account(ref a) if a.same_as(&acct("A"))));
    let e = ok(out);
    assert_eq!(transfer_to(&e, "A"), 200);
    assert!(c.is_executing_payout());
    assert_eq!(err(c.contribute(acct("A"), 100)), GroupError::ReentrancyDetected);
    c.finish_payout();
    assert!(!c.is_executing_payout());
    assert_eq!(c.next_payout_index(), 1);
    assert!(state(&c, 0).has_received_payout);
    assert_eq!(c.has_received_payout(&acct("A")), Ok(true));
    assert_eq!(c.has_received_payout(&acct("B")), Ok(false));
    assert_eq!(c.has_received_payout(&acct("Z")), Ok(false));
    assert!(c.get_next_payout_recipient().unwrap().same_as(&acct("B")));
    assert_eq!(err(c.payout(acct("A"), 1000)), GroupError::RecipientMismatch);
    let e = ok(c.payout(acct("B"), 200));
    assert_eq!(transfer_to(&e, "B"), 200);
    c.finish_payout();
    assert_eq!(err(c.payout(acct("B"), 1000)), GroupError::AllPaidOut);
    assert!(matches!(c.get_next_payout_recipient(), Err(GroupError::NoNextRecipient)));
    ok(c.reset_rotation());
    assert_eq!(c.next_payout_index(), 0);
    assert!(c.get_next_payout_recipient().unwrap().same_as(&acct("A")));
}

#[test]
fn payout_pays_the_largest_pool() {
    let mut c = KoloSavingsContract::new();
    ok(c.initialize(acct("ADMIN"), acct("T"), b"x".to_vec(), MAX_CONTRIBUTION, GroupType::Rotational, None, false, None));
    ok(c.add_member(acct("A")));
    ok(c.contribute(acct("A"), MAX_CONTRIBUTION));
    let e = ok(c.payout(acct("A"), i128::MAX));
    assert_eq!(transfer_to(&e, "A"), MAX_CONTRIBUTION);
}

#[test]
fn goal_based_groups_have_no_payouts() {
    let mut c = group(GroupType::GoalBased, None, false);
    ok(c.add_member(acct("A")));
    let out = c.payout(acct("A"), 1000);
    assert!(out.auth.is_none());
    assert_eq!(err(out), GroupError::GoalBasedPayout);
}

#[test]
fn withdraw_savings_rules() {
    let mut r = rotational_with(&["A"]);
    ok(r.contribute(acct("A"), 100));
    assert_eq!(err(r.withdraw_savings(acct("A"), 10)), GroupError::RotationalWithdrawal);

    let mut c = group(GroupType::GoalBased, Some(50), true);
    ok(c.add_member(acct("A")));
    ok(c.contribute(acct("A"), 30));
    assert_eq!(err(c.withdraw_savings(acct("A"), 0)), GroupError::WithdrawalNotPositive);
    assert_eq!(err(c.withdraw_savings(acct("A"), 31)), GroupError::InsufficientSavings);
    assert_eq!(err(c.withdraw_savings(acct("Z"), 1)), GroupError::InsufficientSavings);
    assert_eq!(err(c.withdraw_savings(acct("A"), 10)), GroupError::TargetNotReached);
    ok(c.reset_cycle());
    ok(c.contribute(acct("A"), 30));
    let e = ok(c.withdraw_savings(acct("A"), 10));
    assert_eq!(transfer_to(&e, "A"), 10);
    assert!(matches!(e.event, Some(Event::Withdrawn(_, 10))));
    assert_eq!(c.get_contribution(&acct("A")), 50);
}

#[test]
fn pause_blocks_and_emergency_withdraw_refunds() {
    let mut c = rotational_with(&["A", "B"]);
    ok(c.contribute(acct("A"), 100));
    ok(c.contribute(acct("B"), 100));
    assert_eq!(err(c.emergency_withdraw(acct("A"))), GroupError::NotPaused);
    ok(c.pause());
    assert!(c.is_paused());
    assert_eq!(err(c.pause()), GroupError::ContractPaused);
    assert_eq!(err(c.contribute(acct("A"), 100)), GroupError::ContractPaused);
    assert_eq!(err(c.payout(acct("A"), 1000)), GroupError::ContractPaused);
    assert_eq!(err(c.add_member(acct("C"))), GroupError::ContractPaused);
    assert_eq!(err(c.remove_member(acct("B"))), GroupError::ContractPaused);
    assert_eq!(err(c.reset_cycle()), GroupError::ContractPaused);
    assert_eq!(err(c.emergency_withdraw(acct("Z"))), GroupError::NotAMember);
    let e = ok(c.emergency_withdraw(acct("A")));
    assert_eq!(transfer_to(&e, "A"), 100);
    assert_eq!(state(&c, 0).total_contributions, 0);
    assert_eq!(state(&c, 0).current_cycle_contribution, 0);
    assert_eq!(state(&c, 0).last_contribution_cycle_id, 0);
    assert_eq!(c.cycle_member_count(), Some(1));
    assert_eq!(err(c.emergency_withdraw(acct("A"))), GroupError::NoContributionThisCycle);
    ok(c.emergency_withdraw(acct("B")));
    assert_eq!(c.cycle_member_count(), None);
    ok(c.unpause());
    assert!(!c.is_paused());
    ok(c.contribute(acct("A"), 100));
    assert_eq!(c.cycle_member_count(), Some(2));
}

#[test]
fn a_withdrawn_contribution_cannot_be_refunded_again() {
    let mut c = group(GroupType::GoalBased, None, false);
    ok(c.add_member(acct("A")));
    ok(c.contribute(acct("A"), 100));
    ok(c.withdraw_savings(acct("A"), 100));
    assert_eq!(state(&c, 0).current_cycle_contribution, 0);
    ok(c.pause());
    assert_eq!(err(c.emergency_withdraw(acct("A"))), GroupError::NoContributionThisCycle);
    assert_eq!(c.get_contribution(&acct("A")), 0);
}

#[test]
fn a_partial_withdrawal_leaves_only_the_rest_refundable() {
    let mut c = group(GroupType::GoalBased, None, false);
    ok(c.add_member(acct("A")));
    ok(c.contribute(acct("A"), 100));
    ok(c.reset_cycle());
    ok(c.contribute(acct("A"), 100));
    ok(c.withdraw_savings(acct("A"), 50));
    assert_eq!(state(&c, 0).current_cycle_contribution, 100);
    ok(c.withdraw_savings(acct("A"), 120));
    assert_eq!(state(&c, 0).total_contributions, 30);
    assert_eq!(state(&c, 0).current_cycle_contribution, 30);
    ok(c.pause());
    let e = ok(c.emergency_withdraw(acct("A")));
    assert_eq!(transfer_to(&e, "A"), 30);
    assert_eq!(c.get_contribution(&acct("A")), 0);
}

#[test]
fn removal_refunds_what_the_member_paid_in() {
    let mut c = KoloSavingsContract::new();
    ok(c.initialize(acct("ADMIN"), acct("T"), b"G".to_vec(), 1000, GroupType::GoalBased, None, false, None));
    ok(c.add_member(acct("A")));
    ok(c.contribute(acct("A"), 250));
    let e = ok(c.remove_member(acct("A")));
    assert_eq!(transfer_to(&e, "A"), 250);
    assert_eq!(c.members().len(), 0);
}

#[test]
fn the_pool_counts_everyone_who_paid_in_again() {
    let mut c = KoloSavingsContract::new();
    ok(c.initialize(acct("ADMIN"), acct("T"), b"G".to_vec(), 1000, GroupType::Rotational, None, false, None));
    for m in ["A", "B", "C"] {
        ok(c.add_member(acct(m)));
    }
    ok(c.contribute(acct("A"), 1000));
    ok(c.pause());
    ok(c.emergency_withdraw(acct("A")));
    ok(c.unpause());
    for m in ["A", "B", "C"] {
        ok(c.contribute(acct(m), 1000));
    }
    assert_eq!(c.cycle_member_count(), Some(3));
    let e = ok(c.payout(acct("A"), 3000));
    assert_eq!(transfer_to(&e, "A"), 3000);
}

#[test]
fn a_paid_member_is_not_paid_again_after_other_calls() {
    let mut c = rotational_with(&["A", "B"]);
    ok(c.contribute(acct("A"), 100));
    ok(c.contribute(acct("B"), 100));
    ok(c.payout(acct("A"), 200));
    c.finish_payout();
    ok(c.add_member(acct("C")));
    ok(c.reset_cycle());
    ok(c.contribute(acct("C"), 100));
    assert_eq!(err(c.payout(acct("A"), 1000)), GroupError::RecipientMismatch);
    assert_eq!(err(c.remove_member(acct("A"))), GroupError::PayoutTurnPassed);
    assert_eq!(c.has_received_payout(&acct("A")), Ok(true));
}

#[test]
fn remove_member_rules() {
    let mut c = rotational_with(&["A", "B", "C"]);
    assert_eq!(err(c.remove_member(acct("Z"))), GroupError::NotAMember);
    ok(c.contribute(acct("A"), 100));
    ok(c.contribute(acct("B"), 100));
    ok(c.payout(acct("A"), 300));
    c.finish_payout();
    assert_eq!(err(c.remove_member(acct("A"))), GroupError::PayoutTurnPassed);
    let out = c.remove_member(acct("B"));
    assert!(matches!(out.auth.as_ref().unwrap().scope, AuthScope::Account(ref a) if a.same_as(&acct("B"))));
    let e = ok(out);
    assert_eq!(transfer_to(&e, "B"), 100);
    assert!(matches!(e.event, Some(Event::MemberRemoved(_))));
    assert_eq!(c.cycle_member_count(), Some(2));
    let e = ok(c.remove_member(acct("C")));
    assert!(e.transfer.is_none());
    assert_eq!(c.cycle_member_count(), Some(1));
    assert_eq!(c.members().len(), 1);
    assert_eq!(c.member_states().len(), 1);
}

#[test]
fn remove_after_add_restores_the_members() {
    let mut c = rotational_with(&["A"]);
    ok(c.add_member(acct("B")));
    let e = ok(c.remove_member(acct("B")));
    assert!(e.transfer.is_none());
    assert_eq!(c.members().len(), 1);
    assert!(c.members()[0].same_as(&acct("A")));
}

#[test]
fn reset_cycle_reopens_contributions() {
    let mut c = rotational_with(&["A"]);
    ok(c.contribute(acct("A"), 100));
    let out = c.reset_cycle();
    assert!(matches!(out.auth.as_ref().unwrap().scope, AuthScope::Nothing));
    assert!(matches!(ok(out).event, Some(Event::CycleReset)));
    assert_eq!(c.current_cycle_id(), 2);
    assert_eq!(c.cycle_member_count(), None);
    ok(c.contribute(acct("A"), 100));
    assert_eq!(c.get_contribution(&acct("A")), 200);
}

#[test]
fn ttl_extensions() {
    let t = rotation_ttl(17_280 * 30, 3);
    assert_eq!(t.extend_to, 1_555_200);
    assert_eq!(t.threshold, 777_600);
    let t = rotation_ttl(17_280, 1);
    assert_eq!(t.extend_to, LEDGERS_TO_LIVE);
    assert_eq!(t.threshold, 259_200);
    let t = rotation_ttl(u32::MAX, 2);
    assert_eq!(t.extend_to, u32::MAX);
    let f = fixed_ttl();
    assert_eq!((f.threshold, f.extend_to), (259_200, 518_400));
    let mut c = rotational_with(&["A", "B"]);
    assert_eq!(c.rotation_ttl().unwrap().extend_to, 1_036_800);
    ok(c.add_member(acct("C")));
    assert_eq!(c.rotation_ttl().unwrap().extend_to, 1_555_200);
}

#[test]
fn accounts_compare_by_their_bytes() {
    assert!(acct("GA").same_as(&acct("GA")));
    assert!(!acct("GA").same_as(&acct("GB")));
    assert!(!acct("GA").same_as(&acct("GAA")));
    assert_eq!(acct("GA").as_bytes(), &b"GA".to_vec());
    assert!(distinct_accounts(&vec![acct("A"), acct("B")]));
    assert!(!distinct_accounts(&vec![acct("A"), acct("B"), acct("A")]));
}

#[test]
fn restore_checks_the_parts() {
    let fresh = MemberState {
        total_contributions: 0,
        last_contribution_cycle_id: 0,
        has_received_payout: false,
        current_cycle_contribution: 0,
    };
    let c = rotational_with(&["A"]);
    let cfg = c.config().unwrap();
    let copy = |name: &str| kolo_savings::contract::GroupConfig {
        admin: cfg.admin.duplicate(),
        token: cfg.token.duplicate(),
        name: name.as_bytes().to_vec(),
        contribution_amount: cfg.contribution_amount,
        group_type: cfg.group_type,
        target_amount: cfg.target_amount,
        lock_until_target: cfg.lock_until_target,
        cycle_length_ledgers: cfg.cycle_length_ledgers,
    };
    assert!(KoloSavingsContract::restore(Some(copy("x")), vec![acct("A")], vec![fresh], vec![0], 0, None, 1, false, false).is_some());
    assert!(KoloSavingsContract::restore(Some(copy("x")), vec![acct("A"), acct("A")], vec![fresh, fresh], vec![0, 0], 0, None, 1, false, false).is_none());
    assert!(KoloSavingsContract::restore(Some(copy("x")), vec![acct("A")], vec![fresh], vec![0], 2, None, 1, false, false).is_none());
    assert!(KoloSavingsContract::restore(Some(copy("x")), vec![acct("A")], vec![fresh], vec![0], 0, Some(0), 1, false, false).is_none());
    assert!(KoloSavingsContract::restore(Some(copy("x")), vec![acct("A")], vec![], vec![], 0, None, 1, false, false).is_none());
    assert!(KoloSavingsContract::restore(Some(copy("x")), vec![acct("A")], vec![fresh], vec![0], 0, None, 0, false, false).is_none());
    assert!(KoloSavingsContract::restore(None, vec![], vec![], vec![], 0, None, 0, false, true).is_none());
}

fn config_copy(c: &KoloSavingsContract) -> kolo_savings::contract::GroupConfig {
    let cfg = c.config().unwrap();
    kolo_savings::contract::GroupConfig {
        admin: cfg.admin.duplicate(),
        token: cfg.token.duplicate(),
        name: cfg.name.clone(),
        contribution_amount: cfg.contribution_amount,
        group_type: cfg.group_type,
        target_amount: cfg.target_amount,
        lock_until_target: cfg.lock_until_target,
        cycle_length_ledgers: cfg.cycle_length_ledgers,
    }
}

fn member(total: i128, last: u32, current: i128) -> MemberState {
    MemberState {
        total_contributions: total,
        last_contribution_cycle_id: last,
        has_received_payout: false,
        current_cycle_contribution: current,
    }
}

#[test]
fn counters_at_their_limits_are_refused() {
    let base = rotational_with(&["A"]);
    let mut c = KoloSavingsContract::restore(
        Some(config_copy(&base)),
        vec![acct("A")],
        vec![member(0, 0, 0)],
        vec![0],
        0,
        None,
        u32::MAX,
        false,
        false,
    )
    .unwrap();
    let out = c.reset_cycle();
    assert!(out.auth.is_some());
    assert_eq!(err(out), GroupError::CycleIdOverflow);
    assert_eq!(c.current_cycle_id(), u32::MAX);

    let refund_ahead = KoloSavingsContract::restore(
        Some(config_copy(&base)),
        vec![acct("A")],
        vec![member(100, 1, 100)],
        vec![2],
        0,
        Some(1),
        1,
        false,
        false,
    );
    assert!(refund_ahead.is_none());

    let mut c = KoloSavingsContract::restore(
        Some(config_copy(&base)),
        vec![acct("A")],
        vec![member(0, 0, 0)],
        vec![1],
        0,
        Some(i128::MAX),
        1,
        false,
        false,
    )
    .unwrap();
    assert_eq!(err(c.contribute(acct("A"), 100)), GroupError::MemberCountOverflow);
    assert_eq!(c.cycle_member_count(), Some(i128::MAX));

    let negative = KoloSavingsContract::restore(
        Some(config_copy(&base)),
        vec![acct("A")],
        vec![member(-100, 1, 100)],
        vec![0],
        0,
        Some(1),
        1,
        false,
        true,
    );
    assert!(negative.is_none());
}

#[test]
fn goal_based_total_overflow_is_refused() {
    let mut c = group(GroupType::GoalBased, None, false);
    ok(c.add_member(acct("A")));
    ok(c.contribute(acct("A"), i128::MAX));
    ok(c.reset_cycle());
    assert_eq!(err(c.contribute(acct("A"), 1)), GroupError::ContributionOverflow);
    assert_eq!(c.get_contribution(&acct("A")), i128::MAX);
}

#[test]
fn guard_blocks_reentrant_calls() {
    let base = rotational_with(&["A"]);
    let mut c = KoloSavingsContract::restore(
        Some(config_copy(&base)),
        vec![acct("A")],
        vec![member(100, 1, 100)],
        vec![0],
        0,
        Some(1),
        1,
        true,
        false,
    )
    .unwrap();
    for out in [
        c.contribute(acct("A"), 100),
        c.payout(acct("A"), 1000),
        c.remove_member(acct("A")),
        c.withdraw_savings(acct("A"), 1),
        c.reset_cycle(),
        c.reset_rotation(),
    ] {
        assert!(out.auth.is_none());
        assert_eq!(err(out), GroupError::ReentrancyDetected);
    }
    c.finish_payout();
    ok(c.reset_rotation());
}

#[test]
fn settings_stay_fixed() {
    let mut c = rotational_with(&["A", "B"]);
    let before = config_copy(&c);
    ok(c.contribute(acct("A"), 100));
    ok(c.payout(acct("A"), 1000));
    c.finish_payout();
    ok(c.pause());
    ok(c.emergency_withdraw(acct("A")));
    ok(c.unpause());
    ok(c.reset_cycle());
    ok(c.reset_rotation());
    ok(c.remove_member(acct("B")));
    let after = c.config().unwrap();
    assert!(after.admin.same_as(&before.admin));
    assert!(after.token.same_as(&before.token));
    assert_eq!(after.name, before.name);
    assert_eq!(after.contribution_amount, before.contribution_amount);
    assert_eq!(after.group_type, before.group_type);
    assert_eq!(after.target_amount, before.target_amount);
    assert_eq!(after.cycle_length_ledgers, before.cycle_length_ledgers);
}

#[test]
fn add_member_twice_changes_nothing() {
    let mut c = rotational_with(&["A", "B"]);
    ok(c.contribute(acct("B"), 100));
    ok(c.add_member(acct("B")));
    assert_eq!(c.members().len(), 2);
    assert_eq!(c.get_contribution(&acct("B")), 100);
    assert_eq!(c.cycle_member_count(), Some(2));
}

#[test]
fn the_member_count_is_frozen_at_the_first_contribution() {
    let mut c = rotational_with(&["A", "B"]);
    ok(c.contribute(acct("A"), 100));
    assert_eq!(c.cycle_member_count(), Some(2));
    assert_eq!(err(c.payout(acct("A"), 199)), GroupError::InsufficientPoolFunds);
    let e = ok(c.payout(acct("A"), 200));
    assert_eq!(transfer_to(&e, "A"), 200);
}

#[test]
fn any_removal_lowers_the_member_count() {
    let mut c = rotational_with(&["A", "B", "C"]);
    ok(c.contribute(acct("A"), 100));
    assert_eq!(c.cycle_member_count(), Some(3));
    let e = ok(c.remove_member(acct("B")));
    assert!(e.transfer.is_none());
    assert_eq!(c.cycle_member_count(), Some(2));
    ok(c.remove_member(acct("C")));
    assert_eq!(c.cycle_member_count(), Some(1));
    ok(c.add_member(acct("D")));
    ok(c.remove_member(acct("D")));
    assert_eq!(c.cycle_member_count(), None);
}

#[test]
fn a_refunded_member_counts_again_when_paying_again() {
    let mut c = rotational_with(&["A", "B", "C"]);
    ok(c.contribute(acct("A"), 100));
    ok(c.pause());
    ok(c.emergency_withdraw(acct("A")));
    assert_eq!(c.cycle_member_count(), Some(2));
    assert_eq!(c.refund_cycles().to_vec(), vec![1, 0, 0]);
    ok(c.unpause());
    ok(c.contribute(acct("B"), 100));
    assert_eq!(c.cycle_member_count(), Some(2));
    ok(c.contribute(acct("A"), 100));
    assert_eq!(c.cycle_member_count(), Some(3));
    assert_eq!(c.refund_cycles().to_vec(), vec![0, 0, 0]);
}

#[test]
fn a_member_who_joins_mid_cycle_is_not_counted() {
    let mut c = rotational_with(&["A", "B"]);
    ok(c.contribute(acct("A"), 100));
    ok(c.add_member(acct("C")));
    ok(c.contribute(acct("C"), 100));
    assert_eq!(c.cycle_member_count(), Some(2));
    ok(c.reset_cycle());
    ok(c.contribute(acct("C"), 100));
    assert_eq!(c.cycle_member_count(), Some(3));
}

#[test]
fn initialize_needs_no_authorization() {
    let mut c = KoloSavingsContract::new();
    let out = c.initialize(
        acct("ADMIN"),
        acct("TOKEN"),
        b"Test Group".to_vec(),
        1000,
        GroupType::Rotational,
        None,
        false,
        None,
    );
    assert!(out.auth.is_none());
    assert!(out.result.is_ok());
    assert_eq!(c.members().len(), 0);
}
