use kolo_savings::account::Account;
use kolo_savings::effects::{AuthScope, Party};
use kolo_savings::error::GroupError;
use kolo_savings::savings_group::KoloSavingsContract;

fn acct(s: &str) -> Account {
    Account::from_bytes(s.as_bytes().to_vec())
}

fn initialized() -> KoloSavingsContract {
    let mut c = KoloSavingsContract::new();
    let out = c.initialize(acct("ADMIN"), acct("TOKEN"), b"Test Group".to_vec(), 1000);
    assert!(out.result.is_ok());
    c
}

#[test]
fn test_initialize() {
    let mut client = KoloSavingsContract::new();
    let admin = acct("GADMIN");
    let token = acct("GTOKEN");
    let name = b"Test Group".to_vec();
    let contribution_amount = 1000;

    let out = client.initialize(admin, token, name, contribution_amount);
    assert!(out.auth.is_none());
    assert!(out.result.is_ok());
    let config = client.config().unwrap();
    assert_eq!(config.contribution_amount, 1000);
    assert_eq!(config.name, b"Test Group".to_vec());
    assert!(config.admin.same_as(&acct("GADMIN")));
    assert!(client.token().unwrap().same_as(&acct("GTOKEN")));
}

#[test]
fn test_double_initialize() {
    let mut client = KoloSavingsContract::new();
    let admin = acct("GADMIN");
    let token = acct("GTOKEN");
    let contribution_amount = 1000;

    let first = client.initialize(
        admin.duplicate(),
        token.duplicate(),
        b"Test Group".to_vec(),
        contribution_amount,
    );
    assert!(first.result.is_ok());
    let second = client.initialize(admin, token, b"Test Group".to_vec(), contribution_amount);
    assert!(matches!(second.result, Err(GroupError::AlreadyInitialized)));
}

#[test]
fn test_add_member() {
    let mut client = KoloSavingsContract::new();
    let admin = acct("GADMIN");
    let token = acct("GTOKEN");
    let contribution_amount = 1000;
    assert!(client
        .initialize(admin, token, b"Test Group".to_vec(), contribution_amount)
        .result
        .is_ok());

    let member1 = acct("GMEMBER1");
    let out = client.add_member(member1.duplicate());
    assert!(out.result.is_ok());
    let auth = out.auth.unwrap();
    assert!(auth.signer.same_as(&acct("GADMIN")));
    assert!(matches!(auth.scope, AuthScope::Invocation));
    assert_eq!(client.members().len(), 1);
    assert!(client.members()[0].same_as(&member1));
    assert_eq!(client.get_contribution(&member1), 0);
}

#[test]
fn test_contribute_not_member() {
    let mut client = KoloSavingsContract::new();
    let admin = acct("GADMIN");
    let token = acct("CTOKEN");
    let contribution_amount = 1000;
    assert!(client
        .initialize(admin, token, b"Test Group".to_vec(), contribution_amount)
        .result
        .is_ok());

    let not_member = acct("GNOTMEMBER");
    let out = client.contribute(not_member, 1000);
    assert!(out.auth.unwrap().signer.same_as(&acct("GNOTMEMBER")));
    assert!(matches!(out.result, Err(GroupError::NotAMember)));
}

#[test]
fn basic_calls_before_initialize_are_refused() {
    let mut c = KoloSavingsContract::new();
    let out = c.add_member(acct("M"));
    assert!(out.auth.is_none());
    assert!(matches!(out.result, Err(GroupError::NotInitialized)));
    let out = c.contribute(acct("M"), 1000);
    assert!(out.auth.is_some());
    assert!(matches!(out.result, Err(GroupError::NotInitialized)));
    assert!(matches!(c.payout(acct("M"), 1, 10).result, Err(GroupError::NotInitialized)));
    assert!(matches!(c.token(), Err(GroupError::NotInitialized)));
    assert_eq!(c.get_contribution(&acct("M")), 0);
}

#[test]
fn basic_add_member_twice_keeps_one_entry() {
    let mut c = initialized();
    assert!(c.add_member(acct("M")).result.is_ok());
    assert!(c.add_member(acct("M")).result.is_ok());
    assert_eq!(c.members().len(), 1);
}

#[test]
fn basic_contributions_accumulate() {
    let mut c = initialized();
    assert!(c.add_member(acct("M")).result.is_ok());
    let out = c.contribute(acct("M"), 1000);
    let effects = out.result.unwrap();
    let t = effects.transfer.unwrap();
    assert_eq!(t.amount, 1000);
    assert!(matches!(t.from, Party::Account(ref a) if a.same_as(&acct("M"))));
    assert!(matches!(t.to, Party::Contract));
    assert!(c.contribute(acct("M"), 1000).result.is_ok());
    assert_eq!(c.get_contribution(&acct("M")), 2000);
    assert_eq!(c.contributions().to_vec(), vec![2000]);
}

#[test]
fn basic_contribution_must_be_exact() {
    let mut c = initialized();
    assert!(c.add_member(acct("M")).result.is_ok());
    assert!(matches!(
        c.contribute(acct("M"), 999).result,
        Err(GroupError::WrongContributionAmount)
    ));
    assert_eq!(c.get_contribution(&acct("M")), 0);
}

#[test]
fn basic_contribution_overflow_is_refused() {
    let mut c = KoloSavingsContract::new();
    assert!(c
        .initialize(acct("ADMIN"), acct("TOKEN"), b"Big".to_vec(), i128::MAX)
        .result
        .is_ok());
    assert!(c.add_member(acct("M")).result.is_ok());
    assert!(c.contribute(acct("M"), i128::MAX).result.is_ok());
    assert!(matches!(
        c.contribute(acct("M"), i128::MAX).result,
        Err(GroupError::ContributionOverflow)
    ));
    assert_eq!(c.get_contribution(&acct("M")), i128::MAX);
}

#[test]
fn basic_payout_rules() {
    let mut c = initialized();
    assert!(c.add_member(acct("M")).result.is_ok());
    assert!(matches!(
        c.payout(acct("X"), 10, 100).result,
        Err(GroupError::RecipientNotAMember)
    ));
    assert!(matches!(
        c.payout(acct("M"), 101, 100).result,
        Err(GroupError::InsufficientFunds)
    ));
    let out = c.payout(acct("M"), 100, 100);
    assert!(out.auth.unwrap().signer.same_as(&acct("ADMIN")));
    let t = out.result.unwrap().transfer.unwrap();
    assert_eq!(t.amount, 100);
    assert!(matches!(t.from, Party::Contract));
    assert!(matches!(t.to, Party::Account(ref a) if a.same_as(&acct("M"))));
}

#[test]
fn basic_restore_checks_the_parts() {
    let c = KoloSavingsContract::restore(None, vec![acct("A")], vec![0]);
    assert!(c.is_none());
    let c = KoloSavingsContract::restore(None, vec![], vec![]);
    assert!(c.is_some());
}
