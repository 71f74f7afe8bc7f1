//! The basic savings group: a fixed contribution per member, and payouts of
//! any amount that the admin directs to a member.
use vstd::prelude::*;
use crate::account::{distinct_accounts, lemma_index_of_distinct, Account};
use crate::effects::{
    auth_of, pay_in_from, pay_out_to, AuthRequest, AuthScope, AuthScopeView, AuthView, Effects,
    EffectsView, Outcome, OutcomeView, Party, Transfer, TransferView,
};
use crate::error::GroupError;

verus! {

/// The settings fixed when the group is initialized.
pub struct BasicConfig {
    pub admin: Account,
    pub token: Account,
    pub name: Vec<u8>,
    pub contribution_amount: i128,
}

pub struct BasicConfigView {
    pub admin: Seq<u8>,
    pub token: Seq<u8>,
    pub name: Seq<u8>,
    pub contribution_amount: i128,
}

impl View for BasicConfig {
    type V = BasicConfigView;

    open spec fn view(&self) -> BasicConfigView {
        BasicConfigView {
            admin: self.admin@,
            token: self.token@,
            name: self.name@,
            contribution_amount: self.contribution_amount,
        }
    }
}

/// The mathematical state of a basic group: its settings (none before it is
/// initialized), its members and what each has contributed in all.
#[verifier::ext_equal]
pub struct BasicView {
    pub config: Option<BasicConfigView>,
    pub accounts: Seq<Seq<u8>>,
    pub contributions: Seq<i128>,
}

/// What a step of the basic group does (see [`crate::contract::Step`]).
pub struct BasicStep {
    pub auth: Option<AuthView>,
    pub result: Result<(BasicView, EffectsView), GroupError>,
}

pub open spec fn basic_refuse(auth: Option<AuthView>, e: GroupError) -> BasicStep {
    BasicStep { auth, result: Err(e) }
}

pub open spec fn basic_accept(
    auth: Option<AuthView>,
    s: BasicView,
    t: Option<TransferView>,
) -> BasicStep {
    BasicStep { auth, result: Ok((s, EffectsView { transfer: t, event: None })) }
}

impl BasicView {
    pub open spec fn wf(self) -> bool {
        &&& self.accounts.len() == self.contributions.len()
        &&& self.accounts.len() <= u32::MAX
        &&& self.accounts.no_duplicates()
        &&& (self.config is None ==> self.accounts.len() == 0)
    }

    pub open spec fn is_member(self, a: Seq<u8>) -> bool {
        self.accounts.contains(a)
    }

    /// What `a` has contributed in all; zero for an account that is no member.
    pub open spec fn contribution_of(self, a: Seq<u8>) -> i128 {
        if self.is_member(a) {
            self.contributions[self.accounts.index_of(a)]
        } else {
            0
        }
    }

    pub open spec fn realizes(
        self,
        post: BasicView,
        out: OutcomeView<EffectsView, GroupError>,
        step: BasicStep,
    ) -> bool {
        &&& out.auth == step.auth
        &&& match step.result {
            Ok((s2, e)) => post == s2 && out.result == Ok::<EffectsView, GroupError>(e),
            Err(err) => post == self && out.result == Err::<EffectsView, GroupError>(err),
        }
    }

    /// Setting the group up, once.
    pub open spec fn initialize_step(
        self,
        admin: Seq<u8>,
        token: Seq<u8>,
        name: Seq<u8>,
        contribution_amount: i128,
    ) -> BasicStep {
        if self.config is Some {
            basic_refuse(None, GroupError::AlreadyInitialized)
        } else {
            basic_accept(
                None,
                BasicView {
                    config: Some(BasicConfigView { admin, token, name, contribution_amount }),
                    accounts: Seq::empty(),
                    contributions: Seq::empty(),
                },
                None,
            )
        }
    }

    /// Admitting `new_member` (admin only); a no-op for a member.
    pub open spec fn add_member_step(self, new_member: Seq<u8>) -> BasicStep {
        match self.config {
            None => basic_refuse(None, GroupError::NotInitialized),
            Some(c) => {
                let auth = auth_of(c.admin, AuthScopeView::Invocation);
                if self.is_member(new_member) {
                    basic_accept(auth, self, None)
                } else if self.accounts.len() >= u32::MAX {
                    basic_refuse(auth, GroupError::TooManyMembers)
                } else {
                    basic_accept(
                        auth,
                        BasicView {
                            accounts: self.accounts.push(new_member),
                            contributions: self.contributions.push(0),
                            ..self
                        },
                        None,
                    )
                }
            },
        }
    }

    /// Paying exactly the fixed amount into the pool.
    pub open spec fn contribute_step(self, member: Seq<u8>, amount: i128) -> BasicStep {
        let auth = auth_of(member, AuthScopeView::Invocation);
        match self.config {
            None => basic_refuse(auth, GroupError::NotInitialized),
            Some(c) => if amount != c.contribution_amount {
                basic_refuse(auth, GroupError::WrongContributionAmount)
            } else if !self.is_member(member) {
                basic_refuse(auth, GroupError::NotAMember)
            } else {
                let i = self.accounts.index_of(member);
                let total = self.contributions[i] + amount;
                if total > i128::MAX || total < i128::MIN {
                    basic_refuse(auth, GroupError::ContributionOverflow)
                } else {
                    basic_accept(
                        auth,
                        BasicView {
                            contributions: self.contributions.update(i, total as i128),
                            ..self
                        },
                        pay_in_from(member, amount),
                    )
                }
            },
        }
    }

    /// Paying `amount` to a member (admin only), out of the
    /// `contract_balance` the contract holds.
    pub open spec fn payout_step(
        self,
        recipient: Seq<u8>,
        amount: i128,
        contract_balance: i128,
    ) -> BasicStep {
        match self.config {
            None => basic_refuse(None, GroupError::NotInitialized),
            Some(c) => {
                let auth = auth_of(c.admin, AuthScopeView::Invocation);
                if !self.is_member(recipient) {
                    basic_refuse(auth, GroupError::RecipientNotAMember)
                } else if amount > contract_balance {
                    basic_refuse(auth, GroupError::InsufficientFunds)
                } else {
                    basic_accept(auth, self, pay_out_to(recipient, amount))
                }
            },
        }
    }
}

/// The ledger state of one basic savings group.
pub struct KoloSavingsContract {
    config: Option<BasicConfig>,
    accounts: Vec<Account>,
    contributions: Vec<i128>,
}

impl KoloSavingsContract {
    pub closed spec fn abstract_state(&self) -> BasicView {
        BasicView {
            config: match self.config {
                Some(c) => Some(c@),
                None => None,
            },
            accounts: self.accounts@.map_values(|a: Account| a@),
            contributions: self.contributions@,
        }
    }
}

impl View for KoloSavingsContract {
    type V = BasicView;

    open spec fn view(&self) -> BasicView {
        self.abstract_state()
    }
}

impl KoloSavingsContract {
    /// The empty ledger of a group that is not initialized yet.
    pub fn new() -> (r: KoloSavingsContract)
        ensures
            r@.wf(),
            r@.config is None,
    {
        let r = KoloSavingsContract { config: None, accounts: Vec::new(), contributions: Vec::new() };
        assert(r@.accounts =~= Seq::<Seq<u8>>::empty());
        r
    }

    fn find(&self, a: &Account) -> (r: Option<usize>)
        requires
            self@.wf(),
        ensures
            match r {
                Some(i) => {
                    &&& i < self@.accounts.len()
                    &&& self@.is_member(a@)
                    &&& self@.accounts.index_of(a@) == i
                },
                None => !self@.is_member(a@),
            },
    {
        let n = self.accounts.len();
        let mut i: usize = 0;
        while i < n
            invariant
                n == self.accounts@.len(),
                self@.wf(),
                i <= n,
                forall|j: int| 0 <= j < i ==> self@.accounts[j] != a@,
            decreases n - i,
        {
            assert(self@.accounts[i as int] == self.accounts@[i as int]@);
            if self.accounts[i].same_as(a) {
                proof {
                    lemma_index_of_distinct(self@.accounts, i as int);
                }
                return Some(i);
            }
            i = i + 1;
        }
        None
    }

    /// Initializes the group; a group is initialized once.
    pub fn initialize(
        &mut self,
        admin: Account,
        token: Account,
        name: Vec<u8>,
        contribution_amount: i128,
    ) -> (out: Outcome<Effects, GroupError>)
        requires
            old(self)@.wf(),
        ensures
            final(self)@.wf(),
            old(self)@.realizes(
                final(self)@,
                out@,
                old(self)@.initialize_step(admin@, token@, name@, contribution_amount),
            ),
    {
        if self.config.is_some() {
            return Outcome { auth: None, result: Err(GroupError::AlreadyInitialized) };
        }
        self.config = Some(BasicConfig { admin, token, name, contribution_amount });
        self.accounts = Vec::new();
        self.contributions = Vec::new();
        assert(self@.accounts =~= Seq::<Seq<u8>>::empty());
        Outcome { auth: None, result: Ok(Effects { transfer: None, event: None }) }
    }

    /// Adds a member (admin only); adding a member again changes nothing.
    pub fn add_member(&mut self, new_member: Account) -> (out: Outcome<Effects, GroupError>)
        requires
            old(self)@.wf(),
        ensures
            final(self)@.wf(),
            old(self)@.realizes(final(self)@, out@, old(self)@.add_member_step(new_member@)),
    {
        let admin = match &self.config {
            Some(c) => c.admin.duplicate(),
            None => {
                return Outcome { auth: None, result: Err(GroupError::NotInitialized) };
            },
        };
        let auth = Some(AuthRequest { signer: admin, scope: AuthScope::Invocation });
        if self.find(&new_member).is_none() {
            if self.accounts.len() >= u32::MAX as usize {
                return Outcome { auth, result: Err(GroupError::TooManyMembers) };
            }
            let ghost pre = self@;
            self.accounts.push(new_member);
            self.contributions.push(0);
            proof {
                assert(self@.accounts =~= pre.accounts.push(new_member@));
                assert forall|i: int, j: int|
                    0 <= i < self@.accounts.len() && 0 <= j < self@.accounts.len() && i
                        != j implies self@.accounts[i] != self@.accounts[j] by {
                    if i == pre.accounts.len() as int {
                        assert(self@.accounts[j] == pre.accounts[j]);
                        assert(pre.accounts.contains(pre.accounts[j]));
                    } else if j == pre.accounts.len() as int {
                        assert(self@.accounts[i] == pre.accounts[i]);
                        assert(pre.accounts.contains(pre.accounts[i]));
                    }
                }
            }
        }
        Outcome { auth, result: Ok(Effects { transfer: None, event: None }) }
    }

    /// Pays exactly the fixed amount into the pool.
    pub fn contribute(&mut self, member: Account, amount: i128) -> (out: Outcome<
        Effects,
        GroupError,
    >)
        requires
            old(self)@.wf(),
        ensures
            final(self)@.wf(),
            old(self)@.realizes(final(self)@, out@, old(self)@.contribute_step(member@, amount)),
    {
        let auth = Some(AuthRequest { signer: member.duplicate(), scope: AuthScope::Invocation });
        let expected = match &self.config {
            Some(c) => c.contribution_amount,
            None => {
                return Outcome { auth, result: Err(GroupError::NotInitialized) };
            },
        };
        if amount != expected {
            return Outcome { auth, result: Err(GroupError::WrongContributionAmount) };
        }
        let i = match self.find(&member) {
            Some(i) => i,
            None => {
                return Outcome { auth, result: Err(GroupError::NotAMember) };
            },
        };
        let total = match self.contributions[i].checked_add(amount) {
            Some(t) => t,
            None => {
                return Outcome { auth, result: Err(GroupError::ContributionOverflow) };
            },
        };
        self.contributions.set(i, total);
        let transfer = Transfer { from: Party::Account(member), to: Party::Contract, amount };
        Outcome { auth, result: Ok(Effects { transfer: Some(transfer), event: None }) }
    }

    /// Pays `amount` to a member (admin only), given what the contract holds
    /// of the token.
    pub fn payout(&self, recipient: Account, amount: i128, contract_balance: i128) -> (out: Outcome<
        Effects,
        GroupError,
    >)
        requires
            self@.wf(),
        ensures
            self@.realizes(self@, out@, self@.payout_step(recipient@, amount, contract_balance)),
    {
        let admin = match &self.config {
            Some(c) => c.admin.duplicate(),
            None => {
                return Outcome { auth: None, result: Err(GroupError::NotInitialized) };
            },
        };
        let auth = Some(AuthRequest { signer: admin, scope: AuthScope::Invocation });
        if self.find(&recipient).is_none() {
            return Outcome { auth, result: Err(GroupError::RecipientNotAMember) };
        }
        if amount > contract_balance {
            return Outcome { auth, result: Err(GroupError::InsufficientFunds) };
        }
        let transfer = Transfer { from: Party::Contract, to: Party::Account(recipient), amount };
        Outcome { auth, result: Ok(Effects { transfer: Some(transfer), event: None }) }
    }

    /// What a member has contributed in all; zero for an account that is no
    /// member.
    pub fn get_contribution(&self, member: &Account) -> (r: i128)
        requires
            self@.wf(),
        ensures
            r == self@.contribution_of(member@),
    {
        match self.find(member) {
            Some(i) => self.contributions[i],
            None => 0,
        }
    }

    /// The token the group saves in.
    pub fn token(&self) -> (r: Result<&Account, GroupError>)
        ensures
            match r {
                Ok(t) => self@.config is Some && t@ == self@.config->Some_0.token,
                Err(e) => self@.config is None && e == GroupError::NotInitialized,
            },
    {
        match &self.config {
            Some(c) => Ok(&c.token),
            None => Err(GroupError::NotInitialized),
        }
    }

    /// Rebuilds a group from its stored parts; `None` when they do not form a
    /// well-formed group.
    pub fn restore(config: Option<BasicConfig>, accounts: Vec<Account>, contributions: Vec<i128>) -> (r:
        Option<KoloSavingsContract>)
        ensures
            ({
                let v = BasicView {
                    config: match config {
                        Some(c) => Some(c@),
                        None => None,
                    },
                    accounts: accounts@.map_values(|a: Account| a@),
                    contributions: contributions@,
                };
                match r {
                    Some(k) => k@ == v && v.wf(),
                    None => !v.wf(),
                }
            }),
    {
        let k = KoloSavingsContract { config, accounts, contributions };
        let n = k.accounts.len();
        if n != k.contributions.len() || n > u32::MAX as usize || (k.config.is_none() && n != 0) {
            return None;
        }
        if !distinct_accounts(&k.accounts) {
            return None;
        }
        Some(k)
    }

    /// The group's settings; none before it is initialized.
    pub fn config(&self) -> (r: Option<&BasicConfig>)
        ensures
            match r {
                Some(c) => self@.config == Some(c@),
                None => self@.config is None,
            },
    {
        match &self.config {
            Some(c) => Some(c),
            None => None,
        }
    }

    /// The members, in the order they joined.
    pub fn members(&self) -> (r: &Vec<Account>)
        ensures
            r@.map_values(|a: Account| a@) == self@.accounts,
    {
        &self.accounts
    }

    /// What each member has contributed, in the order they joined.
    pub fn contributions(&self) -> (r: &Vec<i128>)
        ensures
            r@ == self@.contributions,
    {
        &self.contributions
    }
}

} // verus!
