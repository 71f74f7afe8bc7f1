//! What an accepted operation asks of the ledger around it: the authorization
//! that must be presented, the token transfer to make and the event to publish.
use vstd::prelude::*;
use crate::account::Account;

verus! {

/// One side of a token transfer.
pub enum Party {
    /// The savings-group contract itself.
    Contract,
    /// An ordinary account.
    Account(Account),
}

/// The mathematical value of a [`Party`].
pub enum PartyView {
    Contract,
    Account(Seq<u8>),
}

impl View for Party {
    type V = PartyView;

    open spec fn view(&self) -> PartyView {
        match self {
            Party::Contract => PartyView::Contract,
            Party::Account(a) => PartyView::Account(a@),
        }
    }
}

/// A transfer of `amount` units of the group's token.
pub struct Transfer {
    pub from: Party,
    pub to: Party,
    pub amount: i128,
}

pub struct TransferView {
    pub from: PartyView,
    pub to: PartyView,
    pub amount: i128,
}

impl View for Transfer {
    type V = TransferView;

    open spec fn view(&self) -> TransferView {
        TransferView { from: self.from@, to: self.to@, amount: self.amount }
    }
}

/// What the signer's authorization must cover.
pub enum AuthScope {
    /// The whole invocation, with all of its arguments.
    Invocation,
    /// Exactly one argument: the given account.
    Account(Account),
    /// No argument at all.
    Nothing,
}

pub enum AuthScopeView {
    Invocation,
    Account(Seq<u8>),
    Nothing,
}

impl View for AuthScope {
    type V = AuthScopeView;

    open spec fn view(&self) -> AuthScopeView {
        match self {
            AuthScope::Invocation => AuthScopeView::Invocation,
            AuthScope::Account(a) => AuthScopeView::Account(a@),
            AuthScope::Nothing => AuthScopeView::Nothing,
        }
    }
}

/// An authorization that `signer` must give for the operation to proceed.
pub struct AuthRequest {
    pub signer: Account,
    pub scope: AuthScope,
}

pub struct AuthView {
    pub signer: Seq<u8>,
    pub scope: AuthScopeView,
}

impl View for AuthRequest {
    type V = AuthView;

    open spec fn view(&self) -> AuthView {
        AuthView { signer: self.signer@, scope: self.scope@ }
    }
}

/// An event that an accepted operation publishes.
pub enum Event {
    Initialized { admin: Account, token: Account, name: Vec<u8>, contribution_amount: i128 },
    MemberAdded(Account),
    MemberRemoved(Account),
    Contributed(Account, i128),
    PaidOut(Account, i128),
    Withdrawn(Account, i128),
    EmergencyWithdrawn(Account, i128),
    Paused,
    Unpaused,
    CycleReset,
    RotationReset,
}

pub enum EventView {
    Initialized { admin: Seq<u8>, token: Seq<u8>, name: Seq<u8>, contribution_amount: i128 },
    MemberAdded(Seq<u8>),
    MemberRemoved(Seq<u8>),
    Contributed(Seq<u8>, i128),
    PaidOut(Seq<u8>, i128),
    Withdrawn(Seq<u8>, i128),
    EmergencyWithdrawn(Seq<u8>, i128),
    Paused,
    Unpaused,
    CycleReset,
    RotationReset,
}

impl View for Event {
    type V = EventView;

    open spec fn view(&self) -> EventView {
        match self {
            Event::Initialized { admin, token, name, contribution_amount } => EventView::Initialized {
                admin: admin@,
                token: token@,
                name: name@,
                contribution_amount: *contribution_amount,
            },
            Event::MemberAdded(a) => EventView::MemberAdded(a@),
            Event::MemberRemoved(a) => EventView::MemberRemoved(a@),
            Event::Contributed(a, x) => EventView::Contributed(a@, *x),
            Event::PaidOut(a, x) => EventView::PaidOut(a@, *x),
            Event::Withdrawn(a, x) => EventView::Withdrawn(a@, *x),
            Event::EmergencyWithdrawn(a, x) => EventView::EmergencyWithdrawn(a@, *x),
            Event::Paused => EventView::Paused,
            Event::Unpaused => EventView::Unpaused,
            Event::CycleReset => EventView::CycleReset,
            Event::RotationReset => EventView::RotationReset,
        }
    }
}

/// The ledger work that an accepted operation leaves to be done.
pub struct Effects {
    pub transfer: Option<Transfer>,
    pub event: Option<Event>,
}

pub struct EffectsView {
    pub transfer: Option<TransferView>,
    pub event: Option<EventView>,
}

impl View for Effects {
    type V = EffectsView;

    open spec fn view(&self) -> EffectsView {
        EffectsView {
            transfer: match self.transfer {
                Some(t) => Some(t@),
                None => None,
            },
            event: match self.event {
                Some(e) => Some(e@),
                None => None,
            },
        }
    }
}

/// The outcome of an operation: the authorization it demands, if it gets as
/// far as demanding one, and its result. Checks that precede the
/// authorization refuse with `auth == None`; once an authorization is
/// demanded it must be given whatever the result.
pub struct Outcome<T, E> {
    pub auth: Option<AuthRequest>,
    pub result: Result<T, E>,
}

pub struct OutcomeView<T, E> {
    pub auth: Option<AuthView>,
    pub result: Result<T, E>,
}

impl<T: View, E> View for Outcome<T, E> {
    type V = OutcomeView<T::V, E>;

    open spec fn view(&self) -> OutcomeView<T::V, E> {
        OutcomeView {
            auth: match self.auth {
                Some(a) => Some(a@),
                None => None,
            },
            result: match self.result {
                Ok(t) => Ok(t@),
                Err(e) => Err(e),
            },
        }
    }
}

/// An authorization request for `signer` over the scope `scope`.
pub open spec fn auth_of(signer: Seq<u8>, scope: AuthScopeView) -> Option<AuthView> {
    Some(AuthView { signer, scope })
}

/// A transfer from the contract to the account `to`.
pub open spec fn pay_out_to(to: Seq<u8>, amount: i128) -> Option<TransferView> {
    Some(TransferView { from: PartyView::Contract, to: PartyView::Account(to), amount })
}

/// A transfer from the account `from` into the contract.
pub open spec fn pay_in_from(from: Seq<u8>, amount: i128) -> Option<TransferView> {
    Some(TransferView { from: PartyView::Account(from), to: PartyView::Contract, amount })
}

} // verus!
