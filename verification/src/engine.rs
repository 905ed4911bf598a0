//! The ledger engine: decode, authorize, compute, commit.

use vstd::prelude::*;
use crate::account::{AccountState, Receipt, UserAccount};
use crate::error::LedgerError;
use crate::guard::{authorized, AuthorizationGuard};
use crate::identity::{keys_of, Identity};
use crate::instruction::{decode, Instruction, InstructionView};
use crate::store::{AccountStore, StoreState};

verus! {

/// The receipt of a registration: nothing awarded, nothing held.
pub open spec fn opening_receipt() -> Receipt {
    Receipt { awarded: 0, balance: 0 }
}

/// The referral of `referred` by `referrer`.
///
/// It is refused with `NotFound` when the referrer has no account, with
/// `AlreadyReferred` when the referrer has referred the identity before,
/// with `AlreadyExists` when the identity is registered, and with
/// `ArithmeticOverflow` when the reward does not fit the referrer's
/// balance or no account number is left. Otherwise the referred identity
/// gets a fresh account, and the referrer the identity in its list and
/// the reward.
pub open spec fn refer(state: StoreState, referrer: Seq<u8>, referred: Seq<u8>) -> (
    StoreState,
    Result<Receipt, LedgerError>,
) {
    if !state.accounts.contains_key(referrer) {
        (state, Err(LedgerError::NotFound))
    } else if state.accounts[referrer].referrals.contains(referred) {
        (state, Err(LedgerError::AlreadyReferred))
    } else if state.accounts.contains_key(referred) {
        (state, Err(LedgerError::AlreadyExists))
    } else {
        match state.accounts[referrer].refer(referred) {
            Err(e) => (state, Err(e)),
            Ok(_) => match state.create(referred).1 {
                Err(e) => (state, Err(e)),
                Ok(_) => state.create(referred).0.update(
                    referrer,
                    InstructionView::Referral { referred },
                ),
            },
        }
    }
}

/// One step of the ledger: what `instruction`, issued by `caller` on the
/// account of `target`, makes of `state`, and what the caller is told.
///
/// Authorization comes first. A refused instruction leaves the state as
/// it is.
pub open spec fn step(
    state: StoreState,
    admins: Set<Seq<u8>>,
    caller: Seq<u8>,
    target: Seq<u8>,
    instruction: InstructionView,
) -> (StoreState, Result<Receipt, LedgerError>) {
    if !authorized(admins, caller, target, instruction) {
        (state, Err(LedgerError::Unauthorized))
    } else {
        match instruction {
            InstructionView::Initialize => match state.create(target).1 {
                Ok(_) => (state.create(target).0, Ok(opening_receipt())),
                Err(e) => (state, Err(e)),
            },
            InstructionView::Referral { referred } => refer(state, target, referred),
            _ => state.update(target, instruction),
        }
    }
}

/// One step of the ledger on an instruction in its wire form: a buffer
/// that does not decode is refused with `DecodeError`.
pub open spec fn process(
    state: StoreState,
    admins: Set<Seq<u8>>,
    caller: Seq<u8>,
    target: Seq<u8>,
    instruction_data: Seq<u8>,
) -> (StoreState, Result<Receipt, LedgerError>) {
    match decode(instruction_data) {
        Err(e) => (state, Err(e)),
        Ok(instruction) => step(state, admins, caller, target, instruction),
    }
}

/// The ledger engine: an account store and the guard that decides who
/// may change it. Its view is the [`StoreState`] of its store.
#[derive(Debug)]
pub struct LedgerEngine {
    store: AccountStore,
    guard: AuthorizationGuard,
}

impl View for LedgerEngine {
    type V = StoreState;

    closed spec fn view(&self) -> StoreState {
        self.store@
    }
}

impl LedgerEngine {
    /// The credentials that the engine accepts as administrators.
    pub closed spec fn admins(&self) -> Set<Seq<u8>> {
        self.guard.admins()
    }

    /// An engine without accounts that accepts `admins` as administrators.
    pub fn new(admins: Vec<Identity>) -> (r: LedgerEngine)
        ensures
            r@ == StoreState::empty(),
            r.admins() == keys_of(admins@).to_set(),
    {
        LedgerEngine { store: AccountStore::new(), guard: AuthorizationGuard::new(admins) }
    }

    /// The account store of the engine.
    pub fn store(&self) -> (r: &AccountStore)
        ensures
            r@ == self@,
    {
        &self.store
    }

    /// The guard of the engine.
    pub fn guard(&self) -> (r: &AuthorizationGuard)
        ensures
            r.admins() == self.admins(),
    {
        &self.guard
    }

    /// The account registered under `identity`, if there is one.
    pub fn get(&self, identity: &Identity) -> (r: Option<&UserAccount>)
        ensures
            self@.wf(),
            match r {
                Some(account) => self@.get(identity@) == Some(account@),
                None => self@.get(identity@) is None,
            },
    {
        self.store.get(identity)
    }

    /// Tells what the referral of `referred` by `referrer` would return.
    fn check_referral(&self, referrer: &Identity, referred: &Identity, instruction: &Instruction) -> (r:
        Result<Receipt, LedgerError>)
        requires
            instruction@ == (InstructionView::Referral { referred: referred@ }),
        ensures
            self@.wf(),
            r == refer(self@, referrer@, referred@).1,
            r is Ok ==> {
                &&& self@.accounts.contains_key(referrer@)
                &&& !self@.accounts.contains_key(referred@)
                &&& self@.create(referred@).1 is Ok
                &&& self@.accounts[referrer@].apply(instruction@) is Ok
            },
    {
        let account = match self.store.get(referrer) {
            Some(account) => account,
            None => {
                return Err(LedgerError::NotFound);
            },
        };
        if account.has_referred(referred) {
            return Err(LedgerError::AlreadyReferred);
        }
        if self.store.contains(referred) {
            return Err(LedgerError::AlreadyExists);
        }
        let receipt = account.outcome(instruction)?;
        if self.store.counter() == u32::MAX {
            return Err(LedgerError::ArithmeticOverflow);
        }
        Ok(receipt)
    }

    /// Tells what `instruction`, issued by `caller` on the account of
    /// `target`, would return, without changing anything.
    pub fn preview(&self, caller: &Identity, target: &Identity, instruction: &Instruction) -> (r:
        Result<Receipt, LedgerError>)
        ensures
            self@.wf(),
            r == step(self@, self.admins(), caller@, target@, instruction@).1,
    {
        proof {
            use_type_invariant(&self.store);
            self.store.lemma_view_wf();
        }
        self.guard.authorize(caller, target, instruction)?;
        match instruction {
            Instruction::Initialize => {
                if self.store.contains(target) {
                    Err(LedgerError::AlreadyExists)
                } else if self.store.counter() == u32::MAX {
                    Err(LedgerError::ArithmeticOverflow)
                } else {
                    Ok(Receipt { awarded: 0, balance: 0 })
                }
            },
            Instruction::Referral { referred } => self.check_referral(
                target,
                referred,
                instruction,
            ),
            _ => match self.store.get(target) {
                Some(account) => account.outcome(instruction),
                None => Err(LedgerError::NotFound),
            },
        }
    }

    /// Applies `instruction`, issued by `caller` on the account of `target`.
    ///
    /// The engine takes the step that [`step`] describes: on success the
    /// state is the next state and the receipt tells what the target
    /// gained; on failure the state is unchanged and the error tells why.
    pub fn apply(&mut self, caller: &Identity, target: &Identity, instruction: &Instruction) -> (r:
        Result<Receipt, LedgerError>)
        ensures
            old(self)@.wf(),
            final(self)@.wf(),
            final(self).admins() == old(self).admins(),
            (final(self)@, r) == step(
                old(self)@,
                old(self).admins(),
                caller@,
                target@,
                instruction@,
            ),
    {
        proof {
            use_type_invariant(&self.store);
            self.store.lemma_view_wf();
        }
        self.guard.authorize(caller, target, instruction)?;
        match instruction {
            Instruction::Initialize => match self.store.create(target.clone()) {
                Ok(_) => Ok(Receipt { awarded: 0, balance: 0 }),
                Err(e) => Err(e),
            },
            Instruction::Referral { referred } => {
                self.check_referral(target, referred, instruction)?;
                match self.store.create(referred.clone()) {
                    Ok(_) => self.store.update(target, instruction),
                    Err(e) => Err(e),
                }
            },
            _ => self.store.update(target, instruction),
        }
    }

    /// Registers `identity` and returns a copy of its fresh account.
    ///
    /// Fails with `AlreadyExists` when the identity is registered, and
    /// with `ArithmeticOverflow` when no account number is left.
    pub fn register_user(&mut self, identity: &Identity) -> (r: Result<UserAccount, LedgerError>)
        ensures
            old(self)@.wf(),
            final(self)@.wf(),
            final(self).admins() == old(self).admins(),
            final(self)@ == step(
                old(self)@,
                old(self).admins(),
                identity@,
                identity@,
                InstructionView::Initialize,
            ).0,
            match r {
                Ok(account) => old(self)@.create(identity@).1 == Ok::<AccountState, LedgerError>(
                    account@,
                ),
                Err(e) => old(self)@.create(identity@).1 == Err::<AccountState, LedgerError>(e),
            },
    {
        self.store.create(identity.clone())
    }

    /// A check-in of `user` at `now`, issued by the user.
    pub fn daily_check_in(&mut self, user: &Identity, now: u64) -> (r: Result<Receipt, LedgerError>)
        ensures
            old(self)@.wf(),
            final(self)@.wf(),
            final(self).admins() == old(self).admins(),
            (final(self)@, r) == step(
                old(self)@,
                old(self).admins(),
                user@,
                user@,
                InstructionView::CheckIn { timestamp: now },
            ),
    {
        self.apply(user, user, &Instruction::CheckIn { timestamp: now })
    }

    /// An ad view of `user` at `now`, issued by the user.
    pub fn view_ad(&mut self, user: &Identity, now: u64) -> (r: Result<Receipt, LedgerError>)
        ensures
            old(self)@.wf(),
            final(self)@.wf(),
            final(self).admins() == old(self).admins(),
            (final(self)@, r) == step(
                old(self)@,
                old(self).admins(),
                user@,
                user@,
                InstructionView::AdView { timestamp: now },
            ),
    {
        self.apply(user, user, &Instruction::AdView { timestamp: now })
    }

    /// The referral of `new_user` by `referrer`, issued by the referrer.
    pub fn refer_user(&mut self, referrer: &Identity, new_user: &Identity) -> (r: Result<
        Receipt,
        LedgerError,
    >)
        ensures
            old(self)@.wf(),
            final(self)@.wf(),
            final(self).admins() == old(self).admins(),
            (final(self)@, r) == step(
                old(self)@,
                old(self).admins(),
                referrer@,
                referrer@,
                InstructionView::Referral { referred: new_user@ },
            ),
    {
        self.apply(referrer, referrer, &Instruction::Referral { referred: new_user.clone() })
    }

    /// A community credit of `points` to `user` on the authority of
    /// `admin_key`.
    pub fn community_activity(&mut self, user: &Identity, admin_key: &Identity, points: u64) -> (r:
        Result<Receipt, LedgerError>)
        ensures
            old(self)@.wf(),
            final(self)@.wf(),
            final(self).admins() == old(self).admins(),
            (final(self)@, r) == step(
                old(self)@,
                old(self).admins(),
                admin_key@,
                user@,
                InstructionView::CommunityCredit { amount: points },
            ),
    {
        self.apply(admin_key, user, &Instruction::CommunityCredit { amount: points })
    }

    /// The balance of `user`; fails with `NotFound` when the user has no
    /// account.
    pub fn get_user_points(&self, user: &Identity) -> (r: Result<u64, LedgerError>)
        ensures
            self@.wf(),
            r == match self@.get(user@) {
                Some(account) => Ok::<u64, LedgerError>(account.points),
                None => Err::<u64, LedgerError>(LedgerError::NotFound),
            },
    {
        match self.store.get(user) {
            Some(account) => Ok(account.points()),
            None => Err(LedgerError::NotFound),
        }
    }
}

/// Processes an instruction in its wire form, issued by `caller` on the
/// account of `target`: decode, authorize, compute, commit.
///
/// The ledger takes the step that [`process`] describes. A buffer that
/// does not decode, a caller without authority and an instruction that
/// the target's state does not admit are refused, and the ledger is then
/// unchanged.
pub fn process_instruction(
    ledger: &mut LedgerEngine,
    caller: &Identity,
    target: &Identity,
    instruction_data: &[u8],
) -> (r: Result<Receipt, LedgerError>)
    ensures
        old(ledger)@.wf(),
        final(ledger)@.wf(),
        final(ledger).admins() == old(ledger).admins(),
        (final(ledger)@, r) == process(
            old(ledger)@,
            old(ledger).admins(),
            caller@,
            target@,
            instruction_data@,
        ),
{
    proof {
        use_type_invariant(&ledger.store);
        ledger.store.lemma_view_wf();
    }
    let instruction = Instruction::unpack(instruction_data)?;
    ledger.apply(caller, target, &instruction)
}

} // verus!
