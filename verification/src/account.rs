//! One account of the ledger and the transitions that instructions make on it.

use vstd::prelude::*;
use crate::error::LedgerError;
use crate::identity::{all_distinct, contains_identity, keys_of, Identity};
use crate::instruction::{Instruction, InstructionView};
use crate::referral::{lemma_reward_values, reward, reward_spec};
use crate::window::{elapsed, elapsed_spec, WINDOW_SECONDS};

verus! {

/// Ad views that one rate window allows.
pub const MAX_AD_VIEWS: u8 = 5;

/// Points earned by a check-in.
pub const CHECK_IN_REWARD: u64 = 10;

/// Points earned by an ad view.
pub const AD_VIEW_REWARD: u64 = 5;

/// What a successful instruction did to the balance of its target.
#[derive(Clone, Copy, Debug, PartialEq, Eq, Structural)]
pub struct Receipt {
    /// Points that the instruction added.
    pub awarded: u64,
    /// Balance of the target after the instruction.
    pub balance: u64,
}

/// The state of one account as a mathematical record.
pub struct AccountState {
    /// The key under which the account is registered.
    pub identity: Seq<u8>,
    /// Points accumulated so far.
    pub points: u64,
    /// Time of the last successful check-in, in seconds; 0 before the first.
    pub last_check_in: u64,
    /// Ad views counted in the current rate window.
    pub ad_views_today: u8,
    /// Identities that this account has referred, oldest first.
    pub referrals: Seq<Seq<u8>>,
    /// The sequential number that the account got when it was created.
    pub account_number: u32,
}

impl AccountState {
    /// The invariant of an account: the ad-view counter stays within its
    /// limit and no identity is referred twice.
    pub open spec fn wf(self) -> bool {
        &&& self.ad_views_today <= MAX_AD_VIEWS
        &&& self.referrals.no_duplicates()
    }

    /// The account that registration creates.
    pub open spec fn fresh(identity: Seq<u8>, account_number: u32) -> AccountState {
        AccountState {
            identity,
            points: 0,
            last_check_in: 0,
            ad_views_today: 0,
            referrals: Seq::empty(),
            account_number,
        }
    }

    /// Adds `amount` points, unless the balance would overflow.
    pub open spec fn credit(self, amount: u64) -> Result<AccountState, LedgerError> {
        if self.points + amount > u64::MAX {
            Err(LedgerError::ArithmeticOverflow)
        } else {
            Ok(AccountState { points: (self.points + amount) as u64, ..self })
        }
    }

    /// The ad views that count at `now`: none once the rate window since
    /// the last check-in has run out.
    pub open spec fn ad_views_at(self, now: u64) -> u8 {
        if elapsed_spec(self.last_check_in, now, WINDOW_SECONDS) {
            0
        } else {
            self.ad_views_today
        }
    }

    /// A check-in at `now`.
    pub open spec fn check_in(self, now: u64) -> Result<AccountState, LedgerError> {
        if !elapsed_spec(self.last_check_in, now, WINDOW_SECONDS) {
            Err(LedgerError::AlreadyCheckedIn)
        } else {
            match self.credit(CHECK_IN_REWARD) {
                Ok(credited) => Ok(AccountState { last_check_in: now, ..credited }),
                Err(e) => Err(e),
            }
        }
    }

    /// An ad view at `now`.
    pub open spec fn view_ad(self, now: u64) -> Result<AccountState, LedgerError> {
        if self.ad_views_at(now) >= MAX_AD_VIEWS {
            Err(LedgerError::AdLimitReached)
        } else {
            match self.credit(AD_VIEW_REWARD) {
                Ok(credited) => Ok(
                    AccountState {
                        ad_views_today: (self.ad_views_at(now) + 1) as u8,
                        ..credited
                    },
                ),
                Err(e) => Err(e),
            }
        }
    }

    /// The referral of `referred` by this account.
    pub open spec fn refer(self, referred: Seq<u8>) -> Result<AccountState, LedgerError> {
        if self.referrals.contains(referred) {
            Err(LedgerError::AlreadyReferred)
        } else {
            match self.credit(reward_spec(self.referrals.len()) as u64) {
                Ok(credited) => Ok(
                    AccountState { referrals: self.referrals.push(referred), ..credited },
                ),
                Err(e) => Err(e),
            }
        }
    }

    /// What an instruction makes of an existing account. Registration is
    /// refused, since the account exists.
    pub open spec fn apply(self, instruction: InstructionView) -> Result<
        AccountState,
        LedgerError,
    > {
        match instruction {
            InstructionView::Initialize => Err(LedgerError::AlreadyExists),
            InstructionView::AddPoints { amount } => self.credit(amount),
            InstructionView::CheckIn { timestamp } => self.check_in(timestamp),
            InstructionView::AdView { timestamp } => self.view_ad(timestamp),
            InstructionView::Referral { referred } => self.refer(referred),
            InstructionView::CommunityCredit { amount } => self.credit(amount),
        }
    }

    /// The receipt for the step from this state to `next`.
    pub open spec fn receipt_to(self, next: AccountState) -> Receipt {
        Receipt { awarded: (next.points - self.points) as u64, balance: next.points }
    }

    /// The result that a caller sees of an instruction on this account.
    pub open spec fn outcome(self, instruction: InstructionView) -> Result<Receipt, LedgerError> {
        match self.apply(instruction) {
            Ok(next) => Ok(self.receipt_to(next)),
            Err(e) => Err(e),
        }
    }
}

/// An instruction keeps the invariant of the account, its identity and
/// its number, and never lowers its balance.
pub proof fn lemma_apply_keeps_account(state: AccountState, instruction: InstructionView)
    requires
        state.wf(),
        state.apply(instruction) is Ok,
    ensures
        state.apply(instruction)->Ok_0.wf(),
        state.apply(instruction)->Ok_0.identity == state.identity,
        state.apply(instruction)->Ok_0.account_number == state.account_number,
        state.apply(instruction)->Ok_0.points >= state.points,
{
    match instruction {
        InstructionView::Referral { referred } => {
            lemma_push_new_keeps_distinct(state.referrals, referred);
        },
        _ => {},
    }
}

/// A sequence without duplicates stays so when a value that it lacks is
/// put at its end.
pub proof fn lemma_push_new_keeps_distinct<A>(s: Seq<A>, value: A)
    requires
        s.no_duplicates(),
        !s.contains(value),
    ensures
        s.push(value).no_duplicates(),
{
    let t = s.push(value);
    assert forall|i: int, j: int| 0 <= i < t.len() && 0 <= j < t.len() && i != j implies t[i]
        != t[j] by {
        if i < s.len() && j < s.len() {
            assert(s[i] != s[j]);
        } else if i < s.len() {
            assert(s.contains(s[i]));
        } else {
            assert(s.contains(s[j]));
        }
    }
}

/// One account of the ledger. Its view is its [`AccountState`]; every
/// account that this module hands out satisfies the invariant of that state.
#[derive(Debug, PartialEq, Eq)]
pub struct UserAccount {
    identity: Identity,
    points: u64,
    last_check_in: u64,
    ad_views_today: u8,
    referrals: Vec<Identity>,
    account_number: u32,
}

impl View for UserAccount {
    type V = AccountState;

    closed spec fn view(&self) -> AccountState {
        AccountState {
            identity: self.identity@,
            points: self.points,
            last_check_in: self.last_check_in,
            ad_views_today: self.ad_views_today,
            referrals: keys_of(self.referrals@),
            account_number: self.account_number,
        }
    }
}

impl Clone for UserAccount {
    fn clone(&self) -> (r: UserAccount)
        ensures
            r@ == self@,
    {
        let referrals = self.referrals.clone();
        assert(keys_of(referrals@) =~= keys_of(self.referrals@));
        UserAccount {
            identity: self.identity.clone(),
            points: self.points,
            last_check_in: self.last_check_in,
            ad_views_today: self.ad_views_today,
            referrals,
            account_number: self.account_number,
        }
    }
}

impl UserAccount {
    /// The account that registration creates for `identity`: no points,
    /// no check-in, no ad views, no referrals.
    pub fn new(identity: Identity, account_number: u32) -> (r: UserAccount)
        ensures
            r@ == AccountState::fresh(identity@, account_number),
            r@.wf(),
    {
        let referrals: Vec<Identity> = Vec::new();
        assert(keys_of(referrals@) =~= Seq::<Seq<u8>>::empty());
        UserAccount {
            identity,
            points: 0,
            last_check_in: 0,
            ad_views_today: 0,
            referrals,
            account_number,
        }
    }

    /// Rebuilds an account from the six values of a stored record.
    ///
    /// Fails with `InvalidArgument` when the values break the invariant of
    /// an account: more ad views than a window allows, or an identity that
    /// is referred twice.
    pub fn from_parts(
        identity: Identity,
        points: u64,
        last_check_in: u64,
        ad_views_today: u8,
        referrals: Vec<Identity>,
        account_number: u32,
    ) -> (r: Result<UserAccount, LedgerError>)
        ensures
            match r {
                Ok(account) => account@.wf() && account@ == (AccountState {
                    identity: identity@,
                    points,
                    last_check_in,
                    ad_views_today,
                    referrals: keys_of(referrals@),
                    account_number,
                }),
                Err(e) => e == LedgerError::InvalidArgument && !(ad_views_today <= MAX_AD_VIEWS
                    && keys_of(referrals@).no_duplicates()),
            },
    {
        if ad_views_today > MAX_AD_VIEWS || !all_distinct(&referrals) {
            return Err(LedgerError::InvalidArgument);
        }
        Ok(
            UserAccount {
                identity,
                points,
                last_check_in,
                ad_views_today,
                referrals,
                account_number,
            },
        )
    }

    /// Takes the account apart into the six values of a stored record;
    /// [`UserAccount::from_parts`] puts the same account together again.
    pub fn into_parts(self) -> (r: (Identity, u64, u64, u8, Vec<Identity>, u32))
        ensures
            self@ == (AccountState {
                identity: r.0@,
                points: r.1,
                last_check_in: r.2,
                ad_views_today: r.3,
                referrals: keys_of(r.4@),
                account_number: r.5,
            }),
    {
        (
            self.identity,
            self.points,
            self.last_check_in,
            self.ad_views_today,
            self.referrals,
            self.account_number,
        )
    }

    /// The key under which the account is registered.
    pub fn identity(&self) -> (r: &Identity)
        ensures
            r@ == self@.identity,
    {
        &self.identity
    }

    /// Points accumulated so far.
    pub fn points(&self) -> (r: u64)
        ensures
            r == self@.points,
    {
        self.points
    }

    /// Time of the last successful check-in, in seconds; 0 before the first.
    pub fn last_check_in(&self) -> (r: u64)
        ensures
            r == self@.last_check_in,
    {
        self.last_check_in
    }

    /// Ad views counted in the current rate window.
    pub fn ad_views_today(&self) -> (r: u8)
        ensures
            r == self@.ad_views_today,
    {
        self.ad_views_today
    }

    /// Identities that this account has referred, oldest first.
    pub fn referrals(&self) -> (r: &Vec<Identity>)
        ensures
            keys_of(r@) == self@.referrals,
    {
        &self.referrals
    }

    /// The sequential number that the account got when it was created.
    pub fn account_number(&self) -> (r: u32)
        ensures
            r == self@.account_number,
    {
        self.account_number
    }

    /// Whether this account has referred `identity` before.
    pub fn has_referred(&self, identity: &Identity) -> (r: bool)
        ensures
            r == self@.referrals.contains(identity@),
    {
        contains_identity(&self.referrals, identity)
    }

    /// The balance that `amount` more points would give.
    fn credited(&self, amount: u64) -> (r: Result<u64, LedgerError>)
        ensures
            match r {
                Ok(points) => self@.credit(amount) is Ok && points == self@.credit(
                    amount,
                )->Ok_0.points,
                Err(e) => self@.credit(amount) == Err::<AccountState, LedgerError>(e),
            },
    {
        match self.points.checked_add(amount) {
            Some(points) => Ok(points),
            None => Err(LedgerError::ArithmeticOverflow),
        }
    }

    /// The ad views that count at `now`.
    fn ad_views_at(&self, now: u64) -> (r: u8)
        ensures
            r == self@.ad_views_at(now),
    {
        if elapsed(self.last_check_in, now, WINDOW_SECONDS) {
            0
        } else {
            self.ad_views_today
        }
    }

    /// Tells what `instruction` would do to this account, without doing it.
    pub fn outcome(&self, instruction: &Instruction) -> (r: Result<Receipt, LedgerError>)
        ensures
            r == self@.outcome(instruction@),
    {
        let points = match instruction {
            Instruction::Initialize => {
                return Err(LedgerError::AlreadyExists);
            },
            Instruction::AddPoints { amount } => self.credited(*amount),
            Instruction::CommunityCredit { amount } => self.credited(*amount),
            Instruction::CheckIn { timestamp } => {
                if !elapsed(self.last_check_in, *timestamp, WINDOW_SECONDS) {
                    return Err(LedgerError::AlreadyCheckedIn);
                }
                self.credited(CHECK_IN_REWARD)
            },
            Instruction::AdView { timestamp } => {
                if self.ad_views_at(*timestamp) >= MAX_AD_VIEWS {
                    return Err(LedgerError::AdLimitReached);
                }
                self.credited(AD_VIEW_REWARD)
            },
            Instruction::Referral { referred } => {
                if self.has_referred(referred) {
                    return Err(LedgerError::AlreadyReferred);
                }
                proof {
                    lemma_reward_values(self.referrals@.len());
                }
                self.credited(reward(self.referrals.len()))
            },
        };
        match points {
            Ok(balance) => Ok(Receipt { awarded: balance - self.points, balance }),
            Err(e) => Err(e),
        }
    }

    /// Applies `instruction` to this account.
    ///
    /// On success the account is in the state that the instruction makes
    /// of it; on failure it is unchanged.
    pub fn apply(&mut self, instruction: &Instruction) -> (r: Result<Receipt, LedgerError>)
        ensures
            r == old(self)@.outcome(instruction@),
            match old(self)@.apply(instruction@) {
                Ok(next) => final(self)@ == next,
                Err(_) => final(self)@ == old(self)@,
            },
            old(self)@.wf() ==> final(self)@.wf(),
    {
        let receipt = self.outcome(instruction)?;
        proof {
            if self@.wf() {
                lemma_apply_keeps_account(self@, instruction@);
            }
        }
        match instruction {
            Instruction::CheckIn { timestamp } => {
                self.last_check_in = *timestamp;
            },
            Instruction::AdView { timestamp } => {
                self.ad_views_today = self.ad_views_at(*timestamp) + 1;
            },
            Instruction::Referral { referred } => {
                self.referrals.push(referred.clone());
                assert(keys_of(self.referrals@) =~= keys_of(old(self).referrals@).push(
                    referred@,
                ));
            },
            _ => {},
        }
        self.points = receipt.balance;
        Ok(receipt)
    }
}

} // verus!
