//! What holds of every step of the ledger, stated over its mathematical
//! model and proved from the definitions of the steps.

use vstd::prelude::*;
use crate::account::{
    lemma_apply_keeps_account, AccountState, Receipt, AD_VIEW_REWARD, CHECK_IN_REWARD, MAX_AD_VIEWS,
};
use crate::referral::{lemma_reward_values, reward_spec};
use crate::engine::{process, refer, step};
use crate::error::LedgerError;
use crate::instruction::{decode, InstructionView};
use crate::store::{lemma_create_keeps_store, lemma_update_keeps_store, StoreState};
use crate::window::{elapsed_spec, WINDOW_SECONDS};

verus! {

/// One request to the ledger: who asks, on whose account, and for what.
pub struct Request {
    /// The credential of the caller.
    pub caller: Seq<u8>,
    /// The identity whose account the instruction is about.
    pub target: Seq<u8>,
    /// The instruction.
    pub instruction: InstructionView,
}

/// The state that a ledger reaches from `state` by taking `requests` in
/// their order, refused ones included.
pub open spec fn run(state: StoreState, admins: Set<Seq<u8>>, requests: Seq<Request>) -> StoreState
    decreases requests.len(),
{
    if requests.len() == 0 {
        state
    } else {
        let request = requests.last();
        step(
            run(state, admins, requests.drop_last()),
            admins,
            request.caller,
            request.target,
            request.instruction,
        ).0
    }
}

/// Whether `after` carries every account of `before` on: under the same
/// identity and number, with a balance that is no lower.
pub open spec fn carries_on(before: StoreState, after: StoreState) -> bool {
    &&& before.counter <= after.counter
    &&& forall|id: Seq<u8>| #[trigger]
        before.accounts.contains_key(id) ==> {
            &&& after.accounts.contains_key(id)
            &&& after.accounts[id].identity == before.accounts[id].identity
            &&& after.accounts[id].account_number == before.accounts[id].account_number
            &&& after.accounts[id].points >= before.accounts[id].points
        }
    &&& forall|id: Seq<u8>| #[trigger]
        after.accounts.contains_key(id) && !before.accounts.contains_key(id)
            ==> after.accounts[id].account_number > before.counter
}

/// A referral keeps the invariant of the store and carries every account
/// on; a refused one changes nothing.
proof fn lemma_refer_keeps_store(state: StoreState, referrer: Seq<u8>, referred: Seq<u8>)
    requires
        state.wf(),
    ensures
        refer(state, referrer, referred).0.wf(),
        carries_on(state, refer(state, referrer, referred).0),
        refer(state, referrer, referred).1 is Err ==> refer(state, referrer, referred).0 == state,
{
    if refer(state, referrer, referred).1 is Ok {
        let created = state.create(referred).0;
        let instruction = InstructionView::Referral { referred };
        lemma_create_keeps_store(state, referred);
        lemma_update_keeps_store(created, referrer, instruction);
        let after = created.update(referrer, instruction).0;
        assert(created.accounts.contains_key(referrer));
        lemma_apply_keeps_account(created.accounts[referrer], instruction);
        assert forall|id: Seq<u8>| #[trigger] state.accounts.contains_key(id) implies {
            &&& after.accounts.contains_key(id)
            &&& after.accounts[id].identity == state.accounts[id].identity
            &&& after.accounts[id].account_number == state.accounts[id].account_number
            &&& after.accounts[id].points >= state.accounts[id].points
        } by {
            assert(created.accounts.contains_key(id));
        }
    }
}

/// Every step keeps the invariant of the store and carries every account
/// on: no account disappears, none changes its number, no balance goes
/// down, and a new account gets a number that none had before. A refused
/// step changes nothing.
pub proof fn lemma_step_keeps_store(
    state: StoreState,
    admins: Set<Seq<u8>>,
    caller: Seq<u8>,
    target: Seq<u8>,
    instruction: InstructionView,
)
    requires
        state.wf(),
    ensures
        step(state, admins, caller, target, instruction).0.wf(),
        carries_on(state, step(state, admins, caller, target, instruction).0),
        step(state, admins, caller, target, instruction).1 is Err ==> step(
            state,
            admins,
            caller,
            target,
            instruction,
        ).0 == state,
{
    if step(state, admins, caller, target, instruction).1 is Ok {
        match instruction {
            InstructionView::Initialize => {
                lemma_create_keeps_store(state, target);
            },
            InstructionView::Referral { referred } => {
                lemma_refer_keeps_store(state, target, referred);
            },
            _ => {
                lemma_update_keeps_store(state, target, instruction);
                lemma_apply_keeps_account(state.accounts[target], instruction);
            },
        }
    }
}

/// What holds of every step holds of a step on a wire-form instruction
/// too; a buffer that does not decode changes nothing.
pub proof fn lemma_process_keeps_store(
    state: StoreState,
    admins: Set<Seq<u8>>,
    caller: Seq<u8>,
    target: Seq<u8>,
    instruction_data: Seq<u8>,
)
    requires
        state.wf(),
    ensures
        process(state, admins, caller, target, instruction_data).0.wf(),
        carries_on(state, process(state, admins, caller, target, instruction_data).0),
        process(state, admins, caller, target, instruction_data).1 is Err ==> process(
            state,
            admins,
            caller,
            target,
            instruction_data,
        ).0 == state,
{
    if decode(instruction_data) is Ok {
        lemma_step_keeps_store(state, admins, caller, target, decode(instruction_data)->Ok_0);
    }
}

/// Over any sequence of requests, for any identity: the account stays,
/// keeps its number, and its points never go down.
pub proof fn lemma_points_never_decrease(
    state: StoreState,
    admins: Set<Seq<u8>>,
    requests: Seq<Request>,
)
    requires
        state.wf(),
    ensures
        run(state, admins, requests).wf(),
        carries_on(state, run(state, admins, requests)),
    decreases requests.len(),
{
    if requests.len() > 0 {
        let request = requests.last();
        let middle = run(state, admins, requests.drop_last());
        lemma_points_never_decrease(state, admins, requests.drop_last());
        lemma_step_keeps_store(
            middle,
            admins,
            request.caller,
            request.target,
            request.instruction,
        );
        let after = run(state, admins, requests);
        assert forall|id: Seq<u8>| #[trigger] state.accounts.contains_key(id) implies {
            &&& after.accounts.contains_key(id)
            &&& after.accounts[id].identity == state.accounts[id].identity
            &&& after.accounts[id].account_number == state.accounts[id].account_number
            &&& after.accounts[id].points >= state.accounts[id].points
        } by {
            assert(middle.accounts.contains_key(id));
        }
        assert forall|id: Seq<u8>| #[trigger]
            after.accounts.contains_key(id) && !state.accounts.contains_key(id)
            implies after.accounts[id].account_number > state.counter by {
            if middle.accounts.contains_key(id) {
                assert(after.accounts[id].account_number == middle.accounts[id].account_number);
            }
        }
    }
}

/// A step that succeeds on a registered target makes of the target's
/// account exactly what the instruction makes of that account taken by
/// itself, and tells the same receipt: the ledger and a single stored
/// account agree on every instruction.
pub proof fn lemma_step_is_account_transition(
    state: StoreState,
    admins: Set<Seq<u8>>,
    caller: Seq<u8>,
    target: Seq<u8>,
    instruction: InstructionView,
)
    requires
        state.accounts.contains_key(target),
        step(state, admins, caller, target, instruction).1 is Ok,
    ensures
        state.accounts[target].apply(instruction) == Ok::<AccountState, LedgerError>(
            step(state, admins, caller, target, instruction).0.accounts[target],
        ),
        step(state, admins, caller, target, instruction).1 == state.accounts[target].outcome(
            instruction,
        ),
{
    match instruction {
        InstructionView::Referral { referred } => {
            let created = state.create(referred).0;
            assert(created.accounts.contains_key(target));
            assert(created.accounts[target] == state.accounts[target]);
        },
        _ => {},
    }
}

/// After a check-in at `first`, a check-in at `later` is refused with
/// `AlreadyCheckedIn` as long as fewer than 86400 seconds lie between
/// the two, and leaves the ledger as it is.
pub proof fn lemma_check_in_refused_within_window(
    state: StoreState,
    admins: Set<Seq<u8>>,
    user: Seq<u8>,
    first: u64,
    later: u64,
)
    requires
        state.wf(),
        step(state, admins, user, user, InstructionView::CheckIn { timestamp: first }).1 is Ok,
        later - first < WINDOW_SECONDS,
    ensures
        ({
            let checked = step(
                state,
                admins,
                user,
                user,
                InstructionView::CheckIn { timestamp: first },
            ).0;
            &&& checked.accounts.contains_key(user)
            &&& checked.accounts[user].last_check_in == first
            &&& checked.accounts[user].points == state.accounts[user].points + CHECK_IN_REWARD
            &&& step(checked, admins, user, user, InstructionView::CheckIn { timestamp: later })
                == (checked, Err::<Receipt, LedgerError>(LedgerError::AlreadyCheckedIn))
        }),
{
}

/// After a check-in at `first`, a check-in at `later` succeeds again and
/// earns the check-in reward once 86400 seconds or more lie between the
/// two, provided that the reward still fits the balance.
pub proof fn lemma_check_in_rearms(
    state: StoreState,
    admins: Set<Seq<u8>>,
    user: Seq<u8>,
    first: u64,
    later: u64,
)
    requires
        state.wf(),
        step(state, admins, user, user, InstructionView::CheckIn { timestamp: first }).1 is Ok,
        later - first >= WINDOW_SECONDS,
        state.accounts[user].points + 2 * CHECK_IN_REWARD <= u64::MAX,
    ensures
        ({
            let checked = step(
                state,
                admins,
                user,
                user,
                InstructionView::CheckIn { timestamp: first },
            ).0;
            let again = step(
                checked,
                admins,
                user,
                user,
                InstructionView::CheckIn { timestamp: later },
            );
            &&& again.1 == Ok::<Receipt, LedgerError>(
                Receipt {
                    awarded: CHECK_IN_REWARD,
                    balance: (state.accounts[user].points + 2 * CHECK_IN_REWARD) as u64,
                },
            )
            &&& again.0.accounts[user].points == state.accounts[user].points + 2 * CHECK_IN_REWARD
            &&& again.0.accounts[user].last_check_in == later
        }),
{
}

/// A registration that succeeds files a fresh account under the target
/// identity, numbered one above the counter, and tells an opening
/// receipt. It succeeds exactly when the identity is not registered and
/// the counter is not spent, whoever issues it.
pub proof fn lemma_registration_effect(
    state: StoreState,
    admins: Set<Seq<u8>>,
    caller: Seq<u8>,
    target: Seq<u8>,
)
    ensures
        ({
            let taken = step(state, admins, caller, target, InstructionView::Initialize);
            &&& taken.1 is Ok <==> !state.accounts.contains_key(target) && state.counter
                < u32::MAX
            &&& state.accounts.contains_key(target) ==> taken.1 == Err::<Receipt, LedgerError>(
                LedgerError::AlreadyExists,
            )
            &&& taken.1 is Ok ==> {
                &&& taken.1 == Ok::<Receipt, LedgerError>(Receipt { awarded: 0, balance: 0 })
                &&& taken.0.counter == state.counter + 1
                &&& taken.0.accounts == state.accounts.insert(
                    target,
                    AccountState::fresh(target, (state.counter + 1) as u32),
                )
            }
        }),
{
}

/// A referral that succeeds gives the referred identity a fresh account
/// under the next number, puts the identity at the end of the referrer's
/// list, and adds to the referrer's points the reward that goes with the
/// length of the list before.
pub proof fn lemma_referral_effect(
    state: StoreState,
    admins: Set<Seq<u8>>,
    referrer: Seq<u8>,
    referred: Seq<u8>,
)
    requires
        state.wf(),
        step(state, admins, referrer, referrer, InstructionView::Referral { referred }).1 is Ok,
    ensures
        ({
            let taken = step(
                state,
                admins,
                referrer,
                referrer,
                InstructionView::Referral { referred },
            );
            let before = state.accounts[referrer];
            let reward = reward_spec(before.referrals.len());
            &&& state.accounts.contains_key(referrer)
            &&& !state.accounts.contains_key(referred)
            &&& !before.referrals.contains(referred)
            &&& taken.1 == Ok::<Receipt, LedgerError>(
                Receipt { awarded: reward as u64, balance: (before.points + reward) as u64 },
            )
            &&& taken.0.counter == state.counter + 1
            &&& taken.0.accounts.dom() == state.accounts.dom().insert(referred)
            &&& taken.0.accounts[referred] == AccountState::fresh(
                referred,
                (state.counter + 1) as u32,
            )
            &&& taken.0.accounts[referrer] == (AccountState {
                points: (before.points + reward) as u64,
                referrals: before.referrals.push(referred),
                ..before
            })
            &&& forall|id: Seq<u8>| #[trigger]
                state.accounts.contains_key(id) && id != referrer ==> taken.0.accounts[id]
                    == state.accounts[id]
        }),
{
    lemma_reward_values(state.accounts[referrer].referrals.len());
    let created = state.create(referred).0;
    assert(created.accounts.contains_key(referrer));
    let after = step(state, admins, referrer, referrer, InstructionView::Referral { referred }).0;
    assert(after.accounts.dom() =~= state.accounts.dom().insert(referred));
}

/// An ad view succeeds exactly when fewer than five ad views count at
/// the time and the reward fits the balance; it then counts one more and
/// earns the ad-view reward. Once the rate window since the last
/// check-in has run out, none counts, so the limit does not refuse it.
pub proof fn lemma_ad_view_limit(account: AccountState, now: u64)
    requires
        account.wf(),
    ensures
        account.ad_views_at(now) <= MAX_AD_VIEWS,
        account.ad_views_at(now) == MAX_AD_VIEWS ==> account.view_ad(now) == Err::<
            AccountState,
            LedgerError,
        >(LedgerError::AdLimitReached),
        account.view_ad(now) is Ok <==> account.ad_views_at(now) < MAX_AD_VIEWS && account.points
            + AD_VIEW_REWARD <= u64::MAX,
        account.view_ad(now) matches Ok(next) ==> next.ad_views_today == account.ad_views_at(now)
            + 1 && next.points == account.points + AD_VIEW_REWARD && next.last_check_in
            == account.last_check_in,
        elapsed_spec(account.last_check_in, now, WINDOW_SECONDS) ==> account.ad_views_at(now)
            == 0,
{
}

/// After a referral has succeeded, the same referral by the same
/// referrer is refused with `AlreadyReferred`, and the ledger, the
/// referrer's points among it, is unchanged.
pub proof fn lemma_second_referral_refused(
    state: StoreState,
    admins: Set<Seq<u8>>,
    referrer: Seq<u8>,
    referred: Seq<u8>,
)
    requires
        state.wf(),
        step(state, admins, referrer, referrer, InstructionView::Referral { referred }).1 is Ok,
    ensures
        ({
            let once = step(
                state,
                admins,
                referrer,
                referrer,
                InstructionView::Referral { referred },
            ).0;
            step(once, admins, referrer, referrer, InstructionView::Referral { referred }) == (
                once,
                Err::<Receipt, LedgerError>(LedgerError::AlreadyReferred),
            )
        }),
{
    let created = state.create(referred).0;
    let instruction = InstructionView::Referral { referred };
    let once = created.update(referrer, instruction).0;
    assert(created.accounts.contains_key(referrer));
    assert(once.accounts[referrer].referrals == state.accounts[referrer].referrals.push(referred));
    assert(state.accounts[referrer].referrals.push(referred).last() == referred);
}

/// A community credit on a credential that is not an administrator's is
/// refused with `Unauthorized`, whatever the target and the amount, and
/// leaves the ledger as it is.
pub proof fn lemma_credit_needs_admin(
    state: StoreState,
    admins: Set<Seq<u8>>,
    caller: Seq<u8>,
    target: Seq<u8>,
    amount: u64,
)
    requires
        !admins.contains(caller),
    ensures
        step(state, admins, caller, target, InstructionView::CommunityCredit { amount }) == (
            state,
            Err::<Receipt, LedgerError>(LedgerError::Unauthorized),
        ),
{
}

/// Points that do not fit the balance of the target are refused with
/// `ArithmeticOverflow`, and the ledger is left as it is.
pub proof fn lemma_overflow_refused(
    state: StoreState,
    admins: Set<Seq<u8>>,
    user: Seq<u8>,
    amount: u64,
)
    requires
        state.accounts.contains_key(user),
        state.accounts[user].points + amount > u64::MAX,
    ensures
        step(state, admins, user, user, InstructionView::AddPoints { amount }) == (
            state,
            Err::<Receipt, LedgerError>(LedgerError::ArithmeticOverflow),
        ),
{
}

} // verus!
