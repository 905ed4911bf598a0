//! The account store: one record per identity and the counter that
//! numbers new accounts.

use vstd::prelude::*;
use crate::account::{lemma_apply_keeps_account, AccountState, Receipt, UserAccount};
use crate::error::LedgerError;
use crate::identity::Identity;
use crate::instruction::{Instruction, InstructionView};

verus! {

/// The store as a mathematical record: the accounts by identity, and the
/// number that the newest account got.
pub struct StoreState {
    /// The registered accounts, each under its identity.
    pub accounts: Map<Seq<u8>, AccountState>,
    /// The last account number handed out; 0 while none was.
    pub counter: u32,
}

impl StoreState {
    /// The invariant of a store: finitely many accounts, each filed under
    /// its own identity and sound in itself, each with a number of its
    /// own that the counter has reached.
    pub open spec fn wf(self) -> bool {
        &&& self.accounts.dom().finite()
        &&& forall|id: Seq<u8>| #[trigger]
            self.accounts.contains_key(id) ==> {
                &&& self.accounts[id].identity == id
                &&& self.accounts[id].wf()
                &&& 1 <= self.accounts[id].account_number <= self.counter
            }
        &&& forall|a: Seq<u8>, b: Seq<u8>|
            #![trigger self.accounts[a], self.accounts[b]]
            self.accounts.contains_key(a) && self.accounts.contains_key(b) && a != b
                ==> self.accounts[a].account_number != self.accounts[b].account_number
    }

    /// The store without accounts.
    pub open spec fn empty() -> StoreState {
        StoreState { accounts: Map::empty(), counter: 0 }
    }

    /// The account registered under `identity`, if there is one.
    pub open spec fn get(self, identity: Seq<u8>) -> Option<AccountState> {
        if self.accounts.contains_key(identity) {
            Some(self.accounts[identity])
        } else {
            None
        }
    }

    /// Hands out the next account number, unless the counter is spent.
    pub open spec fn next_account_number(self) -> (StoreState, Result<u32, LedgerError>) {
        if self.counter == u32::MAX {
            (self, Err(LedgerError::ArithmeticOverflow))
        } else {
            let number = (self.counter + 1) as u32;
            (StoreState { counter: number, ..self }, Ok(number))
        }
    }

    /// Registers `identity` with a fresh account under the next number.
    /// Refused with `AlreadyExists` when the identity is registered, and
    /// with `ArithmeticOverflow` when the counter is spent.
    pub open spec fn create(self, identity: Seq<u8>) -> (
        StoreState,
        Result<AccountState, LedgerError>,
    ) {
        if self.accounts.contains_key(identity) {
            (self, Err(LedgerError::AlreadyExists))
        } else {
            match self.next_account_number().1 {
                Err(e) => (self, Err(e)),
                Ok(number) => {
                    let account = AccountState::fresh(identity, number);
                    (
                        StoreState {
                            accounts: self.accounts.insert(identity, account),
                            counter: number,
                        },
                        Ok(account),
                    )
                },
            }
        }
    }

    /// Applies `mutation` to the account of `identity`. Refused with
    /// `NotFound` when there is no such account, and with the account's
    /// own refusal otherwise.
    pub open spec fn update(self, identity: Seq<u8>, mutation: InstructionView) -> (
        StoreState,
        Result<Receipt, LedgerError>,
    ) {
        if !self.accounts.contains_key(identity) {
            (self, Err(LedgerError::NotFound))
        } else {
            let account = self.accounts[identity];
            match account.apply(mutation) {
                Err(e) => (self, Err(e)),
                Ok(next) => (
                    StoreState { accounts: self.accounts.insert(identity, next), ..self },
                    Ok(account.receipt_to(next)),
                ),
            }
        }
    }
}

/// Registration keeps the invariant of the store, and the account that
/// it creates has a number above that of every account before it.
pub proof fn lemma_create_keeps_store(state: StoreState, identity: Seq<u8>)
    requires
        state.wf(),
    ensures
        state.create(identity).0.wf(),
        state.create(identity).1 is Err ==> state.create(identity).0 == state,
        state.create(identity).1 matches Ok(account) ==> forall|id: Seq<u8>| #[trigger]
            state.accounts.contains_key(id) ==> state.accounts[id].account_number
                < account.account_number,
{
    let next = state.create(identity).0;
    if state.create(identity).1 is Ok {
        assert(next.accounts.dom() =~= state.accounts.dom().insert(identity));
        assert forall|id: Seq<u8>| #[trigger] next.accounts.contains_key(id) implies {
            &&& next.accounts[id].identity == id
            &&& next.accounts[id].wf()
            &&& 1 <= next.accounts[id].account_number <= next.counter
        } by {
            if id != identity {
                assert(state.accounts.contains_key(id));
            }
        }
        assert forall|a: Seq<u8>, b: Seq<u8>|
            #![trigger next.accounts[a], next.accounts[b]]
            next.accounts.contains_key(a) && next.accounts.contains_key(b) && a != b
            implies next.accounts[a].account_number != next.accounts[b].account_number by {
            if a != identity {
                assert(state.accounts.contains_key(a));
            }
            if b != identity {
                assert(state.accounts.contains_key(b));
            }
        }
    }
}

/// A mutation keeps the invariant of the store, leaves every other
/// account as it was, and never lowers a balance.
pub proof fn lemma_update_keeps_store(
    state: StoreState,
    identity: Seq<u8>,
    mutation: InstructionView,
)
    requires
        state.wf(),
    ensures
        state.update(identity, mutation).0.wf(),
        state.update(identity, mutation).0.counter == state.counter,
        state.update(identity, mutation).0.accounts.dom() == state.accounts.dom(),
        state.update(identity, mutation).1 is Err ==> state.update(identity, mutation).0 == state,
        forall|id: Seq<u8>| #[trigger]
            state.accounts.contains_key(id) ==> state.update(identity, mutation).0.accounts[id].points
                >= state.accounts[id].points,
        forall|id: Seq<u8>| #[trigger]
            state.accounts.contains_key(id) && id != identity ==> state.update(
                identity,
                mutation,
            ).0.accounts[id] == state.accounts[id],
{
    let next = state.update(identity, mutation).0;
    if state.update(identity, mutation).1 is Ok {
        assert(state.accounts.contains_key(identity));
        lemma_apply_keeps_account(state.accounts[identity], mutation);
        assert(next.accounts.dom() =~= state.accounts.dom());
        assert forall|id: Seq<u8>| #[trigger] next.accounts.contains_key(id) implies {
            &&& next.accounts[id].identity == id
            &&& next.accounts[id].wf()
            &&& 1 <= next.accounts[id].account_number <= next.counter
        } by {
            assert(state.accounts.contains_key(id));
        }
        assert forall|a: Seq<u8>, b: Seq<u8>|
            #![trigger next.accounts[a], next.accounts[b]]
            next.accounts.contains_key(a) && next.accounts.contains_key(b) && a != b
            implies next.accounts[a].account_number != next.accounts[b].account_number by {
            assert(state.accounts.contains_key(a));
            assert(state.accounts.contains_key(b));
            assert(state.accounts[a].account_number != state.accounts[b].account_number);
        }
    }
}

/// Whether some record of `records` is filed under `identity`.
spec fn has_key(records: Seq<UserAccount>, identity: Seq<u8>) -> bool {
    exists|i: int| 0 <= i < records.len() && (#[trigger] records[i])@.identity == identity
}

/// The place of the record of `identity` among `records`.
spec fn index_of(records: Seq<UserAccount>, identity: Seq<u8>) -> int {
    choose|i: int| 0 <= i < records.len() && (#[trigger] records[i])@.identity == identity
}

/// The accounts that `records` hold, by identity.
spec fn model(records: Seq<UserAccount>) -> Map<Seq<u8>, AccountState> {
    Map::new(
        |identity: Seq<u8>| has_key(records, identity),
        |identity: Seq<u8>| records[index_of(records, identity)]@,
    )
}

/// No two records are filed under one identity.
spec fn distinct(records: Seq<UserAccount>) -> bool {
    forall|i: int, j: int|
        0 <= i < j < records.len() ==> (#[trigger] records[i])@.identity != (
        #[trigger] records[j])@.identity
}

/// Among distinct records, the record at a place is the one that the
/// model files under its identity.
proof fn lemma_model_at(records: Seq<UserAccount>, i: int)
    requires
        distinct(records),
        0 <= i < records.len(),
    ensures
        has_key(records, records[i]@.identity),
        index_of(records, records[i]@.identity) == i,
        model(records).contains_key(records[i]@.identity),
        model(records)[records[i]@.identity] == records[i]@,
{
    let identity = records[i]@.identity;
    assert(has_key(records, identity));
    let j = index_of(records, identity);
    if j < i {
        assert(records[j]@.identity != records[i]@.identity);
    } else if i < j {
        assert(records[i]@.identity != records[j]@.identity);
    }
}

/// Replacing one record by another of the same identity replaces one
/// account of the model.
proof fn lemma_model_update(before: Seq<UserAccount>, after: Seq<UserAccount>, i: int)
    requires
        distinct(before),
        0 <= i < before.len(),
        after.len() == before.len(),
        after[i]@.identity == before[i]@.identity,
        forall|j: int| 0 <= j < before.len() && j != i ==> after[j] == before[j],
    ensures
        distinct(after),
        model(after) == model(before).insert(before[i]@.identity, after[i]@),
{
    let identity = before[i]@.identity;
    assert forall|a: int, b: int| 0 <= a < b < after.len() implies (#[trigger] after[a])@.identity
        != (#[trigger] after[b])@.identity by {
        assert(before[a]@.identity != before[b]@.identity);
    }
    let target = model(before).insert(identity, after[i]@);
    assert forall|key: Seq<u8>| model(after).contains_key(key) <==> target.contains_key(
        key,
    ) by {
        if has_key(after, key) {
            let j = index_of(after, key);
            assert(before[j]@.identity == key);
        }
        if has_key(before, key) {
            let j = index_of(before, key);
            assert(after[j]@.identity == key);
        }
        lemma_model_at(after, i);
    }
    assert forall|key: Seq<u8>| model(after).contains_key(key) implies model(after)[key]
        == target[key] by {
        let j = index_of(after, key);
        lemma_model_at(after, j);
        if j != i {
            lemma_model_at(before, j);
        }
    }
    assert(model(after) =~= target);
}

/// Adding a record of a new identity adds one account to the model.
proof fn lemma_model_push(before: Seq<UserAccount>, record: UserAccount)
    requires
        distinct(before),
        !has_key(before, record@.identity),
    ensures
        distinct(before.push(record)),
        model(before.push(record)) == model(before).insert(record@.identity, record@),
{
    let after = before.push(record);
    let last = before.len() as int;
    assert forall|a: int, b: int| 0 <= a < b < after.len() implies (#[trigger] after[a])@.identity
        != (#[trigger] after[b])@.identity by {
        if b < last {
            assert(before[a]@.identity != before[b]@.identity);
        } else {
            assert(before[a]@.identity != record@.identity);
        }
    }
    let target = model(before).insert(record@.identity, record@);
    assert forall|key: Seq<u8>| model(after).contains_key(key) <==> target.contains_key(
        key,
    ) by {
        if has_key(after, key) {
            let j = index_of(after, key);
            if j < last {
                assert(before[j]@.identity == key);
            }
        }
        if has_key(before, key) {
            let j = index_of(before, key);
            assert(after[j]@.identity == key);
        }
        lemma_model_at(after, last);
    }
    assert forall|key: Seq<u8>| model(after).contains_key(key) implies model(after)[key]
        == target[key] by {
        let j = index_of(after, key);
        lemma_model_at(after, j);
        if j != last {
            lemma_model_at(before, j);
        }
    }
    assert(model(after) =~= target);
}

/// Distinct records hold as many accounts as there are records.
proof fn lemma_model_len(records: Seq<UserAccount>)
    requires
        distinct(records),
    ensures
        model(records).dom().finite(),
        model(records).dom().len() == records.len(),
    decreases records.len(),
{
    if records.len() == 0 {
        assert(model(records).dom() =~= Set::<Seq<u8>>::empty());
    } else {
        let front = records.drop_last();
        let record = records.last();
        assert(records =~= front.push(record));
        assert forall|a: int, b: int| 0 <= a < b < front.len() implies (#[trigger] front[a])@.identity
            != (#[trigger] front[b])@.identity by {
            assert(records[a]@.identity != records[b]@.identity);
        }
        if has_key(front, record@.identity) {
            let j = index_of(front, record@.identity);
            assert(records[j]@.identity != records[records.len() - 1]@.identity);
        }
        lemma_model_len(front);
        lemma_model_push(front, record);
        assert(model(records).dom() =~= model(front).dom().insert(record@.identity));
    }
}

/// The account store. Its view is its [`StoreState`].
#[derive(Debug)]
pub struct AccountStore {
    accounts: Vec<UserAccount>,
    counter: u32,
}

impl View for AccountStore {
    type V = StoreState;

    closed spec fn view(&self) -> StoreState {
        StoreState { accounts: model(self.accounts@), counter: self.counter }
    }
}

impl AccountStore {
    /// The invariant of the store: the records are in the order of their
    /// creation, no identity and no number occurs twice, and no number
    /// lies above the counter.
    #[verifier::type_invariant]
    pub closed spec fn wf(&self) -> bool {
        &&& distinct(self.accounts@)
        &&& forall|i: int|
            0 <= i < self.accounts@.len() ==> (#[trigger] self.accounts@[i])@.wf() && 1
                <= self.accounts@[i]@.account_number <= self.counter
        &&& forall|i: int, j: int|
            0 <= i < j < self.accounts@.len() ==> (#[trigger] self.accounts@[i])@.account_number < (
            #[trigger] self.accounts@[j])@.account_number
    }

    /// A store that satisfies its invariant has a view that satisfies
    /// the invariant of a store state.
    pub proof fn lemma_view_wf(&self)
        requires
            self.wf(),
        ensures
            self@.wf(),
    {
        let records = self.accounts@;
        let state = self@;
        lemma_model_len(records);
        assert forall|id: Seq<u8>| #[trigger] state.accounts.contains_key(id) implies {
            &&& state.accounts[id].identity == id
            &&& state.accounts[id].wf()
            &&& 1 <= state.accounts[id].account_number <= state.counter
        } by {
            let i = index_of(records, id);
            assert(records[i]@.wf());
        }
        assert forall|a: Seq<u8>, b: Seq<u8>|
            #![trigger state.accounts[a], state.accounts[b]]
            state.accounts.contains_key(a) && state.accounts.contains_key(b) && a != b
            implies state.accounts[a].account_number != state.accounts[b].account_number by {
            let i = index_of(records, a);
            let j = index_of(records, b);
            if i < j {
                assert(records[i]@.account_number < records[j]@.account_number);
            } else if j < i {
                assert(records[j]@.account_number < records[i]@.account_number);
            }
        }
    }

    /// A store without accounts, whose counter stands at 0.
    pub fn new() -> (r: AccountStore)
        ensures
            r@ == StoreState::empty(),
    {
        let r = AccountStore { accounts: Vec::new(), counter: 0 };
        assert(r@.accounts =~= Map::<Seq<u8>, AccountState>::empty());
        r
    }

    /// The place of the record of `identity`, if there is one.
    fn find(&self, identity: &Identity) -> (r: Option<usize>)
        ensures
            self.wf(),
            self@.wf(),
            match r {
                Some(i) => i < self.accounts@.len() && self.accounts@[i as int]@.identity
                    == identity@ && self@.accounts.contains_key(identity@)
                    && self@.accounts[identity@] == self.accounts@[i as int]@,
                None => !self@.accounts.contains_key(identity@),
            },
    {
        proof {
            use_type_invariant(self);
            self.lemma_view_wf();
        }
        let mut i: usize = 0;
        while i < self.accounts.len()
            invariant
                i <= self.accounts@.len(),
                self.wf(),
                self@.wf(),
                forall|j: int| 0 <= j < i ==> (#[trigger] self.accounts@[j])@.identity != identity@,
            decreases self.accounts@.len() - i,
        {
            if self.accounts[i].identity().same(identity) {
                proof {
                    lemma_model_at(self.accounts@, i as int);
                }
                return Some(i);
            }
            i += 1;
        }
        proof {
            if has_key(self.accounts@, identity@) {
                let j = index_of(self.accounts@, identity@);
                assert(self.accounts@[j]@.identity != identity@);
            }
        }
        None
    }

    /// Number of registered accounts.
    pub fn len(&self) -> (r: usize)
        ensures
            self@.wf(),
            r == self@.accounts.len(),
    {
        proof {
            use_type_invariant(self);
            self.lemma_view_wf();
            lemma_model_len(self.accounts@);
        }
        self.accounts.len()
    }

    /// The last account number handed out; 0 while none was.
    pub fn counter(&self) -> (r: u32)
        ensures
            self@.wf(),
            r == self@.counter,
    {
        proof {
            use_type_invariant(self);
            self.lemma_view_wf();
        }
        self.counter
    }

    /// Whether an account is registered under `identity`.
    pub fn contains(&self, identity: &Identity) -> (r: bool)
        ensures
            self@.wf(),
            r == self@.accounts.contains_key(identity@),
    {
        self.find(identity).is_some()
    }

    /// The account registered under `identity`, if there is one.
    pub fn get(&self, identity: &Identity) -> (r: Option<&UserAccount>)
        ensures
            self@.wf(),
            match r {
                Some(account) => self@.get(identity@) == Some(account@),
                None => self@.get(identity@) is None,
            },
    {
        match self.find(identity) {
            Some(i) => Some(&self.accounts[i]),
            None => None,
        }
    }

    /// Hands out the next account number.
    ///
    /// Fails with `ArithmeticOverflow`, and changes nothing, when the
    /// counter is spent.
    pub fn next_account_number(&mut self) -> (r: Result<u32, LedgerError>)
        ensures
            old(self)@.wf(),
            final(self)@.wf(),
            (final(self)@, r) == old(self)@.next_account_number(),
    {
        proof {
            use_type_invariant(&*self);
            self.lemma_view_wf();
        }
        if self.counter == u32::MAX {
            return Err(LedgerError::ArithmeticOverflow);
        }
        self.counter = self.counter + 1;
        proof {
            self.lemma_view_wf();
        }
        Ok(self.counter)
    }

    /// Registers `identity` with a fresh account under the next account
    /// number, and returns a copy of that account.
    ///
    /// Fails with `AlreadyExists` when the identity is registered and with
    /// `ArithmeticOverflow` when the counter is spent; the store is then
    /// unchanged.
    pub fn create(&mut self, identity: Identity) -> (r: Result<UserAccount, LedgerError>)
        ensures
            old(self)@.wf(),
            final(self)@.wf(),
            final(self)@ == old(self)@.create(identity@).0,
            match r {
                Ok(account) => old(self)@.create(identity@).1 == Ok::<AccountState, LedgerError>(
                    account@,
                ),
                Err(e) => old(self)@.create(identity@).1 == Err::<AccountState, LedgerError>(e),
            },
    {
        if self.find(&identity).is_some() {
            return Err(LedgerError::AlreadyExists);
        }
        if self.counter == u32::MAX {
            return Err(LedgerError::ArithmeticOverflow);
        }
        let number = self.counter + 1;
        let copy = UserAccount::new(identity.clone(), number);
        let record = UserAccount::new(identity, number);
        proof {
            lemma_model_push(self.accounts@, record);
        }
        self.counter = number;
        let mut accounts = Vec::new();
        std::mem::swap(&mut accounts, &mut self.accounts);
        accounts.push(record);
        self.accounts = accounts;
        proof {
            self.lemma_view_wf();
        }
        Ok(copy)
    }

    /// Applies `mutation` to the account of `identity`.
    ///
    /// Fails with `NotFound` when no account is registered under
    /// `identity`, and with the refusal of the account otherwise; the
    /// store is then unchanged.
    pub fn update(&mut self, identity: &Identity, mutation: &Instruction) -> (r: Result<
        Receipt,
        LedgerError,
    >)
        ensures
            old(self)@.wf(),
            final(self)@.wf(),
            (final(self)@, r) == old(self)@.update(identity@, mutation@),
    {
        let i = match self.find(identity) {
            Some(i) => i,
            None => {
                return Err(LedgerError::NotFound);
            },
        };
        let mut accounts = Vec::new();
        std::mem::swap(&mut accounts, &mut self.accounts);
        let r = accounts[i].apply(mutation);
        proof {
            let before = old(self).accounts@;
            let after = accounts@;
            if r is Ok {
                lemma_apply_keeps_account(before[i as int]@, mutation@);
            }
            lemma_model_update(before, after, i as int);
        }
        self.accounts = accounts;
        proof {
            self.lemma_view_wf();
            assert(self@.accounts =~= old(self)@.update(identity@, mutation@).0.accounts);
        }
        r
    }
}

} // verus!
