use le_token::account::{Receipt, UserAccount};
use le_token::guard::AuthorizationGuard;
use le_token::identity::{all_distinct, contains_identity, Identity};
use le_token::instruction::Instruction;
use le_token::referral::reward;
use le_token::store::AccountStore;
use le_token::window::{elapsed, WINDOW_SECONDS};
use le_token::LedgerError;

fn id(name: &str) -> Identity {
    Identity::from_slice(name.as_bytes())
}

#[test]
fn referral_reward_sequence() {
    let expected: [u64; 7] = [50, 25, 12, 6, 3, 1, 0];
    for (count, want) in expected.iter().enumerate() {
        assert_eq!(reward(count), *want);
    }
    assert_eq!(reward(7), 0);
    assert_eq!(reward(63), 0);
    assert_eq!(reward(64), 0);
    assert_eq!(reward(usize::MAX), 0);
}

#[test]
fn referral_reward_never_grows() {
    for count in 0..100usize {
        assert!(reward(count + 1) <= reward(count));
    }
}

#[test]
fn window_elapses_after_its_length() {
    assert_eq!(WINDOW_SECONDS, 86400);
    assert!(!elapsed(100, 100, 86400));
    assert!(!elapsed(100, 100 + 86399, 86400));
    assert!(elapsed(100, 100 + 86400, 86400));
    assert!(elapsed(0, u64::MAX, 86400));
    assert!(elapsed(5, 5, 0));
}

#[test]
fn window_has_not_elapsed_before_its_start() {
    assert!(!elapsed(100, 99, 86400));
    assert!(!elapsed(u64::MAX, 0, 1));
    assert!(!elapsed(100, 99, 0));
}

#[test]
fn identities_compare_by_their_bytes() {
    let a = id("alice");
    assert!(a.same(&id("alice")));
    assert!(!a.same(&id("alicf")));
    assert!(!a.same(&id("alic")));
    assert_eq!(a, a.clone());
    assert_ne!(a, id("bob"));
    assert_eq!(a.as_bytes(), b"alice");
    assert_eq!(a.len(), 5);
    assert_eq!(Identity::from_vec(vec![1, 2, 3]), Identity::from_slice(&[1, 2, 3]));
    assert_eq!(Identity::from_slice(&[]).len(), 0);
}

#[test]
fn identity_lists() {
    let list = vec![id("a"), id("b"), id("c")];
    assert!(contains_identity(&list, &id("b")));
    assert!(!contains_identity(&list, &id("d")));
    assert!(!contains_identity(&Vec::new(), &id("a")));
    assert!(all_distinct(&list));
    assert!(all_distinct(&Vec::new()));
    assert!(!all_distinct(&vec![id("a"), id("b"), id("a")]));
    assert!(!all_distinct(&vec![id("a"), id("a")]));
}

#[test]
fn fresh_account_is_all_zero() {
    let account = UserAccount::new(id("alice"), 7);
    assert_eq!(account.identity(), &id("alice"));
    assert_eq!(account.points(), 0);
    assert_eq!(account.last_check_in(), 0);
    assert_eq!(account.ad_views_today(), 0);
    assert!(account.referrals().is_empty());
    assert_eq!(account.account_number(), 7);
}

#[test]
fn account_from_parts_round_trips() {
    let referrals = vec![id("x"), id("y")];
    let account =
        UserAccount::from_parts(id("alice"), 99, 1234, 5, referrals.clone(), 42).unwrap();
    assert_eq!(account.identity(), &id("alice"));
    assert_eq!(account.points(), 99);
    assert_eq!(account.last_check_in(), 1234);
    assert_eq!(account.ad_views_today(), 5);
    assert_eq!(account.referrals(), &referrals);
    assert_eq!(account.account_number(), 42);
    assert!(account.has_referred(&id("y")));
    assert!(!account.has_referred(&id("z")));
    assert_eq!(account.clone(), account);
    let (identity, points, last_check_in, ad_views_today, parts, account_number) =
        account.clone().into_parts();
    assert_eq!(
        (&identity, points, last_check_in, ad_views_today, &parts, account_number),
        (&id("alice"), 99, 1234, 5, &referrals, 42)
    );
    assert_eq!(
        UserAccount::from_parts(identity, points, last_check_in, ad_views_today, parts, account_number),
        Ok(account)
    );
}

#[test]
fn account_from_parts_refuses_broken_records() {
    assert_eq!(
        UserAccount::from_parts(id("alice"), 0, 0, 6, Vec::new(), 1).err(),
        Some(LedgerError::InvalidArgument)
    );
    assert_eq!(
        UserAccount::from_parts(id("alice"), 0, 0, 0, vec![id("x"), id("x")], 1).err(),
        Some(LedgerError::InvalidArgument)
    );
    assert!(UserAccount::from_parts(id("alice"), 0, 0, 5, vec![id("x")], 1).is_ok());
}

#[test]
fn account_apply_follows_the_instruction() {
    let mut account = UserAccount::new(id("alice"), 1);
    assert_eq!(account.apply(&Instruction::Initialize), Err(LedgerError::AlreadyExists));
    assert_eq!(
        account.apply(&Instruction::AddPoints { amount: 3 }),
        Ok(Receipt { awarded: 3, balance: 3 })
    );
    assert_eq!(
        account.apply(&Instruction::CommunityCredit { amount: 4 }),
        Ok(Receipt { awarded: 4, balance: 7 })
    );
    assert_eq!(
        account.apply(&Instruction::CheckIn { timestamp: 86399 }),
        Err(LedgerError::AlreadyCheckedIn)
    );
    assert_eq!(
        account.apply(&Instruction::CheckIn { timestamp: 90000 }),
        Ok(Receipt { awarded: 10, balance: 17 })
    );
    assert_eq!(account.last_check_in(), 90000);
    assert_eq!(
        account.apply(&Instruction::AdView { timestamp: 90001 }),
        Ok(Receipt { awarded: 5, balance: 22 })
    );
    assert_eq!(account.ad_views_today(), 1);
    assert_eq!(
        account.apply(&Instruction::Referral { referred: id("bob") }),
        Ok(Receipt { awarded: 50, balance: 72 })
    );
    assert_eq!(
        account.apply(&Instruction::Referral { referred: id("bob") }),
        Err(LedgerError::AlreadyReferred)
    );
    assert_eq!(
        account.apply(&Instruction::Referral { referred: id("carol") }),
        Ok(Receipt { awarded: 25, balance: 97 })
    );
    assert_eq!(account.referrals(), &vec![id("bob"), id("carol")]);
    assert_eq!(account.points(), 97);
}

#[test]
fn account_outcome_changes_nothing() {
    let account = UserAccount::from_parts(id("alice"), 10, 100_000, 5, Vec::new(), 1).unwrap();
    let before = account.clone();
    assert_eq!(
        account.outcome(&Instruction::AdView { timestamp: 100_001 }),
        Err(LedgerError::AdLimitReached)
    );
    assert_eq!(
        account.outcome(&Instruction::AdView { timestamp: 186_400 }),
        Ok(Receipt { awarded: 5, balance: 15 })
    );
    assert_eq!(
        account.outcome(&Instruction::CheckIn { timestamp: 186_400 }),
        Ok(Receipt { awarded: 10, balance: 20 })
    );
    assert_eq!(account, before);
}

#[test]
fn account_ad_view_after_the_window_counts_from_one() {
    let mut account = UserAccount::from_parts(id("alice"), 10, 100_000, 5, Vec::new(), 1).unwrap();
    assert_eq!(
        account.apply(&Instruction::AdView { timestamp: 186_399 }),
        Err(LedgerError::AdLimitReached)
    );
    assert_eq!(account.ad_views_today(), 5);
    assert_eq!(
        account.apply(&Instruction::AdView { timestamp: 186_400 }),
        Ok(Receipt { awarded: 5, balance: 15 })
    );
    assert_eq!(account.ad_views_today(), 1);
    assert_eq!(account.last_check_in(), 100_000);
}

#[test]
fn account_overflow_leaves_every_field() {
    let mut account =
        UserAccount::from_parts(id("alice"), u64::MAX - 5, 0, 0, Vec::new(), 1).unwrap();
    let before = account.clone();
    for instruction in [
        Instruction::AddPoints { amount: 10 },
        Instruction::AddPoints { amount: 6 },
        Instruction::CommunityCredit { amount: u64::MAX },
        Instruction::CheckIn { timestamp: 86400 },
        Instruction::Referral { referred: id("bob") },
    ] {
        assert_eq!(account.apply(&instruction), Err(LedgerError::ArithmeticOverflow));
        assert_eq!(account, before);
    }
    assert_eq!(account.points(), u64::MAX - 5);
    assert_eq!(
        account.apply(&Instruction::AddPoints { amount: 5 }),
        Ok(Receipt { awarded: 5, balance: u64::MAX })
    );
}

#[test]
fn store_creates_and_finds_accounts() {
    let mut store = AccountStore::new();
    assert_eq!(store.len(), 0);
    assert!(!store.contains(&id("alice")));
    assert!(store.get(&id("alice")).is_none());
    let created = store.create(id("alice")).unwrap();
    assert_eq!(created, UserAccount::new(id("alice"), 1));
    assert_eq!(store.get(&id("alice")), Some(&created));
    assert!(store.contains(&id("alice")));
    assert_eq!(store.create(id("alice")).err(), Some(LedgerError::AlreadyExists));
    assert_eq!(store.create(id("bob")).unwrap().account_number(), 2);
    assert_eq!(store.len(), 2);
    assert_eq!(store.counter(), 2);
}

#[test]
fn store_numbers_are_never_reused() {
    let mut store = AccountStore::new();
    assert_eq!(store.next_account_number(), Ok(1));
    assert_eq!(store.next_account_number(), Ok(2));
    assert_eq!(store.create(id("alice")).unwrap().account_number(), 3);
    assert_eq!(store.next_account_number(), Ok(4));
    assert_eq!(store.create(id("bob")).unwrap().account_number(), 5);
    assert_eq!(store.counter(), 5);
    assert_eq!(store.len(), 2);
}

#[test]
fn store_update_applies_to_one_account() {
    let mut store = AccountStore::new();
    store.create(id("alice")).unwrap();
    store.create(id("bob")).unwrap();
    assert_eq!(
        store.update(&id("carol"), &Instruction::AddPoints { amount: 1 }),
        Err(LedgerError::NotFound)
    );
    assert_eq!(
        store.update(&id("bob"), &Instruction::AddPoints { amount: 8 }),
        Ok(Receipt { awarded: 8, balance: 8 })
    );
    assert_eq!(
        store.update(&id("bob"), &Instruction::CheckIn { timestamp: 5 }),
        Err(LedgerError::AlreadyCheckedIn)
    );
    assert_eq!(store.update(&id("bob"), &Instruction::Initialize), Err(LedgerError::AlreadyExists));
    assert_eq!(store.get(&id("bob")).unwrap().points(), 8);
    assert_eq!(store.get(&id("alice")).unwrap().points(), 0);
    assert_eq!(store.get(&id("bob")).unwrap().account_number(), 2);
}

#[test]
fn guard_decides_by_instruction() {
    let guard = AuthorizationGuard::new(vec![id("root")]);
    let alice = id("alice");
    let bob = id("bob");
    let root = id("root");
    assert!(guard.is_admin(&root));
    assert!(!guard.is_admin(&alice));
    assert_eq!(guard.authorize(&bob, &alice, &Instruction::Initialize), Ok(()));
    assert_eq!(guard.authorize(&alice, &alice, &Instruction::CheckIn { timestamp: 1 }), Ok(()));
    assert_eq!(
        guard.authorize(&bob, &alice, &Instruction::CheckIn { timestamp: 1 }),
        Err(LedgerError::Unauthorized)
    );
    assert_eq!(
        guard.authorize(&root, &alice, &Instruction::AddPoints { amount: 1 }),
        Err(LedgerError::Unauthorized)
    );
    assert_eq!(
        guard.authorize(&root, &alice, &Instruction::CommunityCredit { amount: 1 }),
        Ok(())
    );
    assert_eq!(
        guard.authorize(&alice, &alice, &Instruction::CommunityCredit { amount: 1 }),
        Err(LedgerError::Unauthorized)
    );
    let nobody = AuthorizationGuard::new(Vec::new());
    assert_eq!(
        nobody.authorize(&root, &alice, &Instruction::CommunityCredit { amount: 1 }),
        Err(LedgerError::Unauthorized)
    );
}
