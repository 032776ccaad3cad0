use shared_goals::address::Address;
use shared_goals::error::Error;
use shared_goals::sync_token::SyncToken;

#[test]
fn test_initialize_and_mint() {
    let mut client = SyncToken::new();

    let minter = Address::new("minter");
    let to = Address::new("to");

    client.initialize(minter.clone()).unwrap();
    client.mint(&minter, &to, 100).unwrap();

    assert_eq!(client.balance(&to), 100);
    assert_eq!(client.total_supply(), 100);
}

#[test]
fn test_mint_accumulates() {
    let mut client = SyncToken::new();

    let minter = Address::new("minter");
    let to = Address::new("to");

    client.initialize(minter.clone()).unwrap();
    client.mint(&minter, &to, 60).unwrap();
    client.mint(&minter, &to, 40).unwrap();

    assert_eq!(client.balance(&to), 100);
}

#[test]
fn test_balance_default_zero() {
    let mut client = SyncToken::new();

    let minter = Address::new("minter");
    client.initialize(minter).unwrap();

    let nobody = Address::new("nobody");
    assert_eq!(client.balance(&nobody), 0);
}

#[test]
#[should_panic]
fn test_double_initialize_panics() {
    let mut client = SyncToken::new();

    let minter = Address::new("minter");
    client.initialize(minter.clone()).unwrap();
    client.initialize(minter).unwrap();
}

#[test]
fn only_the_issuer_mints() {
    let mut token = SyncToken::new();
    let issuer = Address::new("issuer");
    let user = Address::new("user");

    assert_eq!(token.mint(&issuer, &user, 100), Err(Error::Unauthorized));
    assert_eq!(token.minter(), None);

    assert_eq!(token.initialize(issuer.clone()), Ok(()));
    assert_eq!(token.minter(), Some(issuer.clone()));

    assert_eq!(token.mint(&user, &user, 100), Err(Error::Unauthorized));
    assert_eq!(token.balance(&user), 0);
    assert_eq!(token.total_supply(), 0);

    assert_eq!(token.mint(&issuer, &user, 100), Ok(()));
    assert_eq!(token.balance(&user), 100);
    assert_eq!(token.total_supply(), 100);
}

#[test]
fn second_initialize_is_refused_and_keeps_the_issuer() {
    let mut token = SyncToken::new();
    let issuer = Address::new("issuer");
    let other = Address::new("other");

    assert_eq!(token.initialize(issuer.clone()), Ok(()));
    assert_eq!(token.initialize(other.clone()), Err(Error::AlreadyInitialized));
    assert_eq!(token.initialize(issuer.clone()), Err(Error::AlreadyInitialized));
    assert_eq!(token.minter(), Some(issuer.clone()));
    assert_eq!(token.mint(&other, &other, 1), Err(Error::Unauthorized));
}

#[test]
fn mint_refuses_amounts_that_are_not_positive() {
    let mut token = SyncToken::new();
    let issuer = Address::new("issuer");
    let user = Address::new("user");
    token.initialize(issuer.clone()).unwrap();

    assert_eq!(token.mint(&issuer, &user, 0), Err(Error::InvalidAmount));
    assert_eq!(token.mint(&issuer, &user, -5), Err(Error::InvalidAmount));
    assert_eq!(token.mint(&user, &user, -5), Err(Error::Unauthorized));
    assert_eq!(token.balance(&user), 0);
    assert_eq!(token.total_supply(), 0);
}

#[test]
fn mint_refuses_a_supply_out_of_range() {
    let mut token = SyncToken::new();
    let issuer = Address::new("issuer");
    let user = Address::new("user");
    let other = Address::new("other");
    token.initialize(issuer.clone()).unwrap();

    assert_eq!(token.mint(&issuer, &user, i128::MAX - 1), Ok(()));
    assert_eq!(token.mint(&issuer, &other, 2), Err(Error::Overflow));
    assert_eq!(token.balance(&other), 0);
    assert_eq!(token.total_supply(), i128::MAX - 1);
    assert_eq!(token.mint(&issuer, &other, 1), Ok(()));
    assert_eq!(token.total_supply(), i128::MAX);
    assert_eq!(token.mint(&issuer, &other, 1), Err(Error::Overflow));
    assert_eq!(token.balance(&user), i128::MAX - 1);
    assert_eq!(token.balance(&other), 1);
}

#[test]
fn mints_add_up_in_either_order() {
    let issuer = Address::new("issuer");
    let user = Address::new("user");

    let mut one = SyncToken::new();
    one.initialize(issuer.clone()).unwrap();
    one.mint(&issuer, &user, 60).unwrap();
    one.mint(&issuer, &user, 40).unwrap();

    let mut other = SyncToken::new();
    other.initialize(issuer.clone()).unwrap();
    other.mint(&issuer, &user, 40).unwrap();
    other.mint(&issuer, &user, 60).unwrap();

    assert_eq!(one.balance(&user), 100);
    assert_eq!(other.balance(&user), 100);
    assert_eq!(one.total_supply(), other.total_supply());
}

#[test]
fn amounts_beyond_64_bits_are_held() {
    let mut token = SyncToken::new();
    let issuer = Address::new("issuer");
    let user = Address::new("user");
    token.initialize(issuer.clone()).unwrap();

    let big: i128 = 1 << 100;
    token.mint(&issuer, &user, big).unwrap();
    token.mint(&issuer, &user, big).unwrap();
    assert_eq!(token.balance(&user), 1 << 101);
    assert_eq!(token.total_supply(), 1 << 101);
}

#[test]
fn transfer_moves_the_amount_and_keeps_the_supply() {
    let mut token = SyncToken::new();
    let issuer = Address::new("issuer");
    let alice = Address::new("alice");
    let bob = Address::new("bob");
    token.initialize(issuer.clone()).unwrap();
    token.mint(&issuer, &alice, 100).unwrap();

    assert_eq!(token.transfer(&alice, &alice, &bob, 30), Ok(()));
    assert_eq!(token.balance(&alice), 70);
    assert_eq!(token.balance(&bob), 30);
    assert_eq!(token.total_supply(), 100);

    assert_eq!(token.transfer(&alice, &alice, &bob, 70), Ok(()));
    assert_eq!(token.balance(&alice), 0);
    assert_eq!(token.balance(&bob), 100);
    assert_eq!(token.total_supply(), 100);
}

#[test]
fn transfer_of_more_than_the_balance_is_refused() {
    let mut token = SyncToken::new();
    let issuer = Address::new("issuer");
    let alice = Address::new("alice");
    let bob = Address::new("bob");
    token.initialize(issuer.clone()).unwrap();
    token.mint(&issuer, &alice, 100).unwrap();
    token.mint(&issuer, &bob, 5).unwrap();

    assert_eq!(token.transfer(&alice, &alice, &bob, 101), Err(Error::InsufficientBalance));
    assert_eq!(token.balance(&alice), 100);
    assert_eq!(token.balance(&bob), 5);

    let carol = Address::new("carol");
    assert_eq!(token.transfer(&carol, &carol, &bob, 1), Err(Error::InsufficientBalance));
    assert_eq!(token.balance(&carol), 0);
    assert_eq!(token.balance(&bob), 5);
    assert_eq!(token.total_supply(), 105);
}

#[test]
fn transfer_checks_the_invoker_then_the_amount() {
    let mut token = SyncToken::new();
    let issuer = Address::new("issuer");
    let alice = Address::new("alice");
    let bob = Address::new("bob");
    token.initialize(issuer.clone()).unwrap();
    token.mint(&issuer, &alice, 100).unwrap();

    assert_eq!(token.transfer(&bob, &alice, &bob, 10), Err(Error::Unauthorized));
    assert_eq!(token.transfer(&bob, &alice, &bob, 0), Err(Error::Unauthorized));
    assert_eq!(token.transfer(&alice, &alice, &bob, 0), Err(Error::InvalidAmount));
    assert_eq!(token.transfer(&alice, &alice, &bob, -1), Err(Error::InvalidAmount));
    assert_eq!(token.balance(&alice), 100);
    assert_eq!(token.balance(&bob), 0);
}

#[test]
fn transfer_to_oneself_changes_no_balance() {
    let mut token = SyncToken::new();
    let issuer = Address::new("issuer");
    let alice = Address::new("alice");
    token.initialize(issuer.clone()).unwrap();
    token.mint(&issuer, &alice, 100).unwrap();

    assert_eq!(token.transfer(&alice, &alice, &alice, 100), Ok(()));
    assert_eq!(token.balance(&alice), 100);
    assert_eq!(token.total_supply(), 100);
    assert_eq!(token.transfer(&alice, &alice, &alice, 101), Err(Error::InsufficientBalance));
}

#[test]
fn duplicate_holds_the_same_and_moves_alone() {
    let mut token = SyncToken::new();
    let issuer = Address::new("issuer");
    let alice = Address::new("alice");
    token.initialize(issuer.clone()).unwrap();
    token.mint(&issuer, &alice, 7).unwrap();

    let mut copy = token.duplicate();
    assert_eq!(copy.balance(&alice), 7);
    assert_eq!(copy.total_supply(), 7);
    assert_eq!(copy.minter(), Some(issuer.clone()));

    copy.mint(&issuer, &alice, 3).unwrap();
    assert_eq!(copy.balance(&alice), 10);
    assert_eq!(token.balance(&alice), 7);
    assert_eq!(token.total_supply(), 7);
}

#[test]
fn messages_name_the_condition() {
    assert_eq!(Error::AlreadyInitialized.message(), "already initialized");
    assert_eq!(Error::NotInitialized.message(), "token contract not set");
    assert_eq!(Error::Unauthorized.message(), "unauthorized");
    assert_eq!(Error::InvalidReward.message(), "reward must be positive");
    assert_eq!(Error::InvalidPartners.message(), "partners must be different");
    assert_eq!(Error::GoalAlreadyExists.message(), "goal already exists");
    assert_eq!(Error::GoalNotFound.message(), "goal not found");
    assert_eq!(Error::AlreadyMinted.message(), "goal already completed");
    assert_eq!(Error::NotAParticipant.message(), "approver is not a goal partner");
    assert_eq!(Error::TimeLocked.message(), "goal is still time-locked");
    assert_eq!(Error::AlreadyLinked.message(), "partner already linked");
    assert_eq!(Error::InvalidAmount.message(), "amount must be positive");
    assert_eq!(Error::InsufficientBalance.message(), "insufficient balance");
    assert_eq!(Error::Overflow.message(), "value out of range");
    assert_eq!(Error::AlreadyApproved.message(), "goal already approved");
    assert_eq!(Error::AlreadyCompleted.message(), "goal already completed by this user");
}

#[test]
fn restore_takes_balances_that_add_up() {
    let issuer = Address::new("issuer");
    let alice = Address::new("alice");
    let bob = Address::new("bob");
    let rows = vec![(alice.clone(), 70), (bob.clone(), 30)];

    let mut token = SyncToken::restore(Some(issuer.clone()), rows, 100).unwrap();
    assert_eq!(token.balance(&alice), 70);
    assert_eq!(token.balance(&bob), 30);
    assert_eq!(token.total_supply(), 100);
    assert_eq!(token.minter(), Some(issuer.clone()));
    assert_eq!(token.balances().len(), 2);

    token.mint(&issuer, &bob, 5).unwrap();
    assert_eq!(token.balance(&bob), 35);
    assert_eq!(token.total_supply(), 105);
    assert_eq!(token.initialize(alice.clone()), Err(Error::AlreadyInitialized));

    let again = SyncToken::restore(token.minter(), token.balances().clone(), token.total_supply());
    assert_eq!(again.unwrap().balance(&bob), 35);
}

#[test]
fn restore_refuses_what_no_ledger_holds() {
    let alice = Address::new("alice");
    let bob = Address::new("bob");

    assert!(SyncToken::restore(None, vec![], 0).is_some());
    assert!(SyncToken::restore(None, vec![], 1).is_none());
    assert!(SyncToken::restore(None, vec![], -1).is_none());
    assert!(SyncToken::restore(None, vec![(alice.clone(), 70), (bob.clone(), 30)], 99).is_none());
    assert!(SyncToken::restore(None, vec![(alice.clone(), 70), (bob.clone(), 30)], 101).is_none());
    assert!(SyncToken::restore(None, vec![(alice.clone(), 70), (alice.clone(), 30)], 100).is_none());
    assert!(SyncToken::restore(None, vec![(alice.clone(), 110), (bob.clone(), -10)], 100).is_none());
    assert!(SyncToken::restore(None, vec![(alice.clone(), i128::MAX), (bob.clone(), 1)], i128::MAX)
        .is_none());
    assert!(SyncToken::restore(None, vec![(alice.clone(), 0), (bob.clone(), 0)], 0).is_some());
}
