use shared_goals::address::Address;
use shared_goals::error::Error;
use shared_goals::goals_vault::TokenContract;
use shared_goals::open_ledger::OpenLedger;
use shared_goals::personal_goals::PersonalGoals;

#[test]
fn completion_is_rewarded_once() {
    let mut token = OpenLedger::new();
    let mut goals = PersonalGoals::new();
    let alice = Address::new("alice");

    assert!(!goals.is_goal_complete(&alice, 1));
    assert_eq!(goals.complete_goal(&mut token, &alice, &alice, 1, 30), Ok(()));
    assert!(goals.is_goal_complete(&alice, 1));
    assert_eq!(token.balance(&alice), 30);

    assert_eq!(goals.complete_goal(&mut token, &alice, &alice, 1, 30), Err(Error::AlreadyCompleted));
    assert_eq!(goals.complete_goal(&mut token, &alice, &alice, 1, 99), Err(Error::AlreadyCompleted));
    assert_eq!(token.balance(&alice), 30);
}

#[test]
fn completions_are_kept_by_user_and_goal() {
    let mut token = OpenLedger::new();
    let mut goals = PersonalGoals::new();
    let alice = Address::new("alice");
    let bob = Address::new("bob");

    goals.complete_goal(&mut token, &alice, &alice, 1, 30).unwrap();
    assert!(!goals.is_goal_complete(&bob, 1));
    assert!(!goals.is_goal_complete(&alice, 2));

    assert_eq!(goals.complete_goal(&mut token, &bob, &bob, 1, 5), Ok(()));
    assert_eq!(goals.complete_goal(&mut token, &alice, &alice, 2, 12), Ok(()));
    assert_eq!(token.balance(&alice), 42);
    assert_eq!(token.balance(&bob), 5);
}

#[test]
fn completion_is_refused_in_the_order_of_the_checks() {
    let mut token = OpenLedger::new();
    let mut goals = PersonalGoals::new();
    let alice = Address::new("alice");
    let bob = Address::new("bob");

    assert_eq!(goals.complete_goal(&mut token, &bob, &alice, 1, 0), Err(Error::Unauthorized));
    assert_eq!(goals.complete_goal(&mut token, &alice, &alice, 1, 0), Err(Error::InvalidReward));
    assert_eq!(goals.complete_goal(&mut token, &alice, &alice, 1, -4), Err(Error::InvalidReward));
    assert!(!goals.is_goal_complete(&alice, 1));

    goals.complete_goal(&mut token, &alice, &alice, 1, 4).unwrap();
    assert_eq!(goals.complete_goal(&mut token, &alice, &alice, 1, 0), Err(Error::InvalidReward));
    assert_eq!(goals.complete_goal(&mut token, &bob, &alice, 1, 4), Err(Error::Unauthorized));
    assert_eq!(token.balance(&alice), 4);
}

#[test]
fn refused_mint_records_no_completion() {
    let mut token = OpenLedger::new();
    let mut goals = PersonalGoals::new();
    let alice = Address::new("alice");
    token.mint(&alice, i128::MAX).unwrap();

    assert_eq!(goals.complete_goal(&mut token, &alice, &alice, 1, 1), Err(Error::Overflow));
    assert!(!goals.is_goal_complete(&alice, 1));
    assert_eq!(token.balance(&alice), i128::MAX);
}
