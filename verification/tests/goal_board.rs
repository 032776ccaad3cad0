use shared_goals::address::Address;
use shared_goals::error::Error;
use shared_goals::goal_board::GoalBoard;
use shared_goals::goals_vault::TokenContract;
use shared_goals::open_ledger::OpenLedger;

#[test]
fn board_needs_a_positive_reward() {
    assert_eq!(GoalBoard::new(0).err(), Some(Error::InvalidReward));
    assert_eq!(GoalBoard::new(-1).err(), Some(Error::InvalidReward));
    assert_eq!(GoalBoard::new(1).unwrap().reward(), 1);
}

#[test]
fn ids_count_up_from_zero() {
    let mut board = GoalBoard::new(10).unwrap();
    let alice = Address::new("alice");
    let bob = Address::new("bob");

    assert_eq!(board.create_goal(&alice, alice.clone(), "trip".to_string(), 500), Ok(0));
    assert_eq!(board.create_goal(&bob, bob.clone(), "bike".to_string(), 80), Ok(1));
    assert_eq!(board.create_goal(&bob, alice.clone(), "boat".to_string(), 80), Err(Error::Unauthorized));
    assert_eq!(board.create_goal(&alice, alice.clone(), "trip".to_string(), 500), Ok(2));

    let goal = board.get_goal(1).unwrap();
    assert_eq!(goal.creator, bob);
    assert_eq!(goal.title, "bike");
    assert_eq!(goal.target_amount, 80);
    assert_eq!(goal.current_amount, 0);
    assert!(!goal.approved);
    assert!(board.get_goal(3).is_none());
}

#[test]
fn approval_pays_the_creator_once() {
    let mut token = OpenLedger::new();
    let mut board = GoalBoard::new(10).unwrap();
    let alice = Address::new("alice");
    let bob = Address::new("bob");
    let id = board.create_goal(&alice, alice.clone(), "trip".to_string(), 500).unwrap();

    assert_eq!(board.approve_goal(&mut token, &bob, &bob, id), Ok(()));
    assert!(board.get_goal(id).unwrap().approved);
    assert_eq!(board.get_goal(id).unwrap().current_amount, 0);
    assert_eq!(token.balance(&alice), 10);
    assert_eq!(token.balance(&bob), 0);

    assert_eq!(board.approve_goal(&mut token, &bob, &bob, id), Err(Error::AlreadyApproved));
    assert_eq!(board.approve_goal(&mut token, &alice, &alice, id), Err(Error::AlreadyApproved));
    assert_eq!(token.balance(&alice), 10);
}

#[test]
fn board_approval_is_refused_in_the_order_of_the_checks() {
    let mut token = OpenLedger::new();
    let mut board = GoalBoard::new(10).unwrap();
    let alice = Address::new("alice");
    let bob = Address::new("bob");

    assert_eq!(board.approve_goal(&mut token, &alice, &bob, 0), Err(Error::Unauthorized));
    assert_eq!(board.approve_goal(&mut token, &bob, &bob, 0), Err(Error::GoalNotFound));
    board.create_goal(&alice, alice.clone(), "trip".to_string(), 500).unwrap();
    assert_eq!(board.approve_goal(&mut token, &bob, &bob, 1), Err(Error::GoalNotFound));
    assert_eq!(board.approve_goal(&mut token, &alice, &alice, 0), Ok(()));
    assert_eq!(board.approve_goal(&mut token, &alice, &bob, 0), Err(Error::Unauthorized));
    assert_eq!(token.balance(&alice), 10);
}

#[test]
fn refused_mint_leaves_the_goal_unapproved() {
    let mut token = OpenLedger::new();
    let mut board = GoalBoard::new(10).unwrap();
    let alice = Address::new("alice");
    let bob = Address::new("bob");
    board.create_goal(&alice, alice.clone(), "trip".to_string(), 500).unwrap();
    token.mint(&alice, i128::MAX - 9).unwrap();

    assert_eq!(board.approve_goal(&mut token, &bob, &bob, 0), Err(Error::Overflow));
    assert!(!board.get_goal(0).unwrap().approved);
    assert_eq!(token.balance(&alice), i128::MAX - 9);
}
