use shared_goals::address::Address;
use shared_goals::couple_sync::CoupleSync;
use shared_goals::error::Error;

#[test]
fn test_link_and_sync() {
    let mut client = CoupleSync::new();

    let alice = Address::new("alice");
    let bob = Address::new("bob");

    // Alice links Bob
    assert_eq!(client.link_partners(&alice, alice.clone(), bob.clone()), Ok(false));
    assert!(!client.is_synced(&alice));
    assert!(!client.is_synced(&bob));

    // Bob links Alice: now both are synced
    assert_eq!(client.link_partners(&bob, bob.clone(), alice.clone()), Ok(true));
    assert!(client.is_synced(&alice));
    assert!(client.is_synced(&bob));
}

#[test]
fn test_one_sided_not_synced() {
    let mut client = CoupleSync::new();

    let alice = Address::new("alice");
    let bob = Address::new("bob");

    // Only Alice links Bob
    client.link_partners(&alice, alice.clone(), bob.clone()).unwrap();
    assert!(!client.is_synced(&alice));
    assert!(!client.is_synced(&bob));
}

#[test]
fn test_get_partner() {
    let mut client = CoupleSync::new();

    let alice = Address::new("alice");
    let bob = Address::new("bob");

    // No partner set yet
    assert_eq!(client.get_partner(&alice), None);

    // Alice links Bob
    client.link_partners(&alice, alice.clone(), bob.clone()).unwrap();
    assert_eq!(client.get_partner(&alice), Some(bob.clone()));

    // Bob has no partner yet
    assert_eq!(client.get_partner(&bob), None);
}

#[test]
fn test_mismatched_partners() {
    let mut client = CoupleSync::new();

    let alice = Address::new("alice");
    let bob = Address::new("bob");
    let charlie = Address::new("charlie");

    // Alice links Bob, Bob links Charlie (mismatch)
    client.link_partners(&alice, alice.clone(), bob.clone()).unwrap();
    client.link_partners(&bob, bob.clone(), charlie.clone()).unwrap();

    assert!(!client.is_synced(&alice));
    assert!(!client.is_synced(&bob));
}

#[test]
fn link_is_only_for_the_caller() {
    let mut registry = CoupleSync::new();
    let alice = Address::new("alice");
    let bob = Address::new("bob");

    assert_eq!(
        registry.link_partners(&bob, alice.clone(), bob.clone()),
        Err(Error::Unauthorized)
    );
    assert_eq!(registry.get_partner(&alice), None);
    assert!(!registry.is_synced(&alice));
}

#[test]
fn relinking_replaces_and_desyncs() {
    let mut registry = CoupleSync::new();
    let alice = Address::new("alice");
    let bob = Address::new("bob");
    let charlie = Address::new("charlie");

    registry.link_partners(&alice, alice.clone(), bob.clone()).unwrap();
    registry.link_partners(&bob, bob.clone(), alice.clone()).unwrap();
    assert!(registry.is_synced(&alice));

    assert_eq!(registry.link_partners(&alice, alice.clone(), charlie.clone()), Ok(false));
    assert_eq!(registry.get_partner(&alice), Some(charlie.clone()));
    assert_eq!(registry.get_partner(&bob), Some(alice.clone()));
    assert!(!registry.is_synced(&alice));
    assert!(!registry.is_synced(&bob));
    assert!(!registry.is_synced(&charlie));
}

#[test]
fn guarded_registry_refuses_a_second_link() {
    let mut registry = CoupleSync::guarded();
    let alice = Address::new("alice");
    let bob = Address::new("bob");
    let charlie = Address::new("charlie");

    assert_eq!(registry.link_partners(&alice, alice.clone(), bob.clone()), Ok(false));
    assert_eq!(
        registry.link_partners(&alice, alice.clone(), charlie.clone()),
        Err(Error::AlreadyLinked)
    );
    assert_eq!(
        registry.link_partners(&alice, alice.clone(), bob.clone()),
        Err(Error::AlreadyLinked)
    );
    assert_eq!(registry.get_partner(&alice), Some(bob.clone()));

    assert_eq!(registry.link_partners(&bob, bob.clone(), alice.clone()), Ok(true));
    assert!(registry.is_synced(&alice));
    assert!(registry.is_synced(&bob));
}

#[test]
fn link_to_oneself_is_synced_at_once() {
    let mut registry = CoupleSync::new();
    let alice = Address::new("alice");

    assert_eq!(registry.link_partners(&alice, alice.clone(), alice.clone()), Ok(true));
    assert!(registry.is_synced(&alice));
}

#[test]
fn link_back_to_the_first_of_three_syncs() {
    let mut registry = CoupleSync::new();
    let alice = Address::new("alice");
    let bob = Address::new("bob");
    let charlie = Address::new("charlie");

    registry.link_partners(&alice, alice.clone(), bob.clone()).unwrap();
    registry.link_partners(&charlie, charlie.clone(), bob.clone()).unwrap();
    assert_eq!(registry.link_partners(&bob, bob.clone(), charlie.clone()), Ok(true));
    assert!(registry.is_synced(&bob));
    assert!(registry.is_synced(&charlie));
    assert!(!registry.is_synced(&alice));
}

#[test]
fn addresses_compare_by_their_text() {
    let alice = Address::new("alice");
    assert_eq!(alice.as_str(), "alice");
    assert_eq!(alice, Address::new("alice"));
    assert_ne!(alice, Address::new("alicf"));
    assert_ne!(alice, Address::new("alic"));
    assert_eq!(alice.clone(), alice);
}

#[test]
fn restore_takes_links_of_distinct_identities() {
    let alice = Address::new("alice");
    let bob = Address::new("bob");

    let links = vec![(alice.clone(), bob.clone()), (bob.clone(), alice.clone())];
    let registry = CoupleSync::restore(links, true).unwrap();
    assert!(registry.is_guarded());
    assert!(registry.is_synced(&alice));
    assert!(registry.is_synced(&bob));
    assert_eq!(registry.links().len(), 2);

    let twice = vec![(alice.clone(), bob.clone()), (alice.clone(), alice.clone())];
    assert!(CoupleSync::restore(twice, false).is_none());
    assert!(!CoupleSync::restore(vec![], false).unwrap().is_guarded());
}
