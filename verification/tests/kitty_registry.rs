use registries::gender::Gender;
use registries::kitties::KittyRegistry;
use registries::types::{Error, Event};

#[test]
fn kitty_gender_follows_dna_length_parity() {
    let mut registry = KittyRegistry::new(10);
    assert!(registry.create_kitty(1, b"123".to_vec(), 0, 7).is_ok());
    assert_eq!(
        registry.kitty_from_dna(&b"123".to_vec()).expect("stored").gender,
        Gender::Female
    );
    assert!(registry.create_kitty(1, b"1234".to_vec(), 0, 8).is_ok());
    assert_eq!(
        registry.kitty_from_dna(&b"1234".to_vec()).expect("stored").gender,
        Gender::Male
    );
}

#[test]
fn empty_dna_gives_male_kitty() {
    let mut registry = KittyRegistry::new(10);
    assert!(registry.create_kitty(1, Vec::new(), 0, 0).is_ok());
    assert_eq!(registry.kitty_from_dna(&Vec::new()).expect("stored").gender, Gender::Male);
}

#[test]
fn created_kitty_stores_supplied_fields() {
    let mut registry = KittyRegistry::new(10);
    assert!(registry.create_kitty(9, b"xyz".to_vec(), 250, 42).is_ok());
    let kitty = registry.kitty_from_dna(&b"xyz".to_vec()).expect("stored");
    assert_eq!(kitty.dna, b"xyz".to_vec());
    assert_eq!(kitty.owner, 9);
    assert_eq!(kitty.price, 250);
    assert_eq!(kitty.created_at, 42);
    assert_eq!(registry.quantity(), 1);
    assert_eq!(registry.events()[0], Event::KittyCreated(b"xyz".to_vec()));
}

#[test]
fn creations_fill_index_to_limit_and_then_fail() {
    let mut registry = KittyRegistry::new(3);
    let dnas: [&[u8]; 3] = [b"aa", b"bb", b"cc"];
    for dna in dnas.iter() {
        assert!(registry.create_kitty(1, dna.to_vec(), 0, 1).is_ok());
    }
    let owned = registry.owner_kitties(1).expect("index entry exists");
    assert_eq!(owned.len(), 3);
    for (i, dna) in dnas.iter().enumerate() {
        assert_eq!(owned[i], dna.to_vec());
    }
    assert_eq!(registry.create_kitty(1, b"dd".to_vec(), 0, 2), Err(Error::ExceedLimit));
    assert_eq!(registry.owner_kitties(1).expect("index entry exists").len(), 3);
    // The counter increment and the record insertion performed before the
    // capacity check are kept: the rejected creation is still counted and its
    // record is still stored.
    assert_eq!(registry.quantity(), 4);
    assert!(registry.kitty_from_dna(&b"dd".to_vec()).is_some());
    assert_eq!(registry.events().len(), 3);
}

#[test]
fn transfer_of_unowned_dna_fails_and_changes_nothing() {
    let mut registry = KittyRegistry::new(10);
    assert!(registry.create_kitty(1, b"aa".to_vec(), 0, 1).is_ok());
    assert_eq!(
        registry.transfer_kitty(2, b"aa".to_vec(), 3),
        Err(Error::NotKittyOwner)
    );
    assert_eq!(
        registry.transfer_kitty(1, b"zz".to_vec(), 2),
        Err(Error::NotKittyOwner)
    );
    assert_eq!(registry.owner_kitties(1).expect("index entry exists").len(), 1);
    assert!(registry.owner_kitties(2).is_none());
    assert!(registry.owner_kitties(3).is_none());
    assert_eq!(registry.events().len(), 1);
}

#[test]
fn transfer_moves_dna_between_indices() {
    let mut registry = KittyRegistry::new(10);
    assert!(registry.create_kitty(1, b"aa".to_vec(), 0, 1).is_ok());
    assert!(registry.create_kitty(1, b"bb".to_vec(), 0, 2).is_ok());
    assert!(registry.transfer_kitty(1, b"aa".to_vec(), 2).is_ok());
    let sender = registry.owner_kitties(1).expect("index entry exists");
    assert_eq!(sender, &vec![b"bb".to_vec()]);
    let receiver = registry.owner_kitties(2).expect("index entry exists");
    assert_eq!(receiver, &vec![b"aa".to_vec()]);
    assert_eq!(
        registry.events()[2],
        Event::KittyTransferred(b"aa".to_vec(), 1, 2)
    );
    // A repeated transfer of the same dna by the original sender now fails.
    assert_eq!(
        registry.transfer_kitty(1, b"aa".to_vec(), 2),
        Err(Error::NotKittyOwner)
    );
}

#[test]
fn transfer_to_full_receiver_fails_after_sender_update() {
    let mut registry = KittyRegistry::new(1);
    assert!(registry.create_kitty(1, b"aa".to_vec(), 0, 1).is_ok());
    assert!(registry.create_kitty(2, b"bb".to_vec(), 0, 2).is_ok());
    assert_eq!(registry.transfer_kitty(1, b"aa".to_vec(), 2), Err(Error::ExceedLimit));
    // The sender's reduced index was persisted before the receiver's capacity
    // check rejected the transfer.
    assert_eq!(registry.owner_kitties(1).expect("index entry exists").len(), 0);
    assert_eq!(registry.owner_kitties(2).expect("index entry exists").len(), 1);
    assert_eq!(registry.events().len(), 2);
}

#[test]
fn self_transfer_moves_dna_to_the_end() {
    let mut registry = KittyRegistry::new(10);
    assert!(registry.create_kitty(1, b"aa".to_vec(), 0, 1).is_ok());
    assert!(registry.create_kitty(1, b"bb".to_vec(), 0, 2).is_ok());
    assert!(registry.transfer_kitty(1, b"aa".to_vec(), 1).is_ok());
    let owned = registry.owner_kitties(1).expect("index entry exists");
    assert_eq!(owned, &vec![b"bb".to_vec(), b"aa".to_vec()]);
}

#[test]
fn repeated_dna_overwrites_the_record() {
    let mut registry = KittyRegistry::new(10);
    assert!(registry.create_kitty(1, b"aa".to_vec(), 5, 1).is_ok());
    assert!(registry.create_kitty(2, b"aa".to_vec(), 9, 2).is_ok());
    let kitty = registry.kitty_from_dna(&b"aa".to_vec()).expect("stored");
    assert_eq!(kitty.owner, 2);
    assert_eq!(kitty.price, 9);
    assert_eq!(kitty.created_at, 2);
    // Both index entries still hold the dna: the first owner's entry dangles.
    assert_eq!(registry.owner_kitties(1).expect("index entry exists").len(), 1);
    assert_eq!(registry.owner_kitties(2).expect("index entry exists").len(), 1);
    assert_eq!(registry.quantity(), 2);
}

#[test]
fn transfer_does_not_touch_the_record_owner_field() {
    let mut registry = KittyRegistry::new(10);
    assert!(registry.create_kitty(1, b"aa".to_vec(), 0, 1).is_ok());
    assert!(registry.transfer_kitty(1, b"aa".to_vec(), 2).is_ok());
    // Only the index tracks ownership; the record keeps its creator.
    assert_eq!(registry.kitty_from_dna(&b"aa".to_vec()).expect("stored").owner, 1);
}

#[test]
fn limit_zero_rejects_every_creation() {
    let mut registry = KittyRegistry::new(0);
    assert_eq!(registry.kitties_limit(), 0);
    assert_eq!(registry.create_kitty(1, b"aa".to_vec(), 0, 1), Err(Error::ExceedLimit));
    assert!(registry.owner_kitties(1).is_none());
    assert_eq!(registry.quantity(), 1);
}
