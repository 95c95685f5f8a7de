use kitties::Error;
use kitties::Event;
use kitties::Pallet;

fn seed(x: u8) -> Vec<u8> {
    vec![x; 16]
}

#[test]
fn it_works_for_create() {
    let mut module = Pallet::new();
    let kitty_id = 0;
    let account_id = 1;

    assert_eq!(module.next_kitty_id(), kitty_id);
    let event = module.create(account_id, &seed(7)).unwrap();

    match event {
        Event::KittyCreated { who, kitty_id: id, kitty } => {
            assert_eq!(who, account_id);
            assert_eq!(id, kitty_id);
            assert_eq!(kitty.0, module.kitties(kitty_id).unwrap().0);
        },
        _ => panic!("expected a creation event"),
    }

    assert_eq!(module.next_kitty_id(), kitty_id + 1);
    assert_eq!(module.kitties(kitty_id).is_some(), true);
    assert_eq!(module.kitty_owner(kitty_id), Some(account_id));
    assert_eq!(module.kitty_parents(kitty_id), None);

    module.set_next_kitty_id(u32::MAX);
    assert_eq!(
        module.create(account_id, &seed(7)).unwrap_err(),
        Error::IdSpaceExhausted
    );
    assert_eq!(module.next_kitty_id(), u32::MAX);
}

#[test]
fn it_works_for_transfer() {
    let mut module = Pallet::new();
    let account_id: u64 = 1;
    let kitty_id = 0u32;
    let to = 2;

    module.create(account_id, &seed(7)).unwrap();
    assert_eq!(module.kitty_owner(kitty_id), Some(account_id));

    assert_eq!(
        module.transfer(to, kitty_id, account_id).unwrap_err(),
        Error::NotOwner
    );
    module.transfer(account_id, kitty_id, to).unwrap();
    assert_eq!(module.kitty_owner(kitty_id), Some(to));
    let event = module.transfer(to, kitty_id, account_id).unwrap();
    assert_eq!(module.kitty_owner(kitty_id), Some(account_id));

    match event {
        Event::KittyTransferred { who, kitty_id: id, to: target } => {
            assert_eq!(who, to);
            assert_eq!(id, kitty_id);
            assert_eq!(target, account_id);
        },
        _ => panic!("expected a transfer event"),
    }
}

#[test]
fn it_works_for_breed() {
    let mut module = Pallet::new();
    let account_id: u64 = 1;

    let kitty_id = 0u32;

    assert_eq!(
        module.breed(account_id, kitty_id, kitty_id, &seed(9)).unwrap_err(),
        Error::SameKittyId
    );

    module.create(account_id, &seed(1)).unwrap();
    module.create(account_id, &seed(2)).unwrap();

    assert_eq!(module.next_kitty_id(), kitty_id + 2);

    let event = module.breed(account_id, kitty_id, kitty_id + 1, &seed(0xff)).unwrap();

    match event {
        Event::KittyBreed { who, kitty_id: id, kitty } => {
            assert_eq!(who, account_id);
            assert_eq!(id, kitty_id + 2);
            assert_eq!(kitty.0, module.kitties(kitty_id + 2).unwrap().0);
        },
        _ => panic!("expected a breeding event"),
    }

    let breed_kitty_id = 2;
    assert_eq!(module.next_kitty_id(), breed_kitty_id + 1);
    assert_eq!(module.kitties(breed_kitty_id).is_some(), true);
    assert_eq!(module.kitty_owner(breed_kitty_id), Some(account_id));
    assert_eq!(
        module.kitty_parents(breed_kitty_id),
        Some((kitty_id, kitty_id + 1))
    );
}

#[test]
fn transfer_of_unknown_id_is_invalid() {
    let mut module = Pallet::new();
    assert_eq!(module.transfer(1, 0, 2).unwrap_err(), Error::InvalidKittyId);
}

#[test]
fn breed_needs_two_distinct_stored_parents() {
    let mut module = Pallet::new();
    let account_id: u64 = 1;

    assert_eq!(
        module.breed(account_id, 5, 5, &seed(3)).unwrap_err(),
        Error::SameKittyId
    );
    assert_eq!(module.next_kitty_id(), 0);

    assert_eq!(
        module.breed(account_id, 5, 6, &seed(3)).unwrap_err(),
        Error::InvalidKittyId
    );
    assert_eq!(module.next_kitty_id(), 0);

    module.create(account_id, &seed(1)).unwrap();
    assert_eq!(
        module.breed(account_id, 0, 6, &seed(3)).unwrap_err(),
        Error::InvalidKittyId
    );
    assert_eq!(module.next_kitty_id(), 1);
}

#[test]
fn create_and_transfer_scenario() {
    let mut module = Pallet::new();
    let a: u64 = 1;
    let b: u64 = 2;
    let c: u64 = 3;

    module.create(a, &seed(1)).unwrap();
    module.create(a, &seed(2)).unwrap();
    assert_eq!(module.kitty_owner(0), Some(a));
    assert_eq!(module.kitty_owner(1), Some(a));
    assert_eq!(module.kitty_parents(0), None);
    assert_eq!(module.kitty_parents(1), None);

    module.breed(a, 0, 1, &seed(4)).unwrap();
    assert_eq!(module.kitty_owner(2), Some(a));
    assert_eq!(module.kitty_parents(2), Some((0, 1)));

    module.transfer(a, 2, b).unwrap();
    assert_eq!(module.transfer(a, 2, c).unwrap_err(), Error::NotOwner);
    module.transfer(b, 2, c).unwrap();
    assert_eq!(module.kitty_owner(2), Some(c));
}

#[test]
fn allocator_continues_after_manual_counter_moves() {
    let mut module = Pallet::new();
    module.create(1, &seed(1)).unwrap();
    module.set_next_kitty_id(10);
    let event = module.create(1, &seed(2)).unwrap();
    match event {
        Event::KittyCreated { kitty_id, .. } => assert_eq!(kitty_id, 10),
        _ => panic!("expected a creation event"),
    }
    assert_eq!(module.next_kitty_id(), 11);
    assert_eq!(module.kitties(10).is_some(), true);
    assert_eq!(module.kitties(9).is_none(), true);
}
