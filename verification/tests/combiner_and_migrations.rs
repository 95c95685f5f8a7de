use kitties::combine;
use kitties::migrations::conn::migrate;
use kitties::Pallet;
use kitties::VERSION;

fn seed(x: u8) -> Vec<u8> {
    vec![x; 16]
}

#[test]
fn combine_is_deterministic() {
    let p1: Vec<u8> = (0u8..16).collect();
    let p2: Vec<u8> = (16u8..32).collect();
    let mask = seed(0x3c);
    let first = combine(&p1, &p2, &mask);
    let second = combine(&p1, &p2, &mask);
    assert_eq!(first, second);
}

#[test]
fn combine_exact_bytes() {
    let p1 = seed(0xaa);
    let p2 = seed(0x55);
    let mask = seed(0x0f);
    // (0xaa & 0x0f) | (0x55 & 0x0f) == 0x0a | 0x05 == 0x0f
    assert_eq!(combine(&p1, &p2, &mask), seed(0x0f));
}

#[test]
fn combine_with_full_mask_is_bitwise_or() {
    let p1 = seed(0xa1);
    let p2 = seed(0x14);
    assert_eq!(combine(&p1, &p2, &seed(0xff)), seed(0xa1 | 0x14));
}

#[test]
fn combine_with_zero_mask_is_zero() {
    let p1 = seed(0xa1);
    let p2 = seed(0x14);
    assert_eq!(combine(&p1, &p2, &seed(0x00)), seed(0x00));
}

#[test]
fn bred_genome_follows_the_combiner() {
    let mut module = Pallet::new();
    module.create(1, &seed(0xaa)).unwrap();
    module.create(1, &seed(0x55)).unwrap();
    module.breed(1, 0, 1, &seed(0xff)).unwrap();
    assert_eq!(module.kitties(2).unwrap().0, seed(0xff));
}

#[test]
fn migration_walks_every_step_and_keeps_genomes() {
    let mut module = Pallet::new();
    assert_eq!(module.version(), 0);
    module.create(1, &seed(0x11)).unwrap();
    module.create(2, &seed(0x22)).unwrap();
    // a version-0 record is the bare 16-byte genome
    assert_eq!(module.kitty_record(0).unwrap(), seed(0x11));

    let weight = migrate(&mut module);
    // three steps, each rewriting both records
    assert_eq!(weight, 6);
    assert_eq!(module.version(), VERSION);
    assert_eq!(module.kitty_count(), 2);

    // the final record carries the 8-byte label, then the unchanged genome
    let mut expected0: Vec<u8> = vec![0, 0, 0, 1, 0, 0, 0, 0];
    expected0.extend_from_slice(&seed(0x11));
    assert_eq!(module.kitty_record(0).unwrap(), expected0);
    let mut expected1: Vec<u8> = vec![0, 0, 0, 1, 0, 0, 0, 1];
    expected1.extend_from_slice(&seed(0x22));
    assert_eq!(module.kitty_record(1).unwrap(), expected1);

    // ownership, lineage and the allocator are untouched
    assert_eq!(module.kitty_owner(0), Some(1));
    assert_eq!(module.kitty_owner(1), Some(2));
    assert_eq!(module.kitty_parents(0), None);
    assert_eq!(module.next_kitty_id(), 2);
}

#[test]
fn migration_is_idempotent() {
    let mut module = Pallet::new();
    module.create(1, &seed(0x11)).unwrap();
    module.create(1, &seed(0x22)).unwrap();

    migrate(&mut module);
    let first_run_records = (module.kitty_record(0).unwrap(), module.kitty_record(1).unwrap());

    let weight = migrate(&mut module);
    assert_eq!(weight, 0);
    assert_eq!(module.version(), VERSION);
    let second_run_records = (module.kitty_record(0).unwrap(), module.kitty_record(1).unwrap());
    assert_eq!(first_run_records, second_run_records);
}

#[test]
fn migration_preserves_the_entity_count() {
    let mut module = Pallet::new();
    for i in 0..5u8 {
        module.create(u64::from(i), &seed(i)).unwrap();
    }
    assert_eq!(module.kitty_count(), 5);
    migrate(&mut module);
    assert_eq!(module.kitty_count(), 5);
    for id in 0..5u32 {
        assert_eq!(module.kitties(id).unwrap().0, seed(id as u8));
    }
}

#[test]
fn migration_of_an_empty_registry_does_nothing_but_versioning() {
    let mut module = Pallet::new();
    let weight = migrate(&mut module);
    assert_eq!(weight, 0);
    assert_eq!(module.version(), VERSION);
    assert_eq!(module.kitty_count(), 0);
}

#[test]
fn records_created_after_migration_carry_the_target_label() {
    let mut module = Pallet::new();
    migrate(&mut module);
    module.create(1, &seed(0x33)).unwrap();
    let mut expected: Vec<u8> = vec![0, 0, 0, 1, 0, 0, 0, 0];
    expected.extend_from_slice(&seed(0x33));
    assert_eq!(module.kitty_record(0).unwrap(), expected);
    // the label embeds the low byte of the id
    module.set_next_kitty_id(0x1_02);
    module.create(1, &seed(0x44)).unwrap();
    let mut expected_high: Vec<u8> = vec![0, 0, 0, 1, 0, 0, 0, 0x02];
    expected_high.extend_from_slice(&seed(0x44));
    assert_eq!(module.kitty_record(0x1_02).unwrap(), expected_high);
}
