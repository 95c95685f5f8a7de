use kitties::Pallet;

#[test]
fn unlabelled_record_codec_round_trips() {
    let rec: Vec<u8> = (0u8..16).collect();
    let old = kitties::migrations::conn::OldKitty::decode(&rec).unwrap();
    assert_eq!(old.0, rec);
    assert_eq!(old.encode(), rec);
    assert!(kitties::migrations::conn::OldKitty::decode(&vec![0u8; 15]).is_none());
    assert!(kitties::migrations::conn::OldKitty::decode(&vec![0u8; 29]).is_none());
}

#[test]
fn labelled_record_codec_round_trips() {
    let dna: Vec<u8> = (0u8..16).collect();
    let mut labelled: Vec<u8> = vec![7u8; 13];
    labelled.extend_from_slice(&dna);

    let first = kitties::migrations::v0::Kitty::decode(&labelled).unwrap();
    assert_eq!(first.name, vec![7u8; 13]);
    assert_eq!(first.dna, dna);
    assert_eq!(first.encode(), labelled);
    assert!(kitties::migrations::v0::Kitty::decode(&dna).is_none());

    let second = kitties::migrations::v1::Kitty::decode(&labelled).unwrap();
    assert_eq!(second.name, vec![7u8; 13]);
    assert_eq!(second.dna, dna);
    assert_eq!(second.encode(), labelled);

    let kept = kitties::migrations::kittyv2::OldKitty::decode(&labelled).unwrap();
    assert_eq!(kept.0, dna);
    assert!(kitties::migrations::kittyv2::OldKitty::decode(&dna).is_none());
}

#[test]
fn stored_records_decode_with_the_version_codecs() {
    let mut module = Pallet::new();
    module.create(1, &vec![9u8; 16]).unwrap();
    let rec = module.kitty_record(0).unwrap();
    let old = kitties::migrations::conn::OldKitty::decode(&rec).unwrap();
    assert_eq!(old.0, vec![9u8; 16]);
}
