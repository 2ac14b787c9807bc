use pallet_kitties::encoding::blake_two_256;
use pallet_kitties::pallet::Pallet;
use pallet_kitties::types::{
    AccountId, BlockNumber, DispatchError, Error, Event, Gender, RawOrigin, H256,
};

const KITTY_LIMIT: u32 = 10;
const BLOCK: BlockNumber = 1;
const NOW: u64 = 1_000;

/// A stand-in for the runtime's randomness: a hash of the subject, known since `BLOCK`.
fn draw(subject: &[u8]) -> (H256, BlockNumber) {
    (blake_two_256(subject), BLOCK)
}

fn create(p: &mut Pallet, origin: RawOrigin, name: &[u8]) -> Result<(), DispatchError> {
    let random = draw(&p.kitty_random_subject());
    p.create_new_kitty(origin, name.to_vec(), random, NOW)
}

fn new_test_ext() -> Pallet {
    Pallet::new(KITTY_LIMIT)
}

/// Everything a caller can read of the storage, to compare before and after a call.
fn snapshot(p: &Pallet, accounts: &[AccountId], dnas: &[H256]) -> String {
    let mut out = format!("id={} nonce={} events={}", p.kitty_id(), p.nonce(), p.events().len());
    for a in accounts {
        out.push_str(&format!(" owned[{}]={:?}", a, p.kitty_owned(*a)));
    }
    for d in dnas {
        out.push_str(&format!(" kitty[{:?}]={:?}", d, p.get_kitty(d)));
    }
    out
}

#[test]
fn it_should_work() {
    let mut p = new_test_ext();
    let from_user = RawOrigin::Signed(1u64);
    assert_eq!(create(&mut p, from_user, b"hello"), Ok(()));
}

#[test]
fn transfer_kitty_should_work() {
    let mut p = new_test_ext();
    let from_account_id = 1u64;
    let to_account_id = 2u64;

    assert_eq!(create(&mut p, RawOrigin::Signed(from_account_id), b"hello"), Ok(()));
    let kitties_owned_by_from_user = p.kitty_owned(from_account_id);
    assert_eq!(kitties_owned_by_from_user.len(), 1);
    let dns_hash = kitties_owned_by_from_user[0];
    assert_eq!(
        p.transfer_kitty_to_friend(RawOrigin::Signed(from_account_id), to_account_id, dns_hash),
        Ok(())
    );

    let kitties_owned_by_from_user = p.kitty_owned(from_account_id);
    assert_eq!(kitties_owned_by_from_user.len(), 0);
    let kitties_owned_by_to_user = p.kitty_owned(to_account_id);
    assert_eq!(kitties_owned_by_to_user.len(), 1);

    assert_eq!(p.kitty_id(), 1);
}

#[test]
fn transfer_kitty_should_fail_cause_of_wrong_owner() {
    let mut p = new_test_ext();
    let from_account_id = 1u64;
    let to_account_id = 2u64;

    assert_eq!(create(&mut p, RawOrigin::Signed(from_account_id), b"hello"), Ok(()));
    let kitties_owned_by_from_user = p.kitty_owned(from_account_id);
    assert_eq!(kitties_owned_by_from_user.len(), 1);
    let dns_hash = kitties_owned_by_from_user[0];
    let before = snapshot(&p, &[from_account_id, to_account_id], &[dns_hash]);
    assert_eq!(
        p.transfer_kitty_to_friend(RawOrigin::Signed(to_account_id), to_account_id, dns_hash),
        Err(DispatchError::Module(Error::KittyWrongOwner))
    );
    assert_eq!(snapshot(&p, &[from_account_id, to_account_id], &[dns_hash]), before);
}

#[test]
fn transfer_kitty_should_fail_cause_of_send_myself() {
    let mut p = new_test_ext();
    let from_account_id = 1u64;
    let to_account_id = from_account_id;

    assert_eq!(create(&mut p, RawOrigin::Signed(from_account_id), b"hello"), Ok(()));
    let kitties_owned_by_from_user = p.kitty_owned(from_account_id);
    assert_eq!(kitties_owned_by_from_user.len(), 1);
    let dns_hash = kitties_owned_by_from_user[0];
    let before = snapshot(&p, &[from_account_id], &[dns_hash]);
    assert_eq!(
        p.transfer_kitty_to_friend(RawOrigin::Signed(from_account_id), to_account_id, dns_hash),
        Err(DispatchError::Module(Error::KittyTransferFail))
    );
    assert_eq!(snapshot(&p, &[from_account_id], &[dns_hash]), before);
}

#[test]
fn bm_create_kity() {
    let mut p = new_test_ext();
    let caller: AccountId = 0;
    assert_eq!(create(&mut p, RawOrigin::Signed(caller), b"Hung Pham"), Ok(()));
    assert_eq!(p.kitty_id(), 1);
}

#[test]
fn created_kitty_has_every_field() {
    let mut p = new_test_ext();
    let subject = p.kitty_random_subject();
    assert_eq!(subject, vec![0u8, 0, 0, 0]);
    let (dna, _) = draw(&subject);
    assert_eq!(create(&mut p, RawOrigin::Signed(7), b"hello"), Ok(()));
    let k = p.get_kitty(&dna).expect("the kitty is stored under its random dna");
    assert_eq!(k.dna, dna);
    assert_eq!(k.name, b"hello".to_vec());
    assert_eq!(k.owner, 7);
    assert_eq!(k.price, 0);
    assert_eq!(k.gender, Gender::Female);
    assert_eq!(k.created_date, NOW);
    assert_eq!(p.kitty_owned(7), vec![dna]);
    assert_eq!(p.nonce(), 1);
    assert_eq!(p.kitty_random_subject(), vec![1u8, 0, 0, 0]);
    match &p.events()[..] {
        [Event::KittyCreated { kitty, dna: d, owner }] => {
            assert_eq!(kitty, &b"hello".to_vec());
            assert_eq!(d, &dna);
            assert_eq!(*owner, 7);
        }
        other => panic!("unexpected events {:?}", other),
    }
}

#[test]
fn calculate_gender_goes_by_parity_of_length() {
    assert_eq!(Pallet::calculate_gender(&b"hello".to_vec()), Ok(Gender::Female));
    assert_eq!(Pallet::calculate_gender(&b"kitty!".to_vec()), Ok(Gender::Male));
    assert_eq!(Pallet::calculate_gender(&Vec::new()), Ok(Gender::Male));
}

#[test]
fn create_needs_a_signed_origin() {
    for origin in [RawOrigin::Root, RawOrigin::Unsigned, RawOrigin::Authorized] {
        let mut p = new_test_ext();
        let before = snapshot(&p, &[1], &[]);
        assert_eq!(create(&mut p, origin, b"hello"), Err(DispatchError::BadOrigin));
        assert_eq!(snapshot(&p, &[1], &[]), before);
    }
}

#[test]
fn create_refuses_a_taken_dna_and_changes_nothing() {
    let mut p = new_test_ext();
    let random = draw(b"fixed");
    assert_eq!(p.create_new_kitty(RawOrigin::Signed(1), b"a".to_vec(), random, NOW), Ok(()));
    assert_eq!(
        p.create_new_kitty(RawOrigin::Signed(2), b"b".to_vec(), random, NOW),
        Err(DispatchError::Module(Error::KittyDnaAlreadyExist))
    );
    assert_eq!(p.nonce(), 1);
    assert_eq!(p.kitty_id(), 1);
    assert_eq!(p.events().len(), 1);
    assert_eq!(p.kitty_owned(2), Vec::<H256>::new());
    assert_eq!(p.get_kitty(&random.0).map(|k| k.owner), Some(1));
}

#[test]
fn create_stops_at_the_limit() {
    let mut p = Pallet::new(2);
    assert_eq!(create(&mut p, RawOrigin::Signed(1), b"one"), Ok(()));
    assert_eq!(create(&mut p, RawOrigin::Signed(1), b"two"), Ok(()));
    let before = snapshot(&p, &[1, 2], &[]);
    assert_eq!(
        create(&mut p, RawOrigin::Signed(1), b"three"),
        Err(DispatchError::Module(Error::KittyOwnedTooLarge))
    );
    assert_eq!(snapshot(&p, &[1, 2], &[]), before);
    assert_eq!(p.kitty_owned(1).len(), 2);
    assert_eq!(p.kitty_id(), 2);
    assert_eq!(p.nonce(), 2);
    // Another account still may create.
    assert_eq!(create(&mut p, RawOrigin::Signed(2), b"four"), Ok(()));
}

#[test]
fn create_with_limit_zero_is_always_refused() {
    let mut p = Pallet::new(0);
    assert_eq!(
        create(&mut p, RawOrigin::Signed(1), b"hello"),
        Err(DispatchError::Module(Error::KittyOwnedTooLarge))
    );
    assert_eq!(p.kitty_id(), 0);
}

#[test]
fn transfer_of_unknown_kitty_is_not_found() {
    let mut p = new_test_ext();
    let unknown: H256 = [9u8; 32];
    assert_eq!(
        p.transfer_kitty_to_friend(RawOrigin::Signed(1), 2, unknown),
        Err(DispatchError::Module(Error::KittyNotFound))
    );
}

#[test]
fn transfer_needs_a_signed_origin() {
    let mut p = new_test_ext();
    assert_eq!(create(&mut p, RawOrigin::Signed(1), b"hello"), Ok(()));
    let dna = p.kitty_owned(1)[0];
    let before = snapshot(&p, &[1, 2], &[dna]);
    assert_eq!(
        p.transfer_kitty_to_friend(RawOrigin::Root, 2, dna),
        Err(DispatchError::BadOrigin)
    );
    assert_eq!(snapshot(&p, &[1, 2], &[dna]), before);
}

#[test]
fn transfer_moves_one_kitty_and_fills_the_gap_with_the_last() {
    let mut p = new_test_ext();
    for name in [&b"a"[..], b"b", b"c"] {
        assert_eq!(create(&mut p, RawOrigin::Signed(1), name), Ok(()));
    }
    let owned = p.kitty_owned(1);
    assert_eq!(owned.len(), 3);
    assert_eq!(p.transfer_kitty_to_friend(RawOrigin::Signed(1), 2, owned[0]), Ok(()));
    // The last dna takes the place of the one that left.
    assert_eq!(p.kitty_owned(1), vec![owned[2], owned[1]]);
    assert_eq!(p.kitty_owned(2), vec![owned[0]]);
    assert_eq!(p.get_kitty(&owned[0]).map(|k| k.owner), Some(2));
    assert_eq!(p.get_kitty(&owned[1]).map(|k| k.owner), Some(1));
    assert_eq!(p.kitty_id(), 3);
    match p.events().last() {
        Some(Event::KittyTransferred { from, to, kitty, dna }) => {
            assert_eq!((*from, *to), (1, 2));
            assert_eq!(kitty, &b"a".to_vec());
            assert_eq!(dna, &owned[0]);
        }
        other => panic!("unexpected event {:?}", other),
    }
    // The new owner may hand it back.
    assert_eq!(p.transfer_kitty_to_friend(RawOrigin::Signed(2), 1, owned[0]), Ok(()));
    assert_eq!(p.kitty_owned(2), Vec::<H256>::new());
    assert_eq!(p.kitty_owned(1), vec![owned[2], owned[1], owned[0]]);
}

#[test]
fn random_number_stores_what_was_drawn() {
    let mut p = new_test_ext();
    let subject = Pallet::random_number_subject();
    assert_eq!(subject, b"seed sample".to_vec());
    let random = draw(&subject);
    assert_eq!(p.random_number(RawOrigin::Unsigned, random), Ok(()));
    let info = p.get_random_number();
    assert_eq!(info.hash, random.0);
    assert_eq!(info.block_number, BLOCK);
}

#[test]
fn empty_storage_reads_as_defaults() {
    let p = new_test_ext();
    assert_eq!(p.kitty_id(), 0);
    assert_eq!(p.nonce(), 0);
    assert_eq!(p.kitty_limit(), KITTY_LIMIT);
    assert_eq!(p.kitty_owned(42), Vec::<H256>::new());
    assert!(p.get_kitty(&[0u8; 32]).is_none());
    assert_eq!(p.get_random_number().hash, [0u8; 32]);
    assert_eq!(p.get_random_number().block_number, 0);
    assert!(p.events().is_empty());
}

#[test]
fn kitty_debug_lists_name_first() {
    let mut p = new_test_ext();
    assert_eq!(create(&mut p, RawOrigin::Signed(3), b"hi"), Ok(()));
    let dna = p.kitty_owned(3)[0];
    let shown = format!("{:?}", p.get_kitty(&dna).unwrap());
    assert!(shown.starts_with("Kitty { name: [104, 105], dna: "), "{}", shown);
    assert!(shown.ends_with("owner: 3, price: 0, gender: Male, created_date: 1000 }"), "{}", shown);
}
