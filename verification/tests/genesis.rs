use pallet_kitties::encoding::{blake_two_256, push_decimal, scale_encode_bytes, scale_encode_u32};
use pallet_kitties::genesis::{genesis_kitty_dna, genesis_kitty_name, GenesisConfig};
use pallet_kitties::pallet::Pallet;
use pallet_kitties::types::{Gender, RawOrigin, H256};
use parity_scale_codec::Encode;
use sp_runtime::traits::BlakeTwo256;

/// The dna a runtime genesis computes: the blake2-256 hash of the SCALE-encoded `String` name.
fn reference_dna(name: &str) -> H256 {
    <BlakeTwo256 as sp_runtime::traits::Hash>::hash(&name.to_string().encode()).0
}

#[test]
fn default_genesis_makes_nothing() {
    let config = GenesisConfig::default();
    assert_eq!(config.genesis_num_of_kitty_for_alice, 0);
    assert_eq!(config.alice_account, None);
    let mut p = Pallet::new(10);
    config.build(&mut p, 5);
    assert_eq!(p.kitty_id(), 0);
}

#[test]
fn genesis_without_alice_makes_nothing() {
    let config = GenesisConfig { genesis_num_of_kitty_for_alice: 3, alice_account: None };
    let mut p = Pallet::new(10);
    config.build(&mut p, 5);
    assert_eq!(p.kitty_id(), 0);
}

#[test]
fn genesis_makes_named_kitties_for_alice() {
    let alice = 1u64;
    let config = GenesisConfig { genesis_num_of_kitty_for_alice: 3, alice_account: Some(alice) };
    let mut p = Pallet::new(10);
    config.build(&mut p, 5);
    assert_eq!(p.kitty_id(), 3);
    let owned = p.kitty_owned(alice);
    assert_eq!(
        owned,
        vec![reference_dna("alice_kitty_0"), reference_dna("alice_kitty_1"), reference_dna("alice_kitty_2")]
    );
    for (i, dna) in owned.iter().enumerate() {
        let k = p.get_kitty(dna).expect("each genesis kitty is stored");
        assert_eq!(k.name, format!("alice_kitty_{}", i).into_bytes());
        assert_eq!(k.owner, alice);
        assert_eq!(k.price, 0);
        assert_eq!(k.gender, Gender::Male);
        assert_eq!(k.created_date, 5);
    }
    // Genesis deposits no event and leaves the nonce alone.
    assert!(p.events().is_empty());
    assert_eq!(p.nonce(), 0);
}

#[test]
fn genesis_kitties_can_be_transferred() {
    let alice = 1u64;
    let config = GenesisConfig { genesis_num_of_kitty_for_alice: 2, alice_account: Some(alice) };
    let mut p = Pallet::new(10);
    config.build(&mut p, 0);
    let dna = reference_dna("alice_kitty_1");
    assert_eq!(p.transfer_kitty_to_friend(RawOrigin::Signed(alice), 2, dna), Ok(()));
    assert_eq!(p.kitty_owned(alice), vec![reference_dna("alice_kitty_0")]);
    assert_eq!(p.kitty_owned(2), vec![dna]);
}

#[test]
fn genesis_kitty_name_and_dna() {
    assert_eq!(genesis_kitty_name(0), b"alice_kitty_0".to_vec());
    assert_eq!(genesis_kitty_name(42), b"alice_kitty_42".to_vec());
    assert_eq!(genesis_kitty_name(u32::MAX), b"alice_kitty_4294967295".to_vec());
    let name = genesis_kitty_name(7);
    assert_eq!(genesis_kitty_dna(&name), reference_dna("alice_kitty_7"));
    assert_ne!(genesis_kitty_dna(&name), genesis_kitty_dna(&genesis_kitty_name(8)));
}

#[test]
fn add_genesis_kitty_stores_and_counts() {
    let mut p = Pallet::new(1);
    let dna: H256 = [3u8; 32];
    p.add_genesis_kitty(9, b"x".to_vec(), dna, 11);
    assert_eq!(p.kitty_id(), 1);
    assert_eq!(p.kitty_owned(9), vec![dna]);
    let k = p.get_kitty(&dna).unwrap();
    assert_eq!((k.owner, k.gender, k.price, k.created_date), (9, Gender::Male, 0, 11));
}

#[test]
fn decimal_digits() {
    for n in [0u32, 9, 10, 99, 100, 12345, u32::MAX] {
        let mut out = b"#".to_vec();
        push_decimal(n, &mut out);
        assert_eq!(out, format!("#{}", n).into_bytes());
    }
}

#[test]
fn scale_encoding_of_numbers_and_bytes() {
    assert_eq!(scale_encode_u32(0x0403_0201), vec![1, 2, 3, 4]);
    assert_eq!(scale_encode_u32(7), vec![7, 0, 0, 0]);
    // Up to 63 bytes: one length byte, the length times four.
    assert_eq!(scale_encode_bytes(b"abc"), vec![12, b'a', b'b', b'c']);
    assert_eq!(scale_encode_bytes(b""), vec![0]);
    // 64 bytes: two length bytes, 64 * 4 + 1 little-endian.
    let long = vec![0xaau8; 64];
    let enc = scale_encode_bytes(&long);
    assert_eq!(&enc[..2], &[0x01, 0x01]);
    assert_eq!(&enc[2..], &long[..]);
    // 2^14 bytes: four length bytes, 2^14 * 4 + 2 little-endian.
    let longer = vec![1u8; 1 << 14];
    let enc = scale_encode_bytes(&longer);
    assert_eq!(&enc[..4], &[0x02, 0x00, 0x01, 0x00]);
    assert_eq!(enc.len(), 4 + (1 << 14));
}

#[test]
fn blake2_256_of_known_inputs() {
    // blake2b-256 of the empty input.
    assert_eq!(
        blake_two_256(b""),
        [
            0x0e, 0x57, 0x51, 0xc0, 0x26, 0xe5, 0x43, 0xb2, 0xe8, 0xab, 0x2e, 0xb0, 0x60, 0x99,
            0xda, 0xa1, 0xd1, 0xe5, 0xdf, 0x47, 0x77, 0x8f, 0x77, 0x87, 0xfa, 0xab, 0x45, 0xcd,
            0xf1, 0x2f, 0xe3, 0xa8
        ]
    );
    assert_ne!(blake_two_256(b"a"), blake_two_256(b"b"));
}
