use name_auction::encoding::{commitment, decimal_bytes, eligibility_slot, same_bytes};
use name_auction::ranking::top_two;

#[test]
fn decimal_bytes_renders_without_leading_zeros() {
    assert_eq!(decimal_bytes(0), b"0".to_vec());
    assert_eq!(decimal_bytes(7), b"7".to_vec());
    assert_eq!(decimal_bytes(10), b"10".to_vec());
    assert_eq!(decimal_bytes(1005), b"1005".to_vec());
    assert_eq!(decimal_bytes(u64::MAX as u128), b"18446744073709551615".to_vec());
    assert_eq!(
        decimal_bytes(u128::MAX),
        b"340282366920938463463374607431768211455".to_vec()
    );
}

#[test]
fn decimal_bytes_agrees_with_the_standard_rendering() {
    let mut n: u128 = 1;
    for _ in 0..127 {
        assert_eq!(decimal_bytes(n), n.to_string().into_bytes());
        assert_eq!(decimal_bytes(n - 1), (n - 1).to_string().into_bytes());
        n *= 2;
    }
}

#[test]
fn the_commitment_is_the_base58_text_of_amount_and_salt() {
    assert_eq!(commitment(1000, &"123".to_string()), b"2s7YSBAHei".to_vec());
    assert_eq!(commitment(1005, &"123".to_string()), b"2s7YSJaE4S".to_vec());
    assert_eq!(commitment(0, &"123".to_string()), b"2ESvwk".to_vec());
}

#[test]
fn the_commitment_is_not_its_own_preimage() {
    let made = commitment(1000, &"123".to_string());
    assert_ne!(made, b"1000123".to_vec());
    assert_eq!(made, bs58::encode("1000123").into_string().into_bytes());
}

#[test]
fn the_commitment_takes_the_salt_as_utf8() {
    let salt = "s\u{e9}l \u{1f9c2}".to_string();
    let mut preimage = b"42".to_vec();
    preimage.extend_from_slice(salt.as_bytes());
    assert_eq!(commitment(42, &salt), bs58::encode(&preimage).into_string().into_bytes());
    assert_eq!(commitment(42, &String::new()), bs58::encode("42").into_string().into_bytes());
}

#[test]
fn amount_and_salt_are_joined_without_a_separator() {
    assert_eq!(commitment(10, &"00".to_string()), commitment(100, &"0".to_string()));
    assert_ne!(commitment(10, &"0".to_string()), commitment(100, &"0".to_string()));
}

#[test]
fn same_bytes_compares_byte_for_byte() {
    assert!(same_bytes(&Vec::new(), &Vec::new()));
    assert!(same_bytes(&vec![1, 2, 3], &vec![1, 2, 3]));
    assert!(!same_bytes(&vec![1, 2, 3], &vec![1, 2, 4]));
    assert!(!same_bytes(&vec![1, 2, 3], &vec![1, 2]));
    assert!(!same_bytes(&vec![1, 2], &vec![1, 2, 3]));
    assert!(!same_bytes(&vec![0xff, 0xfe], &vec![0xfe, 0xff]));
}

#[test]
fn the_slot_is_the_same_on_every_call() {
    let name = "auctioned_id1.near".to_string();
    assert_eq!(eligibility_slot(&name), eligibility_slot(&name));
    assert_eq!(eligibility_slot(&name), 43);
}

#[test]
fn top_two_of_nothing_is_nothing() {
    assert_eq!(top_two(&Vec::new()), None);
}

#[test]
fn top_two_of_one_value_has_no_second() {
    assert_eq!(top_two(&vec![5]), Some((0, 0)));
    assert_eq!(top_two(&vec![0]), Some((0, 0)));
}

#[test]
fn top_two_finds_the_two_largest_in_any_order() {
    assert_eq!(top_two(&vec![1000, 1005]), Some((1, 1000)));
    assert_eq!(top_two(&vec![1005, 1000]), Some((0, 1000)));
    assert_eq!(top_two(&vec![10, 3, 7]), Some((0, 7)));
    assert_eq!(top_two(&vec![3, 10, 7]), Some((1, 7)));
    assert_eq!(top_two(&vec![3, 7, 10]), Some((2, 7)));
    assert_eq!(top_two(&vec![7, 3, 10]), Some((2, 7)));
    assert_eq!(top_two(&vec![1, 2, 3, 4, 5, 6]), Some((5, 5)));
    assert_eq!(top_two(&vec![6, 5, 4, 3, 2, 1]), Some((0, 5)));
    assert_eq!(top_two(&vec![u128::MAX, 1, u128::MAX - 1]), Some((0, u128::MAX - 1)));
}

#[test]
fn top_two_gives_equal_values_to_the_earliest() {
    assert_eq!(top_two(&vec![5, 5]), Some((0, 5)));
    assert_eq!(top_two(&vec![5, 3, 5]), Some((0, 5)));
    assert_eq!(top_two(&vec![3, 5, 5]), Some((1, 5)));
    assert_eq!(top_two(&vec![0, 0]), Some((0, 0)));
    assert_eq!(top_two(&vec![0, 0, 0]), Some((0, 0)));
    assert_eq!(top_two(&vec![5, 0]), Some((0, 0)));
    assert_eq!(top_two(&vec![0, 5]), Some((1, 0)));
}

#[test]
fn top_two_agrees_with_sorting() {
    let mut seed: u64 = 0x2545_f491_4f6c_dd1d;
    for round in 0..200 {
        let len = 1 + round % 9;
        let mut vals: Vec<u128> = Vec::new();
        for _ in 0..len {
            seed ^= seed << 13;
            seed ^= seed >> 7;
            seed ^= seed << 17;
            vals.push((seed % 6) as u128);
        }
        let mut sorted = vals.clone();
        sorted.sort();
        sorted.reverse();
        let highest = sorted[0];
        let second = if len > 1 { sorted[1] } else { 0 };
        let first_of_highest = vals.iter().position(|v| *v == highest).unwrap();
        assert_eq!(top_two(&vals), Some((first_of_highest, second)), "{:?}", vals);
    }
}
