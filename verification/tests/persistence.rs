use tetris_cli::highscore::SaveData;
use tetris_cli::numfmt::{u64_to_dec, u64_to_hex};

#[test]
fn dec_rendering_exact_values() {
    assert_eq!(u64_to_dec(0), "0");
    assert_eq!(u64_to_dec(7), "7");
    assert_eq!(u64_to_dec(12345), "12345");
    assert_eq!(u64_to_dec(u64::MAX), "18446744073709551615");
}

#[test]
fn hex_rendering_exact_values() {
    assert_eq!(u64_to_hex(0), "0");
    assert_eq!(u64_to_hex(10), "a");
    assert_eq!(u64_to_hex(255), "ff");
    assert_eq!(u64_to_hex(48879), "beef");
    assert_eq!(u64_to_hex(u64::MAX), "ffffffffffffffff");
}

#[test]
fn record_round_trips_its_value() {
    let sd = SaveData::from_value(12345);
    assert_eq!(sd.assert_hs(), 12345);
    assert_eq!(sd.value(), 12345);
}

#[test]
fn zero_record_round_trips() {
    let sd = SaveData::default();
    assert_eq!(sd.assert_hs(), 0);
}

#[test]
fn salt_is_twenty_decimal_digits() {
    let sd = SaveData::from_value(99);
    let salt = sd.salt();
    assert_eq!(salt.len(), 20);
    assert!(salt.chars().all(|c| c.is_ascii_digit()));
}

#[test]
fn digest_matches_get_hash_of_salt_and_value() {
    let sd = SaveData::from_value(4242);
    let msg = format!("{}{}", sd.salt(), "4242");
    let recomputed = SaveData::get_hash(&msg);
    assert_eq!(sd.hash(), &recomputed);
}

#[test]
fn tampered_hash_yields_zero() {
    let sd = SaveData::from_value(42);
    let mut flipped = String::new();
    let mut chars = sd.hash().chars();
    let first = chars.next().expect("digest is never empty");
    // flip the lowest bit of the first digit's code point
    let swapped = char::from_u32((first as u32) ^ 1).expect("still a character");
    flipped.push(swapped);
    for c in chars {
        flipped.push(c);
    }
    assert_ne!(&flipped, sd.hash());
    let tampered = SaveData::from_parts(42, sd.salt().clone(), flipped);
    assert_eq!(tampered.assert_hs(), 0);
}

#[test]
fn tampered_value_yields_zero() {
    let sd = SaveData::from_value(42);
    let forged = SaveData::from_parts(9_999_999, sd.salt().clone(), sd.hash().clone());
    assert_eq!(forged.assert_hs(), 0);
}

#[test]
fn tampered_salt_yields_zero() {
    let sd = SaveData::from_value(42);
    let mut salt = sd.salt().clone();
    salt.pop();
    salt.push(if sd.salt().ends_with('0') { '1' } else { '0' });
    let forged = SaveData::from_parts(42, salt, sd.hash().clone());
    assert_eq!(forged.assert_hs(), 0);
}
