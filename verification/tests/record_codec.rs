use dapp_token_manager::address::Address;
use dapp_token_manager::state::{DappTokenManager, RECORD_SPACE};

fn addr(b: u8) -> Address {
    Address::from_bytes(vec![b; 32]).unwrap()
}

fn sample() -> DappTokenManager {
    DappTokenManager::new(addr(1), addr(3), 0x0102030405060708, addr(2), 254)
}

#[test]
fn new_record_starts_at_zero() {
    let rec = sample();
    assert_eq!(rec.total_mint_count, 0);
    assert!(rec.authority.equals(&addr(1)));
    assert!(rec.mint.equals(&addr(3)));
    assert!(rec.authority_payer.equals(&addr(2)));
    assert_eq!(rec.supply_amount_per_mint, 0x0102030405060708);
    assert_eq!(rec.bump, 254);
}

#[test]
fn serialized_record_has_fixed_layout() {
    let rec = sample();
    let bytes = rec.to_bytes();
    assert_eq!(bytes.len(), RECORD_SPACE);
    assert_eq!(bytes.len(), 121);
    // 8-byte type tag
    assert_eq!(&bytes[0..8], &b"dtmgrecd"[..]);
    // authority, asset, paying authority
    assert_eq!(&bytes[8..40], &[1u8; 32][..]);
    assert_eq!(&bytes[40..72], &[3u8; 32][..]);
    assert_eq!(&bytes[80..112], &[2u8; 32][..]);
    // issuance amount, little endian
    assert_eq!(&bytes[72..80], &[8, 7, 6, 5, 4, 3, 2, 1][..]);
    // issuance counter, little endian
    assert_eq!(&bytes[112..120], &[0u8; 8][..]);
    // bump byte
    assert_eq!(bytes[120], 254);
}

#[test]
fn record_round_trips_through_bytes() {
    let mut rec = sample();
    rec.total_mint_count = 41;
    let bytes = rec.to_bytes();
    let back = DappTokenManager::from_bytes(&bytes).unwrap();
    assert!(back.authority.equals(&rec.authority));
    assert!(back.mint.equals(&rec.mint));
    assert!(back.authority_payer.equals(&rec.authority_payer));
    assert_eq!(back.supply_amount_per_mint, rec.supply_amount_per_mint);
    assert_eq!(back.total_mint_count, 41);
    assert_eq!(back.bump, rec.bump);
}

#[test]
fn decoding_rejects_wrong_length() {
    let rec = sample();
    let mut bytes = rec.to_bytes();
    bytes.pop();
    assert!(DappTokenManager::from_bytes(&bytes).is_none());
    assert!(DappTokenManager::from_bytes(&Vec::new()).is_none());
    assert!(DappTokenManager::from_bytes(&vec![0u8; 122]).is_none());
}

#[test]
fn decoding_rejects_wrong_tag() {
    let rec = sample();
    let mut bytes = rec.to_bytes();
    bytes[0] = bytes[0].wrapping_add(1);
    assert!(DappTokenManager::from_bytes(&bytes).is_none());
}
