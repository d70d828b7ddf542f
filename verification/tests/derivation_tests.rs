use dapp_token_manager::address::Address;
use dapp_token_manager::derivation::{
    derive_associated_address, derive_manager_address, verify_record_address, Config,
};

fn addr(b: u8) -> Address {
    Address::from_bytes(vec![b; 32]).unwrap()
}

fn config() -> Config {
    Config {
        program_id: addr(7),
        seed_prefix: b"dapp-token-manager".to_vec(),
    }
}

#[test]
fn address_from_bytes_requires_exact_length() {
    assert!(Address::from_bytes(vec![0u8; 32]).is_some());
    assert!(Address::from_bytes(vec![0u8; 31]).is_none());
    assert!(Address::from_bytes(vec![0u8; 33]).is_none());
    assert!(Address::from_bytes(Vec::new()).is_none());
}

#[test]
fn derivation_is_deterministic() {
    let cfg = config();
    let asset = addr(3);
    let authority = addr(1);
    let (a1, b1) = derive_manager_address(&cfg, &asset, &authority).unwrap();
    let (a2, b2) = derive_manager_address(&cfg, &asset, &authority).unwrap();
    assert!(a1.equals(&a2));
    assert_eq!(b1, b2);
}

#[test]
fn derivation_depends_on_every_input() {
    let cfg = config();
    let (a1, _) = derive_manager_address(&cfg, &addr(3), &addr(1)).unwrap();
    let (a2, _) = derive_manager_address(&cfg, &addr(4), &addr(1)).unwrap();
    let (a3, _) = derive_manager_address(&cfg, &addr(3), &addr(2)).unwrap();
    let other_cfg = Config {
        program_id: addr(8),
        seed_prefix: b"dapp-token-manager".to_vec(),
    };
    let (a4, _) = derive_manager_address(&other_cfg, &addr(3), &addr(1)).unwrap();
    assert!(!a1.equals(&a2));
    assert!(!a1.equals(&a3));
    assert!(!a1.equals(&a4));
}

#[test]
fn derived_address_is_not_an_input() {
    let cfg = config();
    let asset = addr(3);
    let authority = addr(1);
    let (a, _) = derive_manager_address(&cfg, &asset, &authority).unwrap();
    assert!(!a.equals(&asset));
    assert!(!a.equals(&authority));
    assert!(!a.equals(&cfg.program_id));
}

#[test]
fn stored_bump_re_derives_the_address() {
    let cfg = config();
    let asset = addr(3);
    let authority = addr(1);
    let (a, bump) = derive_manager_address(&cfg, &asset, &authority).unwrap();
    assert!(verify_record_address(&cfg, &asset, &authority, bump, &a));
}

#[test]
fn wrong_bump_or_address_fails_verification() {
    let cfg = config();
    let asset = addr(3);
    let authority = addr(1);
    let (a, bump) = derive_manager_address(&cfg, &asset, &authority).unwrap();
    assert!(!verify_record_address(&cfg, &asset, &authority, bump.wrapping_add(1), &a));
    assert!(!verify_record_address(&cfg, &asset, &authority, bump, &addr(9)));
    assert!(!verify_record_address(&cfg, &asset, &addr(2), bump, &a));
}

#[test]
fn associated_address_is_deterministic_and_distinct() {
    let owner = addr(5);
    let asset = addr(3);
    let a1 = derive_associated_address(&owner, &asset);
    let a2 = derive_associated_address(&owner, &asset);
    assert!(a1.equals(&a2));
    // the derived account is its own address, not one of the inputs
    assert!(!a1.equals(&owner));
    assert!(!a1.equals(&asset));
    let b = derive_associated_address(&addr(6), &asset);
    assert!(!a1.equals(&b));
    let c = derive_associated_address(&owner, &addr(4));
    assert!(!a1.equals(&c));
}
