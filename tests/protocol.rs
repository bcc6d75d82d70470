use zk_smarthome::error::ZkError;
use zk_smarthome::gateway::Gateway;
use zk_smarthome::number_theory::{is_generator, is_prime, mod_pow};
use zk_smarthome::ra::{PRIME_HIGH, PRIME_LOW, RA};
use zk_smarthome::userdevice::UserDevice;

const BIO: [u8; 16] = [12, 200, 33, 4, 90, 255, 0, 17, 64, 128, 3, 77, 150, 41, 8, 99];

fn small_ra() -> RA {
    let mut ra = RA::new();
    assert_eq!(ra.initialize_with(23, 5), Ok(()));
    ra
}

/// An authority, a gateway registered with it, and a registered user.
fn registered(ra: &mut RA) -> (Gateway, UserDevice) {
    let mut gateway = Gateway::new("GW1".to_string(), "IDg1".to_string(), ra.get_n(), ra.get_g());
    let (gid, cg, rg) = gateway.register_preparation().unwrap();
    assert_eq!(ra.register_gateway(gid, "IDg1".to_string(), cg, rg), Ok(()));
    let mut user = UserDevice::new("user1".to_string());
    assert_eq!(user.register("password123", &BIO, ra, &mut gateway), Ok(()));
    (gateway, user)
}

#[test]
fn initialize_generates_valid_group() {
    let mut ra = RA::new();
    assert_eq!(ra.initialize(), Ok(()));
    let n = ra.get_n();
    let g = ra.get_g();
    assert!(n >= PRIME_LOW && n < PRIME_HIGH);
    assert!(is_prime(n));
    assert!(g >= 2 && g < n - 1);
    assert!(is_generator(g, n));
    assert_eq!(ra.initialize(), Err(ZkError::DuplicateRegistration));
    assert_eq!(ra.get_n(), n);
}

#[test]
fn initialize_with_checks_parameters() {
    let mut ra = RA::new();
    assert_eq!(ra.initialize_with(24, 5), Err(ZkError::InvalidParameters));
    assert_eq!(ra.initialize_with(23, 2), Err(ZkError::InvalidParameters));
    assert_eq!(ra.initialize_with(23, 23), Err(ZkError::InvalidParameters));
    assert_eq!(ra.initialize_with(23, 0), Err(ZkError::InvalidParameters));
    assert_eq!(ra.get_n(), 0);
    assert_eq!(ra.initialize_with(23, 5), Ok(()));
    assert_eq!(ra.initialize_with(29, 2), Err(ZkError::DuplicateRegistration));
    assert_eq!((ra.get_n(), ra.get_g()), (23, 5));
}

#[test]
fn uninitialized_authority_refuses_everything() {
    let mut ra = RA::new();
    assert_eq!(ra.register_gateway("GW1".to_string(), "IDg1".to_string(), 1, 2), Err(ZkError::NotInitialized));
    assert_eq!(ra.receive_v1("user1".to_string(), 5), Err(ZkError::NotInitialized));
    assert_eq!(ra.get_parameters("GW1"), Err(ZkError::NotInitialized));
    assert_eq!(ra.compute_v2(3), Err(ZkError::NotInitialized));
    let mut gateway = Gateway::new("GW1".to_string(), "IDg1".to_string(), 0, 0);
    let mut user = UserDevice::new("user1".to_string());
    assert_eq!(user.register("pw", &BIO, &mut ra, &mut gateway), Err(ZkError::NotInitialized));
}

#[test]
fn duplicate_user_registration_keeps_first_commitment() {
    let mut ra = small_ra();
    assert_eq!(ra.receive_v1("user1".to_string(), 11), Ok(()));
    assert_eq!(ra.receive_v1("user1".to_string(), 12), Err(ZkError::DuplicateRegistration));
    assert_eq!(ra.commitment_of("user1"), Some(11));
    assert_eq!(ra.commitment_of("user2"), None);
}

#[test]
fn duplicate_gateway_registration() {
    let mut ra = small_ra();
    assert_eq!(ra.register_gateway("GW1".to_string(), "IDg1".to_string(), 1, 2), Ok(()));
    assert_eq!(ra.register_gateway("GW1".to_string(), "IDg2".to_string(), 3, 4), Err(ZkError::DuplicateRegistration));
    assert_eq!(ra.get_parameters("GW2"), Err(ZkError::UnknownGateway));
}

#[test]
fn session_parameters() {
    let mut ra = small_ra();
    assert_eq!(ra.register_gateway("GW1".to_string(), "IDg1".to_string(), 41, 42), Ok(()));
    let (n, g, pidu, cg, x) = ra.get_parameters("GW1").unwrap();
    assert_eq!((n, g, cg), (23, 5, 41));
    assert_eq!(x, zk_smarthome::binding::gateway_key("IDg1", 42));
    assert!(!pidu.is_empty());
    assert!(pidu.parse::<u64>().is_ok());
    assert_eq!(pidu.parse::<u64>().unwrap().to_string(), pidu);
}

#[test]
fn compute_v2_is_generator_power() {
    let ra = small_ra();
    assert_eq!(ra.compute_v2(3), Ok(10));
    assert_eq!(ra.compute_v2(0), Ok(1));
}

#[test]
fn gateway_enrolment_needs_known_challenge() {
    let mut gateway = Gateway::new("GW1".to_string(), "IDg1".to_string(), 23, 5);
    assert_eq!(gateway.register_user("p".to_string(), 4, 77), Err(ZkError::UnknownChallenge));
    assert_eq!(gateway.prepare_with(77, 78), Ok(("GW1".to_string(), 77, 78)));
    assert_eq!(gateway.prepare_with(77, 79), Err(ZkError::DuplicateRegistration));
    assert_eq!(gateway.register_user("p".to_string(), 4, 77), Ok(()));
    assert_eq!(gateway.register_user("p".to_string(), 5, 77), Err(ZkError::DuplicateRegistration));
    assert_eq!(gateway.verifier_of("p"), Some(4));
}

#[test]
fn gateway_identity_proof() {
    let mut ra = small_ra();
    let (gateway, user) = registered(&mut ra);
    let x1 = gateway.authenticate_gateway(user.get_pidu(), user.get_cg());
    assert_ne!(x1, 0);
    assert!(user.verify_gateway(x1));
    assert!(!user.verify_gateway(x1 ^ 1));
    assert_eq!(gateway.authenticate_gateway("unknown", user.get_cg()), 0);
    assert_eq!(gateway.authenticate_gateway(user.get_pidu(), user.get_cg().wrapping_add(1)), 0);
}

#[test]
fn forged_gateway_does_not_verify() {
    let mut ra = small_ra();
    let (_gateway, user) = registered(&mut ra);
    let mut forged = Gateway::new("GW1".to_string(), "IDgX".to_string(), 23, 5);
    forged.prepare_with(user.get_cg(), 1).unwrap();
    forged.register_user(user.get_pidu().to_string(), 1, user.get_cg()).unwrap();
    assert!(!user.verify_gateway(forged.authenticate_gateway(user.get_pidu(), user.get_cg())));
}

#[test]
fn honest_round_accepted_directly() {
    let mut gateway = Gateway::new("GW1".to_string(), "IDg1".to_string(), 23, 5);
    gateway.prepare_with(1, 2).unwrap();
    let s = 7u64;
    gateway.register_user("old".to_string(), mod_pow(5, s as u128, 23), 1).unwrap();
    let n1 = 9u64;
    let n2 = 3u64;
    let t1 = mod_pow(5, n1 as u128, 23);
    assert!(gateway.authenticate_user("old", "new".to_string(), t1, n2, (n1 + n2 * s) as u128));
    assert_eq!(gateway.verifier_of("old"), None);
    assert_eq!(gateway.verifier_of("new"), Some(mod_pow(5, 7, 23)));
}

#[test]
fn wrong_secret_rejected() {
    let mut gateway = Gateway::new("GW1".to_string(), "IDg1".to_string(), 23, 5);
    gateway.prepare_with(1, 2).unwrap();
    gateway.register_user("old".to_string(), mod_pow(5, 7, 23), 1).unwrap();
    let before = gateway.credential_table().clone();
    let t1 = mod_pow(5, 9, 23);
    // secret 8 instead of 7
    assert!(!gateway.authenticate_user("old", "new".to_string(), t1, 3, (9 + 3 * 8) as u128));
    // mismatched n1
    assert!(!gateway.authenticate_user("old", "new".to_string(), t1, 3, (10 + 3 * 7) as u128));
    assert_eq!(gateway.credential_table(), &before);
    assert_eq!(gateway.verifier_of("old"), Some(mod_pow(5, 7, 23)));
    assert_eq!(gateway.verifier_of("new"), None);
}

#[test]
fn rotation_refuses_live_pseudonym_of_other_user() {
    let mut gateway = Gateway::new("GW1".to_string(), "IDg1".to_string(), 23, 5);
    gateway.prepare_with(1, 2).unwrap();
    gateway.register_user("a".to_string(), mod_pow(5, 7, 23), 1).unwrap();
    gateway.register_user("b".to_string(), 3, 1).unwrap();
    let t1 = mod_pow(5, 9, 23);
    let before = gateway.credential_table().clone();
    assert!(!gateway.authenticate_user("a", "b".to_string(), t1, 3, (9 + 3 * 7) as u128));
    assert_eq!(gateway.credential_table(), &before);
    assert!(!gateway.authenticate_user("zzz", "c".to_string(), t1, 3, (9 + 3 * 7) as u128));
}

#[test]
fn device_round_rotates_pseudonym() {
    let mut ra = small_ra();
    let (mut gateway, mut user) = registered(&mut ra);
    let old = user.get_pidu().to_string();
    let verifier = gateway.verifier_of(&old).unwrap();
    let (pidu, n1, t1) = user.start_authentication(&gateway).unwrap();
    assert_eq!(pidu, old);
    assert!(n1 < 23);
    assert_eq!(t1, mod_pow(5, n1 as u128, 23));
    assert!(user.complete_authentication(&mut gateway, pidu, "fresh".to_string(), 6, n1, t1));
    assert_eq!(user.get_pidu(), "fresh");
    assert_eq!(gateway.verifier_of(&old), None);
    assert_eq!(gateway.verifier_of("fresh"), Some(verifier));
}

#[test]
fn failed_device_round_changes_nothing() {
    let mut ra = small_ra();
    let (mut gateway, mut user) = registered(&mut ra);
    let old = user.get_pidu().to_string();
    let before = gateway.credential_table().clone();
    let (pidu, n1, t1) = user.start_authentication(&gateway).unwrap();
    // a commitment that does not match n1
    let bad_t1 = (t1 + 1) % 23;
    assert!(!user.complete_authentication(&mut gateway, pidu, "fresh".to_string(), 6, n1, bad_t1));
    assert_eq!(user.get_pidu(), old);
    assert_eq!(gateway.credential_table(), &before);
}

#[test]
fn unregistered_device_cannot_start() {
    let gateway = Gateway::new("GW1".to_string(), "IDg1".to_string(), 23, 5);
    let user = UserDevice::new("u".to_string());
    assert!(user.start_authentication(&gateway).is_none());
    assert!(!user.login("", &[]));
}

#[test]
fn duplicate_device_registration() {
    let mut ra = small_ra();
    let (mut gateway, _user) = registered(&mut ra);
    let first = ra.commitment_of("user1");
    let mut again = UserDevice::new("user1".to_string());
    assert_eq!(again.register("other", &BIO, &mut ra, &mut gateway), Err(ZkError::DuplicateRegistration));
    assert_eq!(ra.commitment_of("user1"), first);
}

#[test]
fn registration_with_unknown_gateway() {
    let mut ra = small_ra();
    let mut gateway = Gateway::new("GW9".to_string(), "IDg9".to_string(), 23, 5);
    let mut user = UserDevice::new("user1".to_string());
    assert_eq!(user.register("pw", &BIO, &mut ra, &mut gateway), Err(ZkError::UnknownGateway));
    assert_eq!(ra.commitment_of("user1"), None);
}

#[test]
fn registration_with_foreign_challenge() {
    let mut ra = small_ra();
    assert_eq!(ra.register_gateway("GW1".to_string(), "IDg1".to_string(), 5, 6), Ok(()));
    let mut gateway = Gateway::new("GW1".to_string(), "IDg1".to_string(), 23, 5);
    let mut user = UserDevice::new("user1".to_string());
    assert_eq!(user.register("pw", &BIO, &mut ra, &mut gateway), Err(ZkError::UnknownChallenge));
    assert_eq!(ra.commitment_of("user1"), None);
}

#[test]
fn login_checks_password_and_sample() {
    let mut ra = small_ra();
    let (_gateway, user) = registered(&mut ra);
    assert!(user.login("password123", &BIO));
    assert!(!user.login("wrong", &BIO));
    let mut other = BIO;
    other[0] ^= 1;
    assert!(!user.login("password123", &other));
    assert!(!user.login("password123", &BIO[..15]));
}

#[test]
fn update_password_blinds_verifier() {
    let mut ra = small_ra();
    let (mut gateway, mut user) = registered(&mut ra);
    assert_eq!(user.update_password("new_password", &BIO, &mut gateway), Ok(()));
    assert!(!user.login("password123", &BIO));
    assert!(user.login("new_password", &BIO));
    let v = gateway.verifier_of(user.get_pidu()).unwrap();
    assert!(v < 23);
    let mut stranger = UserDevice::new("x".to_string());
    assert_eq!(stranger.update_password("p", &BIO, &mut gateway), Err(ZkError::NotInitialized));
}

#[test]
fn end_to_end_scenario() {
    let mut ra = RA::new();
    assert_eq!(ra.initialize(), Ok(()));
    let mut gateway = Gateway::new("GW1".to_string(), "IDg1".to_string(), ra.get_n(), ra.get_g());
    let (gid, cg, rg) = gateway.register_preparation().unwrap();
    assert_eq!(gid, "GW1");
    assert_eq!(ra.register_gateway(gid, "IDg1".to_string(), cg, rg), Ok(()));
    let mut user = UserDevice::new("user1".to_string());
    assert_eq!(user.register("password123", &BIO, &mut ra, &mut gateway), Ok(()));

    assert!(user.login("password123", &BIO));
    assert!(!user.login("wrong", &BIO));

    let x1 = gateway.authenticate_gateway(user.get_pidu(), user.get_cg());
    assert!(user.verify_gateway(x1));

    let (pidu, n1, t1) = user.start_authentication(&gateway).unwrap();
    let old = pidu.clone();
    let new_pidu = "9876543210".to_string();
    let n2 = 123_456_789 % ra.get_n();
    assert!(user.complete_authentication(&mut gateway, pidu, new_pidu.clone(), n2, n1, t1));
    assert_ne!(user.get_pidu(), old);
    assert_eq!(user.get_pidu(), new_pidu);

    assert_eq!(user.update_password("new_password", &BIO, &mut gateway), Ok(()));
    assert!(!user.login("password123", &BIO));
    assert!(user.login("new_password", &BIO));
}

#[test]
fn duplicate_user_reported_before_unknown_gateway() {
    let mut ra = small_ra();
    let (_gateway, _user) = registered(&mut ra);
    let mut elsewhere = Gateway::new("GW9".to_string(), "IDg9".to_string(), 23, 5);
    let mut again = UserDevice::new("user1".to_string());
    assert_eq!(again.register("pw", &BIO, &mut ra, &mut elsewhere), Err(ZkError::DuplicateRegistration));
}

#[test]
fn preparation_on_fresh_gateway_succeeds() {
    let mut gateway = Gateway::new("GW1".to_string(), "IDg1".to_string(), 23, 5);
    let (gid, cg, _rg) = gateway.register_preparation().unwrap();
    assert_eq!(gid, "GW1");
    assert!(gateway.knows_challenge(cg));
    assert!(!gateway.knows_challenge(cg.wrapping_add(1)));
}

#[test]
fn gateway_offers_fresh_rotation() {
    let mut ra = small_ra();
    let (gateway, user) = registered(&mut ra);
    let (new_pidu, n2) = gateway.offer_rotation().unwrap();
    assert_ne!(new_pidu, user.get_pidu());
    assert_eq!(gateway.verifier_of(&new_pidu), None);
    assert!(n2 < 23);
    let empty = Gateway::new("GW2".to_string(), "IDg2".to_string(), 0, 0);
    assert!(empty.offer_rotation().is_none());
}

#[test]
fn rotation_keeps_table_size() {
    let mut ra = small_ra();
    let (mut gateway, mut user) = registered(&mut ra);
    let before = gateway.credential_table().clone();
    let (pidu, n1, t1) = user.start_authentication(&gateway).unwrap();
    let (new_pidu, n2) = gateway.offer_rotation().unwrap();
    assert!(user.complete_authentication(&mut gateway, pidu.clone(), new_pidu.clone(), n2, n1, t1));
    assert_ne!(gateway.credential_table(), &before);
    assert_eq!(gateway.verifier_of(&pidu), None);
    assert_eq!(gateway.verifier_of(&new_pidu), before.get(&pidu));
}
