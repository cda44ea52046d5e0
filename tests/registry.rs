use marketplace_solver::error::SolverError;
use marketplace_solver::registry::{apply_update, merge_update, validate_registration};
use marketplace_solver::store::RollupRegistry;
use marketplace_solver::types::{
    FeeAmount, RollupRegistration, RollupRegistrationBody, RollupUpdate, RollupUpdatebody,
};

fn key(i: u8) -> Vec<u8> {
    vec![i; 48]
}

fn keys() -> Vec<Vec<u8>> {
    (0..10).map(key).collect()
}

fn registration(ns: u64, signer: Vec<u8>) -> RollupRegistration {
    RollupRegistration {
        body: RollupRegistrationBody {
            namespace_id: ns,
            reserve_url: "http://localhost:8080".to_string(),
            reserve_price: FeeAmount::from_u128(200),
            active: true,
            signature_keys: keys(),
            signature_key: signer,
            text: "test".to_string(),
        },
        signature: vec![7; 96],
    }
}

fn only_active(ns: u64, active: bool, signer: Vec<u8>) -> RollupUpdate {
    RollupUpdate {
        body: RollupUpdatebody {
            namespace_id: ns,
            reserve_url: None,
            reserve_price: None,
            active: Some(active),
            signature_keys: None,
            signature_key: signer,
            text: None,
        },
        signature: vec![9; 96],
    }
}

#[test]
fn test_rollup_registration() {
    let mut registry = RollupRegistry::new();
    let mut reg_ns_1 = registration(1, key(0));

    let result = registry.register_rollup(reg_ns_1.clone()).unwrap();
    assert_eq!(reg_ns_1, result);

    match registry.register_rollup(reg_ns_1.clone()) {
        Err(SolverError::RollupAlreadyExists(id)) if id == reg_ns_1.body.namespace_id => (),
        other => panic!("err {other:?}"),
    }

    let new_key = vec![42u8; 48];
    let mut reg_ns_2 = reg_ns_1.clone();
    reg_ns_2.body.namespace_id = 2;
    reg_ns_2.body.signature_key = new_key.clone();
    match registry.register_rollup(reg_ns_2) {
        Err(SolverError::InvalidSignature(k)) if k == new_key => (),
        other => panic!("err {other:?}"),
    }

    let update = only_active(1, false, key(0));
    let result = registry.update_rollup_registration(update.clone()).unwrap();
    reg_ns_1.body.active = false;
    reg_ns_1.signature = update.signature.clone();
    assert_eq!(reg_ns_1, result);
    assert_eq!(result.body.reserve_price, FeeAmount::from_u128(200));

    let all = registry.get_all_rollup_registrations();
    assert_eq!(all.len(), 1);
    assert_eq!(all[0], reg_ns_1);
}

#[test]
fn test_update_rollup_not_registered() {
    let mut registry = RollupRegistry::new();
    match registry.update_rollup_registration(only_active(1, false, key(0))) {
        Err(SolverError::RollupNotFound(1)) => (),
        other => panic!("err {other:?}"),
    }
    assert!(registry.get_all_rollup_registrations().is_empty());
}

#[test]
fn register_accepts_listed_signer_of_new_namespace() {
    let mut registry = RollupRegistry::new();
    for i in 0..10u8 {
        let r = registration(u64::from(i) + 1, key(i));
        assert_eq!(registry.register_rollup(r.clone()), Ok(r));
    }
    assert_eq!(registry.get_all_rollup_registrations().len(), 10);
}

#[test]
fn register_rejects_unlisted_signer_before_duplicate() {
    let mut registry = RollupRegistry::new();
    registry.register_rollup(registration(5, key(3))).unwrap();
    let bad = registration(5, vec![1, 2, 3]);
    assert_eq!(registry.register_rollup(bad), Err(SolverError::InvalidSignature(vec![1, 2, 3])));
}

#[test]
fn register_rejects_empty_key_list() {
    let mut registry = RollupRegistry::new();
    let mut r = registration(3, key(0));
    r.body.signature_keys.clear();
    assert_eq!(registry.register_rollup(r), Err(SolverError::InvalidSignature(key(0))));
    assert!(registry.get_all_rollup_registrations().is_empty());
}

#[test]
fn register_twice_fails_already_exists() {
    let mut registry = RollupRegistry::new();
    let r = registration(9, key(4));
    assert!(registry.register_rollup(r.clone()).is_ok());
    assert_eq!(registry.register_rollup(r), Err(SolverError::RollupAlreadyExists(9)));
    assert_eq!(registry.get_all_rollup_registrations().len(), 1);
}

#[test]
fn update_by_unlisted_key_fails_authorization() {
    let mut registry = RollupRegistry::new();
    let r = registration(1, key(0));
    registry.register_rollup(r.clone()).unwrap();
    let u = only_active(1, false, vec![0xAB; 48]);
    assert_eq!(
        registry.update_rollup_registration(u),
        Err(SolverError::SignatureDatabaseKeysMismatch(vec![0xAB; 48]))
    );
    assert_eq!(registry.get_all_rollup_registrations(), vec![r]);
}

#[test]
fn update_authorizes_against_stored_keys_not_new_ones() {
    let mut registry = RollupRegistry::new();
    registry.register_rollup(registration(1, key(0))).unwrap();
    let outsider = vec![0xEE; 48];
    let mut u = only_active(1, false, outsider.clone());
    u.body.signature_keys = Some(vec![outsider.clone()]);
    assert_eq!(
        registry.update_rollup_registration(u),
        Err(SolverError::SignatureDatabaseKeysMismatch(outsider))
    );
}

#[test]
fn partial_update_keeps_untouched_fields() {
    let mut registry = RollupRegistry::new();
    let r = registration(1, key(0));
    registry.register_rollup(r.clone()).unwrap();
    let merged = registry.update_rollup_registration(only_active(1, false, key(2))).unwrap();
    assert!(!merged.body.active);
    assert_eq!(merged.body.reserve_price, r.body.reserve_price);
    assert_eq!(merged.body.text, r.body.text);
    assert_eq!(merged.body.signature_keys, r.body.signature_keys);
    assert_eq!(merged.body.reserve_url, r.body.reserve_url);
    assert_eq!(merged.body.signature_key, key(2));
}

#[test]
fn full_update_overwrites_every_field() {
    let mut registry = RollupRegistry::new();
    registry.register_rollup(registration(1, key(0))).unwrap();
    let u = RollupUpdate {
        body: RollupUpdatebody {
            namespace_id: 1,
            reserve_url: Some("http://other:9".to_string()),
            reserve_price: Some(FeeAmount { low: 5, high: 1 }),
            active: Some(false),
            signature_keys: Some(vec![key(20)]),
            signature_key: key(1),
            text: Some("new".to_string()),
        },
        signature: vec![3],
    };
    let merged = registry.update_rollup_registration(u).unwrap();
    let expected = RollupRegistration {
        body: RollupRegistrationBody {
            namespace_id: 1,
            reserve_url: "http://other:9".to_string(),
            reserve_price: FeeAmount { low: 5, high: 1 },
            active: false,
            signature_keys: vec![key(20)],
            signature_key: key(1),
            text: "new".to_string(),
        },
        signature: vec![3],
    };
    assert_eq!(merged, expected);
    assert_eq!(registry.get_all_rollup_registrations(), vec![expected]);
}

#[test]
fn list_returns_registrations_in_order() {
    let mut registry = RollupRegistry::new();
    let regs: Vec<RollupRegistration> =
        (0..5u8).map(|i| registration(100 - u64::from(i), key(i))).collect();
    for r in &regs {
        registry.register_rollup(r.clone()).unwrap();
    }
    assert_eq!(registry.get_all_rollup_registrations(), regs);
}

#[test]
fn validate_registration_checks_membership() {
    assert_eq!(validate_registration(&registration(1, key(9))), Ok(()));
    assert_eq!(
        validate_registration(&registration(1, key(10))),
        Err(SolverError::InvalidSignature(key(10)))
    );
}

#[test]
fn merge_and_apply_update() {
    let stored = registration(4, key(0));
    let u = only_active(4, false, key(5));
    let merged = merge_update(&stored.body, &u.body);
    let mut expected = stored.body.clone();
    expected.active = false;
    expected.signature_key = key(5);
    assert_eq!(merged, expected);
    let applied = apply_update(&stored, &u).unwrap();
    assert_eq!(applied.body, expected);
    assert_eq!(applied.signature, u.signature);
    let bad = only_active(4, false, vec![1]);
    assert_eq!(apply_update(&stored, &bad), Err(SolverError::SignatureDatabaseKeysMismatch(vec![1])));
}
