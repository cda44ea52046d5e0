use committable::{Commitment, Committable, RawCommitmentBuilder};
use marketplace_solver::types::{FeeAmount, RollupRegistrationBody, RollupUpdatebody};

fn label(name: &str) -> Vec<u8> {
    let mut v = name.as_bytes().to_vec();
    v.extend_from_slice(&[0xC0, 0x7F]);
    v
}

fn var(b: &[u8]) -> Vec<u8> {
    let mut v = (b.len() as u64).to_le_bytes().to_vec();
    v.extend_from_slice(b);
    v
}

fn body() -> RollupRegistrationBody {
    RollupRegistrationBody {
        namespace_id: 1,
        reserve_url: "http://x".to_string(),
        reserve_price: FeeAmount::from_u128(200),
        active: true,
        signature_keys: vec![vec![0, 0, 0], vec![1, 1, 1]],
        signature_key: vec![0, 0, 0],
        text: "t".to_string(),
    }
}

fn update_body() -> RollupUpdatebody {
    RollupUpdatebody {
        namespace_id: 1,
        reserve_url: None,
        reserve_price: None,
        active: Some(false),
        signature_keys: None,
        signature_key: vec![0, 0, 0],
        text: None,
    }
}

fn hex(b: &[u8]) -> String {
    b.iter().map(|x| format!("{x:02x}")).collect()
}

#[test]
fn registration_preimage_layout() {
    let mut expected = label("ROLLUP_REG");
    expected.extend(label("namespace_id"));
    expected.extend(1u64.to_le_bytes());
    expected.extend(label("reserve_url"));
    expected.extend(var(b"http://x"));
    expected.extend(label("reserve_price"));
    let mut price = [0u8; 32];
    price[0] = 200;
    expected.extend(price);
    expected.extend(label("active"));
    expected.push(1);
    expected.extend(label("signature_keys"));
    expected.extend(var(&[0, 0, 0]));
    expected.extend(var(&[1, 1, 1]));
    expected.extend(label("signature_key"));
    expected.extend(var(&[0, 0, 0]));
    expected.extend(label("text"));
    expected.extend(var(b"t"));
    assert_eq!(body().commitment_preimage(), expected);
    assert_eq!(expected.len(), 198);
}

#[test]
fn registration_commitment_digest() {
    assert_eq!(
        hex(&body().commit()),
        "2aa8f33b051f116ca077e8e4d2d6df07c8bd07f750d898cf0cca0d96ff6f4b3d"
    );
}

#[test]
fn update_preimage_omits_absent_fields() {
    let mut expected = label("ROLLUP_UPDATE");
    expected.extend(label("namespace_id"));
    expected.extend(1u64.to_le_bytes());
    expected.extend(label("active"));
    expected.push(0);
    expected.extend(label("signature_key"));
    expected.extend(var(&[0, 0, 0]));
    assert_eq!(update_body().commitment_preimage(), expected);
    assert_eq!(
        hex(&update_body().commit()),
        "f838ec502e81559b4618d4b3893a69f15227ceb95711aee1c5a4d4b38408bf27"
    );
}

#[test]
fn commitment_is_deterministic() {
    let b = body();
    assert_eq!(b.commit(), b.commit());
    assert_eq!(b.commitment_preimage(), body().commitment_preimage());
    let u = update_body();
    assert_eq!(u.commit(), u.commit());
}

#[test]
fn changing_any_field_changes_commitment() {
    let base = body().commit();
    let mut variants = Vec::new();
    let mut b = body();
    b.namespace_id = 2;
    variants.push(b);
    let mut b = body();
    b.reserve_url = "http://y".to_string();
    variants.push(b);
    let mut b = body();
    b.reserve_price = FeeAmount { low: 200, high: 1 };
    variants.push(b);
    let mut b = body();
    b.active = false;
    variants.push(b);
    let mut b = body();
    b.signature_keys.push(vec![2]);
    variants.push(b);
    let mut b = body();
    b.signature_key = vec![1, 1, 1];
    variants.push(b);
    let mut b = body();
    b.text = "u".to_string();
    variants.push(b);
    for v in variants {
        assert_ne!(v.commit(), base);
        assert_ne!(v.commitment_preimage(), body().commitment_preimage());
    }
}

#[test]
fn key_order_matters() {
    let mut b = body();
    b.signature_keys.reverse();
    assert_ne!(b.commit(), body().commit());
}

#[test]
fn update_present_field_changes_commitment() {
    let mut u = update_body();
    u.text = Some(String::new());
    assert_ne!(u.commitment_preimage(), update_body().commitment_preimage());
}

#[test]
fn tags() {
    assert_eq!(RollupRegistrationBody::tag(), "ROLLUP_REG");
    assert_eq!(RollupUpdatebody::tag(), "ROLLUP_UPDATE");
}

#[test]
fn update_field_changes_alter_commitment() {
    let base = update_body().commitment_preimage();
    let mut variants = Vec::new();
    let mut u = update_body();
    u.namespace_id = 2;
    variants.push(u);
    let mut u = update_body();
    u.reserve_url = Some("http://x".to_string());
    variants.push(u);
    let mut u = update_body();
    u.reserve_price = Some(FeeAmount::from_u128(0));
    variants.push(u);
    let mut u = update_body();
    u.active = None;
    variants.push(u);
    let mut u = update_body();
    u.active = Some(true);
    variants.push(u);
    let mut u = update_body();
    u.signature_keys = Some(Vec::new());
    variants.push(u);
    let mut u = update_body();
    u.signature_key = vec![0, 0];
    variants.push(u);
    for v in variants {
        assert_ne!(v.commitment_preimage(), base);
        assert_ne!(v.commit(), update_body().commit());
    }
}

fn fee_le_bytes(f: FeeAmount) -> [u8; 32] {
    let mut bytes = [0u8; 32];
    bytes[..16].copy_from_slice(&f.low.to_le_bytes());
    bytes[16..].copy_from_slice(&f.high.to_le_bytes());
    bytes
}

struct BuilderRegistration(RollupRegistrationBody);

impl Committable for BuilderRegistration {
    fn tag() -> String {
        "ROLLUP_REG".to_string()
    }

    fn commit(&self) -> Commitment<Self> {
        let b = &self.0;
        let bytes = fee_le_bytes(b.reserve_price);
        let active: [u8; 1] = if b.active { [1] } else { [0] };
        let mut comm = RawCommitmentBuilder::new(&Self::tag())
            .u64_field("namespace_id", b.namespace_id)
            .var_size_field("reserve_url", b.reserve_url.as_bytes())
            .fixed_size_field("reserve_price", &bytes)
            .fixed_size_field("active", &active)
            .constant_str("signature_keys");
        for key in b.signature_keys.iter() {
            comm = comm.var_size_bytes(key);
        }
        comm.var_size_field("signature_key", &b.signature_key)
            .var_size_field("text", b.text.as_bytes())
            .finalize()
    }
}

struct BuilderUpdate(RollupUpdatebody);

impl Committable for BuilderUpdate {
    fn tag() -> String {
        "ROLLUP_UPDATE".to_string()
    }

    fn commit(&self) -> Commitment<Self> {
        let u = &self.0;
        let mut comm =
            RawCommitmentBuilder::new(&Self::tag()).u64_field("namespace_id", u.namespace_id);
        if let Some(url) = &u.reserve_url {
            comm = comm.var_size_field("reserve_url", url.as_bytes());
        }
        if let Some(rp) = u.reserve_price {
            comm = comm.fixed_size_field("reserve_price", &fee_le_bytes(rp));
        }
        if let Some(active) = u.active {
            let active: [u8; 1] = if active { [1] } else { [0] };
            comm = comm.fixed_size_field("active", &active);
        }
        if let Some(keys) = &u.signature_keys {
            comm = comm.constant_str("signature_keys");
            for key in keys.iter() {
                comm = comm.var_size_bytes(key);
            }
        }
        comm = comm.var_size_field("signature_key", &u.signature_key);
        if let Some(text) = &u.text {
            comm = comm.var_size_field("text", text.as_bytes());
        }
        comm.finalize()
    }
}

#[test]
fn registration_commit_matches_committable_builder() {
    let mut bodies = vec![body()];
    let mut b = body();
    b.namespace_id = u64::MAX;
    b.reserve_url = "https://rollup.example/reserve?x=1".to_string();
    b.reserve_price = FeeAmount { low: u128::MAX, high: 0x1234_5678 };
    b.active = false;
    b.signature_keys = (0..10u8).map(|i| vec![i; 48]).collect();
    b.signature_key = vec![3; 48];
    b.text = "réserve – ünïcode ✓".to_string();
    bodies.push(b);
    let mut b = body();
    b.signature_keys.clear();
    b.text = String::new();
    bodies.push(b);
    for b in bodies {
        let expected: [u8; 32] = BuilderRegistration(b.clone()).commit().into();
        assert_eq!(b.commit(), expected);
    }
}

#[test]
fn update_commit_matches_committable_builder() {
    let full = RollupUpdatebody {
        namespace_id: 77,
        reserve_url: Some("http://u".to_string()),
        reserve_price: Some(FeeAmount { low: 1, high: 2 }),
        active: Some(true),
        signature_keys: Some(vec![vec![1; 48], vec![2; 48]]),
        signature_key: vec![1; 48],
        text: Some("ü".to_string()),
    };
    let mut empty_keys = full.clone();
    empty_keys.signature_keys = Some(Vec::new());
    for u in [update_body(), full, empty_keys] {
        let expected: [u8; 32] = BuilderUpdate(u.clone()).commit().into();
        assert_eq!(u.commit(), expected);
    }
}
