use sha3::Digest;
use vstd::prelude::*;
use vstd::string::StringSliceAdditionalSpecFns;
use vstd::utf8::encode_utf8;

use crate::types::{
    BodyModel, FeeAmount, RollupRegistrationBody, RollupUpdatebody, SignatureKey, UpdateBodyModel,
};

verus! {

/// `n` bytes of `v`, least significant first.
pub open spec fn le_bytes(v: nat, n: nat) -> Seq<u8>
    decreases n,
{
    if n == 0 {
        seq![]
    } else {
        seq![(v % 256) as u8] + le_bytes(v / 256, (n - 1) as nat)
    }
}

/// A field name or tag: its bytes, then a pair of bytes that never occurs in UTF-8.
pub open spec fn label(name: Seq<u8>) -> Seq<u8> {
    name + seq![0xC0u8, 0x7Fu8]
}

/// A 64-bit integer as 8 little-endian bytes.
pub open spec fn u64_bytes(v: nat) -> Seq<u8> {
    le_bytes(v, 8)
}

/// A byte string of any size: its length as 8 bytes, then the bytes.
pub open spec fn var_bytes(b: Seq<u8>) -> Seq<u8> {
    u64_bytes(b.len()) + b
}

/// A fee amount as 32 little-endian bytes.
pub open spec fn fee_bytes(f: FeeAmount) -> Seq<u8> {
    le_bytes(f.low as nat, 16) + le_bytes(f.high as nat, 16)
}

/// A flag as one byte.
pub open spec fn flag_bytes(b: bool) -> Seq<u8> {
    if b {
        seq![1u8]
    } else {
        seq![0u8]
    }
}

/// A list of keys: each as a byte string of its own size, in list order.
pub open spec fn keys_bytes(keys: Seq<Seq<u8>>) -> Seq<u8>
    decreases keys.len(),
{
    if keys.len() == 0 {
        seq![]
    } else {
        var_bytes(keys[0]) + keys_bytes(keys.drop_first())
    }
}

/// A text field: its UTF-8 bytes as a byte string of their own size.
pub open spec fn text_bytes(s: Seq<char>) -> Seq<u8> {
    var_bytes(encode_utf8(s))
}

/// The bytes that a registration body commits to.
pub open spec fn registration_preimage(b: BodyModel) -> Seq<u8> {
    label("ROLLUP_REG".spec_bytes()) + label("namespace_id".spec_bytes()) + u64_bytes(
        b.namespace_id as nat,
    ) + label("reserve_url".spec_bytes()) + text_bytes(b.reserve_url) + label(
        "reserve_price".spec_bytes(),
    ) + fee_bytes(b.reserve_price) + label("active".spec_bytes()) + flag_bytes(b.active) + label(
        "signature_keys".spec_bytes(),
    ) + keys_bytes(b.signature_keys) + label("signature_key".spec_bytes()) + var_bytes(
        b.signature_key,
    ) + label("text".spec_bytes()) + text_bytes(b.text)
}

/// An optional text field: its name and value when present, nothing when absent.
pub open spec fn opt_text_part(name: Seq<u8>, v: Option<Seq<char>>) -> Seq<u8> {
    match v {
        Some(t) => label(name) + text_bytes(t),
        None => seq![],
    }
}

/// The optional fee field.
pub open spec fn opt_fee_part(v: Option<FeeAmount>) -> Seq<u8> {
    match v {
        Some(f) => label("reserve_price".spec_bytes()) + fee_bytes(f),
        None => seq![],
    }
}

/// The optional flag field.
pub open spec fn opt_flag_part(v: Option<bool>) -> Seq<u8> {
    match v {
        Some(b) => label("active".spec_bytes()) + flag_bytes(b),
        None => seq![],
    }
}

/// The optional key list.
pub open spec fn opt_keys_part(v: Option<Seq<Seq<u8>>>) -> Seq<u8> {
    match v {
        Some(ks) => label("signature_keys".spec_bytes()) + keys_bytes(ks),
        None => seq![],
    }
}

/// The bytes that an update body commits to: absent fields leave out their
/// name and their value.
pub open spec fn update_preimage(u: UpdateBodyModel) -> Seq<u8> {
    label("ROLLUP_UPDATE".spec_bytes()) + label("namespace_id".spec_bytes()) + u64_bytes(
        u.namespace_id as nat,
    ) + opt_text_part("reserve_url".spec_bytes(), u.reserve_url) + opt_fee_part(u.reserve_price)
        + opt_flag_part(u.active) + opt_keys_part(u.signature_keys) + label(
        "signature_key".spec_bytes(),
    ) + var_bytes(u.signature_key) + opt_text_part("text".spec_bytes(), u.text)
}

/// The Keccak-256 digest of a byte string.
pub uninterp spec fn keccak256_of(data: Seq<u8>) -> Seq<u8>;

/// Relies on sha3's Keccak256, the hash under committable's commitments:
/// the 32-byte digest of the given bytes.
#[verifier::external_body]
fn keccak256(data: &Vec<u8>) -> (r: [u8; 32])
    ensures
        r@ == keccak256_of(data@),
{
    sha3::Keccak256::digest(data.as_slice()).into()
}

fn push_slice(out: &mut Vec<u8>, b: &[u8])
    ensures
        final(out)@ == old(out)@ + b@,
{
    let mut i: usize = 0;
    while i < b.len()
        invariant
            i <= b@.len(),
            out@ == old(out)@ + b@.subrange(0, i as int),
        decreases b@.len() - i,
    {
        out.push(b[i]);
        i = i + 1;
        assert(out@ =~= old(out)@ + b@.subrange(0, i as int));
    }
    assert(b@.subrange(0, b@.len() as int) =~= b@);
}

fn push_le(out: &mut Vec<u8>, v: u128, width: usize)
    ensures
        final(out)@ == old(out)@ + le_bytes(v as nat, width as nat),
{
    let mut x: u128 = v;
    let mut k: usize = 0;
    while k < width
        invariant
            k <= width,
            out@ + le_bytes(x as nat, (width - k) as nat) == old(out)@ + le_bytes(
                v as nat,
                width as nat,
            ),
        decreases width - k,
    {
        let ghost before = out@;
        out.push((x % 256) as u8);
        assert(le_bytes(x as nat, (width - k) as nat) == seq![(x % 256) as u8] + le_bytes(
            (x / 256) as nat,
            (width - k - 1) as nat,
        ));
        assert(out@ + le_bytes((x / 256) as nat, (width - k - 1) as nat) =~= before + le_bytes(
            x as nat,
            (width - k) as nat,
        ));
        x = x / 256;
        k = k + 1;
    }
    assert(out@ + le_bytes(x as nat, 0) =~= out@);
}

fn push_label(out: &mut Vec<u8>, name: &str)
    ensures
        final(out)@ == old(out)@ + label(name.spec_bytes()),
{
    push_slice(out, name.as_bytes());
    out.push(0xC0u8);
    out.push(0x7Fu8);
    assert(out@ =~= old(out)@ + label(name.spec_bytes()));
}

fn push_var(out: &mut Vec<u8>, b: &[u8])
    ensures
        final(out)@ == old(out)@ + var_bytes(b@),
{
    push_le(out, b.len() as u128, 8);
    push_slice(out, b);
    assert(out@ =~= old(out)@ + var_bytes(b@));
}

fn push_text(out: &mut Vec<u8>, s: &String)
    ensures
        final(out)@ == old(out)@ + text_bytes(s@),
{
    push_var(out, s.as_str().as_bytes());
}

fn push_fee(out: &mut Vec<u8>, f: FeeAmount)
    ensures
        final(out)@ == old(out)@ + fee_bytes(f),
{
    push_le(out, f.low, 16);
    push_le(out, f.high, 16);
    assert(out@ =~= old(out)@ + fee_bytes(f));
}

fn push_flag(out: &mut Vec<u8>, b: bool)
    ensures
        final(out)@ == old(out)@ + flag_bytes(b),
{
    if b {
        out.push(1u8);
    } else {
        out.push(0u8);
    }
    assert(out@ =~= old(out)@ + flag_bytes(b));
}

proof fn lemma_keys_bytes_push(keys: Seq<Seq<u8>>, k: Seq<u8>)
    ensures
        keys_bytes(keys.push(k)) == keys_bytes(keys) + var_bytes(k),
    decreases keys.len(),
{
    if keys.len() == 0 {
        assert(keys.push(k).drop_first() =~= Seq::<Seq<u8>>::empty());
        assert(keys_bytes(keys.push(k)) =~= var_bytes(k) + keys_bytes(Seq::<Seq<u8>>::empty()));
        assert(keys_bytes(keys.push(k)) =~= keys_bytes(keys) + var_bytes(k));
    } else {
        assert(keys.push(k).drop_first() =~= keys.drop_first().push(k));
        lemma_keys_bytes_push(keys.drop_first(), k);
        assert(keys_bytes(keys.push(k)) =~= keys_bytes(keys) + var_bytes(k));
    }
}

fn push_keys(out: &mut Vec<u8>, keys: &Vec<SignatureKey>)
    ensures
        final(out)@ == old(out)@ + keys_bytes(crate::types::keys_view(keys@)),
{
    let ghost kv = crate::types::keys_view(keys@);
    let mut i: usize = 0;
    while i < keys.len()
        invariant
            i <= keys@.len(),
            kv == crate::types::keys_view(keys@),
            out@ == old(out)@ + keys_bytes(kv.subrange(0, i as int)),
        decreases keys@.len() - i,
    {
        proof {
            lemma_keys_bytes_push(kv.subrange(0, i as int), kv[i as int]);
            assert(kv.subrange(0, i as int).push(kv[i as int]) =~= kv.subrange(0, i + 1));
        }
        push_var(out, keys[i].as_slice());
        i = i + 1;
        assert(out@ =~= old(out)@ + keys_bytes(kv.subrange(0, i as int)));
    }
    assert(kv.subrange(0, keys@.len() as int) =~= kv);
}

impl RollupRegistrationBody {
    /// The tag that opens a registration body's commitment.
    pub fn tag() -> (r: String)
        ensures
            r@ == "ROLLUP_REG"@,
    {
        String::from_str("ROLLUP_REG")
    }

    /// The canonical bytes that a registration body commits to.
    pub fn commitment_preimage(&self) -> (r: Vec<u8>)
        ensures
            r@ == registration_preimage(self@),
    {
        let mut out: Vec<u8> = Vec::new();
        push_label(&mut out, "ROLLUP_REG");
        push_label(&mut out, "namespace_id");
        push_le(&mut out, self.namespace_id as u128, 8);
        push_label(&mut out, "reserve_url");
        push_text(&mut out, &self.reserve_url);
        push_label(&mut out, "reserve_price");
        push_fee(&mut out, self.reserve_price);
        push_label(&mut out, "active");
        push_flag(&mut out, self.active);
        push_label(&mut out, "signature_keys");
        push_keys(&mut out, &self.signature_keys);
        push_label(&mut out, "signature_key");
        push_var(&mut out, self.signature_key.as_slice());
        push_label(&mut out, "text");
        push_text(&mut out, &self.text);
        assert(out@ =~= registration_preimage(self@));
        out
    }

    /// The commitment that a registration's signature is made over.
    pub fn commit(&self) -> (r: [u8; 32])
        ensures
            r@ == keccak256_of(registration_preimage(self@)),
    {
        let bytes = self.commitment_preimage();
        keccak256(&bytes)
    }
}

impl RollupUpdatebody {
    /// The tag that opens an update body's commitment.
    pub fn tag() -> (r: String)
        ensures
            r@ == "ROLLUP_UPDATE"@,
    {
        String::from_str("ROLLUP_UPDATE")
    }

    /// The canonical bytes that an update body commits to.
    pub fn commitment_preimage(&self) -> (r: Vec<u8>)
        ensures
            r@ == update_preimage(self@),
    {
        let mut out: Vec<u8> = Vec::new();
        push_label(&mut out, "ROLLUP_UPDATE");
        push_label(&mut out, "namespace_id");
        push_le(&mut out, self.namespace_id as u128, 8);
        let ghost p0 = out@;
        if let Some(url) = &self.reserve_url {
            push_label(&mut out, "reserve_url");
            push_text(&mut out, url);
        }
        assert(out@ =~= p0 + opt_text_part("reserve_url".spec_bytes(), self@.reserve_url));
        let ghost p1 = out@;
        if let Some(price) = self.reserve_price {
            push_label(&mut out, "reserve_price");
            push_fee(&mut out, price);
        }
        assert(out@ =~= p1 + opt_fee_part(self@.reserve_price));
        let ghost p2 = out@;
        if let Some(active) = self.active {
            push_label(&mut out, "active");
            push_flag(&mut out, active);
        }
        assert(out@ =~= p2 + opt_flag_part(self@.active));
        let ghost p3 = out@;
        if let Some(keys) = &self.signature_keys {
            push_label(&mut out, "signature_keys");
            push_keys(&mut out, keys);
        }
        assert(out@ =~= p3 + opt_keys_part(self@.signature_keys));
        push_label(&mut out, "signature_key");
        push_var(&mut out, self.signature_key.as_slice());
        let ghost p4 = out@;
        if let Some(text) = &self.text {
            push_label(&mut out, "text");
            push_text(&mut out, text);
        }
        assert(out@ =~= p4 + opt_text_part("text".spec_bytes(), self@.text));
        assert(out@ =~= update_preimage(self@));
        out
    }

    /// The commitment that an update's signature is made over.
    pub fn commit(&self) -> (r: [u8; 32])
        ensures
            r@ == keccak256_of(update_preimage(self@)),
    {
        let bytes = self.commitment_preimage();
        keccak256(&bytes)
    }
}

/// `256` to the power `n`.
pub open spec fn pow256(n: nat) -> nat
    decreases n,
{
    if n == 0 {
        1
    } else {
        256 * pow256((n - 1) as nat)
    }
}

/// Every key fits the 8-byte length prefix that frames it.
pub open spec fn keys_fit(keys: Seq<Seq<u8>>) -> bool {
    forall|i: int| 0 <= i < keys.len() ==> #[trigger] keys[i].len() < pow256(8)
}

/// The parts of a registration body's commitment, one per field, in order.
pub open spec fn registration_parts(b: BodyModel) -> Seq<Seq<u8>> {
    seq![
        label("ROLLUP_REG".spec_bytes()),
        label("namespace_id".spec_bytes()) + u64_bytes(b.namespace_id as nat),
        label("reserve_url".spec_bytes()) + text_bytes(b.reserve_url),
        label("reserve_price".spec_bytes()) + fee_bytes(b.reserve_price),
        label("active".spec_bytes()) + flag_bytes(b.active),
        label("signature_keys".spec_bytes()) + keys_bytes(b.signature_keys),
        label("signature_key".spec_bytes()) + var_bytes(b.signature_key),
        label("text".spec_bytes()) + text_bytes(b.text),
    ]
}

/// `b` is `a` with exactly one field changed.
pub open spec fn one_field_changed(a: BodyModel, b: BodyModel) -> bool {
    let ns = a.namespace_id == b.namespace_id;
    let url = a.reserve_url == b.reserve_url;
    let price = a.reserve_price == b.reserve_price;
    let active = a.active == b.active;
    let keys = a.signature_keys == b.signature_keys;
    let key = a.signature_key == b.signature_key;
    let text = a.text == b.text;
    ||| !ns && url && price && active && keys && key && text
    ||| ns && !url && price && active && keys && key && text
    ||| ns && url && !price && active && keys && key && text
    ||| ns && url && price && !active && keys && key && text
    ||| ns && url && price && active && !keys && key && text
    ||| ns && url && price && active && keys && !key && text
    ||| ns && url && price && active && keys && key && !text
}

proof fn lemma_le_bytes_len(v: nat, n: nat)
    ensures
        le_bytes(v, n).len() == n,
    decreases n,
{
    if n > 0 {
        lemma_le_bytes_len(v / 256, (n - 1) as nat);
    }
}

proof fn lemma_le_bytes_injective(a: nat, b: nat, n: nat)
    requires
        a < pow256(n),
        b < pow256(n),
        le_bytes(a, n) == le_bytes(b, n),
    ensures
        a == b,
    decreases n,
{
    if n > 0 {
        let m = (n - 1) as nat;
        assert(le_bytes(a, n) == seq![(a % 256) as u8] + le_bytes(a / 256, m));
        assert(le_bytes(b, n) == seq![(b % 256) as u8] + le_bytes(b / 256, m));
        assert((seq![(a % 256) as u8] + le_bytes(a / 256, m))[0] == (a % 256) as u8);
        assert((seq![(b % 256) as u8] + le_bytes(b / 256, m))[0] == (b % 256) as u8);
        assert(le_bytes(a, n)[0] == le_bytes(b, n)[0]);
        assert((a % 256) as u8 == (b % 256) as u8);
        assert(a % 256 == b % 256);
        assert(le_bytes(a, n).drop_first() =~= le_bytes(a / 256, m));
        assert(le_bytes(b, n).drop_first() =~= le_bytes(b / 256, m));
        assert(a / 256 < pow256(m)) by (nonlinear_arith)
            requires
                a < 256 * pow256(m),
        ;
        assert(b / 256 < pow256(m)) by (nonlinear_arith)
            requires
                b < 256 * pow256(m),
        ;
        lemma_le_bytes_injective(a / 256, b / 256, m);
    }
}

proof fn lemma_cancel_prefix(p: Seq<u8>, x: Seq<u8>, y: Seq<u8>)
    requires
        p + x == p + y,
    ensures
        x == y,
{
    assert(x =~= (p + x).subrange(p.len() as int, (p + x).len() as int));
    assert(y =~= (p + y).subrange(p.len() as int, (p + y).len() as int));
}

proof fn lemma_var_bytes_injective(x: Seq<u8>, y: Seq<u8>)
    requires
        var_bytes(x) == var_bytes(y),
    ensures
        x == y,
{
    lemma_le_bytes_len(x.len(), 8);
    lemma_le_bytes_len(y.len(), 8);
    assert(x =~= var_bytes(x).subrange(8, var_bytes(x).len() as int));
    assert(y =~= var_bytes(y).subrange(8, var_bytes(y).len() as int));
}

proof fn lemma_text_bytes_injective(s: Seq<char>, t: Seq<char>)
    requires
        text_bytes(s) == text_bytes(t),
    ensures
        s == t,
{
    lemma_var_bytes_injective(encode_utf8(s), encode_utf8(t));
    vstd::utf8::encode_utf8_decode_utf8(s);
    vstd::utf8::encode_utf8_decode_utf8(t);
}

proof fn lemma_keys_bytes_injective(k1: Seq<Seq<u8>>, k2: Seq<Seq<u8>>)
    requires
        keys_fit(k1),
        keys_fit(k2),
        keys_bytes(k1) == keys_bytes(k2),
    ensures
        k1 == k2,
    decreases k1.len() + k2.len(),
{
    if k1.len() == 0 && k2.len() == 0 {
        assert(k1 =~= k2);
    } else if k1.len() == 0 {
        lemma_le_bytes_len(k2[0].len(), 8);
        assert(keys_bytes(k2).len() >= 8);
    } else if k2.len() == 0 {
        lemma_le_bytes_len(k1[0].len(), 8);
        assert(keys_bytes(k1).len() >= 8);
    } else {
        let a = k1[0];
        let b = k2[0];
        let whole = keys_bytes(k1);
        lemma_le_bytes_len(a.len(), 8);
        lemma_le_bytes_len(b.len(), 8);
        assert(whole.subrange(0, 8) =~= le_bytes(a.len(), 8));
        assert(whole.subrange(0, 8) =~= le_bytes(b.len(), 8));
        lemma_le_bytes_injective(a.len(), b.len(), 8);
        assert(a =~= whole.subrange(8, 8 + a.len() as int));
        assert(b =~= whole.subrange(8, 8 + b.len() as int));
        let rest1 = k1.drop_first();
        let rest2 = k2.drop_first();
        assert(keys_bytes(rest1) =~= whole.subrange(8 + a.len() as int, whole.len() as int));
        assert(keys_bytes(rest2) =~= whole.subrange(8 + b.len() as int, whole.len() as int));
        assert(keys_fit(rest1)) by {
            assert forall|i: int| 0 <= i < rest1.len() implies #[trigger] rest1[i].len() < pow256(
                8,
            ) by {
                assert(rest1[i] == k1[i + 1]);
            }
        }
        assert(keys_fit(rest2)) by {
            assert forall|i: int| 0 <= i < rest2.len() implies #[trigger] rest2[i].len() < pow256(
                8,
            ) by {
                assert(rest2[i] == k2[i + 1]);
            }
        }
        lemma_keys_bytes_injective(rest1, rest2);
        assert(k1 =~= k2) by {
            assert forall|i: int| 0 <= i < k1.len() implies k1[i] == k2[i] by {
                if i > 0 {
                    assert(k1[i] == rest1[i - 1]);
                    assert(k2[i] == rest2[i - 1]);
                }
            }
        }
    }
}

proof fn lemma_flatten_one_difference(p1: Seq<Seq<u8>>, p2: Seq<Seq<u8>>, i: int)
    requires
        p1.len() == p2.len(),
        0 <= i < p1.len(),
        forall|j: int| 0 <= j < p1.len() && j != i ==> p1[j] == p2[j],
        p1.flatten() == p2.flatten(),
    ensures
        p1[i] == p2[i],
    decreases p1.len(),
{
    let r1 = p1.drop_first();
    let r2 = p2.drop_first();
    if i == 0 {
        assert(r1 =~= r2) by {
            assert forall|j: int| 0 <= j < r1.len() implies r1[j] == r2[j] by {
                assert(r1[j] == p1[j + 1]);
                assert(r2[j] == p2[j + 1]);
            }
        }
        let s = r1.flatten();
        assert(p1.flatten() == p1[0] + s);
        assert(p2.flatten() == p2[0] + s);
        assert(p1[0] =~= (p1[0] + s).subrange(0, p1[0].len() as int));
        assert(p2[0] =~= (p2[0] + s).subrange(0, p2[0].len() as int));
    } else {
        assert(p1.flatten() == p1[0] + r1.flatten());
        assert(p2.flatten() == p2[0] + r2.flatten());
        lemma_cancel_prefix(p1[0], r1.flatten(), r2.flatten());
        assert forall|j: int| 0 <= j < r1.len() && j != i - 1 implies r1[j] == r2[j] by {
            assert(r1[j] == p1[j + 1]);
            assert(r2[j] == p2[j + 1]);
        }
        lemma_flatten_one_difference(r1, r2, i - 1);
    }
}

proof fn lemma_flatten_step(p: Seq<Seq<u8>>, k: int)
    requires
        0 <= k < p.len(),
    ensures
        p.subrange(k, p.len() as int).flatten() == p[k] + p.subrange(k + 1, p.len() as int).flatten(),
{
    let q = p.subrange(k, p.len() as int);
    assert(q.drop_first() =~= p.subrange(k + 1, p.len() as int));
}

proof fn lemma_flatten_eight(
    x0: Seq<u8>,
    x1: Seq<u8>,
    x2: Seq<u8>,
    x3: Seq<u8>,
    x4: Seq<u8>,
    x5: Seq<u8>,
    x6: Seq<u8>,
    x7: Seq<u8>,
)
    ensures
        seq![x0, x1, x2, x3, x4, x5, x6, x7].flatten() == x0 + x1 + x2 + x3 + x4 + x5 + x6 + x7,
{
    let p = seq![x0, x1, x2, x3, x4, x5, x6, x7];
    assert(p.subrange(0, 8) =~= p);
    lemma_flatten_step(p, 0);
    lemma_flatten_step(p, 1);
    lemma_flatten_step(p, 2);
    lemma_flatten_step(p, 3);
    lemma_flatten_step(p, 4);
    lemma_flatten_step(p, 5);
    lemma_flatten_step(p, 6);
    lemma_flatten_step(p, 7);
    assert(p.subrange(8, 8).flatten() =~= Seq::<u8>::empty());
    assert(p.flatten() =~= x0 + x1 + x2 + x3 + x4 + x5 + x6 + x7);
}

proof fn lemma_registration_parts(b: BodyModel)
    ensures
        registration_preimage(b) == registration_parts(b).flatten(),
{
    let p = registration_parts(b);
    lemma_flatten_eight(p[0], p[1], p[2], p[3], p[4], p[5], p[6], p[7]);
    assert(p =~= seq![p[0], p[1], p[2], p[3], p[4], p[5], p[6], p[7]]);
    assert(registration_preimage(b) =~= p[0] + p[1] + p[2] + p[3] + p[4] + p[5] + p[6] + p[7]);
}

/// Commitments are deterministic: equal bodies commit to equal bytes.
pub proof fn lemma_commitment_deterministic(a: BodyModel, b: BodyModel)
    requires
        a == b,
    ensures
        registration_preimage(a) == registration_preimage(b),
        keccak256_of(registration_preimage(a)) == keccak256_of(registration_preimage(b)),
{
}

/// Changing any single field of a registration body changes the bytes it
/// commits to.
pub proof fn lemma_single_field_change_alters_preimage(a: BodyModel, b: BodyModel)
    requires
        one_field_changed(a, b),
        keys_fit(a.signature_keys),
        keys_fit(b.signature_keys),
        a.signature_key.len() < pow256(8),
        b.signature_key.len() < pow256(8),
    ensures
        registration_preimage(a) != registration_preimage(b),
{
    if registration_preimage(a) == registration_preimage(b) {
        lemma_registration_parts(a);
        lemma_registration_parts(b);
        let pa = registration_parts(a);
        let pb = registration_parts(b);
        let i: int = if a.namespace_id != b.namespace_id {
            1
        } else if a.reserve_url != b.reserve_url {
            2
        } else if a.reserve_price != b.reserve_price {
            3
        } else if a.active != b.active {
            4
        } else if a.signature_keys != b.signature_keys {
            5
        } else if a.signature_key != b.signature_key {
            6
        } else {
            7
        };
        assert(pa.len() == 8 && pb.len() == 8);
        assert forall|j: int| 0 <= j < pa.len() && j != i implies pa[j] == pb[j] by {
            if j == 0 {
            } else if j == 1 {
                assert(a.namespace_id == b.namespace_id);
            } else if j == 2 {
                assert(a.reserve_url == b.reserve_url);
            } else if j == 3 {
                assert(a.reserve_price == b.reserve_price);
            } else if j == 4 {
                assert(a.active == b.active);
            } else if j == 5 {
                assert(a.signature_keys == b.signature_keys);
            } else if j == 6 {
                assert(a.signature_key == b.signature_key);
            } else {
                assert(a.text == b.text);
            }
        }
        lemma_flatten_one_difference(pa, pb, i);
        if i == 1 {
            lemma_cancel_prefix(label("namespace_id".spec_bytes()), u64_bytes(a.namespace_id as nat), u64_bytes(b.namespace_id as nat));
            reveal_with_fuel(pow256, 9);
            lemma_le_bytes_injective(a.namespace_id as nat, b.namespace_id as nat, 8);
            assert(a.namespace_id == b.namespace_id);
        } else if i == 2 {
            lemma_cancel_prefix(label("reserve_url".spec_bytes()), text_bytes(a.reserve_url), text_bytes(b.reserve_url));
            lemma_text_bytes_injective(a.reserve_url, b.reserve_url);
            assert(a.reserve_url == b.reserve_url);
        } else if i == 3 {
            let (fa, fb) = (a.reserve_price, b.reserve_price);
            lemma_cancel_prefix(label("reserve_price".spec_bytes()), fee_bytes(fa), fee_bytes(fb));
            lemma_fee_bytes_injective(fa, fb);
            assert(fa == fb);
        } else if i == 4 {
            lemma_cancel_prefix(label("active".spec_bytes()), flag_bytes(a.active), flag_bytes(b.active));
            assert(flag_bytes(a.active)[0] == flag_bytes(b.active)[0]);
            assert(a.active == b.active);
        } else if i == 5 {
            lemma_cancel_prefix(label("signature_keys".spec_bytes()), keys_bytes(a.signature_keys), keys_bytes(b.signature_keys));
            lemma_keys_bytes_injective(a.signature_keys, b.signature_keys);
            assert(a.signature_keys == b.signature_keys);
        } else if i == 6 {
            lemma_cancel_prefix(label("signature_key".spec_bytes()), var_bytes(a.signature_key), var_bytes(b.signature_key));
            lemma_var_bytes_injective(a.signature_key, b.signature_key);
            assert(a.signature_key == b.signature_key);
        } else {
            lemma_cancel_prefix(label("text".spec_bytes()), text_bytes(a.text), text_bytes(b.text));
            lemma_text_bytes_injective(a.text, b.text);
            assert(a.text == b.text);
        }
    }
}

/// The parts of an update body's commitment, one per field, in order; an
/// absent field's part is empty.
pub open spec fn update_parts(u: UpdateBodyModel) -> Seq<Seq<u8>> {
    seq![
        label("ROLLUP_UPDATE".spec_bytes()),
        label("namespace_id".spec_bytes()) + u64_bytes(u.namespace_id as nat),
        opt_text_part("reserve_url".spec_bytes(), u.reserve_url),
        opt_fee_part(u.reserve_price),
        opt_flag_part(u.active),
        opt_keys_part(u.signature_keys),
        label("signature_key".spec_bytes()) + var_bytes(u.signature_key),
        opt_text_part("text".spec_bytes(), u.text),
    ]
}

/// `b` is `a` with exactly one field changed, where setting or clearing an
/// optional field counts as a change.
pub open spec fn one_update_field_changed(a: UpdateBodyModel, b: UpdateBodyModel) -> bool {
    let ns = a.namespace_id == b.namespace_id;
    let url = a.reserve_url == b.reserve_url;
    let price = a.reserve_price == b.reserve_price;
    let active = a.active == b.active;
    let keys = a.signature_keys == b.signature_keys;
    let key = a.signature_key == b.signature_key;
    let text = a.text == b.text;
    ||| !ns && url && price && active && keys && key && text
    ||| ns && !url && price && active && keys && key && text
    ||| ns && url && !price && active && keys && key && text
    ||| ns && url && price && !active && keys && key && text
    ||| ns && url && price && active && !keys && key && text
    ||| ns && url && price && active && keys && !key && text
    ||| ns && url && price && active && keys && key && !text
}

proof fn lemma_update_parts(u: UpdateBodyModel)
    ensures
        update_preimage(u) == update_parts(u).flatten(),
{
    let p = update_parts(u);
    lemma_flatten_eight(p[0], p[1], p[2], p[3], p[4], p[5], p[6], p[7]);
    assert(p =~= seq![p[0], p[1], p[2], p[3], p[4], p[5], p[6], p[7]]);
    assert(update_preimage(u) =~= p[0] + p[1] + p[2] + p[3] + p[4] + p[5] + p[6] + p[7]);
}

proof fn lemma_fee_bytes_injective(fa: FeeAmount, fb: FeeAmount)
    requires
        fee_bytes(fa) == fee_bytes(fb),
    ensures
        fa == fb,
{
    lemma_le_bytes_len(fa.low as nat, 16);
    lemma_le_bytes_len(fb.low as nat, 16);
    assert(le_bytes(fa.low as nat, 16) =~= fee_bytes(fa).subrange(0, 16));
    assert(le_bytes(fb.low as nat, 16) =~= fee_bytes(fb).subrange(0, 16));
    lemma_cancel_prefix(
        le_bytes(fa.low as nat, 16),
        le_bytes(fa.high as nat, 16),
        le_bytes(fb.high as nat, 16),
    );
    reveal_with_fuel(pow256, 17);
    lemma_le_bytes_injective(fa.low as nat, fb.low as nat, 16);
    lemma_le_bytes_injective(fa.high as nat, fb.high as nat, 16);
}

proof fn lemma_opt_text_part_injective(name: Seq<u8>, x: Option<Seq<char>>, y: Option<Seq<char>>)
    requires
        opt_text_part(name, x) == opt_text_part(name, y),
    ensures
        x == y,
{
    match (x, y) {
        (Some(s), Some(t)) => {
            lemma_cancel_prefix(label(name), text_bytes(s), text_bytes(t));
            lemma_text_bytes_injective(s, t);
        },
        (Some(s), None) => {
            assert(opt_text_part(name, x).len() > 0);
        },
        (None, Some(t)) => {
            assert(opt_text_part(name, y).len() > 0);
        },
        (None, None) => {},
    }
}

/// Changing any single field of an update body, or setting or clearing
/// one of its optional fields, changes the bytes it commits to.
pub proof fn lemma_single_update_field_change_alters_preimage(a: UpdateBodyModel, b: UpdateBodyModel)
    requires
        one_update_field_changed(a, b),
        a.signature_keys matches Some(ks) ==> keys_fit(ks),
        b.signature_keys matches Some(ks) ==> keys_fit(ks),
        a.signature_key.len() < pow256(8),
        b.signature_key.len() < pow256(8),
    ensures
        update_preimage(a) != update_preimage(b),
{
    if update_preimage(a) == update_preimage(b) {
        lemma_update_parts(a);
        lemma_update_parts(b);
        let pa = update_parts(a);
        let pb = update_parts(b);
        let i: int = if a.namespace_id != b.namespace_id {
            1
        } else if a.reserve_url != b.reserve_url {
            2
        } else if a.reserve_price != b.reserve_price {
            3
        } else if a.active != b.active {
            4
        } else if a.signature_keys != b.signature_keys {
            5
        } else if a.signature_key != b.signature_key {
            6
        } else {
            7
        };
        assert(pa.len() == 8 && pb.len() == 8);
        assert forall|j: int| 0 <= j < pa.len() && j != i implies pa[j] == pb[j] by {
            if j == 0 {
            } else if j == 1 {
                assert(a.namespace_id == b.namespace_id);
            } else if j == 2 {
                assert(a.reserve_url == b.reserve_url);
            } else if j == 3 {
                assert(a.reserve_price == b.reserve_price);
            } else if j == 4 {
                assert(a.active == b.active);
            } else if j == 5 {
                assert(a.signature_keys == b.signature_keys);
            } else if j == 6 {
                assert(a.signature_key == b.signature_key);
            } else {
                assert(a.text == b.text);
            }
        }
        lemma_flatten_one_difference(pa, pb, i);
        if i == 1 {
            lemma_cancel_prefix(
                label("namespace_id".spec_bytes()),
                u64_bytes(a.namespace_id as nat),
                u64_bytes(b.namespace_id as nat),
            );
            reveal_with_fuel(pow256, 9);
            lemma_le_bytes_injective(a.namespace_id as nat, b.namespace_id as nat, 8);
            assert(a.namespace_id == b.namespace_id);
        } else if i == 2 {
            lemma_opt_text_part_injective("reserve_url".spec_bytes(), a.reserve_url, b.reserve_url);
        } else if i == 3 {
            match (a.reserve_price, b.reserve_price) {
                (Some(fa), Some(fb)) => {
                    lemma_cancel_prefix(label("reserve_price".spec_bytes()), fee_bytes(fa), fee_bytes(fb));
                    lemma_fee_bytes_injective(fa, fb);
                },
                (Some(_), None) => {
                    assert(opt_fee_part(a.reserve_price).len() > 0);
                },
                (None, Some(_)) => {
                    assert(opt_fee_part(b.reserve_price).len() > 0);
                },
                (None, None) => {},
            }
        } else if i == 4 {
            match (a.active, b.active) {
                (Some(x), Some(y)) => {
                    lemma_cancel_prefix(label("active".spec_bytes()), flag_bytes(x), flag_bytes(y));
                    assert(flag_bytes(x)[0] == flag_bytes(y)[0]);
                },
                (Some(_), None) => {
                    assert(opt_flag_part(a.active).len() > 0);
                },
                (None, Some(_)) => {
                    assert(opt_flag_part(b.active).len() > 0);
                },
                (None, None) => {},
            }
        } else if i == 5 {
            match (a.signature_keys, b.signature_keys) {
                (Some(x), Some(y)) => {
                    lemma_cancel_prefix(label("signature_keys".spec_bytes()), keys_bytes(x), keys_bytes(y));
                    lemma_keys_bytes_injective(x, y);
                },
                (Some(_), None) => {
                    assert(opt_keys_part(a.signature_keys).len() > 0);
                },
                (None, Some(_)) => {
                    assert(opt_keys_part(b.signature_keys).len() > 0);
                },
                (None, None) => {},
            }
        } else if i == 6 {
            lemma_cancel_prefix(
                label("signature_key".spec_bytes()),
                var_bytes(a.signature_key),
                var_bytes(b.signature_key),
            );
            lemma_var_bytes_injective(a.signature_key, b.signature_key);
        } else {
            lemma_opt_text_part_injective("text".spec_bytes(), a.text, b.text);
        }
    }
}

} // verus!
