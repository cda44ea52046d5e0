use vstd::prelude::*;

verus! {

/// Identifier of a rollup's namespace; the key of a registration.
pub type NamespaceId = u64;

/// A verifying public key, in its canonical byte form.
pub type SignatureKey = Vec<u8>;

/// A fee amount in Wei: an unsigned 256-bit integer held as two 128-bit halves.
#[derive(PartialEq, Eq, Structural, Clone, Copy, Debug)]
pub struct FeeAmount {
    pub low: u128,
    pub high: u128,
}

impl FeeAmount {
    /// The numeric value of the amount.
    pub open spec fn value(self) -> nat {
        self.low as nat + self.high as nat * 0x1_0000_0000_0000_0000_0000_0000_0000_0000nat
    }

    pub fn from_u128(v: u128) -> (r: FeeAmount)
        ensures
            r.value() == v as nat,
            r.low == v,
            r.high == 0,
    {
        FeeAmount { low: v, high: 0 }
    }
}

/// The terms under which a rollup takes part in the marketplace.
#[derive(PartialEq, Eq, Clone, Debug)]
pub struct RollupRegistrationBody {
    pub namespace_id: NamespaceId,
    pub reserve_url: String,
    /// Denominated in Wei.
    pub reserve_price: FeeAmount,
    /// Whether this registration takes part in the marketplace.
    pub active: bool,
    /// The keys authorized to update the registration.
    pub signature_keys: Vec<SignatureKey>,
    /// The key that signed this body.
    pub signature_key: SignatureKey,
    /// Free-form, human readable information.
    pub text: String,
}

/// A registration body together with the signature over its commitment.
#[derive(PartialEq, Eq, Clone, Debug)]
pub struct RollupRegistration {
    pub body: RollupRegistrationBody,
    pub signature: Vec<u8>,
}

/// A partial update: present fields overwrite, absent ones are kept.
#[derive(PartialEq, Eq, Clone, Debug)]
pub struct RollupUpdatebody {
    pub namespace_id: NamespaceId,
    pub reserve_url: Option<String>,
    pub reserve_price: Option<FeeAmount>,
    pub active: Option<bool>,
    pub signature_keys: Option<Vec<SignatureKey>>,
    /// The key that signed this update.
    pub signature_key: SignatureKey,
    pub text: Option<String>,
}

/// An update body together with the signature over its commitment.
#[derive(PartialEq, Eq, Clone, Debug)]
pub struct RollupUpdate {
    pub body: RollupUpdatebody,
    pub signature: Vec<u8>,
}

/// The mathematical content of a registration body.
pub struct BodyModel {
    pub namespace_id: u64,
    pub reserve_url: Seq<char>,
    pub reserve_price: FeeAmount,
    pub active: bool,
    pub signature_keys: Seq<Seq<u8>>,
    pub signature_key: Seq<u8>,
    pub text: Seq<char>,
}

/// The mathematical content of a registration.
pub struct RegistrationModel {
    pub body: BodyModel,
    pub signature: Seq<u8>,
}

/// The mathematical content of an update body.
pub struct UpdateBodyModel {
    pub namespace_id: u64,
    pub reserve_url: Option<Seq<char>>,
    pub reserve_price: Option<FeeAmount>,
    pub active: Option<bool>,
    pub signature_keys: Option<Seq<Seq<u8>>>,
    pub signature_key: Seq<u8>,
    pub text: Option<Seq<char>>,
}

/// The mathematical content of an update.
pub struct UpdateModel {
    pub body: UpdateBodyModel,
    pub signature: Seq<u8>,
}

/// The byte strings of a list of keys.
pub open spec fn keys_view(keys: Seq<SignatureKey>) -> Seq<Seq<u8>> {
    keys.map_values(|k: SignatureKey| k@)
}

impl View for RollupRegistrationBody {
    type V = BodyModel;

    open spec fn view(&self) -> BodyModel {
        BodyModel {
            namespace_id: self.namespace_id,
            reserve_url: self.reserve_url@,
            reserve_price: self.reserve_price,
            active: self.active,
            signature_keys: keys_view(self.signature_keys@),
            signature_key: self.signature_key@,
            text: self.text@,
        }
    }
}

impl View for RollupRegistration {
    type V = RegistrationModel;

    open spec fn view(&self) -> RegistrationModel {
        RegistrationModel { body: self.body@, signature: self.signature@ }
    }
}

impl View for RollupUpdatebody {
    type V = UpdateBodyModel;

    open spec fn view(&self) -> UpdateBodyModel {
        UpdateBodyModel {
            namespace_id: self.namespace_id,
            reserve_url: match self.reserve_url {
                Some(u) => Some(u@),
                None => None,
            },
            reserve_price: self.reserve_price,
            active: self.active,
            signature_keys: match self.signature_keys {
                Some(ks) => Some(keys_view(ks@)),
                None => None,
            },
            signature_key: self.signature_key@,
            text: match self.text {
                Some(t) => Some(t@),
                None => None,
            },
        }
    }
}

impl View for RollupUpdate {
    type V = UpdateModel;

    open spec fn view(&self) -> UpdateModel {
        UpdateModel { body: self.body@, signature: self.signature@ }
    }
}

/// A copy of a byte string.
pub fn copy_bytes(b: &Vec<u8>) -> (r: Vec<u8>)
    ensures
        r@ == b@,
{
    let mut r: Vec<u8> = Vec::with_capacity(b.len());
    let mut i: usize = 0;
    while i < b.len()
        invariant
            i <= b@.len(),
            r@ == b@.subrange(0, i as int),
        decreases b@.len() - i,
    {
        r.push(b[i]);
        i = i + 1;
    }
    assert(r@ =~= b@);
    r
}

/// A copy of a list of keys.
pub fn copy_keys(keys: &Vec<SignatureKey>) -> (r: Vec<SignatureKey>)
    ensures
        keys_view(r@) == keys_view(keys@),
{
    let mut r: Vec<SignatureKey> = Vec::with_capacity(keys.len());
    let mut i: usize = 0;
    while i < keys.len()
        invariant
            i <= keys@.len(),
            r@.len() == i,
            forall|j: int| 0 <= j < i ==> r@[j]@ == keys@[j]@,
        decreases keys@.len() - i,
    {
        let k = copy_bytes(&keys[i]);
        r.push(k);
        i = i + 1;
    }
    assert(keys_view(r@) =~= keys_view(keys@));
    r
}

impl RollupRegistrationBody {
    /// A copy of the body, field for field.
    pub fn duplicate(&self) -> (r: Self)
        ensures
            r@ == self@,
    {
        RollupRegistrationBody {
            namespace_id: self.namespace_id,
            reserve_url: self.reserve_url.clone(),
            reserve_price: self.reserve_price,
            active: self.active,
            signature_keys: copy_keys(&self.signature_keys),
            signature_key: copy_bytes(&self.signature_key),
            text: self.text.clone(),
        }
    }
}

impl RollupRegistration {
    /// A copy of the registration, field for field.
    pub fn duplicate(&self) -> (r: Self)
        ensures
            r@ == self@,
    {
        RollupRegistration { body: self.body.duplicate(), signature: copy_bytes(&self.signature) }
    }
}

/// Whether `key` is one of `keys`.
pub open spec fn key_listed(key: Seq<u8>, keys: Seq<Seq<u8>>) -> bool {
    keys.contains(key)
}

/// Byte-wise equality of two keys.
pub fn same_bytes(a: &Vec<u8>, b: &Vec<u8>) -> (r: bool)
    ensures
        r == (a@ == b@),
{
    if a.len() != b.len() {
        return false;
    }
    let mut i: usize = 0;
    while i < a.len()
        invariant
            a@.len() == b@.len(),
            i <= a@.len(),
            forall|j: int| 0 <= j < i ==> a@[j] == b@[j],
        decreases a@.len() - i,
    {
        if a[i] != b[i] {
            return false;
        }
        i = i + 1;
    }
    assert(a@ =~= b@);
    true
}

/// Whether `key` is one of `keys`.
pub fn contains_key(keys: &Vec<SignatureKey>, key: &SignatureKey) -> (r: bool)
    ensures
        r == key_listed(key@, keys_view(keys@)),
{
    let mut i: usize = 0;
    while i < keys.len()
        invariant
            i <= keys@.len(),
            forall|j: int| 0 <= j < i ==> keys@[j]@ != key@,
        decreases keys@.len() - i,
    {
        if same_bytes(&keys[i], key) {
            assert(keys_view(keys@)[i as int] == key@);
            return true;
        }
        i = i + 1;
    }
    assert(!keys_view(keys@).contains(key@)) by {
        if keys_view(keys@).contains(key@) {
            let j = choose|j: int| 0 <= j < keys_view(keys@).len() && keys_view(keys@)[j] == key@;
            assert(keys@[j]@ == key@);
        }
    }
    false
}

} // verus!
