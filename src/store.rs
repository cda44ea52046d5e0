use vstd::prelude::*;

use crate::error::{ErrorModel, SolverError};
use crate::registry::{
    applied_update, apply_update, merged_body, registration_result_view, validate_registration,
    validation_result,
};
use crate::types::{
    key_listed, NamespaceId, RegistrationModel, RollupRegistration, RollupUpdate, UpdateModel,
};

verus! {

/// Whether a registration for `ns` is among `s`.
pub open spec fn registered(s: Seq<RegistrationModel>, ns: u64) -> bool {
    exists|i: int| 0 <= i < s.len() && s[i].body.namespace_id == ns
}

/// No two registrations of `s` share a namespace.
pub open spec fn unique_namespaces(s: Seq<RegistrationModel>) -> bool {
    forall|i: int, j: int|
        0 <= i < s.len() && 0 <= j < s.len() && i != j ==> s[i].body.namespace_id
            != s[j].body.namespace_id
}

/// The place of the registration for `ns` in `s`.
pub open spec fn position_of(s: Seq<RegistrationModel>, ns: u64) -> int {
    choose|i: int| 0 <= i < s.len() && s[i].body.namespace_id == ns
}

/// What registering `r` into the registrations `s` gives.
pub open spec fn register_result(s: Seq<RegistrationModel>, r: RegistrationModel) -> Result<
    RegistrationModel,
    ErrorModel,
> {
    match validation_result(r) {
        Err(e) => Err(e),
        Ok(_) => if registered(s, r.body.namespace_id) {
            Err(ErrorModel::AlreadyExists(r.body.namespace_id))
        } else {
            Ok(r)
        },
    }
}

/// The registrations after registering `r` into `s`: `r` is appended when it
/// is accepted, and nothing changes otherwise.
pub open spec fn register_state(s: Seq<RegistrationModel>, r: RegistrationModel) -> Seq<
    RegistrationModel,
> {
    match register_result(s, r) {
        Ok(x) => s.push(x),
        Err(_) => s,
    }
}

/// What applying the update `u` to the registrations `s` gives.
pub open spec fn update_result(s: Seq<RegistrationModel>, u: UpdateModel) -> Result<
    RegistrationModel,
    ErrorModel,
> {
    if registered(s, u.body.namespace_id) {
        applied_update(s[position_of(s, u.body.namespace_id)], u)
    } else {
        Err(ErrorModel::NotFound(u.body.namespace_id))
    }
}

/// The registrations after applying `u` to `s`: the merged registration
/// replaces the stored one in place when the update is accepted.
pub open spec fn update_state(s: Seq<RegistrationModel>, u: UpdateModel) -> Seq<RegistrationModel> {
    match update_result(s, u) {
        Ok(x) => s.update(position_of(s, u.body.namespace_id), x),
        Err(_) => s,
    }
}

/// Registrations held in memory, one per namespace, in order of registration.
pub struct RollupRegistry {
    entries: Vec<RollupRegistration>,
}

impl View for RollupRegistry {
    type V = Seq<RegistrationModel>;

    closed spec fn view(&self) -> Seq<RegistrationModel> {
        self.entries@.map_values(|r: RollupRegistration| r@)
    }
}

impl RollupRegistry {
    /// Well-formed: namespaces are unique.
    pub open spec fn wf(&self) -> bool {
        unique_namespaces(self@)
    }

    /// An empty registry.
    pub fn new() -> (r: RollupRegistry)
        ensures
            r.wf(),
            r@ == Seq::<RegistrationModel>::empty(),
    {
        let r = RollupRegistry { entries: Vec::new() };
        assert(r@ =~= Seq::<RegistrationModel>::empty());
        r
    }

    /// The place of the registration for `ns`, if one is stored.
    fn find(&self, ns: NamespaceId) -> (r: Option<usize>)
        requires
            self.wf(),
        ensures
            match r {
                Some(i) => registered(self@, ns) && i as int == position_of(self@, ns) && i
                    < self@.len(),
                None => !registered(self@, ns),
            },
    {
        let mut i: usize = 0;
        while i < self.entries.len()
            invariant
                self.wf(),
                i <= self.entries@.len(),
                forall|j: int| 0 <= j < i ==> self@[j].body.namespace_id != ns,
            decreases self.entries@.len() - i,
        {
            if self.entries[i].body.namespace_id == ns {
                assert(self@[i as int].body.namespace_id == ns);
                let ghost p = position_of(self@, ns);
                assert(0 <= p < self@.len() && self@[p].body.namespace_id == ns);
                assert(p == i);
                return Some(i);
            }
            i = i + 1;
        }
        None
    }

    /// Stores a registration whose signing key is one of its own authorized
    /// keys and whose namespace is not yet registered, and returns it.
    /// The signature is stored as given: it is not verified against the
    /// body's commitment, as no signature scheme is available to this library.
    pub fn register_rollup(&mut self, registration: RollupRegistration) -> (r: Result<
        RollupRegistration,
        SolverError,
    >)
        requires
            old(self).wf(),
        ensures
            final(self).wf(),
            registration_result_view(r) == register_result(old(self)@, registration@),
            final(self)@ == register_state(old(self)@, registration@),
    {
        match validate_registration(&registration) {
            Err(e) => { return Err(e); },
            Ok(_) => {},
        }
        let ns = registration.body.namespace_id;
        match self.find(ns) {
            Some(_) => { return Err(SolverError::RollupAlreadyExists(ns)); },
            None => {},
        }
        let stored = registration.duplicate();
        self.entries.push(stored);
        assert(self@ =~= old(self)@.push(registration@));
        Ok(registration)
    }

    /// Applies an update to the stored registration of its namespace, if
    /// its signer is one of the stored authorized keys, and returns the
    /// merged registration.
    /// The signature is stored as given: it is not verified against the
    /// body's commitment, as no signature scheme is available to this library.
    pub fn update_rollup_registration(&mut self, update: RollupUpdate) -> (r: Result<
        RollupRegistration,
        SolverError,
    >)
        requires
            old(self).wf(),
        ensures
            final(self).wf(),
            registration_result_view(r) == update_result(old(self)@, update@),
            final(self)@ == update_state(old(self)@, update@),
    {
        let ns = update.body.namespace_id;
        let i = match self.find(ns) {
            None => { return Err(SolverError::RollupNotFound(ns)); },
            Some(i) => i,
        };
        let merged = match apply_update(&self.entries[i], &update) {
            Err(e) => { return Err(e); },
            Ok(m) => m,
        };
        let stored = merged.duplicate();
        self.entries.set(i, stored);
        assert(self@ =~= old(self)@.update(i as int, merged@));
        assert(self.wf()) by {
            assert(merged@.body.namespace_id == ns);
        }
        Ok(merged)
    }

    /// Every stored registration, in storage order.
    pub fn get_all_rollup_registrations(&self) -> (r: Vec<RollupRegistration>)
        ensures
            r@.map_values(|x: RollupRegistration| x@) == self@,
    {
        let mut out: Vec<RollupRegistration> = Vec::with_capacity(self.entries.len());
        let mut i: usize = 0;
        while i < self.entries.len()
            invariant
                i <= self.entries@.len(),
                out@.len() == i,
                forall|j: int| 0 <= j < i ==> out@[j]@ == self.entries@[j]@,
            decreases self.entries@.len() - i,
        {
            out.push(self.entries[i].duplicate());
            i = i + 1;
        }
        assert(out@.map_values(|x: RollupRegistration| x@) =~= self@);
        out
    }
}

/// The registrations after registering each of `rs` in turn into `s`.
pub open spec fn register_all(s: Seq<RegistrationModel>, rs: Seq<RegistrationModel>) -> Seq<
    RegistrationModel,
>
    decreases rs.len(),
{
    if rs.len() == 0 {
        s
    } else {
        register_state(register_all(s, rs.drop_last()), rs.last())
    }
}

/// A registration is accepted exactly when its signing key is one of its own
/// authorized keys and its namespace is not yet registered. Otherwise the
/// error is an invalid signature naming the key, or, for a well-signed
/// registration, that the namespace already exists.
pub proof fn lemma_register_accepts(s: Seq<RegistrationModel>, r: RegistrationModel)
    ensures
        register_result(s, r) is Ok <==> key_listed(r.body.signature_key, r.body.signature_keys)
            && !registered(s, r.body.namespace_id),
        !key_listed(r.body.signature_key, r.body.signature_keys) ==> register_result(s, r) == Err::<
            RegistrationModel,
            ErrorModel,
        >(ErrorModel::InvalidSignature(r.body.signature_key)),
        key_listed(r.body.signature_key, r.body.signature_keys) && registered(
            s,
            r.body.namespace_id,
        ) ==> register_result(s, r) == Err::<RegistrationModel, ErrorModel>(
            ErrorModel::AlreadyExists(r.body.namespace_id),
        ),
        register_result(s, r) is Ok ==> register_result(s, r) == Ok::<
            RegistrationModel,
            ErrorModel,
        >(r) && register_state(s, r) == s.push(r),
        register_result(s, r) is Err ==> register_state(s, r) == s,
{
}

/// Registering a well-signed registration a second time fails: its
/// namespace already exists.
pub proof fn lemma_register_twice(s: Seq<RegistrationModel>, r: RegistrationModel)
    requires
        key_listed(r.body.signature_key, r.body.signature_keys),
    ensures
        register_result(register_state(s, r), r) == Err::<RegistrationModel, ErrorModel>(
            ErrorModel::AlreadyExists(r.body.namespace_id),
        ),
{
    let t = register_state(s, r);
    if !registered(s, r.body.namespace_id) {
        assert(t[s.len() as int] == r);
    }
    assert(registered(t, r.body.namespace_id));
}

/// An update of a namespace that was never registered fails as not found,
/// and changes nothing.
pub proof fn lemma_update_unregistered(s: Seq<RegistrationModel>, u: UpdateModel)
    requires
        !registered(s, u.body.namespace_id),
    ensures
        update_result(s, u) == Err::<RegistrationModel, ErrorModel>(
            ErrorModel::NotFound(u.body.namespace_id),
        ),
        update_state(s, u) == s,
{
}

/// An update whose signer is not among the stored registration's
/// authorized keys fails with an authorization mismatch naming the key,
/// and changes nothing.
pub proof fn lemma_update_unauthorized(s: Seq<RegistrationModel>, u: UpdateModel)
    requires
        registered(s, u.body.namespace_id),
        !key_listed(u.body.signature_key, s[position_of(s, u.body.namespace_id)].body.signature_keys),
    ensures
        update_result(s, u) == Err::<RegistrationModel, ErrorModel>(
            ErrorModel::AuthorizationMismatch(u.body.signature_key),
        ),
        update_state(s, u) == s,
{
}

/// An accepted update that sets only the active flag changes only that
/// flag and the signing key: the reserve URL, price, authorized keys and
/// text keep their stored values, in the result and in the store.
pub proof fn lemma_partial_update_preserves(s: Seq<RegistrationModel>, u: UpdateModel)
    requires
        u.body.reserve_url is None,
        u.body.reserve_price is None,
        u.body.signature_keys is None,
        u.body.text is None,
        u.body.active is Some,
        update_result(s, u) is Ok,
    ensures
        ({
            let stored = s[position_of(s, u.body.namespace_id)].body;
            let merged = update_result(s, u)->Ok_0.body;
            &&& merged.namespace_id == stored.namespace_id
            &&& merged.reserve_url == stored.reserve_url
            &&& merged.reserve_price == stored.reserve_price
            &&& merged.signature_keys == stored.signature_keys
            &&& merged.text == stored.text
            &&& merged.active == u.body.active->Some_0
            &&& update_state(s, u)[position_of(s, u.body.namespace_id)].body == merged
        }),
{
    let stored = s[position_of(s, u.body.namespace_id)];
    assert(update_result(s, u) == Ok::<RegistrationModel, ErrorModel>(
        RegistrationModel { body: merged_body(stored.body, u.body), signature: u.signature },
    ));
}

/// Registering well-signed registrations of distinct namespaces, one after
/// another, into an empty registry stores exactly them, in that order.
pub proof fn lemma_register_all_round_trip(rs: Seq<RegistrationModel>)
    requires
        forall|i: int|
            0 <= i < rs.len() ==> key_listed(
                #[trigger] rs[i].body.signature_key,
                rs[i].body.signature_keys,
            ),
        unique_namespaces(rs),
    ensures
        register_all(Seq::empty(), rs) == rs,
    decreases rs.len(),
{
    if rs.len() > 0 {
        let front = rs.drop_last();
        let r = rs.last();
        assert forall|i: int| 0 <= i < front.len() implies key_listed(
            #[trigger] front[i].body.signature_key,
            front[i].body.signature_keys,
        ) by {
            assert(front[i] == rs[i]);
        }
        assert(unique_namespaces(front)) by {
            assert forall|i: int, j: int|
                0 <= i < front.len() && 0 <= j < front.len() && i != j implies front[i].body.namespace_id
                != front[j].body.namespace_id by {
                assert(front[i] == rs[i]);
                assert(front[j] == rs[j]);
            }
        }
        lemma_register_all_round_trip(front);
        assert(key_listed(rs[rs.len() - 1].body.signature_key, rs[rs.len() - 1].body.signature_keys));
        assert(!registered(front, r.body.namespace_id)) by {
            if registered(front, r.body.namespace_id) {
                let i = choose|i: int|
                    0 <= i < front.len() && front[i].body.namespace_id == r.body.namespace_id;
                assert(front[i] == rs[i]);
                assert(rs[rs.len() - 1] == r);
            }
        }
        assert(front.push(r) =~= rs);
    }
}

} // verus!
