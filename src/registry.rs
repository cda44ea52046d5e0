use vstd::prelude::*;

use crate::error::{ErrorModel, SolverError};
use crate::types::{
    contains_key, copy_bytes, copy_keys, key_listed, BodyModel, RegistrationModel,
    RollupRegistration, RollupRegistrationBody, RollupUpdate, RollupUpdatebody, UpdateBodyModel,
    UpdateModel,
};

verus! {

/// The body that results from applying an update to a stored body: each
/// field present in the update overwrites the stored one, absent fields keep
/// their stored value, and the update's signer becomes the signing key.
pub open spec fn merged_body(stored: BodyModel, u: UpdateBodyModel) -> BodyModel {
    BodyModel {
        namespace_id: stored.namespace_id,
        reserve_url: match u.reserve_url {
            Some(v) => v,
            None => stored.reserve_url,
        },
        reserve_price: match u.reserve_price {
            Some(v) => v,
            None => stored.reserve_price,
        },
        active: match u.active {
            Some(v) => v,
            None => stored.active,
        },
        signature_keys: match u.signature_keys {
            Some(v) => v,
            None => stored.signature_keys,
        },
        signature_key: u.signature_key,
        text: match u.text {
            Some(v) => v,
            None => stored.text,
        },
    }
}

/// What a registration's own validation gives: it is accepted exactly when
/// its signing key is one of its authorized keys.
pub open spec fn validation_result(r: RegistrationModel) -> Result<(), ErrorModel> {
    if key_listed(r.body.signature_key, r.body.signature_keys) {
        Ok(())
    } else {
        Err(ErrorModel::InvalidSignature(r.body.signature_key))
    }
}

/// What applying an update to a stored registration gives: the update is
/// authorized against the stored key list, then merged.
pub open spec fn applied_update(
    stored: RegistrationModel,
    u: UpdateModel,
) -> Result<RegistrationModel, ErrorModel> {
    if key_listed(u.body.signature_key, stored.body.signature_keys) {
        Ok(RegistrationModel { body: merged_body(stored.body, u.body), signature: u.signature })
    } else {
        Err(ErrorModel::AuthorizationMismatch(u.body.signature_key))
    }
}

/// The content of a registration result.
pub open spec fn registration_result_view(r: Result<RollupRegistration, SolverError>) -> Result<
    RegistrationModel,
    ErrorModel,
> {
    match r {
        Ok(x) => Ok(x@),
        Err(e) => Err(e@),
    }
}

/// The content of a unit result.
pub open spec fn unit_result_view(r: Result<(), SolverError>) -> Result<(), ErrorModel> {
    match r {
        Ok(_) => Ok(()),
        Err(e) => Err(e@),
    }
}

/// Checks that the registration's signing key is one of its authorized keys.
/// Only membership is checked: the signature is not verified against the
/// body's commitment, as no signature scheme is available to this library.
pub fn validate_registration(registration: &RollupRegistration) -> (r: Result<(), SolverError>)
    ensures
        unit_result_view(r) == validation_result(registration@),
{
    if contains_key(&registration.body.signature_keys, &registration.body.signature_key) {
        Ok(())
    } else {
        Err(SolverError::InvalidSignature(copy_bytes(&registration.body.signature_key)))
    }
}

/// The stored body with the update's present fields written over it.
pub fn merge_update(stored: &RollupRegistrationBody, update: &RollupUpdatebody) -> (r:
    RollupRegistrationBody)
    ensures
        r@ == merged_body(stored@, update@),
{
    let reserve_url = match &update.reserve_url {
        Some(u) => u.clone(),
        None => stored.reserve_url.clone(),
    };
    let reserve_price = match update.reserve_price {
        Some(p) => p,
        None => stored.reserve_price,
    };
    let active = match update.active {
        Some(a) => a,
        None => stored.active,
    };
    let signature_keys = match &update.signature_keys {
        Some(ks) => copy_keys(ks),
        None => copy_keys(&stored.signature_keys),
    };
    let text = match &update.text {
        Some(t) => t.clone(),
        None => stored.text.clone(),
    };
    RollupRegistrationBody {
        namespace_id: stored.namespace_id,
        reserve_url,
        reserve_price,
        active,
        signature_keys,
        signature_key: copy_bytes(&update.signature_key),
        text,
    }
}

/// Authorizes an update against the stored registration's key list and, if
/// it is authorized, returns the merged registration, signed by the update.
/// Only membership is checked: the update's signature is not verified
/// against the merged body's commitment, as no signature scheme is
/// available to this library.
pub fn apply_update(stored: &RollupRegistration, update: &RollupUpdate) -> (r: Result<
    RollupRegistration,
    SolverError,
>)
    ensures
        registration_result_view(r) == applied_update(stored@, update@),
{
    if !contains_key(&stored.body.signature_keys, &update.body.signature_key) {
        return Err(SolverError::SignatureDatabaseKeysMismatch(copy_bytes(&update.body.signature_key)));
    }
    let body = merge_update(&stored.body, &update.body);
    Ok(RollupRegistration { body, signature: copy_bytes(&update.signature) })
}

} // verus!
