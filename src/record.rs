//! The rules that flag records obey on their way in and out of storage.

use vstd::prelude::*;
use crate::flag::Flag;

verus! {

/// A rollout is acceptable when absent or a percentage.
pub open spec fn rollout_ok(rollout: Option<u8>) -> bool {
    rollout matches Some(p) ==> p <= 100
}

/// Whether a requested rollout is acceptable.
pub fn rollout_valid(rollout: Option<u8>) -> (r: bool)
    ensures
        r == rollout_ok(rollout),
{
    match rollout {
        Some(p) => p <= 100,
        None => true,
    }
}

/// A partial change to a stored flag: each field present replaces the stored one.
#[derive(Clone, Debug)]
pub struct FlagUpdate {
    pub enabled: Option<bool>,
    pub variants: Option<Vec<(String, u32)>>,
    pub rollout: Option<u8>,
}

/// Why an update was refused.
#[derive(Clone, Copy, Debug, PartialEq, Eq)]
pub enum UpdateError {
    /// The requested rollout is over 100.
    RolloutOutOfRange,
}

/// Applies `update` to `existing`: an error when the requested rollout is over 100,
/// else the stored flag with each field that the update holds replaced.
pub fn apply_update(existing: Flag, update: FlagUpdate) -> (r: Result<Flag, UpdateError>)
    ensures
        r is Err <==> !rollout_ok(update.rollout),
        r is Err ==> r == Result::<Flag, UpdateError>::Err(UpdateError::RolloutOutOfRange),
        r matches Ok(f) ==> {
            &&& f.id == existing.id
            &&& f.key == existing.key
            &&& f.updated_at == existing.updated_at
            &&& f.enabled == (match update.enabled {
                Some(e) => e,
                None => existing.enabled,
            })
            &&& f.variants == (match update.variants {
                Some(v) => Some(v),
                None => existing.variants,
            })
            &&& f.rollout == (match update.rollout {
                Some(p) => Some(p),
                None => existing.rollout,
            })
        },
{
    if !rollout_valid(update.rollout) {
        return Err(UpdateError::RolloutOutOfRange);
    }
    let enabled = match update.enabled {
        Some(e) => e,
        None => existing.enabled,
    };
    let variants = match update.variants {
        Some(v) => Some(v),
        None => existing.variants,
    };
    let rollout = match update.rollout {
        Some(p) => Some(p),
        None => existing.rollout,
    };
    Ok(Flag { id: existing.id, key: existing.key, enabled, variants, rollout, updated_at: existing.updated_at })
}

/// Builds a flag from stored columns: `enabled` is true when non-zero, and the
/// stored rollout is read as its low byte.
pub fn flag_from_row(
    id: i64,
    key: String,
    enabled: i64,
    variants: Option<Vec<(String, u32)>>,
    rollout: Option<i64>,
    updated_at: String,
) -> (r: Flag)
    ensures
        r.id == id,
        r.key == key,
        r.enabled == (enabled != 0),
        r.variants == variants,
        r.rollout == (match rollout {
            Some(x) => Some(x as u8),
            None => None,
        }),
        r.updated_at == updated_at,
{
    let rollout = match rollout {
        Some(x) => Some(x as u8),
        None => None,
    };
    Flag { id, key, enabled: enabled != 0, variants, rollout, updated_at }
}

} // verus!
