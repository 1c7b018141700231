//! The rollout gate.

use vstd::prelude::*;
use crate::bucket::{bucket, bucket_digest, id_of, utf8, GATE_TAG};

verus! {

/// The rollout bucket of a key and an identifier: the first byte of the digest
/// made with the `:` tag, modulo 100, in `[0, 99]`.
pub open spec fn gate_bucket(key: Seq<char>, id: Seq<char>) -> nat {
    bucket_digest(GATE_TAG, utf8(key), utf8(id))[0] as nat % 100
}

/// Whether a caller is let through: always without a rollout; never for a rollout
/// without an identifier; otherwise exactly when the rollout bucket lies below the rollout.
pub open spec fn gate_spec(rollout: Option<u8>, key: Seq<char>, id: Option<Seq<char>>) -> bool {
    match rollout {
        None => true,
        Some(p) => match id {
            None => false,
            Some(i) => gate_bucket(key, i) < p as nat,
        },
    }
}

/// Decides the rollout check from a digest: its first byte modulo 100 lies below `rollout`.
pub fn gate_from_digest(digest: &[u8; 32], rollout: u8) -> (r: bool)
    ensures
        r == ((digest@[0] as nat % 100) < rollout as nat),
{
    digest[0] % 100 < rollout
}

/// Decides the rollout gate for `key` and an optional identifier.
pub fn passes_gate(rollout: Option<u8>, key: &str, user_id: Option<&str>) -> (r: bool)
    ensures
        r == gate_spec(rollout, key@, id_of(user_id)),
{
    match rollout {
        None => true,
        Some(p) => match user_id {
            None => false,
            Some(uid) => {
                let digest = bucket(GATE_TAG, key, uid);
                gate_from_digest(&digest, p)
            },
        },
    }
}

} // verus!
