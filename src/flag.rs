//! Flag records and their evaluation.

use vstd::prelude::*;
use crate::bucket::id_of;
use crate::gate::{gate_spec, passes_gate};
use crate::variant::{entries_of, name_of, names_distinct, select, select_spec, Entry};

verus! {

/// A stored feature flag.
#[derive(Clone, Debug)]
pub struct Flag {
    pub id: i64,
    pub key: String,
    pub enabled: bool,
    /// Variant names with their weights; a name occurs at most once.
    pub variants: Option<Vec<(String, u32)>>,
    /// Percentage of identified users let through, in `[0, 100]`; none lets everyone through.
    pub rollout: Option<u8>,
    pub updated_at: String,
}

/// What evaluation reads of a flag.
pub struct FlagView {
    pub key: Seq<char>,
    pub enabled: bool,
    pub rollout: Option<u8>,
    pub variants: Option<Seq<Entry>>,
}

impl View for Flag {
    type V = FlagView;

    open spec fn view(&self) -> FlagView {
        FlagView {
            key: self.key@,
            enabled: self.enabled,
            rollout: self.rollout,
            variants: match self.variants {
                Some(v) => Some(entries_of(v@)),
                None => None,
            },
        }
    }
}

impl FlagView {
    /// A valid record: the rollout is a percentage and no variant name repeats.
    pub open spec fn wf(&self) -> bool {
        &&& (self.rollout matches Some(p) ==> p <= 100)
        &&& (self.variants matches Some(vs) ==> names_distinct(vs))
    }
}

/// The result of evaluating a flag for one caller.
#[derive(Clone, Debug, PartialEq, Eq)]
pub struct EvalResponse {
    pub key: String,
    pub matched: bool,
    pub variant: Option<String>,
}

/// Whether a flag matches and which variant applies: no match when disabled or
/// gated out; otherwise a match, with a variant when variants are configured and
/// one is picked.
pub open spec fn evaluation(f: FlagView, id: Option<Seq<char>>) -> (bool, Option<Seq<char>>) {
    if !f.enabled || !gate_spec(f.rollout, f.key, id) {
        (false, None)
    } else {
        match f.variants {
            Some(vs) => (true, select_spec(vs, f.key, id)),
            None => (true, None),
        }
    }
}

/// Evaluates `flag` for an optional identifier.
pub fn eval_flag(flag: &Flag, user_id: Option<&str>) -> (r: EvalResponse)
    ensures
        r.key@ == flag.key@,
        (r.matched, name_of(r.variant)) == evaluation(flag@, id_of(user_id)),
{
    let gate = passes_gate(flag.rollout, flag.key.as_str(), user_id);
    if !flag.enabled || !gate {
        return EvalResponse { key: flag.key.clone(), matched: false, variant: None };
    }
    match &flag.variants {
        Some(vs) => {
            let variant = select(vs, flag.key.as_str(), user_id);
            EvalResponse { key: flag.key.clone(), matched: true, variant }
        },
        None => EvalResponse { key: flag.key.clone(), matched: true, variant: None },
    }
}

} // verus!
