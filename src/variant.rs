//! Weighted choice of a variant name.
//!
//! Variants are ordered by name (byte-lexicographically) and their weights laid
//! end to end in that order; a selection value `n < total` picks the variant
//! whose stretch `[below, below + weight)` holds `n`, where `below` is the total
//! weight of the names ordering before it. This is the variant that a walk in
//! name order reaches first with a running sum strictly above `n`.

use vstd::prelude::*;
use crate::bucket::{bucket, hk, id_of, le_u32, bucket_digest, u32_from_le, utf8, VARIANT_TAG};
use crate::order::{bytes_less, bytes_lt};

verus! {

/// A variant entry as name and weight.
pub type Entry = (Seq<char>, u32);

/// The entries of a variant list, names as character sequences.
pub open spec fn entries_of(vs: Seq<(String, u32)>) -> Seq<Entry> {
    Seq::new(vs.len(), |i: int| (vs[i].0@, vs[i].1))
}

/// A chosen name, as a character sequence.
pub open spec fn name_of(o: Option<String>) -> Option<Seq<char>> {
    match o {
        Some(s) => Some(s@),
        None => None,
    }
}

/// No name occurs twice.
pub open spec fn names_distinct(vs: Seq<Entry>) -> bool {
    forall|i: int, j: int| 0 <= i < vs.len() && 0 <= j < vs.len() && i != j ==> vs[i].0 != vs[j].0
}

/// Total weight of the entries whose names order strictly before `name`.
pub open spec fn weight_below(vs: Seq<Entry>, name: Seq<char>) -> nat
    decreases vs.len(),
{
    if vs.len() == 0 {
        0
    } else {
        weight_below(vs.drop_last(), name) + if bytes_lt(utf8(vs.last().0), utf8(name)) {
            vs.last().1 as nat
        } else {
            0
        }
    }
}

/// Sum of all weights.
pub open spec fn total_weight(vs: Seq<Entry>) -> nat
    decreases vs.len(),
{
    if vs.len() == 0 {
        0
    } else {
        total_weight(vs.drop_last()) + vs.last().1 as nat
    }
}

/// Entry `i`'s stretch of the weight line holds `n`.
pub open spec fn covers(vs: Seq<Entry>, i: int, n: nat) -> bool {
    let lo = weight_below(vs, vs[i].0);
    lo <= n && n < lo + vs[i].1
}

/// The name of the first entry from `i` on whose stretch holds `n`.
pub open spec fn pick_from(vs: Seq<Entry>, n: nat, i: int) -> Option<Seq<char>>
    decreases vs.len() - i,
{
    if i < 0 || i >= vs.len() {
        None
    } else if covers(vs, i, n) {
        Some(vs[i].0)
    } else {
        pick_from(vs, n, i + 1)
    }
}

/// The variant that selection value `value` picks: none when all weights are zero,
/// else the one whose stretch holds `value` modulo the total weight.
pub open spec fn pick(vs: Seq<Entry>, value: nat) -> Option<Seq<char>> {
    let total = total_weight(vs);
    if total == 0 {
        None
    } else {
        pick_from(vs, value % total, 0)
    }
}

/// The selection value for a key and an optional identifier: the first four bytes
/// of the variant digest, little-endian; zero without an identifier.
pub open spec fn selection_value(key: Seq<char>, id: Option<Seq<char>>) -> nat {
    match id {
        Some(i) => le_u32(bucket_digest(VARIANT_TAG, utf8(key), utf8(i))),
        None => 0,
    }
}

/// The variant chosen for a key and an optional identifier.
pub open spec fn select_spec(vs: Seq<Entry>, key: Seq<char>, id: Option<Seq<char>>) -> Option<Seq<char>> {
    pick(vs, selection_value(key, id))
}

proof fn lemma_sum_step(acc: u128, w: u32, k: int)
    requires
        0 <= k < 0x1_0000_0000_0000_0000,
        acc <= k * 0xffff_ffff,
    ensures
        acc + w <= (k + 1) * 0xffff_ffff,
        (k + 1) * 0xffff_ffff < 0x1_0000_0000_0000_0000_0000_0000,
{
    assert((k + 1) * 0xffff_ffff == k * 0xffff_ffff + 0xffff_ffff) by (nonlinear_arith);
    assert((k + 1) * 0xffff_ffff <= 0x1_0000_0000_0000_0000 * 0xffff_ffff) by (nonlinear_arith)
        requires
            k + 1 <= 0x1_0000_0000_0000_0000,
    ;
}

/// Total weight of the variants whose names order strictly before `name`.
fn weight_below_of(variants: &Vec<(String, u32)>, name: &String) -> (r: u128)
    ensures
        r as nat == weight_below(entries_of(variants@), name@),
{
    let ghost es = entries_of(variants@);
    let nb = name.as_str().as_bytes();
    let mut acc: u128 = 0;
    let mut k: usize = 0;
    while k < variants.len()
        invariant
            k <= variants@.len(),
            es == entries_of(variants@),
            nb@ == utf8(name@),
            acc as nat == weight_below(es.subrange(0, k as int), name@),
            acc <= k * 0xffff_ffff,
        decreases variants@.len() - k,
    {
        let w = variants[k].1;
        let below = bytes_less(variants[k].0.as_str().as_bytes(), nb);
        proof {
            lemma_sum_step(acc, w, k as int);
            assert(es.subrange(0, k + 1).drop_last() =~= es.subrange(0, k as int));
        }
        if below {
            acc = acc + w as u128;
        }
        k = k + 1;
    }
    proof {
        assert(es.subrange(0, k as int) =~= es);
    }
    acc
}

/// Sum of all weights.
fn total_weight_of(variants: &Vec<(String, u32)>) -> (r: u128)
    ensures
        r as nat == total_weight(entries_of(variants@)),
{
    let ghost es = entries_of(variants@);
    let mut acc: u128 = 0;
    let mut k: usize = 0;
    while k < variants.len()
        invariant
            k <= variants@.len(),
            es == entries_of(variants@),
            acc as nat == total_weight(es.subrange(0, k as int)),
            acc <= k * 0xffff_ffff,
        decreases variants@.len() - k,
    {
        let w = variants[k].1;
        proof {
            lemma_sum_step(acc, w, k as int);
            assert(es.subrange(0, k + 1).drop_last() =~= es.subrange(0, k as int));
        }
        acc = acc + w as u128;
        k = k + 1;
    }
    proof {
        assert(es.subrange(0, k as int) =~= es);
    }
    acc
}

/// Picks the variant for selection value `value`: none when the weights sum to
/// zero, else the variant whose stretch of the name-ordered weight line holds
/// `value` modulo the total weight.
pub fn pick_variant(variants: &Vec<(String, u32)>, value: u32) -> (r: Option<String>)
    ensures
        name_of(r) == pick(entries_of(variants@), value as nat),
{
    let ghost es = entries_of(variants@);
    let total = total_weight_of(variants);
    if total == 0 {
        return None;
    }
    let n = value as u128 % total;
    let mut i: usize = 0;
    while i < variants.len()
        invariant
            i <= variants@.len(),
            es == entries_of(variants@),
            total > 0,
            total as nat == total_weight(es),
            n as nat == value as nat % total_weight(es),
            pick_from(es, n as nat, 0) == pick_from(es, n as nat, i as int),
        decreases variants@.len() - i,
    {
        let lo = weight_below_of(variants, &variants[i].0);
        let w = variants[i].1;
        if lo <= n && n - lo < w as u128 {
            return Some(variants[i].0.clone());
        }
        i = i + 1;
    }
    None
}

/// Chooses a variant for `key` and an optional identifier: the selection value is
/// read from the digest of `key || '/' || identifier`, or is zero without one.
pub fn select(variants: &Vec<(String, u32)>, key: &str, user_id: Option<&str>) -> (r: Option<String>)
    ensures
        name_of(r) == select_spec(
            entries_of(variants@),
            key@,
            id_of(user_id),
        ),
{
    let value: u32 = match user_id {
        None => 0,
        Some(uid) => {
            let digest = bucket(VARIANT_TAG, key, uid);
            u32_from_le(hk(digest.as_slice()))
        },
    };
    pick_variant(variants, value)
}

} // verus!
