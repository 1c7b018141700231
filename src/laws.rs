//! Properties of evaluation that hold for every flag and identifier.

use vstd::prelude::*;
use vstd::set_lib::{lemma_int_range, set_int_range};
use crate::bucket::utf8;
use crate::flag::{evaluation, FlagView};
use crate::gate::gate_spec;
use crate::order::{bytes_lt, lemma_lt_irreflexive, lemma_lt_total, lemma_lt_transitive};
use crate::variant::{covers, names_distinct, pick, pick_from, total_weight, weight_below, Entry};

verus! {

/// Evaluation is a function of the flag and the identifier: equal inputs give
/// equal results, whenever and however often it is done.
pub proof fn lemma_evaluation_deterministic(
    f1: FlagView,
    id1: Option<Seq<char>>,
    f2: FlagView,
    id2: Option<Seq<char>>,
)
    requires
        f1 == f2,
        id1 == id2,
    ensures
        evaluation(f1, id1) == evaluation(f2, id2),
{
}

/// A disabled flag never matches and carries no variant, whatever its rollout,
/// variants or the identifier.
pub proof fn lemma_disabled_never_matches(f: FlagView, id: Option<Seq<char>>)
    requires
        !f.enabled,
    ensures
        evaluation(f, id) == (false, Option::<Seq<char>>::None),
{
}

/// Raising the rollout never shuts out a caller who was let through: for a fixed key
/// and identifier the answer turns from no to yes at most once as the rollout grows.
pub proof fn lemma_gate_monotonic(key: Seq<char>, id: Option<Seq<char>>, p: u8, q: u8)
    requires
        p <= q,
        gate_spec(Some(p), key, id),
    ensures
        gate_spec(Some(q), key, id),
{
}

/// A rollout of 0 lets no one through; a rollout of 100 lets every identified
/// caller through.
pub proof fn lemma_gate_boundaries(key: Seq<char>, id: Option<Seq<char>>, i: Seq<char>)
    ensures
        !gate_spec(Some(0u8), key, id),
        gate_spec(Some(100u8), key, Some(i)),
{
}

/// Without an identifier a flag with a rollout never matches.
pub proof fn lemma_anonymous_gated_out(f: FlagView)
    requires
        f.rollout is Some,
    ensures
        !evaluation(f, None).0,
{
}

/// An enabled flag whose gate passes and whose variant weights sum to zero matches
/// with no variant.
pub proof fn lemma_zero_weights_match_without_variant(f: FlagView, id: Option<Seq<char>>, vs: Seq<Entry>)
    requires
        f.enabled,
        gate_spec(f.rollout, f.key, id),
        f.variants == Some(vs),
        total_weight(vs) == 0,
    ensures
        evaluation(f, id) == (true, Option::<Seq<char>>::None),
{
}

/// The stretch of entry `i` lies wholly below that of any entry whose name orders after it.
proof fn lemma_below_grows(vs: Seq<Entry>, i: int, b: Seq<char>, k: int)
    requires
        0 <= i < vs.len(),
        0 <= k <= vs.len(),
        bytes_lt(utf8(vs[i].0), utf8(b)),
    ensures
        weight_below(vs.subrange(0, k), b) >= weight_below(vs.subrange(0, k), vs[i].0) + if i < k {
            vs[i].1 as nat
        } else {
            0
        },
    decreases k,
{
    if k > 0 {
        let s = vs.subrange(0, k);
        assert(s.drop_last() =~= vs.subrange(0, k - 1));
        lemma_below_grows(vs, i, b, k - 1);
        let e = utf8(vs[k - 1].0);
        let a = utf8(vs[i].0);
        if bytes_lt(e, a) {
            lemma_lt_transitive(e, a, utf8(b), 0);
        }
        if k - 1 == i {
            lemma_lt_irreflexive(a, 0);
        }
    }
}

/// Names that differ have different encodings, so one orders before the other.
proof fn lemma_names_ordered(a: Seq<char>, b: Seq<char>)
    requires
        a != b,
    ensures
        bytes_lt(utf8(a), utf8(b)) || bytes_lt(utf8(b), utf8(a)),
{
    vstd::utf8::encode_utf8_decode_utf8(a);
    vstd::utf8::encode_utf8_decode_utf8(b);
    assert(utf8(a).subrange(0, 0) =~= utf8(b).subrange(0, 0));
    lemma_lt_total(utf8(a), utf8(b), 0);
}

/// With distinct names no two variants' stretches overlap, so at most one variant
/// can hold any selection value, and the pick does not hang on the order in which
/// the variants are listed.
pub proof fn lemma_stretches_disjoint(vs: Seq<Entry>, n: nat, i: int, j: int)
    requires
        names_distinct(vs),
        0 <= i < vs.len(),
        0 <= j < vs.len(),
        covers(vs, i, n),
        covers(vs, j, n),
    ensures
        i == j,
{
    if i != j {
        lemma_names_ordered(vs[i].0, vs[j].0);
        assert(vs.subrange(0, vs.len() as int) =~= vs);
        if bytes_lt(utf8(vs[i].0), utf8(vs[j].0)) {
            lemma_below_grows(vs, i, vs[j].0, vs.len() as int);
        } else {
            lemma_below_grows(vs, j, vs[i].0, vs.len() as int);
        }
    }
}

/// Removing entry `m` takes its weight out of every sum it was counted in.
proof fn lemma_remove_sums(vs: Seq<Entry>, m: int, b: Seq<char>)
    requires
        0 <= m < vs.len(),
    ensures
        total_weight(vs) == total_weight(vs.remove(m)) + vs[m].1 as nat,
        weight_below(vs, b) == weight_below(vs.remove(m), b) + if bytes_lt(utf8(vs[m].0), utf8(b)) {
            vs[m].1 as nat
        } else {
            0
        },
    decreases vs.len(),
{
    if m == vs.len() - 1 {
        assert(vs.remove(m) =~= vs.drop_last());
    } else {
        assert(vs.remove(m).drop_last() =~= vs.drop_last().remove(m));
        assert(vs.remove(m).last() == vs.last());
        lemma_remove_sums(vs.drop_last(), m, b);
    }
}

/// A non-empty list with distinct names has an entry whose name orders after all others.
proof fn lemma_largest_name(vs: Seq<Entry>) -> (m: int)
    requires
        names_distinct(vs),
        vs.len() > 0,
    ensures
        0 <= m < vs.len(),
        forall|j: int| 0 <= j < vs.len() && j != m ==> bytes_lt(utf8(#[trigger] vs[j].0), utf8(vs[m].0)),
    decreases vs.len(),
{
    let l = vs.len() - 1;
    if l == 0 {
        0
    } else {
        let p = vs.drop_last();
        assert(names_distinct(p));
        let k = lemma_largest_name(p);
        assert(vs[l].0 != vs[k].0);
        lemma_names_ordered(vs[l].0, vs[k].0);
        if bytes_lt(utf8(vs[k].0), utf8(vs[l].0)) {
            assert forall|j: int| 0 <= j < vs.len() && j != l implies bytes_lt(utf8(#[trigger] vs[j].0), utf8(vs[l].0)) by {
                if j != k {
                    assert(p[j] == vs[j]);
                    lemma_lt_transitive(utf8(vs[j].0), utf8(vs[k].0), utf8(vs[l].0), 0);
                }
            }
            l
        } else {
            assert forall|j: int| 0 <= j < vs.len() && j != k implies bytes_lt(utf8(#[trigger] vs[j].0), utf8(vs[k].0)) by {
                if j != l {
                    assert(p[j] == vs[j]);
                }
            }
            k
        }
    }
}

/// With distinct names every value below the total weight lies in some entry's stretch.
proof fn lemma_some_stretch_covers(vs: Seq<Entry>, n: nat) -> (i: int)
    requires
        names_distinct(vs),
        n < total_weight(vs),
    ensures
        0 <= i < vs.len(),
        covers(vs, i, n),
    decreases vs.len(),
{
    if vs.len() == 0 {
        assert(false);
        0
    } else {
        let m = lemma_largest_name(vs);
        let r = vs.remove(m);
        lemma_remove_sums(vs, m, vs[m].0);
        lemma_lt_irreflexive(utf8(vs[m].0), 0);
        assert forall|j: int| 0 <= j < r.len() implies #[trigger] r[j] == vs[if j < m { j } else { j + 1 }] by {}
        lemma_below_all(r, vs[m].0);
        if n >= total_weight(r) {
            m
        } else {
            assert(names_distinct(r)) by {
                assert forall|a: int, b: int| 0 <= a < r.len() && 0 <= b < r.len() && a != b implies r[a].0 != r[b].0 by {
                    let a1 = if a < m { a } else { a + 1 };
                    let b1 = if b < m { b } else { b + 1 };
                    assert(r[a] == vs[a1] && r[b] == vs[b1]);
                }
            }
            let k = lemma_some_stretch_covers(r, n);
            let k1 = if k < m { k } else { k + 1 };
            assert(r[k] == vs[k1]);
            lemma_remove_sums(vs, m, r[k].0);
            assert(!bytes_lt(utf8(vs[m].0), utf8(vs[k1].0))) by {
                if bytes_lt(utf8(vs[m].0), utf8(vs[k1].0)) {
                    lemma_lt_transitive(utf8(vs[m].0), utf8(vs[k1].0), utf8(vs[m].0), 0);
                }
            }
            k1
        }
    }
}

/// When every entry's name orders before `b`, all weight lies below `b`.
proof fn lemma_below_all(vs: Seq<Entry>, b: Seq<char>)
    requires
        forall|j: int| 0 <= j < vs.len() ==> bytes_lt(utf8(#[trigger] vs[j].0), utf8(b)),
    ensures
        weight_below(vs, b) == total_weight(vs),
    decreases vs.len(),
{
    if vs.len() > 0 {
        let p = vs.drop_last();
        assert forall|j: int| 0 <= j < p.len() implies bytes_lt(utf8(#[trigger] p[j].0), utf8(b)) by {
            assert(p[j] == vs[j]);
        }
        lemma_below_all(p, b);
    }
}

/// The scan from `k` finds entry `i` when `i` is the only stretch holding `n`.
proof fn lemma_scan_finds(vs: Seq<Entry>, n: nat, i: int, k: int)
    requires
        names_distinct(vs),
        0 <= k <= i < vs.len(),
        covers(vs, i, n),
    ensures
        pick_from(vs, n, k) == Some(vs[i].0),
    decreases i - k,
{
    if k < i {
        if covers(vs, k, n) {
            lemma_stretches_disjoint(vs, n, k, i);
        }
        lemma_scan_finds(vs, n, i, k + 1);
    }
}

/// With distinct names and some positive weight, every selection value picks a
/// variant: the one whose stretch holds the value modulo the total weight, which
/// is the first in name order whose running weight exceeds that remainder.
pub proof fn lemma_pick_finds_variant(vs: Seq<Entry>, value: nat)
    requires
        names_distinct(vs),
        total_weight(vs) > 0,
    ensures
        pick(vs, value) is Some,
        exists|i: int|
            0 <= i < vs.len() && covers(vs, i, value % total_weight(vs)) && pick(vs, value) == Some(
                #[trigger] vs[i].0,
            ),
{
    let n = value % total_weight(vs);
    let i = lemma_some_stretch_covers(vs, n);
    lemma_scan_finds(vs, n, i, 0);
}

/// The weight below any name is at most the total weight.
proof fn lemma_below_at_most_total(vs: Seq<Entry>, b: Seq<char>)
    ensures
        weight_below(vs, b) <= total_weight(vs),
    decreases vs.len(),
{
    if vs.len() > 0 {
        lemma_below_at_most_total(vs.drop_last(), b);
    }
}

/// The selection values below the total weight that pick entry `i`.
pub open spec fn values_picking(vs: Seq<Entry>, i: int) -> Set<int> {
    Set::new(|n: int| 0 <= n < total_weight(vs) && pick(vs, n as nat) == Some(vs[i].0))
}

/// With distinct names and some positive weight, the selection values from 0 up to
/// the total weight that pick a variant form one run whose length is that variant's
/// weight: over a full cycle each variant is picked in proportion to its weight.
pub proof fn lemma_pick_shares_follow_weights(vs: Seq<Entry>, i: int)
    requires
        names_distinct(vs),
        total_weight(vs) > 0,
        0 <= i < vs.len(),
    ensures
        values_picking(vs, i) == set_int_range(
            weight_below(vs, vs[i].0) as int,
            weight_below(vs, vs[i].0) + vs[i].1,
        ),
        values_picking(vs, i).finite(),
        values_picking(vs, i).len() == vs[i].1,
{
    let t = total_weight(vs);
    let lo = weight_below(vs, vs[i].0) as int;
    let hi = lo + vs[i].1;
    let r = vs.remove(i);
    lemma_remove_sums(vs, i, vs[i].0);
    lemma_lt_irreflexive(utf8(vs[i].0), 0);
    lemma_below_at_most_total(r, vs[i].0);
    assert(hi <= t);
    assert forall|n: int| #[trigger] values_picking(vs, i).contains(n) <==> set_int_range(lo, hi).contains(n) by {
        if 0 <= n < t {
            let m = n as nat;
            assert(m % t == m) by (nonlinear_arith)
                requires
                    m < t,
            ;
            lemma_pick_finds_variant(vs, m);
            let j = choose|j: int|
                0 <= j < vs.len() && covers(vs, j, m % t) && pick(vs, m) == Some(#[trigger] vs[j].0);
            if covers(vs, i, m) {
                lemma_stretches_disjoint(vs, m, i, j);
            }
            if pick(vs, m) == Some(vs[i].0) {
                assert(vs[j].0 == vs[i].0);
            }
        }
    }
    assert(values_picking(vs, i) =~= set_int_range(lo, hi));
    lemma_int_range(lo, hi);
}

} // verus!
