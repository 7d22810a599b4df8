//! The candidate selector: a pure, deterministic routing policy.
//!
//! Given the current registry snapshot, it keeps exactly the accounts
//! that are valid, have a quota snapshot, are below the primary-window
//! saturation ceiling, and still have secondary-window capacity; it
//! orders them by least remaining secondary capacity first (draining
//! near-exhausted accounts before idle ones), with ties broken by
//! account name.

use vstd::multiset::Multiset;
use vstd::prelude::*;

use crate::profile::ProfileSummary;
use crate::strutil::{
    lemma_lex_le_antisymmetric, lemma_lex_le_total, lemma_lex_le_transitive, lex_le, str_le,
};

verus! {

/// The primary window's used units, with an unreported value read as 0.
pub open spec fn spec_used_primary(p: ProfileSummary) -> int {
    match p.quota {
        Some(q) => match q.used_requests {
            Some(u) => u as int,
            None => 0,
        },
        None => 0,
    }
}

/// The secondary window's used units, with an unreported value read as 0.
pub open spec fn spec_used_secondary(p: ProfileSummary) -> int {
    match p.quota {
        Some(q) => match q.used_tokens {
            Some(u) => u as int,
            None => 0,
        },
        None => 0,
    }
}

/// The secondary window's total units, with an unreported value read as
/// the reference scale of 100.
pub open spec fn spec_total_secondary(p: ProfileSummary) -> int {
    match p.quota {
        Some(q) => match q.total_tokens {
            Some(t) => t as int,
            None => 100,
        },
        None => 100,
    }
}

/// Whether an account is eligible to serve a request right now: it must
/// be valid, have a quota snapshot (unknown state is never eligible), sit
/// at or below 95 used units on the primary window (the ceiling excludes
/// 96 and above), and have secondary capacity left.
pub open spec fn spec_eligible(p: ProfileSummary) -> bool {
    &&& p.is_valid
    &&& p.quota is Some
    &&& spec_used_primary(p) <= 95
    &&& spec_used_secondary(p) < spec_total_secondary(p)
}

/// The routing order: an account comes no later than another when it has
/// strictly higher secondary usage (less remaining capacity), or equal
/// usage and a name that is lexicographically no greater.
pub open spec fn cand_le(a: ProfileSummary, b: ProfileSummary) -> bool {
    ||| spec_used_secondary(a) > spec_used_secondary(b)
    ||| (spec_used_secondary(a) == spec_used_secondary(b) && lex_le(a.name@, b.name@))
}

/// Whether a list is in routing order.
pub open spec fn cand_sorted(s: Seq<ProfileSummary>) -> bool {
    forall|i: int, j: int| 0 <= i < j < s.len() ==> #[trigger] cand_le(s[i], s[j])
}

/// Any two accounts are comparable under the routing order.
pub proof fn lemma_cand_le_total(a: ProfileSummary, b: ProfileSummary)
    ensures
        cand_le(a, b) || cand_le(b, a),
{
    lemma_lex_le_total(a.name@, b.name@);
}

/// The routing order is transitive.
pub proof fn lemma_cand_le_trans(a: ProfileSummary, b: ProfileSummary, c: ProfileSummary)
    requires
        cand_le(a, b),
        cand_le(b, c),
    ensures
        cand_le(a, c),
{
    if spec_used_secondary(a) == spec_used_secondary(b) && spec_used_secondary(b)
        == spec_used_secondary(c) {
        lemma_lex_le_transitive(a.name@, b.name@, c.name@);
    }
}

/// Two accounts ordered both ways carry the same name: the routing order
/// is antisymmetric up to the tie-break key.
pub proof fn lemma_cand_le_antisym_names(a: ProfileSummary, b: ProfileSummary)
    requires
        cand_le(a, b),
        cand_le(b, a),
    ensures
        a.name@ == b.name@,
{
    lemma_lex_le_antisymmetric(a.name@, b.name@);
}

/// Whether an account is eligible to serve a request right now.
pub fn eligible(p: &ProfileSummary) -> (r: bool)
    ensures
        r == spec_eligible(*p),
{
    match &p.quota {
        Some(quota) => {
            let used_tokens = match quota.used_tokens {
                Some(u) => u,
                None => 0,
            };
            let total_tokens = match quota.total_tokens {
                Some(t) => t,
                None => 100,
            };
            let used_requests = match quota.used_requests {
                Some(u) => u,
                None => 0,
            };
            p.is_valid && used_requests <= 95 && used_tokens < total_tokens
        },
        None => false,
    }
}

/// Whether `a` comes no later than `b` in the routing order.
pub fn cand_before(a: &ProfileSummary, b: &ProfileSummary) -> (r: bool)
    ensures
        r == cand_le(*a, *b),
{
    let used_a = match &a.quota {
        Some(q) => match q.used_tokens {
            Some(u) => u,
            None => 0,
        },
        None => 0,
    };
    let used_b = match &b.quota {
        Some(q) => match q.used_tokens {
            Some(u) => u,
            None => 0,
        },
        None => 0,
    };
    if used_a > used_b {
        true
    } else if used_a == used_b {
        str_le(a.name.as_str(), b.name.as_str())
    } else {
        false
    }
}

/// The multiset of eligible accounts in a registry snapshot.
pub open spec fn eligible_ms(s: Seq<ProfileSummary>) -> Multiset<ProfileSummary>
    decreases s.len(),
{
    if s.len() == 0 {
        Multiset::empty()
    } else if spec_eligible(s.last()) {
        eligible_ms(s.drop_last()).insert(s.last())
    } else {
        eligible_ms(s.drop_last())
    }
}

/// The multiset of eligible accounts is the multiset of the filtered
/// snapshot.
pub proof fn lemma_eligible_ms_is_filter(s: Seq<ProfileSummary>)
    ensures
        eligible_ms(s) == s.filter(|p: ProfileSummary| spec_eligible(p)).to_multiset(),
    decreases s.len(),
{
    reveal(Seq::filter);
    broadcast use vstd::seq_lib::group_to_multiset_ensures;

    if s.len() == 0 {
        assert(s.filter(|p: ProfileSummary| spec_eligible(p)) =~= s);
        assert(s.to_multiset() =~= Multiset::empty());
    } else {
        lemma_eligible_ms_is_filter(s.drop_last());
    }
}

/// Inserts `x` into a routing-ordered list, keeping it ordered.
fn insert_candidate(v: &mut Vec<ProfileSummary>, x: ProfileSummary)
    requires
        cand_sorted(old(v)@),
    ensures
        cand_sorted(final(v)@),
        final(v)@.to_multiset() == old(v)@.to_multiset().insert(x),
        final(v)@.len() == old(v)@.len() + 1,
        forall|i: int|
            0 <= i < final(v)@.len() ==> old(v)@.contains(#[trigger] final(v)@[i]) || final(v)@[i]
                == x,
{
    let ghost orig = v@;
    let mut idx: usize = 0;
    while idx < v.len() && cand_before(&v[idx], &x)
        invariant
            idx <= v@.len(),
            v@ == orig,
            forall|j: int| 0 <= j < idx ==> cand_le(#[trigger] orig[j], x),
        decreases v@.len() - idx,
    {
        idx += 1;
    }
    proof {
        assert forall|j: int| idx <= j < orig.len() implies cand_le(x, #[trigger] orig[j]) by {
            lemma_cand_le_total(orig[idx as int], x);
            assert(!cand_le(orig[idx as int], x));
            if j > idx {
                assert(cand_le(orig[idx as int], orig[j]));
                lemma_cand_le_trans(x, orig[idx as int], orig[j]);
            }
        }
    }
    v.insert(idx, x);
    proof {
        let r = v@;
        assert(r.len() == orig.len() + 1);
        assert forall|i: int, j: int| 0 <= i < j < r.len() implies #[trigger] cand_le(
            r[i],
            r[j],
        ) by {
            if j < idx {
                assert(cand_le(orig[i], orig[j]));
            } else if i > idx {
                assert(cand_le(orig[i - 1], orig[j - 1]));
            } else if i == idx && j > idx {
                assert(cand_le(x, orig[j - 1]));
            } else if i < idx && j == idx {
                assert(cand_le(orig[i], x));
            } else if i < idx && j > idx {
                assert(cand_le(orig[i], orig[j - 1]));
            }
        }
        broadcast use vstd::seq_lib::group_to_multiset_ensures;

        assert(r.remove(idx as int) =~= orig);
        assert(r.remove(idx as int).to_multiset() =~= r.to_multiset().remove(r[idx as int]));
        assert(r[idx as int] == x);
        assert(r.to_multiset().contains(x));
        assert(r.to_multiset() =~= orig.to_multiset().insert(x)) by {
            assert(orig.to_multiset() =~= r.to_multiset().remove(x));
        }
        assert forall|i: int| 0 <= i < r.len() implies orig.contains(#[trigger] r[i]) || r[i]
            == x by {
            if i < idx {
                assert(r[i] == orig[i]);
            } else if i > idx {
                assert(r[i] == orig[i - 1]);
            }
        }
    }
}

/// Keeps exactly the eligible accounts of a registry snapshot, ordered
/// for routing: least remaining secondary capacity first, ties broken by
/// name.  An empty result is a valid outcome; an account with no quota
/// snapshot is never in the result.
pub fn select_candidates(profiles: Vec<ProfileSummary>) -> (r: Vec<ProfileSummary>)
    ensures
        cand_sorted(r@),
        r@.to_multiset() == profiles@.filter(|p: ProfileSummary| spec_eligible(p)).to_multiset(),
        forall|i: int| 0 <= i < r@.len() ==> spec_eligible(#[trigger] r@[i]),
{
    let ghost orig = profiles@;
    let mut remaining = profiles;
    let mut out: Vec<ProfileSummary> = Vec::new();
    proof {
        assert(orig.subrange(0, orig.len() as int) =~= orig);
        broadcast use vstd::seq_lib::group_to_multiset_ensures;
        broadcast use vstd::multiset::group_multiset_axioms;

        assert(out@.to_multiset().len() == 0);
        assert(out@.to_multiset().add(eligible_ms(remaining@)) =~= eligible_ms(orig));
    }
    while remaining.len() > 0
        invariant
            cand_sorted(out@),
            remaining@.len() <= orig.len(),
            remaining@ == orig.subrange(0, remaining@.len() as int),
            out@.to_multiset().add(eligible_ms(remaining@)) =~= eligible_ms(orig),
            forall|i: int| 0 <= i < out@.len() ==> spec_eligible(#[trigger] out@[i]),
        decreases remaining@.len(),
    {
        let ghost before = remaining@;
        let p = remaining.pop().unwrap();
        proof {
            assert(remaining@ =~= before.drop_last());
            assert(orig.subrange(0, before.len() as int).drop_last() =~= orig.subrange(
                0,
                before.len() - 1,
            ));
            assert(p == before.last());
        }
        if eligible(&p) {
            let ghost out_before = out@;
            proof {
                assert(eligible_ms(before) =~= eligible_ms(remaining@).insert(p));
            }
            insert_candidate(&mut out, p);
            proof {
                broadcast use vstd::multiset::group_multiset_axioms;

                assert(out@.to_multiset().add(eligible_ms(remaining@)) =~= out_before.to_multiset()
                    .insert(p).add(eligible_ms(remaining@)));
                assert(out_before.to_multiset().insert(p).add(eligible_ms(remaining@))
                    =~= out_before.to_multiset().add(eligible_ms(remaining@).insert(p)));
                assert forall|i: int| 0 <= i < out@.len() implies spec_eligible(
                    #[trigger] out@[i],
                ) by {
                    if out_before.contains(out@[i]) {
                        let k = choose|k: int| 0 <= k < out_before.len() && out_before[k] == out@[i];
                        assert(spec_eligible(out_before[k]));
                    }
                }
            }
        } else {
            proof {
                assert(eligible_ms(before) =~= eligible_ms(remaining@));
            }
        }
    }
    proof {
        assert(remaining@.len() == 0);
        assert(eligible_ms(remaining@) =~= Multiset::empty());
        broadcast use vstd::multiset::group_multiset_axioms;

        assert(out@.to_multiset() =~= eligible_ms(orig));
        lemma_eligible_ms_is_filter(orig);
    }
    out
}

/// No two accounts in the snapshot share a name: the registry keys
/// accounts by name.
pub open spec fn distinct_names(s: Seq<ProfileSummary>) -> bool {
    forall|i: int, j: int| 0 <= i < j < s.len() ==> s[i].name@ != s[j].name@
}

/// The selector is order-independent: a routing-ordered list over a
/// registry with unique account names is determined by which accounts it
/// holds, not by the order in which they were considered.  Two ordered
/// lists holding the same accounts are equal, so repeated selections
/// over permuted snapshots agree, with ties on equal usage falling back
/// to the name comparison deterministically.
pub proof fn lemma_selection_order_independent(r1: Seq<ProfileSummary>, r2: Seq<ProfileSummary>)
    requires
        cand_sorted(r1),
        cand_sorted(r2),
        r1.to_multiset() == r2.to_multiset(),
        distinct_names(r1),
    ensures
        r1 == r2,
    decreases r1.len(),
{
    broadcast use vstd::seq_lib::group_to_multiset_ensures;

    if r1.len() == 0 {
        assert(r2.to_multiset().len() == 0);
        assert(r2 =~= r1);
    } else {
        assert(r2.to_multiset().len() == r1.len());
        assert(r2.len() > 0);
        // The heads agree: each head occurs in the other list, and the
        // order pins both to the front; distinct names rule out a tie
        // between different accounts.
        assert(r1.to_multiset().contains(r1[0]));
        assert(r2.to_multiset().contains(r2[0]));
        assert(r1.contains(r2[0]));
        let k = choose|k: int| 0 <= k < r1.len() && r1[k] == r2[0];
        if k != 0 {
            assert(cand_le(r1[0], r1[k]));
        }
        assert(r2.contains(r1[0]));
        let m = choose|m: int| 0 <= m < r2.len() && r2[m] == r1[0];
        if m != 0 {
            assert(cand_le(r2[0], r2[m]));
        }
        if r1[0] != r2[0] {
            assert(k != 0);
            assert(m != 0);
            lemma_cand_le_antisym_names(r1[0], r2[0]);
            assert(r1[0].name@ == r1[k].name@);
            assert(false);
        }
        let t1 = r1.remove(0);
        let t2 = r2.remove(0);
        assert(t1.to_multiset() =~= r1.to_multiset().remove(r1[0]));
        assert(t2.to_multiset() =~= r2.to_multiset().remove(r2[0]));
        assert forall|i: int, j: int| 0 <= i < j < t1.len() implies #[trigger] cand_le(
            t1[i],
            t1[j],
        ) by {
            assert(cand_le(r1[i + 1], r1[j + 1]));
        }
        assert forall|i: int, j: int| 0 <= i < j < t2.len() implies #[trigger] cand_le(
            t2[i],
            t2[j],
        ) by {
            assert(cand_le(r2[i + 1], r2[j + 1]));
        }
        assert(distinct_names(t1)) by {
            assert forall|i: int, j: int| 0 <= i < j < t1.len() implies t1[i].name@
                != t1[j].name@ by {
                assert(r1[i + 1].name@ != r1[j + 1].name@);
            }
        }
        lemma_selection_order_independent(t1, t2);
        assert(r1 =~= seq![r1[0]] + t1);
        assert(r2 =~= seq![r2[0]] + t2);
    }
}

} // verus!
