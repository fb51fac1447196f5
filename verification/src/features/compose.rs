//! Feature resolution and code composition.
//!
//! [`resolve_features`] computes the dependency closure of a requested
//! feature set, checks purpose compatibility and conflicts, and returns the
//! canonical rank-sorted composition order. Its contract pins the result
//! down to the unique rank-sorted enumeration of the dependency closure, so
//! resolution is a function of the requested set alone: any permutation of
//! the same request resolves identically, and resolving a resolved sequence
//! again returns it unchanged.

use vstd::prelude::*;
use vstd::set_lib::lemma_len_subset;

use crate::error::KaidoError;
use crate::features::synth::{build_tests, find_deadline_field, spec_build_cases, spec_build_helpers, spec_find_deadline};
use crate::features::types::{df_views, ra_views, slice_has_feature, DatumField, RedeemerAction};
use crate::features::{
    contains_feature, continuity_preamble_text, feature_spec, param_views, spec_all_features,
    spec_conflicts_with, spec_continuity_preamble, spec_depends_on, spec_imports, spec_name,
    spec_order, spec_per_action_code, spec_preamble_code, spec_purpose_restriction,
    spec_timelock_action, spec_validator_params, timelock_action_text, Feature,
};
use crate::text::{
    find_pair, insert_sorted, join_strs, lemma_sorted_of_eq, sorted_of, spec_find_pair,
    spec_import_trimmed_items, spec_join, spec_split, spec_trim, split_char, str_eq,
    strictly_sorted, trim_str, views,
};

verus! {

/// Whether `s` is closed under feature dependencies.
pub open spec fn set_deps_closed(s: Set<Feature>) -> bool {
    forall|f: Feature, d: Feature|
        #![trigger s.contains(f), spec_depends_on(f).contains(d)]
        s.contains(f) && spec_depends_on(f).contains(d) ==> s.contains(d)
}

/// Whether `f` belongs to the dependency closure of the requested features:
/// every dependency-closed superset of the request holds it.
pub open spec fn in_closure(req: Seq<Feature>, f: Feature) -> bool {
    forall|s: Set<Feature>|
        (set_deps_closed(s) && (forall|g: Feature| req.contains(g) ==> s.contains(g)))
            ==> #[trigger] s.contains(f)
}

/// The dependency closure of the requested features: the least
/// dependency-closed superset of the request.
pub open spec fn spec_closure(req: Seq<Feature>) -> Set<Feature> {
    Set::new(|f: Feature| in_closure(req, f))
}

/// Whether `f` may not serve the requested purpose.
pub open spec fn purpose_violates(f: Feature, purpose: Seq<char>) -> bool {
    match spec_purpose_restriction(f) {
        Some(p) => p != purpose,
        None => false,
    }
}

/// The first member of `q` that is in `c` and violates the purpose.
pub open spec fn first_violator_in(q: Seq<Feature>, c: Set<Feature>, purpose: Seq<char>) -> Option<
    Feature,
>
    decreases q.len(),
{
    if q.len() == 0 {
        None
    } else if c.contains(q[0]) && purpose_violates(q[0], purpose) {
        Some(q[0])
    } else {
        first_violator_in(q.drop_first(), c, purpose)
    }
}

/// The first member of `q` that `c` also holds.
pub open spec fn first_present_in(q: Seq<Feature>, c: Set<Feature>) -> Option<Feature>
    decreases q.len(),
{
    if q.len() == 0 {
        None
    } else if c.contains(q[0]) {
        Some(q[0])
    } else {
        first_present_in(q.drop_first(), c)
    }
}

/// The first member of `q` that is in `c` and has a declared conflict in
/// `c`, paired with the first such conflict from its conflict list.
pub open spec fn first_conflict_in(q: Seq<Feature>, c: Set<Feature>) -> Option<(Feature, Feature)>
    decreases q.len(),
{
    if q.len() == 0 {
        None
    } else if c.contains(q[0]) && first_present_in(spec_conflicts_with(q[0]), c) is Some {
        Some((q[0], first_present_in(spec_conflicts_with(q[0]), c).unwrap()))
    } else {
        first_conflict_in(q.drop_first(), c)
    }
}

/// The message for a feature that cannot serve the requested purpose.
pub open spec fn spec_purpose_msg(f: Feature, got: Seq<char>) -> Seq<char> {
    "Feature '"@ + spec_name(f) + "' requires purpose '"@ + spec_purpose_restriction(f).unwrap()
        + "', but got '"@ + got + "'"@
}

/// The message for two mutually exclusive features.
pub open spec fn spec_conflict_msg(f: Feature, g: Feature) -> Seq<char> {
    "Feature '"@ + spec_name(f) + "' conflicts with '"@ + spec_name(g) + "'"@
}

/// What a successful resolution returns: the unique sequence that holds
/// exactly the dependency closure of the request, strictly ascending in
/// composition rank, with no purpose violation and no conflict inside.
pub open spec fn is_resolved(req: Seq<Feature>, purpose: Seq<char>, r: Seq<Feature>) -> bool {
    &&& forall|g: Feature| req.contains(g) ==> r.contains(g)
    &&& set_deps_closed(r.to_set())
    &&& forall|f: Feature| r.contains(f) ==> in_closure(req, f)
    &&& forall|i: int, j: int| 0 <= i < j < r.len() ==> spec_order(r[i]) < spec_order(r[j])
    &&& forall|f: Feature| r.contains(f) ==> !purpose_violates(f, purpose)
    &&& forall|f: Feature, g: Feature|
        #![trigger r.contains(f), spec_conflicts_with(f).contains(g)]
        r.contains(f) && spec_conflicts_with(f).contains(g) ==> !r.contains(g)
}

/// Every feature stands in the catalog enumeration.
pub proof fn lemma_feature_in_catalog(f: Feature)
    ensures
        spec_all_features().contains(f),
{
    match f {
        Feature::SignatureAuth => assert(spec_all_features()[0] == f),
        Feature::TimeLock => assert(spec_all_features()[1] == f),
        Feature::DatumContinuity => assert(spec_all_features()[2] == f),
        Feature::ValuePreservation => assert(spec_all_features()[3] == f),
        Feature::ReferenceSafety => assert(spec_all_features()[4] == f),
        Feature::BurnVerification => assert(spec_all_features()[5] == f),
        Feature::BoundedOperations => assert(spec_all_features()[6] == f),
    }
}

/// Composition rank is injective over the catalog.
pub proof fn lemma_order_injective(a: Feature, b: Feature)
    requires
        spec_order(a) == spec_order(b),
    ensures
        a == b,
{
}

/// A sequence of distinct features holds at most the whole catalog.
pub proof fn lemma_distinct_features_bounded(q: Seq<Feature>)
    requires
        q.no_duplicates(),
    ensures
        q.len() <= 7,
{
    broadcast use vstd::seq_lib::group_seq_properties;

    q.unique_seq_to_set();
    spec_all_features().unique_seq_to_set();
    assert forall|f: Feature| q.to_set().contains(f) implies spec_all_features()
        .to_set()
        .contains(f) by {
        lemma_feature_in_catalog(f);
    }
    lemma_len_subset(q.to_set(), spec_all_features().to_set());
}


/// A requested feature is in the closure.
pub proof fn lemma_requested_in_closure(req: Seq<Feature>, f: Feature)
    requires
        req.contains(f),
    ensures
        in_closure(req, f),
{
}

/// A dependency of a closure member is in the closure.
pub proof fn lemma_closure_step(req: Seq<Feature>, f: Feature, d: Feature)
    requires
        in_closure(req, f),
        spec_depends_on(f).contains(d),
    ensures
        in_closure(req, d),
{
    assert forall|s: Set<Feature>|
        set_deps_closed(s) && (forall|g: Feature| req.contains(g) ==> s.contains(g)) implies s
        .contains(d) by {
        assert(s.contains(f));
    }
}

/// Characterization of [`first_violator_in`] when the first hit is at `i`.
proof fn lemma_first_violator_at(q: Seq<Feature>, c: Set<Feature>, purpose: Seq<char>, i: int)
    requires
        0 <= i < q.len(),
        c.contains(q[i]),
        purpose_violates(q[i], purpose),
        forall|j: int| 0 <= j < i ==> !(c.contains(#[trigger] q[j]) && purpose_violates(
            q[j],
            purpose,
        )),
    ensures
        first_violator_in(q, c, purpose) == Some(q[i]),
    decreases i,
{
    if i > 0 {
        lemma_first_violator_at(q.drop_first(), c, purpose, i - 1);
    }
}

/// Characterization of [`first_violator_in`] when nothing hits.
proof fn lemma_first_violator_none(q: Seq<Feature>, c: Set<Feature>, purpose: Seq<char>)
    requires
        forall|j: int| 0 <= j < q.len() ==> !(c.contains(#[trigger] q[j]) && purpose_violates(
            q[j],
            purpose,
        )),
    ensures
        first_violator_in(q, c, purpose) == None::<Feature>,
    decreases q.len(),
{
    if q.len() > 0 {
        lemma_first_violator_none(q.drop_first(), c, purpose);
    }
}

/// Characterization of [`first_present_in`] when the first hit is at `i`.
proof fn lemma_first_present_at(q: Seq<Feature>, c: Set<Feature>, i: int)
    requires
        0 <= i < q.len(),
        c.contains(q[i]),
        forall|j: int| 0 <= j < i ==> !c.contains(#[trigger] q[j]),
    ensures
        first_present_in(q, c) == Some(q[i]),
    decreases i,
{
    if i > 0 {
        lemma_first_present_at(q.drop_first(), c, i - 1);
    }
}

/// Characterization of [`first_present_in`] when nothing hits.
proof fn lemma_first_present_none(q: Seq<Feature>, c: Set<Feature>)
    requires
        forall|j: int| 0 <= j < q.len() ==> !c.contains(#[trigger] q[j]),
    ensures
        first_present_in(q, c) == None::<Feature>,
    decreases q.len(),
{
    if q.len() > 0 {
        lemma_first_present_none(q.drop_first(), c);
    }
}

/// Characterization of [`first_conflict_in`] when the first hit is at `i`.
proof fn lemma_first_conflict_at(q: Seq<Feature>, c: Set<Feature>, i: int)
    requires
        0 <= i < q.len(),
        c.contains(q[i]),
        first_present_in(spec_conflicts_with(q[i]), c) is Some,
        forall|j: int| 0 <= j < i ==> !(c.contains(#[trigger] q[j]) && first_present_in(
            spec_conflicts_with(q[j]),
            c,
        ) is Some),
    ensures
        first_conflict_in(q, c) == Some(
            (q[i], first_present_in(spec_conflicts_with(q[i]), c).unwrap()),
        ),
    decreases i,
{
    if i > 0 {
        lemma_first_conflict_at(q.drop_first(), c, i - 1);
    }
}

/// Characterization of [`first_conflict_in`] when nothing hits.
proof fn lemma_first_conflict_none(q: Seq<Feature>, c: Set<Feature>)
    requires
        forall|j: int| 0 <= j < q.len() ==> !(c.contains(#[trigger] q[j]) && first_present_in(
            spec_conflicts_with(q[j]),
            c,
        ) is Some),
    ensures
        first_conflict_in(q, c) == None::<(Feature, Feature)>,
    decreases q.len(),
{
    if q.len() > 0 {
        lemma_first_conflict_none(q.drop_first(), c);
    }
}

/// Resolves the requested features: grows the request into its dependency
/// closure, rejects a purpose violation or a conflict inside the closure
/// (scanning the catalog in order, purpose violations first), and returns
/// the closure sorted by composition rank. The result is a function of the
/// requested set alone.
#[verifier::rlimit(100)]
#[verifier::loop_isolation(false)]
pub fn resolve_features(selected: &[Feature], purpose: &str) -> (r: Result<
    Vec<Feature>,
    KaidoError,
>)
    ensures
        match r {
            Ok(v) => is_resolved(selected@, purpose@, v@),
            Err(e) => ({
                let c = spec_closure(selected@);
                match first_violator_in(spec_all_features(), c, purpose@) {
                    Some(f) => e matches KaidoError::PurposeMismatch(m) && m@ == spec_purpose_msg(
                        f,
                        purpose@,
                    ),
                    None => match first_conflict_in(spec_all_features(), c) {
                        Some(fg) => e matches KaidoError::FeatureConflict(m) && m@
                            == spec_conflict_msg(fg.0, fg.1),
                        None => false,
                    },
                }
            }),
        },
{
    broadcast use vstd::seq_lib::group_seq_properties;

    let mut resolved: Vec<Feature> = Vec::new();
    let mut i: usize = 0;
    while i < selected.len()
        invariant
            0 <= i <= selected@.len(),
            resolved@.no_duplicates(),
            forall|f: Feature| resolved@.contains(f) ==> selected@.contains(f),
            forall|j: int| 0 <= j < i ==> resolved@.contains(#[trigger] selected@[j]),
        decreases selected@.len() - i,
    {
        if !contains_feature(&resolved, selected[i]) {
            let ghost before = resolved@;
            resolved.push(selected[i]);
            proof {
                assert forall|p: int, q: int|
                    0 <= p < q < resolved@.len() implies resolved@[p] != resolved@[q] by {
                    if q == resolved@.len() - 1 {
                        assert(before.contains(before[p]));
                    }
                }
            }
        }
        i = i + 1;
    }
    proof {
        assert forall|f: Feature| resolved@.contains(f) implies in_closure(selected@, f) by {
            lemma_requested_in_closure(selected@, f);
        }
    }
    let mut changed = true;
    while changed
        invariant
            resolved@.no_duplicates(),
            forall|g: Feature| selected@.contains(g) ==> resolved@.contains(g),
            forall|f: Feature| resolved@.contains(f) ==> in_closure(selected@, f),
            !changed ==> set_deps_closed(resolved@.to_set()),
        decreases 8 - resolved@.len() + (if changed {
            1int
        } else {
            0int
        }),
    {
        proof {
            lemma_distinct_features_bounded(resolved@);
        }
        let ghost lenbefore = resolved@.len();
        let ghost snap = resolved@;
        let pre = resolved.len();
        changed = false;
        let mut idx: usize = 0;
        while idx < pre
            invariant
                0 <= idx <= pre,
                pre == snap.len(),
                snap.is_prefix_of(resolved@),
                resolved@.no_duplicates(),
                forall|g: Feature| selected@.contains(g) ==> resolved@.contains(g),
                forall|f: Feature| resolved@.contains(f) ==> in_closure(selected@, f),
                !changed ==> resolved@ == snap,
                changed ==> resolved@.len() > snap.len(),
                !changed ==> (forall|k: int, d: Feature|
                    #![trigger spec_depends_on(snap[k]).contains(d)]
                    0 <= k < idx && spec_depends_on(snap[k]).contains(d) ==> resolved@.contains(
                        d,
                    )),
            decreases pre - idx,
        {
            let f = resolved[idx];
            proof {
                assert(resolved@[idx as int] == snap[idx as int]);
                assert(resolved@.contains(f));
            }
            let deps = f.depends_on();
            let mut dj: usize = 0;
            while dj < deps.len()
                invariant
                    0 <= dj <= deps@.len(),
                    deps@ == spec_depends_on(f),
                    f == snap[idx as int],
                    idx < pre,
                    pre == snap.len(),
                    snap.is_prefix_of(resolved@),
                    resolved@.no_duplicates(),
                    forall|g: Feature| selected@.contains(g) ==> resolved@.contains(g),
                    forall|ff: Feature| resolved@.contains(ff) ==> in_closure(selected@, ff),
                    !changed ==> resolved@ == snap,
                    changed ==> resolved@.len() > snap.len(),
                    !changed ==> (forall|k: int, d: Feature|
                        #![trigger spec_depends_on(snap[k]).contains(d)]
                        0 <= k < idx && spec_depends_on(snap[k]).contains(d)
                            ==> resolved@.contains(d)),
                    !changed ==> (forall|e: int|
                        0 <= e < dj ==> resolved@.contains(#[trigger] deps@[e])),
                decreases deps@.len() - dj,
            {
                let d = deps[dj];
                if !contains_feature(&resolved, d) {
                    proof {
                        assert(resolved@.contains(f));
                        lemma_closure_step(selected@, f, d);
                    }
                    let ghost before = resolved@;
                    resolved.push(d);
                    proof {
                        assert forall|p: int, q: int|
                            0 <= p < q < resolved@.len() implies resolved@[p] != resolved@[q] by {
                            if q == resolved@.len() - 1 {
                                assert(before.contains(before[p]));
                            }
                        }
                    }
                    changed = true;
                }
                dj = dj + 1;
            }
            idx = idx + 1;
        }
        proof {
            lemma_distinct_features_bounded(resolved@);
            if !changed {
                assert forall|f: Feature, d: Feature|
                    resolved@.to_set().contains(f) && spec_depends_on(f).contains(
                        d,
                    ) implies resolved@.to_set().contains(d) by {
                    let k = choose|k: int| 0 <= k < resolved@.len() && resolved@[k] == f;
                    assert(snap[k] == f);
                    assert(spec_depends_on(snap[k]).contains(d));
                }
            }
        }
    }
    let ghost cset = resolved@.to_set();
    proof {
        assert(cset =~= spec_closure(selected@)) by {
            assert forall|f: Feature| cset.contains(f) implies spec_closure(selected@).contains(
                f,
            ) by {
                assert(resolved@.contains(f));
            }
            assert forall|f: Feature| spec_closure(selected@).contains(f) implies cset.contains(
                f,
            ) by {
                assert(in_closure(selected@, f));
            }
        }
    }
    let all = Feature::all();
    let mut k: usize = 0;
    while k < all.len()
        invariant
            all@ == spec_all_features(),
            0 <= k <= all@.len(),
            cset == resolved@.to_set(),
            forall|j: int| 0 <= j < k ==> !(cset.contains(#[trigger] all@[j]) && purpose_violates(
                all@[j],
                purpose@,
            )),
        decreases all@.len() - k,
    {
        let f = all[k];
        if contains_feature(&resolved, f) {
            match f.purpose_restriction() {
                Some(p) => {
                    if !str_eq(p, purpose) {
                        proof {
                            lemma_first_violator_at(
                                spec_all_features(),
                                spec_closure(selected@),
                                purpose@,
                                k as int,
                            );
                        }
                        let mut msg = String::from_str("Feature '");
                        msg.append(f.name());
                        msg.append("' requires purpose '");
                        msg.append(p);
                        msg.append("', but got '");
                        msg.append(purpose);
                        msg.append("'");
                        return Err(KaidoError::PurposeMismatch(msg));
                    }
                },
                None => {},
            }
        }
        k = k + 1;
    }
    proof {
        lemma_first_violator_none(spec_all_features(), spec_closure(selected@), purpose@);
    }
    let mut k2: usize = 0;
    while k2 < all.len()
        invariant
            all@ == spec_all_features(),
            0 <= k2 <= all@.len(),
            cset == resolved@.to_set(),
            forall|j: int| 0 <= j < k2 ==> !(cset.contains(#[trigger] all@[j])
                && first_present_in(spec_conflicts_with(all@[j]), cset) is Some),
        decreases all@.len() - k2,
    {
        let f = all[k2];
        if contains_feature(&resolved, f) {
            let fspec = feature_spec(f);
            let confs = fspec.conflicts_with;
            let mut cj: usize = 0;
            while cj < confs.len()
                invariant
                    confs@ == spec_conflicts_with(f),
                    0 <= cj <= confs@.len(),
                    cset == resolved@.to_set(),
                    f == all@[k2 as int],
                    k2 < all@.len(),
                    cset.contains(f),
                    forall|e: int| 0 <= e < cj ==> !cset.contains(#[trigger] confs@[e]),
                decreases confs@.len() - cj,
            {
                let g = confs[cj];
                if contains_feature(&resolved, g) {
                    proof {
                        lemma_first_present_at(spec_conflicts_with(f), cset, cj as int);
                        lemma_first_conflict_at(spec_all_features(), cset, k2 as int);
                    }
                    let mut msg = String::from_str("Feature '");
                    msg.append(f.name());
                    msg.append("' conflicts with '");
                    msg.append(g.name());
                    msg.append("'");
                    return Err(KaidoError::FeatureConflict(msg));
                }
                cj = cj + 1;
            }
            proof {
                lemma_first_present_none(spec_conflicts_with(f), cset);
            }
        }
        k2 = k2 + 1;
    }
    proof {
        lemma_first_conflict_none(spec_all_features(), cset);
    }
    let mut out: Vec<Feature> = Vec::new();
    let rn = resolved.len();
    let mut si: usize = 0;
    while si < rn
        invariant
            rn == resolved@.len(),
            0 <= si <= rn,
            out@.no_duplicates(),
            forall|p: int, q: int|
                0 <= p < q < out@.len() ==> spec_order(out@[p]) < spec_order(out@[q]),
            forall|f: Feature|
                #[trigger] out@.contains(f) <==> resolved@.take(si as int).contains(f),
        decreases rn - si,
    {
        let f = resolved[si];
        let ford = f.order();
        let mut pos: usize = 0;
        while pos < out.len() && out[pos].order() < ford
            invariant
                0 <= pos <= out@.len(),
                forall|j: int| 0 <= j < pos ==> spec_order(out@[j]) < spec_order(f),
            decreases out@.len() - pos,
        {
            pos = pos + 1;
        }
        proof {
            assert(!out@.contains(f)) by {
                if out@.contains(f) {
                    assert(resolved@.take(si as int).contains(f));
                    let j = choose|j: int|
                        0 <= j < si && resolved@.take(si as int)[j] == f;
                    assert(resolved@[j] == resolved@[si as int]);
                }
            }
        }
        let ghost oldout = out@;
        out.insert(pos, f);
        proof {
            assert(out@ =~= oldout.take(pos as int) + seq![f] + oldout.skip(pos as int));
            assert forall|p: int, q: int|
                0 <= p < q < out@.len() implies spec_order(out@[p]) < spec_order(out@[q]) by {
                if q < pos {
                } else if q == pos {
                    assert(out@[p] == oldout[p]);
                } else if p < pos {
                    assert(out@[p] == oldout[p] && out@[q] == oldout[q - 1]);
                } else if p == pos {
                    assert(out@[q] == oldout[q - 1]);
                    if pos < oldout.len() {
                        assert(spec_order(oldout[pos as int]) >= spec_order(f));
                        if spec_order(oldout[pos as int]) == spec_order(f) {
                            lemma_order_injective(oldout[pos as int], f);
                            assert(oldout.contains(oldout[pos as int]));
                        }
                        assert(spec_order(oldout[pos as int]) > spec_order(f));
                    }
                } else {
                    assert(out@[p] == oldout[p - 1] && out@[q] == oldout[q - 1]);
                }
            }
            assert(out@.no_duplicates()) by {
                assert forall|p: int, q: int|
                    0 <= p < q < out@.len() implies out@[p] != out@[q] by {
                    assert(spec_order(out@[p]) < spec_order(out@[q]));
                }
            }
            assert forall|g: Feature|
                #[trigger] out@.contains(g) <==> resolved@.take(si + 1).contains(g) by {
                if out@.contains(g) {
                    let j = choose|j: int| 0 <= j < out@.len() && out@[j] == g;
                    if j == pos {
                        assert(resolved@.take(si + 1)[si as int] == f);
                    } else if j < pos {
                        assert(oldout[j] == g);
                        assert(oldout.contains(g));
                        assert(resolved@.take(si as int).contains(g));
                        let e = choose|e: int|
                            0 <= e < si && resolved@.take(si as int)[e] == g;
                        assert(resolved@.take(si + 1)[e] == g);
                    } else {
                        assert(oldout[j - 1] == g);
                        assert(oldout.contains(g));
                        assert(resolved@.take(si as int).contains(g));
                        let e = choose|e: int|
                            0 <= e < si && resolved@.take(si as int)[e] == g;
                        assert(resolved@.take(si + 1)[e] == g);
                    }
                }
                if resolved@.take(si + 1).contains(g) {
                    let e = choose|e: int|
                        0 <= e < si + 1 && #[trigger] resolved@.take(si + 1)[e] == g;
                    if e < si {
                        assert(resolved@.take(si as int)[e] == g);
                        assert(oldout.contains(g));
                        let j = choose|j: int| 0 <= j < oldout.len() && oldout[j] == g;
                        if j < pos {
                            assert(out@[j] == g);
                        } else {
                            assert(out@[j + 1] == g);
                        }
                    } else {
                        assert(g == f);
                        assert(out@[pos as int] == f);
                    }
                }
            }
        }
        si = si + 1;
    }
    proof {
        assert(resolved@.take(rn as int) =~= resolved@);
        assert forall|g: Feature| selected@.contains(g) implies out@.contains(g) by {
            assert(resolved@.contains(g));
        }
        assert(out@.to_set() =~= resolved@.to_set());
        assert forall|f: Feature| out@.contains(f) implies !purpose_violates(f, purpose@) by {
            lemma_feature_in_catalog(f);
            let j = choose|j: int|
                0 <= j < spec_all_features().len() && spec_all_features()[j] == f;
            assert(cset.contains(f));
        }
        assert forall|f: Feature, g: Feature|
            #![trigger out@.contains(f), spec_conflicts_with(f).contains(g)]
            out@.contains(f) && spec_conflicts_with(f).contains(g) implies !out@.contains(g) by {
            lemma_feature_in_catalog(f);
            let j = choose|j: int|
                0 <= j < spec_all_features().len() && spec_all_features()[j] == f;
            assert(cset.contains(f));
            assert(first_present_in(spec_conflicts_with(f), cset) is None);
            if out@.contains(g) {
                assert(cset.contains(g));
                let e = choose|e: int|
                    0 <= e < spec_conflicts_with(f).len() && spec_conflicts_with(f)[e] == g;
                lemma_first_present_props(spec_conflicts_with(f), cset);
            }
        }
    }
    Ok(out)
}

/// A `None` from [`first_present_in`] means no member of `q` is in `c`.
proof fn lemma_first_present_props(q: Seq<Feature>, c: Set<Feature>)
    requires
        first_present_in(q, c) is None,
    ensures
        forall|j: int| 0 <= j < q.len() ==> !c.contains(#[trigger] q[j]),
    decreases q.len(),
{
    if q.len() > 0 {
        lemma_first_present_props(q.drop_first(), c);
        assert forall|j: int| 0 <= j < q.len() implies !c.contains(q[j]) by {
            if j > 0 {
                assert(q.drop_first()[j - 1] == q[j]);
            }
        }
    }
}


/// Every dependency of a member of a resolved sequence is itself a
/// member: the resolved set is closed under the dependency relation.
pub proof fn lemma_resolved_closure_complete(
    req: Seq<Feature>,
    purpose: Seq<char>,
    r: Seq<Feature>,
    f: Feature,
    d: Feature,
)
    requires
        is_resolved(req, purpose, r),
        r.contains(f),
        spec_depends_on(f).contains(d),
    ensures
        r.contains(d),
{
    assert(r.to_set().contains(f));
    assert(r.to_set().contains(d));
}

/// Two strictly rank-sorted sequences with the same members are equal.
pub proof fn lemma_rank_sorted_unique(q1: Seq<Feature>, q2: Seq<Feature>)
    requires
        forall|i: int, j: int| 0 <= i < j < q1.len() ==> spec_order(q1[i]) < spec_order(q1[j]),
        forall|i: int, j: int| 0 <= i < j < q2.len() ==> spec_order(q2[i]) < spec_order(q2[j]),
        forall|f: Feature| q1.contains(f) <==> q2.contains(f),
    ensures
        q1 == q2,
    decreases q1.len(),
{
    if q1.len() == 0 {
        if q2.len() > 0 {
            assert(q2.contains(q2[0]));
        }
        assert(q1 =~= q2);
    } else {
        assert(q1.contains(q1[0]));
        assert(q2.contains(q1[0]));
        let k = choose|k: int| 0 <= k < q2.len() && q2[k] == q1[0];
        assert(q2.contains(q2[0]));
        assert(q1.contains(q2[0]));
        let m = choose|m: int| 0 <= m < q1.len() && q1[m] == q2[0];
        if k > 0 {
            assert(spec_order(q2[0]) < spec_order(q2[k]));
            if m > 0 {
                assert(spec_order(q1[0]) < spec_order(q1[m]));
            }
        }
        assert(q1[0] == q2[0]);
        let t1 = q1.drop_first();
        let t2 = q2.drop_first();
        assert forall|f: Feature| t1.contains(f) implies t2.contains(f) by {
            let i = choose|i: int| 0 <= i < t1.len() && t1[i] == f;
            assert(q1[i + 1] == f);
            assert(spec_order(q1[0]) < spec_order(f));
            assert(q1.contains(f));
            assert(q2.contains(f));
            let j = choose|j: int| 0 <= j < q2.len() && q2[j] == f;
            assert(j != 0);
            assert(t2[j - 1] == f);
        }
        assert forall|f: Feature| t2.contains(f) implies t1.contains(f) by {
            let i = choose|i: int| 0 <= i < t2.len() && t2[i] == f;
            assert(q2[i + 1] == f);
            assert(spec_order(q2[0]) < spec_order(f));
            assert(q2.contains(f));
            assert(q1.contains(f));
            let j = choose|j: int| 0 <= j < q1.len() && q1[j] == f;
            assert(j != 0);
            assert(t1[j - 1] == f);
        }
        lemma_rank_sorted_unique(t1, t2);
        assert forall|k2: int| 0 <= k2 < q1.len() implies q1[k2] == q2[k2] by {
            if k2 > 0 {
                assert(t1[k2 - 1] == t2[k2 - 1]);
            }
        }
        assert(q1 =~= q2);
    }
}

/// Closure membership depends only on which features are requested, not on
/// their order or multiplicity.
pub proof fn lemma_closure_of_members(req1: Seq<Feature>, req2: Seq<Feature>)
    requires
        forall|f: Feature| req1.contains(f) <==> req2.contains(f),
    ensures
        spec_closure(req1) == spec_closure(req2),
        forall|f: Feature| in_closure(req1, f) <==> in_closure(req2, f),
{
    assert forall|f: Feature| in_closure(req1, f) <==> in_closure(req2, f) by {
        if in_closure(req1, f) {
            assert forall|s: Set<Feature>|
                set_deps_closed(s) && (forall|g: Feature|
                    req2.contains(g) ==> s.contains(g)) implies s.contains(f) by {
                assert(forall|g: Feature| req1.contains(g) ==> s.contains(g));
            }
        }
        if in_closure(req2, f) {
            assert forall|s: Set<Feature>|
                set_deps_closed(s) && (forall|g: Feature|
                    req1.contains(g) ==> s.contains(g)) implies s.contains(f) by {
                assert(forall|g: Feature| req2.contains(g) ==> s.contains(g));
            }
        }
    }
    assert(spec_closure(req1) =~= spec_closure(req2));
}

/// A resolved sequence holds exactly the dependency closure of its request.
pub proof fn lemma_resolved_is_closure(req: Seq<Feature>, purpose: Seq<char>, r: Seq<Feature>)
    requires
        is_resolved(req, purpose, r),
    ensures
        r.to_set() == spec_closure(req),
{
    assert forall|f: Feature| spec_closure(req).contains(f) implies r.to_set().contains(f) by {
        assert(in_closure(req, f));
        assert(set_deps_closed(r.to_set()));
        assert(forall|g: Feature| req.contains(g) ==> r.to_set().contains(g));
    }
    assert forall|f: Feature| r.to_set().contains(f) implies spec_closure(req).contains(f) by {
        assert(r.contains(f));
    }
    assert(r.to_set() =~= spec_closure(req));
}

/// Resolving any two requests with the same members — any permutation of
/// the same set — yields the same sequence, in the same order.
pub proof fn lemma_resolution_deterministic(
    req1: Seq<Feature>,
    req2: Seq<Feature>,
    purpose: Seq<char>,
    r1: Seq<Feature>,
    r2: Seq<Feature>,
)
    requires
        forall|f: Feature| req1.contains(f) <==> req2.contains(f),
        is_resolved(req1, purpose, r1),
        is_resolved(req2, purpose, r2),
    ensures
        r1 == r2,
{
    lemma_closure_of_members(req1, req2);
    lemma_resolved_is_closure(req1, purpose, r1);
    lemma_resolved_is_closure(req2, purpose, r2);
    assert forall|f: Feature| r1.contains(f) <==> r2.contains(f) by {
        assert(r1.contains(f) <==> r1.to_set().contains(f));
        assert(r2.contains(f) <==> r2.to_set().contains(f));
    }
    lemma_rank_sorted_unique(r1, r2);
}

/// A resolved sequence is a fixed point: it is a valid resolution of
/// itself, so resolving an already-resolved, already-ordered sequence
/// returns the same sequence in the same order.
pub proof fn lemma_resolution_idempotent(req: Seq<Feature>, purpose: Seq<char>, r: Seq<Feature>)
    requires
        is_resolved(req, purpose, r),
    ensures
        is_resolved(r, purpose, r),
{
    assert forall|f: Feature| r.contains(f) implies in_closure(r, f) by {
        lemma_requested_in_closure(r, f);
    }
}

/// Whether resolution fails, and with which category and message, depends
/// only on the requested members — so if resolving one ordering of a set
/// fails with a conflict, every ordering of that set fails with the same
/// conflict, and likewise for a purpose violation.
pub proof fn lemma_error_determined(req1: Seq<Feature>, req2: Seq<Feature>, purpose: Seq<char>)
    requires
        forall|f: Feature| req1.contains(f) <==> req2.contains(f),
    ensures
        first_violator_in(spec_all_features(), spec_closure(req1), purpose) == first_violator_in(
            spec_all_features(),
            spec_closure(req2),
            purpose,
        ),
        first_conflict_in(spec_all_features(), spec_closure(req1)) == first_conflict_in(
            spec_all_features(),
            spec_closure(req2),
        ),
{
    lemma_closure_of_members(req1, req2);
}


/// The module path of an import line: what stands before the first `.{`,
/// or the whole line if the line is not of the grouped `module.{...}` form.
pub open spec fn spec_import_module(l: Seq<char>) -> Seq<char> {
    match spec_find_pair(l, '.', '{') {
        Some(p) => if l.len() >= p + 3 {
            l.take(p)
        } else {
            l
        },
        None => l,
    }
}

/// The named items of a grouped import line `module.{a, b}`: the text
/// between `.{` and the final character, split at commas, each piece
/// trimmed. `None` for a plain import line.
pub open spec fn spec_import_items(l: Seq<char>) -> Option<Seq<Seq<char>>> {
    match spec_find_pair(l, '.', '{') {
        Some(p) => if l.len() >= p + 3 {
            Some(spec_import_trimmed_items(l, p))
        } else {
            None
        },
        None => None,
    }
}

/// Whether an import line is plain, contributing itself to the output.
pub open spec fn is_plain_import(l: Seq<char>) -> bool {
    spec_import_items(l) is None
}

/// The modules that grouped lines of `ls` import from.
pub open spec fn spec_module_set(ls: Set<Seq<char>>) -> Set<Seq<char>> {
    Set::new(
        |m: Seq<char>|
            exists|l: Seq<char>|
                #[trigger] ls.contains(l) && !is_plain_import(l) && spec_import_module(l) == m,
    )
}

/// Every item that some grouped line of `ls` imports from module `m`.
pub open spec fn spec_item_set(ls: Set<Seq<char>>, m: Seq<char>) -> Set<Seq<char>> {
    Set::new(
        |it: Seq<char>|
            exists|l: Seq<char>|
                #[trigger] ls.contains(l) && !is_plain_import(l) && spec_import_module(l) == m
                    && spec_import_items(l).unwrap().contains(it),
    )
}

/// The merged line for module `m`: its items deduplicated, sorted and
/// rejoined.
pub open spec fn spec_group_line(ls: Set<Seq<char>>, m: Seq<char>) -> Seq<char> {
    m + ".{"@ + spec_join(sorted_of(spec_item_set(ls, m)), ", "@) + "}"@
}

/// The merged output lines of `ls`: its plain lines, together with one
/// merged line per module.
pub open spec fn spec_merged_line_set(ls: Set<Seq<char>>) -> Set<Seq<char>> {
    Set::new(
        |o: Seq<char>|
            (ls.contains(o) && is_plain_import(o)) || (exists|m: Seq<char>|
                #[trigger] spec_module_set(ls).contains(m) && o == spec_group_line(ls, m)),
    )
}

/// The canonical merge of a set of import lines: the merged output lines,
/// deduplicated and sorted. A function of the set alone, so the merge does
/// not depend on the order in which the lines were collected.
pub open spec fn spec_merge_imports(ls: Set<Seq<char>>) -> Seq<Seq<char>> {
    sorted_of(spec_merged_line_set(ls))
}

/// Splits an import line into its module path and, for a grouped line, its
/// trimmed item names.
pub fn parse_import_line(l: &str) -> (r: (String, Option<Vec<String>>))
    ensures
        r.0@ == spec_import_module(l@),
        match r.1 {
            Some(v) => spec_import_items(l@) == Some(views(v@)),
            None => spec_import_items(l@) is None,
        },
{
    let n = l.unicode_len();
    match find_pair(l, '.', '{') {
        Some(p) => {
            proof {
                crate::text::lemma_find_pair_props(l@, '.', '{');
            }
            if n - p >= 3 {
                let module = l.substring_char(0, p).to_owned();
                proof {
                    assert(l@.subrange(0, p as int) =~= l@.take(p as int));
                }
                let inner = l.substring_char(p + 2, n - 1);
                let raw = split_char(inner, ',');
                let ghost rawviews = spec_split(l@.subrange(p + 2, l@.len() - 1), ',');
                let mut its: Vec<String> = Vec::new();
                let rn = raw.len();
                let mut j: usize = 0;
                proof {
                    assert(views(its@) =~= rawviews.map_values(
                        |t: Seq<char>| spec_trim(t),
                    ).take(0));
                }
                while j < rn
                    invariant
                        rn == raw@.len(),
                        0 <= j <= rn,
                        views(raw@) == rawviews,
                        views(its@) =~= rawviews.map_values(|t: Seq<char>| spec_trim(t)).take(
                            j as int,
                        ),
                    decreases rn - j,
                {
                    let piece = trim_str(raw[j].as_str()).to_owned();
                    proof {
                        let mapped = rawviews.map_values(|t: Seq<char>| spec_trim(t));
                        assert(views(its@.push(piece)) =~= views(its@).push(piece@));
                        assert(mapped.take(j + 1) =~= mapped.take(j as int).push(
                            mapped[j as int],
                        ));
                    }
                    its.push(piece);
                    j = j + 1;
                }
                proof {
                    let mapped = rawviews.map_values(|t: Seq<char>| spec_trim(t));
                    assert(mapped.take(rn as int) =~= mapped);
                }
                (module, Some(its))
            } else {
                (l.to_owned(), None)
            }
        },
        None => (l.to_owned(), None),
    }
}


/// The plain lines of `ls`.
pub open spec fn spec_plain_set(ls: Set<Seq<char>>) -> Set<Seq<char>> {
    Set::new(|o: Seq<char>| ls.contains(o) && is_plain_import(o))
}

/// The line views of the first `i` strings.
pub open spec fn prefix_lines(v: Seq<String>, i: int) -> Set<Seq<char>> {
    views(v.take(i)).to_set()
}

/// Taking one more string inserts its view into the prefix line set.
proof fn lemma_prefix_lines_step(v: Seq<String>, i: int)
    requires
        0 <= i < v.len(),
    ensures
        prefix_lines(v, i + 1) == prefix_lines(v, i).insert(v[i]@),
{
    assert(views(v.take(i + 1)) =~= views(v.take(i)).push(v[i]@));
    assert forall|o: Seq<char>|
        prefix_lines(v, i + 1).contains(o) implies prefix_lines(v, i).insert(v[i]@).contains(
        o,
    ) by {
        let q = views(v.take(i)).push(v[i]@);
        let e = choose|e: int| 0 <= e < q.len() && q[e] == o;
        if e < i {
            assert(views(v.take(i))[e] == o);
        }
    }
    assert forall|o: Seq<char>|
        prefix_lines(v, i).insert(v[i]@).contains(o) implies prefix_lines(v, i + 1).contains(
        o,
    ) by {
        let q = views(v.take(i)).push(v[i]@);
        if o == v[i]@ {
            assert(q[q.len() - 1] == o);
        } else {
            let e = choose|e: int| 0 <= e < views(v.take(i)).len() && views(v.take(i))[e] == o;
            assert(q[e] == o);
        }
    }
    assert(prefix_lines(v, i + 1) =~= prefix_lines(v, i).insert(v[i]@));
}

/// How inserting one line moves the plain, module and item sets.
proof fn lemma_sets_after_insert(s: Set<Seq<char>>, l: Seq<char>)
    ensures
        is_plain_import(l) ==> spec_plain_set(s.insert(l)) == spec_plain_set(s).insert(l),
        !is_plain_import(l) ==> spec_plain_set(s.insert(l)) == spec_plain_set(s),
        is_plain_import(l) ==> spec_module_set(s.insert(l)) == spec_module_set(s),
        !is_plain_import(l) ==> spec_module_set(s.insert(l)) == spec_module_set(s).insert(
            spec_import_module(l),
        ),
        forall|m: Seq<char>|
            is_plain_import(l) || m != spec_import_module(l) ==> #[trigger] spec_item_set(
                s.insert(l),
                m,
            ) == spec_item_set(s, m),
        !is_plain_import(l) ==> spec_item_set(s.insert(l), spec_import_module(l))
            == spec_item_set(s, spec_import_module(l)).union(
            spec_import_items(l).unwrap().to_set(),
        ),
{
    let s2 = s.insert(l);
    if is_plain_import(l) {
        assert(spec_plain_set(s2) =~= spec_plain_set(s).insert(l));
        assert forall|m: Seq<char>|
            spec_module_set(s2).contains(m) implies spec_module_set(s).contains(m) by {
            let w = choose|w: Seq<char>|
                #[trigger] s2.contains(w) && !is_plain_import(w) && spec_import_module(w) == m;
            assert(s.contains(w));
        }
        assert forall|m: Seq<char>|
            spec_module_set(s).contains(m) implies spec_module_set(s2).contains(m) by {
            let w = choose|w: Seq<char>|
                #[trigger] s.contains(w) && !is_plain_import(w) && spec_import_module(w) == m;
            assert(s2.contains(w));
        }
        assert(spec_module_set(s2) =~= spec_module_set(s));
        assert forall|m: Seq<char>| #[trigger] spec_item_set(s2, m) =~= spec_item_set(s, m) by {
            assert forall|it: Seq<char>|
                spec_item_set(s2, m).contains(it) implies spec_item_set(s, m).contains(it) by {
                let w = choose|w: Seq<char>|
                    #[trigger] s2.contains(w) && !is_plain_import(w) && spec_import_module(w)
                        == m && spec_import_items(w).unwrap().contains(it);
                assert(s.contains(w));
            }
            assert forall|it: Seq<char>|
                spec_item_set(s, m).contains(it) implies spec_item_set(s2, m).contains(it) by {
                let w = choose|w: Seq<char>|
                    #[trigger] s.contains(w) && !is_plain_import(w) && spec_import_module(w)
                        == m && spec_import_items(w).unwrap().contains(it);
                assert(s2.contains(w));
            }
        }
    } else {
        assert forall|o: Seq<char>|
            spec_plain_set(s2).contains(o) implies spec_plain_set(s).contains(o) by {}
        assert(spec_plain_set(s2) =~= spec_plain_set(s));
        assert forall|m: Seq<char>|
            spec_module_set(s2).contains(m) implies spec_module_set(s).insert(
            spec_import_module(l),
        ).contains(m) by {
            let w = choose|w: Seq<char>|
                #[trigger] s2.contains(w) && !is_plain_import(w) && spec_import_module(w) == m;
            if w != l {
                assert(s.contains(w));
            }
        }
        assert forall|m: Seq<char>|
            spec_module_set(s).insert(spec_import_module(l)).contains(m) implies spec_module_set(
            s2,
        ).contains(m) by {
            if m == spec_import_module(l) {
                assert(s2.contains(l));
            } else {
                let w = choose|w: Seq<char>|
                    #[trigger] s.contains(w) && !is_plain_import(w) && spec_import_module(w)
                        == m;
                assert(s2.contains(w));
            }
        }
        assert(spec_module_set(s2) =~= spec_module_set(s).insert(spec_import_module(l)));
        assert forall|m: Seq<char>|
            m != spec_import_module(l) implies #[trigger] spec_item_set(s2, m) =~= spec_item_set(
            s,
            m,
        ) by {
            assert forall|it: Seq<char>|
                spec_item_set(s2, m).contains(it) implies spec_item_set(s, m).contains(it) by {
                let w = choose|w: Seq<char>|
                    #[trigger] s2.contains(w) && !is_plain_import(w) && spec_import_module(w)
                        == m && spec_import_items(w).unwrap().contains(it);
                assert(w != l);
                assert(s.contains(w));
            }
            assert forall|it: Seq<char>|
                spec_item_set(s, m).contains(it) implies spec_item_set(s2, m).contains(it) by {
                let w = choose|w: Seq<char>|
                    #[trigger] s.contains(w) && !is_plain_import(w) && spec_import_module(w)
                        == m && spec_import_items(w).unwrap().contains(it);
                assert(s2.contains(w));
            }
        }
        let lm = spec_import_module(l);
        assert forall|it: Seq<char>|
            spec_item_set(s2, lm).contains(it) implies spec_item_set(s, lm).union(
            spec_import_items(l).unwrap().to_set(),
        ).contains(it) by {
            let w = choose|w: Seq<char>|
                #[trigger] s2.contains(w) && !is_plain_import(w) && spec_import_module(w) == lm
                    && spec_import_items(w).unwrap().contains(it);
            if w == l {
                let q = spec_import_items(l).unwrap();
                assert(q.to_set().contains(it));
            } else {
                assert(s.contains(w));
            }
        }
        assert forall|it: Seq<char>|
            spec_item_set(s, lm).union(spec_import_items(l).unwrap().to_set()).contains(
            it,
        ) implies spec_item_set(s2, lm).contains(it) by {
            if spec_item_set(s, lm).contains(it) {
                let w = choose|w: Seq<char>|
                    #[trigger] s.contains(w) && !is_plain_import(w) && spec_import_module(w)
                        == lm && spec_import_items(w).unwrap().contains(it);
                assert(s2.contains(w));
            } else {
                assert(spec_import_items(l).unwrap().contains(it));
                assert(s2.contains(l));
            }
        }
        assert(spec_item_set(s2, lm) =~= spec_item_set(s, lm).union(
            spec_import_items(l).unwrap().to_set(),
        ));
    }
}


/// Merges import lines: lines sharing a module path collapse into one line
/// whose items are deduplicated and sorted, plain lines pass through, and
/// the whole output is deduplicated and sorted. The output is a function of
/// the set of input lines alone, so collection order cannot show through.
#[verifier::rlimit(100)]
#[verifier::loop_isolation(false)]
pub fn merge_imports(imports: &Vec<String>) -> (r: Vec<String>)
    ensures
        strictly_sorted(views(r@)),
        views(r@) == spec_merge_imports(views(imports@).to_set()),
{
    broadcast use vstd::seq_lib::group_seq_properties;

    let mut plains: Vec<String> = Vec::new();
    let mut modules: Vec<String> = Vec::new();
    let mut items: Vec<Vec<String>> = Vec::new();
    let n = imports.len();
    let mut i: usize = 0;
    proof {
        assert(views(imports@.take(0)) =~= Seq::<Seq<char>>::empty());
        assert(prefix_lines(imports@, 0) =~= Set::<Seq<char>>::empty());
        assert(views(plains@).to_set() =~= spec_plain_set(prefix_lines(imports@, 0)));
        assert(spec_module_set(prefix_lines(imports@, 0)) =~= Set::<Seq<char>>::empty());
    }
    while i < n
        invariant
            n == imports@.len(),
            0 <= i <= n,
            modules@.len() == items@.len(),
            strictly_sorted(views(plains@)),
            views(plains@).to_set() == spec_plain_set(prefix_lines(imports@, i as int)),
            forall|a: int, b: int| 0 <= a < b < modules@.len() ==> modules@[a]@ != modules@[b]@,
            forall|k: int|
                0 <= k < modules@.len() ==> spec_module_set(
                    prefix_lines(imports@, i as int),
                ).contains(#[trigger] modules@[k]@),
            forall|m: Seq<char>|
                spec_module_set(prefix_lines(imports@, i as int)).contains(m) ==> exists|k: int|
                    0 <= k < modules@.len() && #[trigger] modules@[k]@ == m,
            forall|k: int|
                0 <= k < modules@.len() ==> strictly_sorted(views(#[trigger] items@[k]@))
                    && views(items@[k]@).to_set() == spec_item_set(
                    prefix_lines(imports@, i as int),
                    modules@[k]@,
                ),
        decreases n - i,
    {
        let ghost s_old = prefix_lines(imports@, i as int);
        let ghost lview = imports@[i as int]@;
        let ghost s_new = s_old.insert(lview);
        proof {
            lemma_prefix_lines_step(imports@, i as int);
            lemma_sets_after_insert(s_old, lview);
            assert(s_new == prefix_lines(imports@, i + 1));
        }
        let (module, its_opt) = parse_import_line(imports[i].as_str());
        match its_opt {
            None => {
                insert_sorted(&mut plains, imports[i].clone());
            },
            Some(its) => {
                let ghost mview = module@;
                let mut found: Option<usize> = None;
                let mut k: usize = 0;
                while k < modules.len()
                    invariant
                        0 <= k <= modules@.len(),
                        match found {
                            Some(e) => e < k && e < modules@.len() && modules@[e as int]@
                                == mview,
                            None => forall|e: int| 0 <= e < k ==> modules@[e]@ != mview,
                        },
                    decreases modules@.len() - k,
                {
                    if found.is_none() && str_eq(modules[k].as_str(), module.as_str()) {
                        found = Some(k);
                    }
                    k = k + 1;
                }
                let ghost oldmodules = modules@;
                let ghost olditems = items@;
                let (kidx, mut cur): (usize, Vec<String>) = match found {
                    Some(e) => {
                        let c = items.remove(e);
                        (e, c)
                    },
                    None => {
                        modules.push(module);
                        (items.len(), Vec::new())
                    },
                };
                let ghost base = views(cur@).to_set();
                proof {
                    match found {
                        Some(e) => {
                            assert(base == spec_item_set(s_old, mview));
                        },
                        None => {
                            assert(views(cur@) =~= Seq::<Seq<char>>::empty());
                            assert(base =~= Set::<Seq<char>>::empty());
                            assert(spec_item_set(s_old, mview) =~= Set::<Seq<char>>::empty())
                                by {
                                if exists|it: Seq<char>|
                                    spec_item_set(s_old, mview).contains(it) {
                                    let it = choose|it: Seq<char>|
                                        spec_item_set(s_old, mview).contains(it);
                                    assert(spec_module_set(s_old).contains(mview)) by {
                                        let w = choose|w: Seq<char>|
                                            #[trigger] s_old.contains(w) && !is_plain_import(w)
                                                && spec_import_module(w) == mview
                                                && spec_import_items(w).unwrap().contains(it);
                                        assert(s_old.contains(w));
                                    }
                                }
                            }
                            assert(base == spec_item_set(s_old, mview));
                        },
                    }
                }
                let ghost itviews = views(its@);
                let in_ = its.len();
                let mut j: usize = 0;
                proof {
                    assert(views(its@.take(0)) =~= Seq::<Seq<char>>::empty());
                    assert(prefix_lines(its@, 0) =~= Set::<Seq<char>>::empty());
                    assert(views(cur@).to_set() =~= base.union(prefix_lines(its@, 0)));
                }
                while j < in_
                    invariant
                        in_ == its@.len(),
                        0 <= j <= in_,
                        strictly_sorted(views(cur@)),
                        views(cur@).to_set() == base.union(prefix_lines(its@, j as int)),
                    decreases in_ - j,
                {
                    proof {
                        lemma_prefix_lines_step(its@, j as int);
                    }
                    let ghost before = views(cur@).to_set();
                    insert_sorted(&mut cur, its[j].clone());
                    proof {
                        assert(views(cur@).to_set() =~= base.union(
                            prefix_lines(its@, j + 1),
                        ));
                    }
                    j = j + 1;
                }
                proof {
                    assert(its@.take(in_ as int) =~= its@);
                    assert(prefix_lines(its@, in_ as int) == itviews.to_set());
                    assert(views(cur@).to_set() == spec_item_set(s_old.insert(lview), mview));
                }
                match found {
                    Some(_) => {
                        items.insert(kidx, cur);
                        proof {
                            assert(items@ =~= olditems.update(kidx as int, cur));
                            assert(modules@ == oldmodules);
                        }
                    },
                    None => {
                        items.push(cur);
                    },
                }
                proof {
                    assert forall|k2: int|
                        0 <= k2 < modules@.len() implies strictly_sorted(
                        views(#[trigger] items@[k2]@),
                    ) && views(items@[k2]@).to_set() == spec_item_set(
                        prefix_lines(imports@, i + 1),
                        modules@[k2]@,
                    ) by {
                        if k2 == kidx && found is Some {
                            assert(items@[k2]@ == cur@);
                        } else if found is None && k2 == modules@.len() - 1 {
                            assert(items@[k2]@ == cur@);
                        } else {
                            if modules@[k2]@ == mview {
                                match found {
                                    Some(e) => {
                                        assert(modules@[e as int]@ == mview);
                                        assert(e == k2);
                                    },
                                    None => {
                                        assert(forall|e: int|
                                            0 <= e < oldmodules.len() ==> (#[trigger] oldmodules[e])@
                                                != mview);
                                        assert(modules@[k2]@ != mview);
                                    },
                                }
                            }
                        }
                    }
                    assert forall|m: Seq<char>|
                        spec_module_set(s_new).contains(
                            m,
                        ) implies exists|k2: int|
                        0 <= k2 < modules@.len() && #[trigger] modules@[k2]@ == m by {
                        if m == mview {
                            match found {
                                Some(e) => {
                                    assert(modules@[e as int]@ == m);
                                },
                                None => {
                                    assert(modules@[modules@.len() - 1]@ == m);
                                },
                            }
                        } else {
                            assert(spec_module_set(s_old).contains(m));
                            let k2 = choose|k2: int|
                                0 <= k2 < oldmodules.len() && #[trigger] oldmodules[k2]@ == m;
                            assert(modules@[k2]@ == m);
                        }
                    }
                }
            },
        }
        i = i + 1;
    }
    let ghost fullset = prefix_lines(imports@, n as int);
    proof {
        assert(imports@.take(n as int) =~= imports@);
        assert(fullset == views(imports@).to_set());
    }
    let mut out = plains;
    let mn = modules.len();
    let mut k: usize = 0;
    proof {
        assert(views(out@).to_set() =~= spec_plain_set(fullset).union(
            Set::<Seq<char>>::empty(),
        ));
    }
    while k < mn
        invariant
            mn == modules@.len(),
            0 <= k <= mn,
            strictly_sorted(views(out@)),
            views(out@).to_set() == spec_plain_set(fullset).union(
                Set::new(
                    |o: Seq<char>|
                        exists|e: int|
                            0 <= e < k && o == spec_group_line(
                                fullset,
                                #[trigger] modules@[e]@,
                            ),
                ),
            ),
        decreases mn - k,
    {
        let joined = join_strs(&items[k], ", ");
        proof {
            lemma_sorted_of_eq(views(items@[k as int]@), spec_item_set(fullset, modules@[k as int]@));
        }
        let mut line = String::new();
        line.append(modules[k].as_str());
        line.append(".{");
        line.append(joined.as_str());
        line.append("}");
        proof {
            assert(line@ == spec_group_line(fullset, modules@[k as int]@));
        }
        let ghost before = views(out@).to_set();
        insert_sorted(&mut out, line);
        proof {
            assert(views(out@).to_set() =~= spec_plain_set(fullset).union(
                Set::new(
                    |o: Seq<char>|
                        exists|e: int|
                            0 <= e < k + 1 && o == spec_group_line(
                                fullset,
                                #[trigger] modules@[e]@,
                            ),
                ),
            )) by {
                let grp_old = Set::new(
                    |o: Seq<char>|
                        exists|e: int|
                            0 <= e < k && o == spec_group_line(
                                fullset,
                                #[trigger] modules@[e]@,
                            ),
                );
                let grp_new = Set::new(
                    |o: Seq<char>|
                        exists|e: int|
                            0 <= e < k + 1 && o == spec_group_line(
                                fullset,
                                #[trigger] modules@[e]@,
                            ),
                );
                assert forall|o: Seq<char>|
                    grp_new.contains(o) implies grp_old.insert(line@).contains(o) by {
                    let e = choose|e: int|
                        0 <= e < k + 1 && o == spec_group_line(
                            fullset,
                            #[trigger] modules@[e]@,
                        );
                    if e < k {
                        assert(grp_old.contains(o));
                    }
                }
                assert forall|o: Seq<char>|
                    grp_old.insert(line@).contains(o) implies grp_new.contains(o) by {
                    if o == line@ {
                        assert(o == spec_group_line(fullset, modules@[k as int]@));
                    } else {
                        let e = choose|e: int|
                            0 <= e < k && o == spec_group_line(
                                fullset,
                                #[trigger] modules@[e]@,
                            );
                    }
                }
                assert(grp_new =~= grp_old.insert(line@));
            }
        }
        k = k + 1;
    }
    proof {
        let grp = Set::new(
            |o: Seq<char>|
                exists|e: int|
                    0 <= e < mn && o == spec_group_line(fullset, #[trigger] modules@[e]@),
        );
        assert(views(out@).to_set() =~= spec_merged_line_set(fullset)) by {
            assert forall|o: Seq<char>|
                spec_plain_set(fullset).union(grp).contains(o) implies spec_merged_line_set(
                fullset,
            ).contains(o) by {
                if grp.contains(o) {
                    let e = choose|e: int|
                        0 <= e < mn && o == spec_group_line(fullset, #[trigger] modules@[e]@);
                    assert(spec_module_set(fullset).contains(modules@[e]@));
                }
            }
            assert forall|o: Seq<char>|
                spec_merged_line_set(fullset).contains(o) implies spec_plain_set(
                fullset,
            ).union(grp).contains(o) by {
                if !(fullset.contains(o) && is_plain_import(o)) {
                    let m = choose|m: Seq<char>|
                        #[trigger] spec_module_set(fullset).contains(m) && o
                            == spec_group_line(fullset, m);
                    let e = choose|e: int|
                        0 <= e < modules@.len() && #[trigger] modules@[e]@ == m;
                    assert(grp.contains(o));
                }
            }
        }
        lemma_sorted_of_eq(views(out@), spec_merged_line_set(fullset));
    }
    out
}


/// The merged import lines are a function of the set of collected lines
/// alone, so two collections holding the same lines — in any order, with
/// any repetitions — merge to byte-identical output.
pub proof fn lemma_merge_depends_on_set_only(v1: Seq<String>, v2: Seq<String>)
    requires
        views(v1).to_set() == views(v2).to_set(),
    ensures
        spec_merge_imports(views(v1).to_set()) == spec_merge_imports(views(v2).to_set()),
{
}

/// Result of composing the resolved features into a single validator.
#[derive(Debug, Clone)]
pub struct ComposedValidator {
    /// Deduplicated, sorted import lines.
    pub imports: Vec<String>,
    /// Validator parameters as `(name, type)` pairs, first declaration wins.
    pub validator_params: Vec<(String, String)>,
    /// Code before the redeemer match.
    pub preamble: String,
    /// Code inside each redeemer branch, one slot per contributing feature.
    pub action_checks: Vec<String>,
    /// Synthesized test helper constants and builders.
    pub test_helpers: String,
    /// Synthesized test cases.
    pub test_cases: Vec<String>,
}

/// The purpose-dependent base import lines.
pub open spec fn spec_base_imports(purpose: Seq<char>) -> Seq<Seq<char>> {
    if purpose == "spend"@ {
        seq!["use cardano/transaction"@, "use cardano/transaction.{OutputReference, Transaction}"@]
    } else {
        seq![
            "use cardano/transaction"@,
            "use cardano/assets"@,
            "use cardano/assets.{PolicyId}"@,
            "use cardano/transaction.{Transaction}"@,
        ]
    }
}

/// The import lines of the features themselves.
pub open spec fn spec_feature_import_lines(fs: Seq<Feature>) -> Set<Seq<char>> {
    Set::new(
        |l: Seq<char>|
            exists|i: int| 0 <= i < fs.len() && (#[trigger] spec_imports(fs[i])).contains(l),
    )
}

/// Every import line that the composition collects: the purpose-dependent
/// base lines and each feature's lines.
pub open spec fn spec_all_import_lines(fs: Seq<Feature>, purpose: Seq<char>) -> Set<Seq<char>> {
    spec_base_imports(purpose).to_set().union(spec_feature_import_lines(fs))
}

/// Whether some collected parameter already bears the name.
pub open spec fn param_name_in(acc: Seq<(Seq<char>, Seq<char>)>, n: Seq<char>) -> bool {
    exists|e: int| 0 <= e < acc.len() && (#[trigger] acc[e]).0 == n
}

/// Appends the parameters of one feature, skipping names already taken:
/// the first declaration wins and later identically-named parameters are
/// absorbed.
pub open spec fn add_params(
    acc: Seq<(Seq<char>, Seq<char>)>,
    ps: Seq<(Seq<char>, Seq<char>)>,
) -> Seq<(Seq<char>, Seq<char>)>
    decreases ps.len(),
{
    if ps.len() == 0 {
        acc
    } else {
        add_params(
            if param_name_in(acc, ps[0].0) {
                acc
            } else {
                acc.push(ps[0])
            },
            ps.drop_first(),
        )
    }
}

/// The validator parameters collected over the features in composition
/// order.
pub open spec fn spec_collect_params(fs: Seq<Feature>) -> Seq<(Seq<char>, Seq<char>)>
    decreases fs.len(),
{
    if fs.len() == 0 {
        Seq::<(Seq<char>, Seq<char>)>::empty()
    } else {
        add_params(spec_collect_params(fs.drop_last()), spec_validator_params(fs.last()))
    }
}

/// The resolved datum type name that the preamble placeholder takes.
pub open spec fn spec_datum_ty_name(fields: Seq<(Seq<char>, Seq<char>)>) -> Seq<char> {
    "CustomDatum"@
}

/// The concrete datum type name for the schema.
pub fn datum_type_name(fields: &[DatumField]) -> (r: String)
    ensures
        r@ == spec_datum_ty_name(df_views(fields@)),
{
    String::from_str("CustomDatum")
}

/// A feature's preamble with the datum type placeholder taken by `dt`. The
/// placeholder occurs in the continuity preamble alone.
pub open spec fn spec_preamble_subst(f: Feature, dt: Seq<char>) -> Seq<char> {
    if f == Feature::DatumContinuity {
        spec_continuity_preamble(dt)
    } else {
        spec_preamble_code(f)
    }
}

/// The non-empty preamble fragments in composition order, placeholders
/// taken.
pub open spec fn spec_preamble_parts(fs: Seq<Feature>, dt: Seq<char>) -> Seq<Seq<char>>
    decreases fs.len(),
{
    if fs.len() == 0 {
        Seq::<Seq<char>>::empty()
    } else {
        let prev = spec_preamble_parts(fs.drop_last(), dt);
        if spec_preamble_code(fs.last()).len() != 0 {
            prev.push(spec_preamble_subst(fs.last(), dt))
        } else {
            prev
        }
    }
}

/// A feature's per-action check with the deadline placeholder taken by the
/// resolved deadline field. The placeholder occurs in the time-lock check
/// alone; with no resolvable deadline field the generic name stands.
pub open spec fn spec_action_subst(f: Feature, deadline: Option<Seq<char>>) -> Seq<char> {
    if f == Feature::TimeLock {
        match deadline {
            Some(d) => spec_timelock_action(d),
            None => spec_timelock_action("deadline"@),
        }
    } else {
        spec_per_action_code(f)
    }
}

/// The non-empty per-action checks in composition order, placeholders
/// taken.
pub open spec fn spec_action_parts(fs: Seq<Feature>, deadline: Option<Seq<char>>) -> Seq<
    Seq<char>,
>
    decreases fs.len(),
{
    if fs.len() == 0 {
        Seq::<Seq<char>>::empty()
    } else {
        let prev = spec_action_parts(fs.drop_last(), deadline);
        if spec_per_action_code(fs.last()).len() != 0 {
            prev.push(spec_action_subst(fs.last(), deadline))
        } else {
            prev
        }
    }
}

/// Composes the resolved features into one validator specification: the
/// merged import lines, the first-wins parameter list, the preamble and
/// per-action fragments with their placeholders taken by the schema's
/// names, and the synthesized test helpers and cases. Composition never
/// fails; the result is a function of the resolved sequence, the purpose
/// and the schema alone.
#[verifier::rlimit(100)]
#[verifier::loop_isolation(false)]
pub fn compose(
    features: &[Feature],
    purpose: &str,
    datum_fields: &[DatumField],
    redeemer_actions: &[RedeemerAction],
    validator_name: &str,
) -> (r: Result<ComposedValidator, KaidoError>)
    ensures
        r is Ok,
        r matches Ok(cv) ==> {
            &&& views(cv.imports@) == spec_merge_imports(
                spec_all_import_lines(features@, purpose@),
            )
            &&& param_views(cv.validator_params@) == spec_collect_params(features@)
            &&& cv.preamble@ == spec_join(
                spec_preamble_parts(features@, spec_datum_ty_name(df_views(datum_fields@))),
                "\n\n"@,
            )
            &&& views(cv.action_checks@) == spec_action_parts(
                features@,
                spec_find_deadline(df_views(datum_fields@)),
            )
            &&& cv.test_helpers@ == spec_build_helpers(
                features@,
                purpose@,
                df_views(datum_fields@),
            )
            &&& views(cv.test_cases@) == spec_build_cases(
                features@,
                purpose@,
                df_views(datum_fields@),
                ra_views(redeemer_actions@),
                spec_collect_params(features@),
                validator_name@,
            )
        },
{
    let n = features.len();

    let mut lines: Vec<String> = Vec::new();
    lines.push(String::from_str("use cardano/transaction"));
    if str_eq(purpose, "spend") {
        lines.push(String::from_str("use cardano/transaction.{OutputReference, Transaction}"));
    } else {
        lines.push(String::from_str("use cardano/assets"));
        lines.push(String::from_str("use cardano/assets.{PolicyId}"));
        lines.push(String::from_str("use cardano/transaction.{Transaction}"));
    }
    proof {
        assert(views(lines@) =~~= spec_base_imports(purpose@));
        assert(spec_feature_import_lines(features@.take(0)) =~= Set::<Seq<char>>::empty());
        assert(views(lines@).to_set() =~= spec_base_imports(purpose@).to_set().union(
            spec_feature_import_lines(features@.take(0)),
        ));
    }
    let mut i: usize = 0;
    while i < n
        invariant
            n == features@.len(),
            0 <= i <= n,
            views(lines@).to_set() == spec_base_imports(purpose@).to_set().union(
                spec_feature_import_lines(features@.take(i as int)),
            ),
        decreases n - i,
    {
        let ghost f = features@[i as int];
        let sp = feature_spec(features[i]);
        let imps = sp.imports;
        let m = imps.len();
        let mut j: usize = 0;
        proof {
            assert(spec_imports(f).take(0).to_set() =~= Set::<Seq<char>>::empty());
            assert(views(lines@).to_set() =~= spec_base_imports(purpose@).to_set().union(
                spec_feature_import_lines(features@.take(i as int)),
            ).union(spec_imports(f).take(0).to_set()));
        }
        while j < m
            invariant
                m == imps@.len(),
                0 <= j <= m,
                views(imps@) == spec_imports(f),
                f == features@[i as int],
                i < n,
                views(lines@).to_set() == spec_base_imports(purpose@).to_set().union(
                    spec_feature_import_lines(features@.take(i as int)),
                ).union(spec_imports(f).take(j as int).to_set()),
            decreases m - j,
        {
            let ghost old_lines = lines@;
            let ghost before = views(lines@).to_set();
            lines.push(imps[j].clone());
            proof {
                assert(views(lines@) =~= views(old_lines).push(imps@[j as int]@));
                assert(views(lines@).to_set() =~= before.insert(spec_imports(f)[j as int]))
                    by {
                    let q = views(old_lines).push(imps@[j as int]@);
                    assert(views(lines@) == q);
                    assert forall|o: Seq<char>|
                        q.to_set().contains(o) implies before.insert(
                        spec_imports(f)[j as int],
                    ).contains(o) by {
                        let e = choose|e: int| 0 <= e < q.len() && q[e] == o;
                        if e < q.len() - 1 {
                            assert(views(old_lines)[e] == o);
                        }
                    }
                    assert forall|o: Seq<char>|
                        before.insert(spec_imports(f)[j as int]).contains(o) implies q.to_set()
                            .contains(o) by {
                        if o == spec_imports(f)[j as int] {
                            assert(q[q.len() - 1] == o);
                        } else {
                            let e = choose|e: int|
                                0 <= e < views(old_lines).len() && views(old_lines)[e] == o;
                            assert(q[e] == o);
                        }
                    }
                }
                assert(spec_imports(f).take(j + 1).to_set() =~= spec_imports(f).take(
                    j as int,
                ).to_set().insert(spec_imports(f)[j as int])) by {
                    let t1 = spec_imports(f).take(j + 1);
                    let t0 = spec_imports(f).take(j as int);
                    assert(t1 =~= t0.push(spec_imports(f)[j as int]));
                    assert forall|o: Seq<char>|
                        t1.to_set().contains(o) implies t0.to_set().insert(
                        spec_imports(f)[j as int],
                    ).contains(o) by {
                        let e = choose|e: int| 0 <= e < t1.len() && t1[e] == o;
                        if e < j {
                            assert(t0[e] == o);
                        }
                    }
                    assert forall|o: Seq<char>|
                        t0.to_set().insert(spec_imports(f)[j as int]).contains(
                            o,
                        ) implies t1.to_set().contains(o) by {
                        if o == spec_imports(f)[j as int] {
                            assert(t1[j as int] == o);
                        } else {
                            let e = choose|e: int| 0 <= e < t0.len() && t0[e] == o;
                            assert(t1[e] == o);
                        }
                    }
                }
                assert(views(lines@).to_set() =~= spec_base_imports(purpose@).to_set().union(
                    spec_feature_import_lines(features@.take(i as int)),
                ).union(spec_imports(f).take(j + 1).to_set()));
            }
            j = j + 1;
        }
        proof {
            assert(spec_imports(f).take(m as int) =~= spec_imports(f));
            assert(spec_feature_import_lines(features@.take(i + 1))
                =~= spec_feature_import_lines(features@.take(i as int)).union(
                spec_imports(f).to_set(),
            )) by {
                let a1 = spec_feature_import_lines(features@.take(i + 1));
                let a0 = spec_feature_import_lines(features@.take(i as int));
                assert forall|l: Seq<char>|
                    a1.contains(l) implies a0.union(spec_imports(f).to_set()).contains(l) by {
                    let e = choose|e: int|
                        0 <= e < features@.take(i + 1).len() && (#[trigger] spec_imports(
                            features@.take(i + 1)[e],
                        )).contains(l);
                    if e < i {
                        assert(features@.take(i as int)[e] == features@.take(i + 1)[e]);
                        assert(spec_imports(features@.take(i as int)[e]).contains(l));
                    } else {
                        assert(features@.take(i + 1)[e] == f);
                        assert(spec_imports(f).contains(l));
                    }
                }
                assert forall|l: Seq<char>|
                    a0.union(spec_imports(f).to_set()).contains(l) implies a1.contains(l) by {
                    if a0.contains(l) {
                        let e = choose|e: int|
                            0 <= e < features@.take(i as int).len() && (#[trigger] spec_imports(
                                features@.take(i as int)[e],
                            )).contains(l);
                        assert(features@.take(i + 1)[e] == features@.take(i as int)[e]);
                        assert(spec_imports(features@.take(i + 1)[e]).contains(l));
                    } else {
                        assert(features@.take(i + 1)[i as int] == f);
                        assert(spec_imports(features@.take(i + 1)[i as int]).contains(l));
                    }
                }
            }
            assert(views(lines@).to_set() =~= spec_base_imports(purpose@).to_set().union(
                spec_feature_import_lines(features@.take(i + 1)),
            ));
        }
        i = i + 1;
    }
    proof {
        assert(features@.take(n as int) =~= features@);
    }
    let imports = merge_imports(&lines);

    let mut params: Vec<(String, String)> = Vec::new();
    let mut i2: usize = 0;
    proof {
        assert(param_views(params@) =~= spec_collect_params(features@.take(0)));
    }
    while i2 < n
        invariant
            n == features@.len(),
            0 <= i2 <= n,
            param_views(params@) == spec_collect_params(features@.take(i2 as int)),
        decreases n - i2,
    {
        let ghost f = features@[i2 as int];
        let sp = feature_spec(features[i2]);
        let fps = sp.validator_params;
        let m = fps.len();
        let mut j: usize = 0;
        proof {
            assert(spec_validator_params(f).skip(0) =~= spec_validator_params(f));
        }
        while j < m
            invariant
                m == fps@.len(),
                0 <= j <= m,
                param_views(fps@) == spec_validator_params(f),
                f == features@[i2 as int],
                i2 < n,
                add_params(
                    spec_collect_params(features@.take(i2 as int)),
                    spec_validator_params(f),
                ) == add_params(param_views(params@), spec_validator_params(f).skip(j as int)),
            decreases m - j,
        {
            let ghost ps_rest = spec_validator_params(f).skip(j as int);
            proof {
                assert(ps_rest[0] == spec_validator_params(f)[j as int]);
                assert(ps_rest.drop_first() =~= spec_validator_params(f).skip(j + 1));
            }
            let name = fps[j].0.as_str();
            let mut present = false;
            let mut e: usize = 0;
            while e < params.len()
                invariant
                    0 <= e <= params@.len(),
                    name@ == param_views(fps@)[j as int].0,
                    j < m,
                    m == fps@.len(),
                    present ==> param_name_in(param_views(params@), name@),
                    !present ==> (forall|q: int|
                        0 <= q < e ==> (#[trigger] param_views(params@)[q]).0 != name@),
                decreases params@.len() - e,
            {
                if str_eq(params[e].0.as_str(), name) {
                    present = true;
                    proof {
                        assert(param_views(params@)[e as int].0 == name@);
                    }
                }
                e = e + 1;
            }
            if !present {
                let ghost before = param_views(params@);
                params.push((fps[j].0.clone(), fps[j].1.clone()));
                proof {
                    assert(param_views(params@) =~= before.push(
                        spec_validator_params(f)[j as int],
                    ));
                }
            }
            j = j + 1;
        }
        proof {
            assert(spec_validator_params(f).skip(m as int) =~= Seq::<
                (Seq<char>, Seq<char>),
            >::empty());
            assert(features@.take(i2 + 1).drop_last() =~= features@.take(i2 as int));
            assert(features@.take(i2 + 1).last() == f);
        }
        i2 = i2 + 1;
    }
    proof {
        assert(features@.take(n as int) =~= features@);
    }

    let dt = datum_type_name(datum_fields);
    let deadline_field = find_deadline_field(datum_fields);
    let ghost dlv = spec_find_deadline(df_views(datum_fields@));
    let ghost dtv = spec_datum_ty_name(df_views(datum_fields@));

    let mut pparts: Vec<String> = Vec::new();
    let mut i3: usize = 0;
    proof {
        assert(views(pparts@) =~= spec_preamble_parts(features@.take(0), dtv));
    }
    while i3 < n
        invariant
            n == features@.len(),
            0 <= i3 <= n,
            dt@ == dtv,
            views(pparts@) == spec_preamble_parts(features@.take(i3 as int), dtv),
        decreases n - i3,
    {
        let ghost f = features@[i3 as int];
        proof {
            assert(features@.take(i3 + 1).drop_last() =~= features@.take(i3 as int));
            assert(features@.take(i3 + 1).last() == f);
        }
        let sp = feature_spec(features[i3]);
        if sp.preamble_code.as_str().unicode_len() != 0 {
            let piece: String = if features[i3] == Feature::DatumContinuity {
                continuity_preamble_text(dt.as_str())
            } else {
                sp.preamble_code
            };
            proof {
                assert(piece@ == spec_preamble_subst(f, dtv));
                assert(views(pparts@.push(piece)) =~= views(pparts@).push(piece@));
            }
            pparts.push(piece);
        }
        i3 = i3 + 1;
    }
    proof {
        assert(features@.take(n as int) =~= features@);
    }
    let preamble = join_strs(&pparts, "\n\n");

    let mut aparts: Vec<String> = Vec::new();
    let mut i4: usize = 0;
    proof {
        assert(views(aparts@) =~= spec_action_parts(features@.take(0), dlv));
    }
    while i4 < n
        invariant
            n == features@.len(),
            0 <= i4 <= n,
            match deadline_field {
                Some(d) => dlv == Some(d@),
                None => dlv is None,
            },
            views(aparts@) == spec_action_parts(features@.take(i4 as int), dlv),
        decreases n - i4,
    {
        let ghost f = features@[i4 as int];
        proof {
            assert(features@.take(i4 + 1).drop_last() =~= features@.take(i4 as int));
            assert(features@.take(i4 + 1).last() == f);
        }
        let sp = feature_spec(features[i4]);
        if sp.per_action_code.as_str().unicode_len() != 0 {
            let piece: String = if features[i4] == Feature::TimeLock {
                match &deadline_field {
                    Some(d) => timelock_action_text(d.as_str()),
                    None => timelock_action_text("deadline"),
                }
            } else {
                sp.per_action_code
            };
            proof {
                assert(piece@ == spec_action_subst(f, dlv));
                assert(views(aparts@.push(piece)) =~= views(aparts@).push(piece@));
            }
            aparts.push(piece);
        }
        i4 = i4 + 1;
    }
    proof {
        assert(features@.take(n as int) =~= features@);
    }

    let (test_helpers, test_cases) = build_tests(
        features,
        purpose,
        datum_fields,
        redeemer_actions,
        params.as_slice(),
        validator_name,
    );

    Ok(
        ComposedValidator {
            imports,
            validator_params: params,
            preamble,
            action_checks: aparts,
            test_helpers,
            test_cases,
        },
    )
}

} // verus!
