//! The coordination protocol's guarantees, proved once over the verb
//! semantics.  Concurrency enters through the persistence port: every
//! conditional update is atomic and the updates on one record are
//! linearizable, so a history of contending verbs is a sequence of
//! applications of [`spec_update_all`] — these laws quantify over that
//! sequence's states.

use vstd::prelude::*;

use crate::entities::WalkRequestView;
use crate::geo::spec_distance_m;
use crate::repository::{
    lemma_count_zero, lemma_id_count_le_one, remove_str, seq_contains, spec_annotate, spec_apply,
    spec_count, spec_filter, spec_matches, spec_results, spec_unique_ids, spec_update_all,
    WalkRequestQueryView, WalkRequestUpdateView,
};
use crate::service::{
    spec_assign_query, spec_cancel_unclaimed_query, spec_cancel_update, spec_claim_query,
    spec_claim_update, spec_claimed_by_query, spec_dismiss_update, spec_finish_update,
    spec_join_query, spec_join_update, spec_nearby_query, spec_resign_update, spec_start_update,
    spec_withdraw_query, spec_withdraw_update,
};

verus! {

// ------------------------------------------------------------------
// Counting occurrences in the bid pool.
// ------------------------------------------------------------------

/// How often `x` occurs in `s`.
pub open spec fn count_str(s: Seq<Seq<char>>, x: Seq<char>) -> nat
    decreases s.len(),
{
    if s.len() == 0 {
        0
    } else {
        count_str(s.drop_last(), x) + if s.last() == x {
            1nat
        } else {
            0nat
        }
    }
}

pub proof fn lemma_count_str_contains(s: Seq<Seq<char>>, x: Seq<char>)
    ensures
        seq_contains(s, x) <==> count_str(s, x) >= 1,
    decreases s.len(),
{
    if s.len() > 0 {
        let p = s.drop_last();
        lemma_count_str_contains(p, x);
        assert(forall|i: int| 0 <= i < p.len() ==> #[trigger] p[i] == s[i]);
        if seq_contains(s, x) && s.last() != x {
            let i = choose|i: int| 0 <= i < s.len() && s[i] == x;
            assert(p[i] == x);
        }
    }
}

pub proof fn lemma_count_str_push(s: Seq<Seq<char>>, x: Seq<char>, y: Seq<char>)
    ensures
        count_str(s.push(y), x) == count_str(s, x) + if x == y {
            1nat
        } else {
            0nat
        },
{
    assert(s.push(y).drop_last() =~= s);
}

/// Removing a walker removes every one of their entries and no other's.
pub proof fn lemma_remove_str_count(s: Seq<Seq<char>>, w: Seq<char>, x: Seq<char>)
    ensures
        count_str(remove_str(s, w), x) == if x == w {
            0nat
        } else {
            count_str(s, x)
        },
    decreases s.len(),
{
    if s.len() > 0 {
        lemma_remove_str_count(s.drop_last(), w, x);
        if s.last() != w {
            lemma_count_str_push(remove_str(s.drop_last(), w), x, s.last());
        }
    }
}

// ------------------------------------------------------------------
// Single-claim invariant.
// ------------------------------------------------------------------

/// In an id-unique store, the claim predicate matches at most one record:
/// of many contending claims, the port's atomicity serializes them, and
/// at most one sees a matching record at all.
pub proof fn lemma_claim_at_most_one(s: Seq<WalkRequestView>, id: Seq<char>)
    requires
        spec_unique_ids(s),
    ensures
        spec_count(s, spec_claim_query(id)) <= 1,
{
    lemma_id_count_le_one(s, spec_claim_query(id));
}

/// Once a claim has been applied, no record matches the claim predicate
/// any more: every later claim against the same id observes zero matches
/// and fails with a precondition conflict.
pub proof fn lemma_claim_is_exclusive(
    s: Seq<WalkRequestView>,
    id: Seq<char>,
    walker: Seq<char>,
    t: i64,
)
    ensures
        spec_count(
            spec_update_all(s, spec_claim_query(id), spec_claim_update(walker, t)),
            spec_claim_query(id),
        ) == 0,
{
    let q = spec_claim_query(id);
    let u = spec_claim_update(walker, t);
    let s1 = spec_update_all(s, q, u);
    assert forall|i: int| 0 <= i < s1.len() implies !spec_matches(q, #[trigger] s1[i]) by {
        if spec_matches(q, s[i]) {
            assert(s1[i] == spec_apply(u, s[i]));
            assert(s1[i].accepted_by == Some(walker));
        } else {
            assert(s1[i] == s[i]);
        }
    }
    lemma_count_zero(s1, q);
}

// ------------------------------------------------------------------
// Idempotent join.
// ------------------------------------------------------------------

/// Joining the bid pool twice changes nothing the second time.
pub proof fn lemma_join_idempotent(r: WalkRequestView, walker: Seq<char>)
    ensures
        spec_apply(spec_join_update(walker), spec_apply(spec_join_update(walker), r))
            == spec_apply(spec_join_update(walker), r),
{
    let u = spec_join_update(walker);
    let once = spec_apply(u, r);
    if !seq_contains(r.acceptances, walker) {
        assert(once.acceptances == r.acceptances.push(walker));
        assert(once.acceptances[r.acceptances.len() as int] == walker);
        assert(seq_contains(once.acceptances, walker));
    }
    assert(spec_apply(u, once) =~= once);
}

/// After a join, a walker whose id was not duplicated before stands in
/// the bid pool exactly once.
pub proof fn lemma_join_exactly_once(r: WalkRequestView, walker: Seq<char>)
    requires
        count_str(r.acceptances, walker) <= 1,
    ensures
        count_str(spec_apply(spec_join_update(walker), r).acceptances, walker) == 1,
{
    lemma_count_str_contains(r.acceptances, walker);
    if !seq_contains(r.acceptances, walker) {
        lemma_count_str_push(r.acceptances, walker, walker);
    }
}

// ------------------------------------------------------------------
// Terminal monotonicity.
// ------------------------------------------------------------------

/// The lifecycle verbs, each with the predicate it puts to the port.
pub enum LifecycleVerb {
    Claim,
    Join,
    Withdraw,
    Assign,
    Dismiss,
    CancelUnclaimed,
    CancelClaimed,
    Resign,
    Start,
    Finish,
}

pub open spec fn spec_verb_query(
    v: LifecycleVerb,
    id: Seq<char>,
    actor: Seq<char>,
) -> WalkRequestQueryView {
    match v {
        LifecycleVerb::Claim => spec_claim_query(id),
        LifecycleVerb::Join => spec_join_query(id),
        LifecycleVerb::Withdraw => spec_withdraw_query(id, actor),
        LifecycleVerb::Assign => spec_assign_query(id, actor),
        LifecycleVerb::Dismiss => spec_claimed_by_query(id, actor),
        LifecycleVerb::CancelUnclaimed => spec_cancel_unclaimed_query(id),
        LifecycleVerb::CancelClaimed => spec_claimed_by_query(id, actor),
        LifecycleVerb::Resign => spec_claimed_by_query(id, actor),
        LifecycleVerb::Start => spec_claimed_by_query(id, actor),
        LifecycleVerb::Finish => spec_claimed_by_query(id, actor),
    }
}

/// A canceled request matches no lifecycle verb's predicate: cancellation
/// is terminal.
pub proof fn lemma_canceled_is_terminal(
    r: WalkRequestView,
    v: LifecycleVerb,
    id: Seq<char>,
    actor: Seq<char>,
)
    requires
        r.canceled_at is Some,
    ensures
        !spec_matches(spec_verb_query(v, id, actor), r),
{
}

/// Once every record under an id is canceled, every lifecycle verb
/// against that id observes zero matches, and so fails with a
/// precondition conflict.
pub proof fn lemma_canceled_store_rejects_verbs(
    s: Seq<WalkRequestView>,
    v: LifecycleVerb,
    id: Seq<char>,
    actor: Seq<char>,
)
    requires
        forall|i: int|
            0 <= i < s.len() && (#[trigger] s[i]).id == id ==> s[i].canceled_at is Some,
    ensures
        spec_count(s, spec_verb_query(v, id, actor)) == 0,
{
    assert forall|i: int|
        0 <= i < s.len() implies !spec_matches(spec_verb_query(v, id, actor), #[trigger] s[i]) by {
        if s[i].id == id {
            lemma_canceled_is_terminal(s[i], v, id, actor);
        }
    }
    lemma_count_zero(s, spec_verb_query(v, id, actor));
}

/// The mutation each lifecycle verb hands to the port, acting as `actor`
/// at instant `t`.
pub open spec fn spec_verb_update(
    v: LifecycleVerb,
    actor: Seq<char>,
    t: i64,
) -> WalkRequestUpdateView {
    match v {
        LifecycleVerb::Claim => spec_claim_update(actor, t),
        LifecycleVerb::Join => spec_join_update(actor),
        LifecycleVerb::Withdraw => spec_withdraw_update(actor),
        LifecycleVerb::Assign => spec_claim_update(actor, t),
        LifecycleVerb::Dismiss => spec_dismiss_update(),
        LifecycleVerb::CancelUnclaimed => spec_cancel_update(t),
        LifecycleVerb::CancelClaimed => spec_cancel_update(t),
        LifecycleVerb::Resign => spec_resign_update(actor),
        LifecycleVerb::Start => spec_start_update(t),
        LifecycleVerb::Finish => spec_finish_update(t),
    }
}

/// The data-model invariants of a request: the two claim fields are set
/// together, and the bid pool holds no walker twice.
pub open spec fn request_ok(r: WalkRequestView) -> bool {
    &&& (r.accepted_by is Some) <==> (r.accepted_at is Some)
    &&& forall|x: Seq<char>| #![trigger count_str(r.acceptances, x)] count_str(r.acceptances, x)
        <= 1
}

/// Every lifecycle verb's mutation preserves the data-model invariants.
pub proof fn lemma_verbs_preserve_invariants(
    v: LifecycleVerb,
    r: WalkRequestView,
    actor: Seq<char>,
    t: i64,
)
    requires
        request_ok(r),
    ensures
        request_ok(spec_apply(spec_verb_update(v, actor, t), r)),
{
    let r1 = spec_apply(spec_verb_update(v, actor, t), r);
    match v {
        LifecycleVerb::Join => {
            assert forall|x: Seq<char>| count_str(r1.acceptances, x) <= 1 by {
                lemma_count_str_contains(r.acceptances, actor);
                if !seq_contains(r.acceptances, actor) {
                    lemma_count_str_push(r.acceptances, x, actor);
                }
            }
        },
        LifecycleVerb::Withdraw => {
            assert forall|x: Seq<char>| count_str(r1.acceptances, x) <= 1 by {
                lemma_remove_str_count(r.acceptances, actor, x);
            }
        },
        LifecycleVerb::Resign => {
            assert forall|x: Seq<char>| count_str(r1.acceptances, x) <= 1 by {
                lemma_remove_str_count(r.acceptances, actor, x);
            }
        },
        _ => {
            assert(r1.acceptances == r.acceptances);
        },
    }
}

// ------------------------------------------------------------------
// Resign/dismiss symmetry.
// ------------------------------------------------------------------

/// After a claim by a walker, that walker resigning and the owner
/// dismissing them have the same effect on the claim: both fields are
/// unset, and a second resign or dismiss of the same actor no longer
/// matches.
pub proof fn lemma_resign_dismiss_symmetry(r: WalkRequestView, id: Seq<char>, walker: Seq<char>)
    requires
        r.accepted_by == Some(walker),
    ensures
        spec_apply(spec_resign_update(walker), r).accepted_by is None,
        spec_apply(spec_resign_update(walker), r).accepted_at is None,
        spec_apply(spec_dismiss_update(), r).accepted_by is None,
        spec_apply(spec_dismiss_update(), r).accepted_at is None,
        !spec_matches(spec_claimed_by_query(id, walker), spec_apply(spec_resign_update(walker), r)),
        !spec_matches(spec_claimed_by_query(id, walker), spec_apply(spec_dismiss_update(), r)),
{
}

// ------------------------------------------------------------------
// Proximity correctness.
// ------------------------------------------------------------------

proof fn lemma_results_membership(s: Seq<WalkRequestView>, q: WalkRequestQueryView)
    ensures
        forall|j: int|
            #![trigger spec_results(s, q)[j]]
            0 <= j < spec_results(s, q).len() ==> exists|i: int|
                0 <= i < s.len() && spec_matches(q, #[trigger] s[i]) && spec_results(s, q)[j]
                    == spec_annotate(q, s[i]),
        forall|i: int|
            0 <= i < s.len() && spec_matches(q, #[trigger] s[i]) ==> spec_results(s, q).contains(
                spec_annotate(q, s[i]),
            ),
    decreases s.len(),
{
    if s.len() > 0 {
        let p = s.drop_last();
        lemma_results_membership(p, q);
        assert(forall|i: int| 0 <= i < p.len() ==> #[trigger] p[i] == s[i]);
        let rp = spec_results(p, q);
        let rs = spec_results(s, q);
        if spec_matches(q, s.last()) {
            assert(spec_filter(s, q) == spec_filter(p, q).push(s.last()));
            assert(rs =~= rp.push(spec_annotate(q, s.last())));
        } else {
            assert(spec_filter(s, q) == spec_filter(p, q));
            assert(rs =~= rp);
        }
        assert forall|j: int| #![trigger rs[j]] 0 <= j < rs.len() implies exists|i: int|
            0 <= i < s.len() && spec_matches(q, #[trigger] s[i]) && rs[j] == spec_annotate(
            q,
            s[i],
        ) by {
            if j < rp.len() {
                let i = choose|i: int|
                    0 <= i < p.len() && spec_matches(q, #[trigger] p[i]) && rp[j]
                        == spec_annotate(q, p[i]);
                assert(0 <= i < s.len() && spec_matches(q, s[i]) && rs[j] == spec_annotate(
                    q,
                    s[i],
                ));
            } else {
                assert(spec_matches(q, s[s.len() - 1]) && rs[j] == spec_annotate(
                    q,
                    s[s.len() - 1],
                ));
            }
        }
        assert forall|i: int|
            0 <= i < s.len() && spec_matches(q, #[trigger] s[i]) implies rs.contains(
            spec_annotate(q, s[i]),
        ) by {
            if i < p.len() {
                assert(rp.contains(spec_annotate(q, p[i])));
                let j = choose|j: int| 0 <= j < rp.len() && rp[j] == spec_annotate(q, p[i]);
                assert(rs[j] == spec_annotate(q, s[i]));
            } else {
                assert(rs[rs.len() - 1] == spec_annotate(q, s[i]));
            }
        }
    }
}

/// A nearby query returns exactly the unclaimed requests within the
/// radius, each annotated with its computed distance from the origin.
/// (The listing verb paginates this sequence.)
pub proof fn lemma_nearby_exact(s: Seq<WalkRequestView>, lon: i64, lat: i64, radius: i64)
    ensures
        ({
            let res = spec_results(s, spec_nearby_query(lon, lat, radius));
            &&& forall|j: int|
                0 <= j < res.len() ==> (#[trigger] res[j]).accepted_by is None
                    && spec_distance_m(
                    lon as int,
                    lat as int,
                    res[j].longitude as int,
                    res[j].latitude as int,
                ) <= radius && res[j].distance == Some(
                    spec_distance_m(
                        lon as int,
                        lat as int,
                        res[j].longitude as int,
                        res[j].latitude as int,
                    ) as i64,
                )
            &&& forall|i: int|
                0 <= i < s.len() && (#[trigger] s[i]).accepted_by is None && spec_distance_m(
                    lon as int,
                    lat as int,
                    s[i].longitude as int,
                    s[i].latitude as int,
                ) <= radius ==> res.contains(
                    spec_annotate(spec_nearby_query(lon, lat, radius), s[i]),
                )
        }),
{
    let q = spec_nearby_query(lon, lat, radius);
    let res = spec_results(s, q);
    lemma_results_membership(s, q);
    assert forall|j: int|
        0 <= j < res.len() implies (#[trigger] res[j]).accepted_by is None && spec_distance_m(
        lon as int,
        lat as int,
        res[j].longitude as int,
        res[j].latitude as int,
    ) <= radius && res[j].distance == Some(
        spec_distance_m(
            lon as int,
            lat as int,
            res[j].longitude as int,
            res[j].latitude as int,
        ) as i64,
    ) by {
        let i = choose|i: int|
            0 <= i < s.len() && spec_matches(q, #[trigger] s[i]) && res[j] == spec_annotate(
                q,
                s[i],
            );
        assert(res[j].longitude == s[i].longitude && res[j].latitude == s[i].latitude);
    }
}

} // verus!
