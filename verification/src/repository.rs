//! The persistence port: the value shapes of its queries and mutations,
//! their exact semantics over walk-request views, and the port trait.
//!
//! A query is a conjunction of current-state conditions; a mutation is a
//! partial update in which absence means "leave unchanged" and a dedicated
//! unset flag means "clear".  The port owes its callers atomic conditional
//! updates: each call either applies the mutation to the records matching
//! the predicate or rejects, and reports how many records matched.  This
//! is the sole concurrency primitive the coordination core relies on.

use vstd::prelude::*;

use crate::entities::{
    Breed, BreedView, Dog, DogView, Gender, WalkRequest, WalkRequestView, WalkingLocationView,
};
use crate::error::{Error, ErrorKind};
use crate::geo;

verus! {

/// Skip/limit pagination; both counts must be non-negative.
#[derive(Clone, Copy, Debug)]
pub struct Pagination {
    pub limit: i64,
    pub skip: i64,
}

/// Value shapes of the reference-data maintenance around the core
/// (breeds and dogs).  The coordination core itself only embeds dogs by
/// value into walk requests; maintaining the reference data is the
/// backend's business, under these shapes.
#[derive(Debug)]
pub struct BreedCreate {
    pub category: crate::entities::Category,
    pub name: String,
}

#[derive(Debug)]
pub struct BreedUpdate {
    pub name: Option<String>,
}

#[derive(Debug)]
pub struct BreedQuery {
    pub id: Option<String>,
    pub category: Option<crate::entities::Category>,
    pub name: Option<String>,
}

#[derive(Debug)]
pub struct DogCreate {
    pub owner_id: String,
    pub name: String,
    pub gender: String,
    pub breed: BreedQuery,
    /// Birthday as a UTC instant in milliseconds.
    pub birthday: i64,
    pub tags: Vec<String>,
    pub portrait_id: Option<String>,
}

#[derive(Debug)]
pub struct DogUpdate {
    pub name: Option<String>,
    pub gender: Option<String>,
    pub breed: Option<Breed>,
    /// Birthday as a UTC instant in milliseconds.
    pub birthday: Option<i64>,
    pub is_sterilized: Option<bool>,
    pub introduction: Option<String>,
    pub owner_id: Option<String>,
    pub tags: Option<Vec<String>>,
    pub portrait_id: Option<String>,
}

#[derive(Debug)]
pub struct DogQuery {
    pub id: Option<String>,
    pub id_in: Option<Vec<String>>,
    pub owner_id: Option<String>,
    pub pagination: Option<Pagination>,
}

#[derive(Clone, Copy, PartialEq, Eq, Structural, Debug)]
pub enum Order {
    Asc,
    Desc,
}

#[derive(Debug)]
pub struct SortBy {
    pub field: String,
    pub order: Order,
}

#[verifier::ext_equal]
pub ghost struct SortByView {
    pub field: Seq<char>,
    pub order: Order,
}

impl View for SortBy {
    type V = SortByView;

    open spec fn view(&self) -> SortByView {
        SortByView { field: self.field@, order: self.order }
    }
}

impl DeepView for SortBy {
    type V = SortByView;

    open spec fn deep_view(&self) -> SortByView {
        self.view()
    }
}

/// Payload of a new walk request; the port stamps identity and creation
/// time itself.
#[derive(Debug)]
pub struct WalkRequestCreate {
    pub dogs: Vec<Dog>,
    pub should_start_after: Option<i64>,
    pub should_start_before: Option<i64>,
    pub should_end_after: Option<i64>,
    pub should_end_before: Option<i64>,
    pub latitude: i64,
    pub longitude: i64,
    pub created_by: String,
}

#[verifier::ext_equal]
pub ghost struct WalkRequestCreateView {
    pub dogs: Seq<DogView>,
    pub should_start_after: Option<i64>,
    pub should_start_before: Option<i64>,
    pub should_end_after: Option<i64>,
    pub should_end_before: Option<i64>,
    pub latitude: i64,
    pub longitude: i64,
    pub created_by: Seq<char>,
}

impl View for WalkRequestCreate {
    type V = WalkRequestCreateView;

    open spec fn view(&self) -> WalkRequestCreateView {
        WalkRequestCreateView {
            dogs: self.dogs.deep_view(),
            should_start_after: self.should_start_after,
            should_start_before: self.should_start_before,
            should_end_after: self.should_end_after,
            should_end_before: self.should_end_before,
            latitude: self.latitude,
            longitude: self.longitude,
            created_by: self.created_by@,
        }
    }
}

/// A partial update: a field that is `None` is left unchanged, the two
/// `unset_*` flags clear the claim fields, and the two `*_acceptances`
/// fields edit the bid pool (an idempotent set-add and a remove-all).
#[derive(Debug)]
pub struct WalkRequestUpdate {
    pub dogs: Option<Vec<Dog>>,
    pub should_start_after: Option<i64>,
    pub should_start_before: Option<i64>,
    pub should_end_after: Option<i64>,
    pub should_end_before: Option<i64>,
    pub latitude: Option<i64>,
    pub longitude: Option<i64>,
    pub accepted_by: Option<String>,
    pub accepted_at: Option<i64>,
    pub canceled_at: Option<i64>,
    pub started_at: Option<i64>,
    pub finished_at: Option<i64>,
    pub unset_accepted_by: bool,
    pub unset_accepted_at: bool,
    pub add_to_acceptances: Option<String>,
    pub remove_from_acceptances: Option<String>,
}

#[verifier::ext_equal]
pub ghost struct WalkRequestUpdateView {
    pub dogs: Option<Seq<DogView>>,
    pub should_start_after: Option<i64>,
    pub should_start_before: Option<i64>,
    pub should_end_after: Option<i64>,
    pub should_end_before: Option<i64>,
    pub latitude: Option<i64>,
    pub longitude: Option<i64>,
    pub accepted_by: Option<Seq<char>>,
    pub accepted_at: Option<i64>,
    pub canceled_at: Option<i64>,
    pub started_at: Option<i64>,
    pub finished_at: Option<i64>,
    pub unset_accepted_by: bool,
    pub unset_accepted_at: bool,
    pub add_to_acceptances: Option<Seq<char>>,
    pub remove_from_acceptances: Option<Seq<char>>,
}

impl View for WalkRequestUpdate {
    type V = WalkRequestUpdateView;

    open spec fn view(&self) -> WalkRequestUpdateView {
        WalkRequestUpdateView {
            dogs: self.dogs.deep_view(),
            should_start_after: self.should_start_after,
            should_start_before: self.should_start_before,
            should_end_after: self.should_end_after,
            should_end_before: self.should_end_before,
            latitude: self.latitude,
            longitude: self.longitude,
            accepted_by: self.accepted_by.deep_view(),
            accepted_at: self.accepted_at,
            canceled_at: self.canceled_at,
            started_at: self.started_at,
            finished_at: self.finished_at,
            unset_accepted_by: self.unset_accepted_by,
            unset_accepted_at: self.unset_accepted_at,
            add_to_acceptances: self.add_to_acceptances.deep_view(),
            remove_from_acceptances: self.remove_from_acceptances.deep_view(),
        }
    }
}

/// A conjunction of conditions on a walk request.  `nearby`, when present,
/// must be exactly the triple `[origin-longitude, origin-latitude, radius]`
/// (microdegrees, microdegrees, meters).
#[derive(Debug)]
pub struct WalkRequestQuery {
    pub id: Option<String>,
    pub dog_ids_includes_all: Option<Vec<String>>,
    pub dog_ids_includes_any: Option<Vec<String>>,
    pub nearby: Option<Vec<i64>>,
    pub accepted_by: Option<String>,
    pub accepted_by_neq: Option<String>,
    pub accepted_by_is_null: Option<bool>,
    pub canceled_at_is_null: Option<bool>,
    pub acceptances_includes_all: Option<Vec<String>>,
    pub acceptances_includes_any: Option<Vec<String>>,
    pub created_by: Option<String>,
}

#[verifier::ext_equal]
pub ghost struct WalkRequestQueryView {
    pub id: Option<Seq<char>>,
    pub dog_ids_includes_all: Option<Seq<Seq<char>>>,
    pub dog_ids_includes_any: Option<Seq<Seq<char>>>,
    pub nearby: Option<Seq<i64>>,
    pub accepted_by: Option<Seq<char>>,
    pub accepted_by_neq: Option<Seq<char>>,
    pub accepted_by_is_null: Option<bool>,
    pub canceled_at_is_null: Option<bool>,
    pub acceptances_includes_all: Option<Seq<Seq<char>>>,
    pub acceptances_includes_any: Option<Seq<Seq<char>>>,
    pub created_by: Option<Seq<char>>,
}

impl View for WalkRequestQuery {
    type V = WalkRequestQueryView;

    open spec fn view(&self) -> WalkRequestQueryView {
        WalkRequestQueryView {
            id: self.id.deep_view(),
            dog_ids_includes_all: self.dog_ids_includes_all.deep_view(),
            dog_ids_includes_any: self.dog_ids_includes_any.deep_view(),
            nearby: self.nearby.deep_view(),
            accepted_by: self.accepted_by.deep_view(),
            accepted_by_neq: self.accepted_by_neq.deep_view(),
            accepted_by_is_null: self.accepted_by_is_null,
            canceled_at_is_null: self.canceled_at_is_null,
            acceptances_includes_all: self.acceptances_includes_all.deep_view(),
            acceptances_includes_any: self.acceptances_includes_any.deep_view(),
            created_by: self.created_by.deep_view(),
        }
    }
}

/// Payload of a new walking-location sample.
#[derive(Debug)]
pub struct WalkingLocationCreate {
    pub walk_request_id: String,
    pub longitude: i64,
    pub latitude: i64,
}

#[verifier::ext_equal]
pub ghost struct WalkingLocationCreateView {
    pub walk_request_id: Seq<char>,
    pub longitude: i64,
    pub latitude: i64,
}

impl View for WalkingLocationCreate {
    type V = WalkingLocationCreateView;

    open spec fn view(&self) -> WalkingLocationCreateView {
        WalkingLocationCreateView {
            walk_request_id: self.walk_request_id@,
            longitude: self.longitude,
            latitude: self.latitude,
        }
    }
}

// ------------------------------------------------------------------
// Validation: which values the port accepts at all.
// ------------------------------------------------------------------

/// A well-formed proximity clause: exactly `[longitude, latitude, radius]`
/// with an in-range origin and a non-negative radius.
pub open spec fn spec_nearby_ok(t: Seq<i64>) -> bool {
    t.len() == 3 && geo::spec_coords_ok(t[0] as int, t[1] as int) && t[2] >= 0
}

pub open spec fn spec_query_ok(q: WalkRequestQueryView) -> bool {
    match q.nearby {
        Some(t) => spec_nearby_ok(t),
        None => true,
    }
}

pub open spec fn spec_update_ok(u: WalkRequestUpdateView) -> bool {
    &&& match u.longitude {
        Some(x) => -geo::LON_LIMIT <= x <= geo::LON_LIMIT,
        None => true,
    }
    &&& match u.latitude {
        Some(x) => -geo::LAT_LIMIT <= x <= geo::LAT_LIMIT,
        None => true,
    }
}

pub open spec fn spec_create_ok(c: WalkRequestCreateView) -> bool {
    geo::spec_coords_ok(c.longitude as int, c.latitude as int)
}

pub open spec fn spec_location_create_ok(c: WalkingLocationCreateView) -> bool {
    geo::spec_coords_ok(c.longitude as int, c.latitude as int)
}

pub open spec fn spec_pagination_ok(p: Option<Pagination>) -> bool {
    match p {
        Some(p) => p.limit >= 0 && p.skip >= 0,
        None => true,
    }
}

/// The in-memory port supports a single-field sort on `created_at`.
pub open spec fn spec_sort_ok(s: Option<SortByView>) -> bool {
    match s {
        Some(s) => s.field == "created_at"@,
        None => true,
    }
}

// ------------------------------------------------------------------
// Predicate semantics.
// ------------------------------------------------------------------

/// Membership of a string in a sequence of strings.
pub open spec fn seq_contains(s: Seq<Seq<char>>, x: Seq<char>) -> bool {
    exists|i: int| 0 <= i < s.len() && s[i] == x
}

pub open spec fn contains_all(s: Seq<Seq<char>>, xs: Seq<Seq<char>>) -> bool {
    forall|i: int| 0 <= i < xs.len() ==> seq_contains(s, #[trigger] xs[i])
}

pub open spec fn contains_any(s: Seq<Seq<char>>, xs: Seq<Seq<char>>) -> bool {
    exists|i: int| 0 <= i < xs.len() && seq_contains(s, #[trigger] xs[i])
}

/// The ids of the dog snapshots embedded in a request.
pub open spec fn dog_ids(dogs: Seq<DogView>) -> Seq<Seq<char>> {
    dogs.map_values(|d: DogView| d.id)
}

/// Whether a request satisfies every condition of a query.
pub open spec fn spec_matches(q: WalkRequestQueryView, r: WalkRequestView) -> bool {
    &&& match q.id {
        Some(id) => r.id == id,
        None => true,
    }
    &&& match q.dog_ids_includes_all {
        Some(ids) => contains_all(dog_ids(r.dogs), ids),
        None => true,
    }
    &&& match q.dog_ids_includes_any {
        Some(ids) => contains_any(dog_ids(r.dogs), ids),
        None => true,
    }
    &&& match q.accepted_by {
        Some(w) => r.accepted_by == Some(w),
        None => true,
    }
    &&& match q.accepted_by_neq {
        Some(w) => r.accepted_by != Some(w),
        None => true,
    }
    &&& match q.accepted_by_is_null {
        Some(b) => (r.accepted_by is None) == b,
        None => true,
    }
    &&& match q.canceled_at_is_null {
        Some(b) => (r.canceled_at is None) == b,
        None => true,
    }
    &&& match q.acceptances_includes_all {
        Some(ids) => contains_all(r.acceptances, ids),
        None => true,
    }
    &&& match q.acceptances_includes_any {
        Some(ids) => contains_any(r.acceptances, ids),
        None => true,
    }
    &&& match q.created_by {
        Some(c) => r.created_by == c,
        None => true,
    }
    &&& match q.nearby {
        Some(t) => geo::spec_distance_m(t[0] as int, t[1] as int, r.longitude as int, r.latitude as int)
            <= t[2] as int,
        None => true,
    }
}

// ------------------------------------------------------------------
// Mutation semantics.
// ------------------------------------------------------------------

/// The bid pool with every occurrence of `w` removed.
pub open spec fn remove_str(s: Seq<Seq<char>>, w: Seq<char>) -> Seq<Seq<char>>
    decreases s.len(),
{
    if s.len() == 0 {
        Seq::empty()
    } else {
        let rest = remove_str(s.drop_last(), w);
        if s.last() == w {
            rest
        } else {
            rest.push(s.last())
        }
    }
}

/// The bid pool after an update: the remove-all runs first, then the
/// idempotent set-add.
pub open spec fn spec_apply_acceptances(
    acc: Seq<Seq<char>>,
    add: Option<Seq<char>>,
    remove: Option<Seq<char>>,
) -> Seq<Seq<char>> {
    let pulled = match remove {
        Some(w) => remove_str(acc, w),
        None => acc,
    };
    match add {
        Some(w) => if seq_contains(pulled, w) {
            pulled
        } else {
            pulled.push(w)
        },
        None => pulled,
    }
}

/// The request after a partial update is applied to it.  Identity,
/// provenance and the computed distance are never touched by an update.
pub open spec fn spec_apply(u: WalkRequestUpdateView, r: WalkRequestView) -> WalkRequestView {
    WalkRequestView {
        id: r.id,
        dogs: match u.dogs {
            Some(d) => d,
            None => r.dogs,
        },
        should_start_after: match u.should_start_after {
            Some(t) => Some(t),
            None => r.should_start_after,
        },
        should_start_before: match u.should_start_before {
            Some(t) => Some(t),
            None => r.should_start_before,
        },
        should_end_after: match u.should_end_after {
            Some(t) => Some(t),
            None => r.should_end_after,
        },
        should_end_before: match u.should_end_before {
            Some(t) => Some(t),
            None => r.should_end_before,
        },
        longitude: match u.longitude {
            Some(x) => x,
            None => r.longitude,
        },
        latitude: match u.latitude {
            Some(x) => x,
            None => r.latitude,
        },
        distance: r.distance,
        canceled_at: match u.canceled_at {
            Some(t) => Some(t),
            None => r.canceled_at,
        },
        accepted_by: if u.unset_accepted_by {
            None
        } else {
            match u.accepted_by {
                Some(w) => Some(w),
                None => r.accepted_by,
            }
        },
        accepted_at: if u.unset_accepted_at {
            None
        } else {
            match u.accepted_at {
                Some(t) => Some(t),
                None => r.accepted_at,
            }
        },
        started_at: match u.started_at {
            Some(t) => Some(t),
            None => r.started_at,
        },
        finished_at: match u.finished_at {
            Some(t) => Some(t),
            None => r.finished_at,
        },
        acceptances: spec_apply_acceptances(
            r.acceptances,
            u.add_to_acceptances,
            u.remove_from_acceptances,
        ),
        created_by: r.created_by,
        created_at: r.created_at,
        updated_at: r.updated_at,
    }
}

// ------------------------------------------------------------------
// Collection-level semantics.
// ------------------------------------------------------------------

/// How many requests of `s` satisfy `q`.
pub open spec fn spec_count(s: Seq<WalkRequestView>, q: WalkRequestQueryView) -> nat
    decreases s.len(),
{
    if s.len() == 0 {
        0
    } else {
        spec_count(s.drop_last(), q) + if spec_matches(q, s.last()) {
            1nat
        } else {
            0nat
        }
    }
}

/// Every request satisfying `q` updated by `u`, the rest unchanged.
pub open spec fn spec_update_all(
    s: Seq<WalkRequestView>,
    q: WalkRequestQueryView,
    u: WalkRequestUpdateView,
) -> Seq<WalkRequestView> {
    s.map_values(
        |r: WalkRequestView|
            if spec_matches(q, r) {
                spec_apply(u, r)
            } else {
                r
            },
    )
}

/// `i` is the index of the first request of `s` satisfying `q`.
pub open spec fn spec_is_first_match(
    s: Seq<WalkRequestView>,
    q: WalkRequestQueryView,
    i: int,
) -> bool {
    &&& 0 <= i < s.len()
    &&& spec_matches(q, s[i])
    &&& forall|j: int| #![trigger s[j]] 0 <= j < i ==> !spec_matches(q, s[j])
}

/// No two requests of `s` share an id.
pub open spec fn spec_unique_ids(s: Seq<WalkRequestView>) -> bool {
    forall|i: int, j: int| #![trigger s[i], s[j]] 0 <= i < j < s.len() ==> s[i].id != s[j].id
}

/// The request a creation payload turns into, under a fresh id at a
/// creation instant: waiting, unclaimed, with an empty bid pool.
pub open spec fn spec_new_request(
    id: Seq<char>,
    c: WalkRequestCreateView,
    now: i64,
) -> WalkRequestView {
    WalkRequestView {
        id,
        dogs: c.dogs,
        should_start_after: c.should_start_after,
        should_start_before: c.should_start_before,
        should_end_after: c.should_end_after,
        should_end_before: c.should_end_before,
        longitude: c.longitude,
        latitude: c.latitude,
        distance: None,
        canceled_at: None,
        accepted_by: None,
        accepted_at: None,
        started_at: None,
        finished_at: None,
        acceptances: Seq::empty(),
        created_by: c.created_by,
        created_at: Some(now),
        updated_at: Some(now),
    }
}

/// The sample a location payload turns into.
pub open spec fn spec_new_location(
    id: Seq<char>,
    c: WalkingLocationCreateView,
    now: i64,
) -> WalkingLocationView {
    WalkingLocationView {
        id,
        request_id: c.walk_request_id,
        longitude: c.longitude,
        latitude: c.latitude,
        created_at: now,
    }
}

// ------------------------------------------------------------------
// Read-path semantics: annotation, sorting, pagination.
// ------------------------------------------------------------------

/// The requests of `s` satisfying `q`, in store order.
pub open spec fn spec_filter(
    s: Seq<WalkRequestView>,
    q: WalkRequestQueryView,
) -> Seq<WalkRequestView>
    decreases s.len(),
{
    if s.len() == 0 {
        Seq::empty()
    } else {
        let rest = spec_filter(s.drop_last(), q);
        if spec_matches(q, s.last()) {
            rest.push(s.last())
        } else {
            rest
        }
    }
}

/// A result record: when the query carries a proximity clause, the record
/// is annotated with its computed distance from the origin.
pub open spec fn spec_annotate(q: WalkRequestQueryView, r: WalkRequestView) -> WalkRequestView {
    match q.nearby {
        Some(t) => WalkRequestView {
            distance: Some(
                geo::spec_distance_m(
                    t[0] as int,
                    t[1] as int,
                    r.longitude as int,
                    r.latitude as int,
                ) as i64,
            ),
            ..r
        },
        None => r,
    }
}

/// The full, unpaginated result of a query: matching requests in store
/// order, annotated when the query is a proximity query.
pub open spec fn spec_results(
    s: Seq<WalkRequestView>,
    q: WalkRequestQueryView,
) -> Seq<WalkRequestView> {
    spec_filter(s, q).map_values(|r: WalkRequestView| spec_annotate(q, r))
}

/// The sort key: creation time, with never-stamped records ordered last
/// on a descending sort.
pub open spec fn created_key(r: WalkRequestView) -> int {
    match r.created_at {
        Some(t) => t as int,
        None => i64::MIN as int - 1,
    }
}

/// Whether `a` may stand before `b` under the given order.
pub open spec fn key_before(order: Order, a: WalkRequestView, b: WalkRequestView) -> bool {
    match order {
        Order::Asc => created_key(a) <= created_key(b),
        Order::Desc => created_key(a) >= created_key(b),
    }
}

/// `r` inserted in front of the first element it may stand before.
pub open spec fn spec_insert_sorted(
    s: Seq<WalkRequestView>,
    r: WalkRequestView,
    order: Order,
) -> Seq<WalkRequestView>
    decreases s.len(),
{
    if s.len() == 0 {
        seq![r]
    } else if key_before(order, r, s[0]) {
        seq![r] + s
    } else {
        seq![s[0]] + spec_insert_sorted(s.drop_first(), r, order)
    }
}

/// Deterministic insertion sort on the creation timestamp.
pub open spec fn spec_sort(s: Seq<WalkRequestView>, order: Order) -> Seq<WalkRequestView>
    decreases s.len(),
{
    if s.len() == 0 {
        Seq::empty()
    } else {
        spec_insert_sorted(spec_sort(s.drop_last(), order), s.last(), order)
    }
}

pub open spec fn spec_apply_sort(
    s: Seq<WalkRequestView>,
    sb: Option<SortByView>,
) -> Seq<WalkRequestView> {
    match sb {
        Some(x) => spec_sort(s, x.order),
        None => s,
    }
}

/// Skip, then limit.
pub open spec fn spec_paginate<T>(s: Seq<T>, p: Option<Pagination>) -> Seq<T> {
    match p {
        Some(p) => if p.skip as int >= s.len() {
            Seq::empty()
        } else if p.skip as int + p.limit as int <= s.len() {
            s.subrange(p.skip as int, p.skip as int + p.limit as int)
        } else {
            s.subrange(p.skip as int, s.len() as int)
        },
        None => s,
    }
}

/// What a successful creation did to the store: the id is fresh, and the
/// new request was appended, stamped at some creation instant.
pub open spec fn spec_created(
    pre: Seq<WalkRequestView>,
    post: Seq<WalkRequestView>,
    c: WalkRequestCreateView,
    id: Seq<char>,
) -> bool {
    &&& spec_create_ok(c)
    &&& forall|i: int| 0 <= i < pre.len() ==> (#[trigger] pre[i]).id != id
    &&& exists|t: i64| 0 <= t && post == pre.push(#[trigger] spec_new_request(id, c, t))
}

/// What a successful location insert did to the log.
pub open spec fn spec_location_created(
    pre: Seq<WalkingLocationView>,
    post: Seq<WalkingLocationView>,
    c: WalkingLocationCreateView,
    id: Seq<char>,
) -> bool {
    &&& spec_location_create_ok(c)
    &&& exists|t: i64| 0 <= t && post == pre.push(#[trigger] spec_new_location(id, c, t))
}

/// What a successful conditional update-one did: the first matching
/// record was replaced by its updated value, which was also returned.
pub open spec fn spec_updated_one(
    pre: Seq<WalkRequestView>,
    post: Seq<WalkRequestView>,
    q: WalkRequestQueryView,
    u: WalkRequestUpdateView,
    res: WalkRequestView,
) -> bool {
    exists|i: int|
        #![trigger pre[i]]
        {
            &&& spec_is_first_match(pre, q, i)
            &&& post == pre.update(i, spec_apply(u, pre[i]))
            &&& res == spec_apply(u, pre[i])
        }
}

/// Zero matches means no record matches, and the other way round.
pub proof fn lemma_count_zero(s: Seq<WalkRequestView>, q: WalkRequestQueryView)
    ensures
        (spec_count(s, q) == 0) <==> (forall|i: int|
            0 <= i < s.len() ==> !spec_matches(q, #[trigger] s[i])),
    decreases s.len(),
{
    if s.len() > 0 {
        lemma_count_zero(s.drop_last(), q);
        assert(forall|i: int|
            0 <= i < s.len() - 1 ==> #[trigger] s[i] == s.drop_last()[i]);
    }
}

/// An id-filtered query matches at most one record of an id-unique store.
pub proof fn lemma_id_count_le_one(s: Seq<WalkRequestView>, q: WalkRequestQueryView)
    requires
        spec_unique_ids(s),
        q.id is Some,
    ensures
        spec_count(s, q) <= 1,
    decreases s.len(),
{
    if s.len() > 0 {
        let p = s.drop_last();
        assert(forall|i: int| 0 <= i < p.len() ==> #[trigger] p[i] == s[i]);
        lemma_id_count_le_one(p, q);
        if spec_matches(q, s.last()) {
            assert forall|i: int| 0 <= i < p.len() implies !spec_matches(q, #[trigger] p[i]) by {
                assert(p[i].id != s[s.len() - 1].id);
            }
            lemma_count_zero(p, q);
        }
    }
}

/// A query that matches nothing updates nothing.
pub proof fn lemma_update_all_no_match(
    s: Seq<WalkRequestView>,
    q: WalkRequestQueryView,
    u: WalkRequestUpdateView,
)
    requires
        spec_count(s, q) == 0,
    ensures
        spec_update_all(s, q, u) == s,
{
    lemma_count_zero(s, q);
    assert(spec_update_all(s, q, u) =~= s);
}

/// The matched count grows by one exactly over a matching record.
pub proof fn lemma_count_take_succ(s: Seq<WalkRequestView>, q: WalkRequestQueryView, i: int)
    requires
        0 <= i < s.len(),
    ensures
        spec_count(s.take(i + 1), q) == spec_count(s.take(i), q) + if spec_matches(q, s[i]) {
            1nat
        } else {
            0nat
        },
{
    assert(s.take(i + 1).drop_last() =~= s.take(i));
    assert(s.take(i + 1).last() == s[i]);
}

// ------------------------------------------------------------------
// Reference-data semantics: breeds and dogs.
// ------------------------------------------------------------------

#[verifier::ext_equal]
pub ghost struct BreedCreateView {
    pub category: crate::entities::Category,
    pub name: Seq<char>,
}

impl View for BreedCreate {
    type V = BreedCreateView;

    open spec fn view(&self) -> BreedCreateView {
        BreedCreateView { category: self.category, name: self.name@ }
    }
}

#[verifier::ext_equal]
pub ghost struct BreedQueryView {
    pub id: Option<Seq<char>>,
    pub category: Option<crate::entities::Category>,
    pub name: Option<Seq<char>>,
}

impl View for BreedQuery {
    type V = BreedQueryView;

    open spec fn view(&self) -> BreedQueryView {
        BreedQueryView {
            id: self.id.deep_view(),
            category: self.category,
            name: self.name.deep_view(),
        }
    }
}

#[verifier::ext_equal]
pub ghost struct DogCreateView {
    pub owner_id: Seq<char>,
    pub name: Seq<char>,
    pub gender: Seq<char>,
    pub breed: BreedQueryView,
    pub birthday: i64,
    pub tags: Seq<Seq<char>>,
    pub portrait_id: Option<Seq<char>>,
}

impl View for DogCreate {
    type V = DogCreateView;

    open spec fn view(&self) -> DogCreateView {
        DogCreateView {
            owner_id: self.owner_id@,
            name: self.name@,
            gender: self.gender@,
            breed: self.breed@,
            birthday: self.birthday,
            tags: self.tags.deep_view(),
            portrait_id: self.portrait_id.deep_view(),
        }
    }
}

#[verifier::ext_equal]
pub ghost struct DogUpdateView {
    pub name: Option<Seq<char>>,
    pub gender: Option<Seq<char>>,
    pub breed: Option<BreedView>,
    pub birthday: Option<i64>,
    pub is_sterilized: Option<bool>,
    pub introduction: Option<Seq<char>>,
    pub owner_id: Option<Seq<char>>,
    pub tags: Option<Seq<Seq<char>>>,
    pub portrait_id: Option<Seq<char>>,
}

impl View for DogUpdate {
    type V = DogUpdateView;

    open spec fn view(&self) -> DogUpdateView {
        DogUpdateView {
            name: self.name.deep_view(),
            gender: self.gender.deep_view(),
            breed: self.breed.deep_view(),
            birthday: self.birthday,
            is_sterilized: self.is_sterilized,
            introduction: self.introduction.deep_view(),
            owner_id: self.owner_id.deep_view(),
            tags: self.tags.deep_view(),
            portrait_id: self.portrait_id.deep_view(),
        }
    }
}

#[verifier::ext_equal]
pub ghost struct DogQueryView {
    pub id: Option<Seq<char>>,
    pub id_in: Option<Seq<Seq<char>>>,
    pub owner_id: Option<Seq<char>>,
    pub pagination: Option<Pagination>,
}

impl View for DogQuery {
    type V = DogQueryView;

    open spec fn view(&self) -> DogQueryView {
        DogQueryView {
            id: self.id.deep_view(),
            id_in: self.id_in.deep_view(),
            owner_id: self.owner_id.deep_view(),
            pagination: self.pagination,
        }
    }
}

/// Whether a breed satisfies every given condition of a breed query.
pub open spec fn breed_matches(q: BreedQueryView, b: BreedView) -> bool {
    &&& match q.id {
        Some(id) => b.id == id,
        None => true,
    }
    &&& match q.category {
        Some(c) => b.category == c,
        None => true,
    }
    &&& match q.name {
        Some(n) => b.name == n,
        None => true,
    }
}

pub open spec fn spec_filter_breeds(s: Seq<BreedView>, q: BreedQueryView) -> Seq<BreedView>
    decreases s.len(),
{
    if s.len() == 0 {
        Seq::empty()
    } else {
        let rest = spec_filter_breeds(s.drop_last(), q);
        if breed_matches(q, s.last()) {
            rest.push(s.last())
        } else {
            rest
        }
    }
}

pub open spec fn spec_remove_breeds(s: Seq<BreedView>, id: Seq<char>) -> Seq<BreedView>
    decreases s.len(),
{
    if s.len() == 0 {
        Seq::empty()
    } else {
        let rest = spec_remove_breeds(s.drop_last(), id);
        if s.last().id == id {
            rest
        } else {
            rest.push(s.last())
        }
    }
}

pub open spec fn spec_breed_exists(s: Seq<BreedView>, id: Seq<char>) -> bool {
    exists|i: int| 0 <= i < s.len() && (#[trigger] s[i]).id == id
}

/// `i` is the index of the first breed satisfying `q`.
pub open spec fn spec_is_first_breed(s: Seq<BreedView>, q: BreedQueryView, i: int) -> bool {
    &&& 0 <= i < s.len()
    &&& breed_matches(q, s[i])
    &&& forall|j: int| #![trigger s[j]] 0 <= j < i ==> !breed_matches(q, s[j])
}

pub open spec fn spec_new_breed(id: Seq<char>, c: BreedCreateView) -> BreedView {
    BreedView { id, category: c.category, name: c.name }
}

/// How a gender label reads: anything but the two named labels is Other.
pub open spec fn spec_gender_of(s: Seq<char>) -> Gender {
    if s == "Male"@ {
        Gender::Male
    } else if s == "Female"@ {
        Gender::Female
    } else {
        Gender::Other
    }
}

/// The dog a creation payload turns into, once its breed query resolved
/// to a stored breed.
pub open spec fn spec_new_dog(id: Seq<char>, c: DogCreateView, breed: BreedView) -> DogView {
    DogView {
        id,
        name: c.name,
        gender: spec_gender_of(c.gender),
        breed,
        birthday: c.birthday,
        owner_id: c.owner_id,
        tags: c.tags,
        portrait_id: c.portrait_id,
    }
}

/// Whether a dog satisfies every given condition of a dog query; the
/// query's pagination plays no part in matching.
pub open spec fn dog_matches(q: DogQueryView, d: DogView) -> bool {
    &&& match q.id {
        Some(id) => d.id == id,
        None => true,
    }
    &&& match q.id_in {
        Some(ids) => seq_contains(ids, d.id),
        None => true,
    }
    &&& match q.owner_id {
        Some(o) => d.owner_id == o,
        None => true,
    }
}

pub open spec fn spec_filter_dogs(s: Seq<DogView>, q: DogQueryView) -> Seq<DogView>
    decreases s.len(),
{
    if s.len() == 0 {
        Seq::empty()
    } else {
        let rest = spec_filter_dogs(s.drop_last(), q);
        if dog_matches(q, s.last()) {
            rest.push(s.last())
        } else {
            rest
        }
    }
}

pub open spec fn spec_remove_dogs(s: Seq<DogView>, id: Seq<char>) -> Seq<DogView>
    decreases s.len(),
{
    if s.len() == 0 {
        Seq::empty()
    } else {
        let rest = spec_remove_dogs(s.drop_last(), id);
        if s.last().id == id {
            rest
        } else {
            rest.push(s.last())
        }
    }
}

pub open spec fn spec_dog_exists(s: Seq<DogView>, id: Seq<char>) -> bool {
    exists|i: int| 0 <= i < s.len() && (#[trigger] s[i]).id == id
}

pub open spec fn spec_any_dog(s: Seq<DogView>, q: DogQueryView) -> bool {
    exists|i: int| 0 <= i < s.len() && dog_matches(q, #[trigger] s[i])
}

/// Whether a dog update sets anything at all.  A field without a
/// counterpart in the dog shape (sterilization, introduction) still
/// counts: the backend accepts it, though no read path surfaces it.
pub open spec fn spec_dog_update_nonempty(u: DogUpdateView) -> bool {
    ||| u.name is Some
    ||| u.gender is Some
    ||| u.breed is Some
    ||| u.birthday is Some
    ||| u.is_sterilized is Some
    ||| u.introduction is Some
    ||| u.owner_id is Some
    ||| u.tags is Some
    ||| u.portrait_id is Some
}

/// The dog after a partial update; identity is never touched, and fields
/// without a counterpart in the dog shape change nothing.
pub open spec fn spec_apply_dog_update(u: DogUpdateView, d: DogView) -> DogView {
    DogView {
        id: d.id,
        name: match u.name {
            Some(n) => n,
            None => d.name,
        },
        gender: match u.gender {
            Some(g) => spec_gender_of(g),
            None => d.gender,
        },
        breed: match u.breed {
            Some(b) => b,
            None => d.breed,
        },
        birthday: match u.birthday {
            Some(b) => b,
            None => d.birthday,
        },
        owner_id: match u.owner_id {
            Some(o) => o,
            None => d.owner_id,
        },
        tags: match u.tags {
            Some(t) => t,
            None => d.tags,
        },
        portrait_id: match u.portrait_id {
            Some(p) => Some(p),
            None => d.portrait_id,
        },
    }
}

/// Every dog under the given id updated, the rest unchanged.
pub open spec fn spec_update_dogs(
    s: Seq<DogView>,
    id: Seq<char>,
    u: DogUpdateView,
) -> Seq<DogView> {
    s.map_values(
        |d: DogView|
            if d.id == id {
                spec_apply_dog_update(u, d)
            } else {
                d
            },
    )
}

// ------------------------------------------------------------------
// The port trait.
// ------------------------------------------------------------------

/// The persistence port of the coordination core: conditional reads,
/// atomic conditional writes, and proximity-filtered search over walk
/// requests, plus the append-only walking-location log.
///
/// Its contract is all the core relies on: a conditional update is atomic
/// with respect to all other callers, applies exactly to the records its
/// predicate matches, and reports the matched count.  A `ValidationError`
/// may come only of malformed input; a `BackendUnavailable` may come of
/// any call, leaving the store unchanged as far as this process observed
/// it.
pub trait Repository: Sized {
    spec fn wf(&self) -> bool;

    spec fn requests(&self) -> Seq<WalkRequestView>;

    spec fn locations(&self) -> Seq<WalkingLocationView>;

    spec fn breeds(&self) -> Seq<BreedView>;

    spec fn dogs(&self) -> Seq<DogView>;

    /// A well-formed store never holds two requests under one id, nor
    /// two dogs under one id.
    proof fn wf_unique_ids(&self)
        requires
            self.wf(),
        ensures
            spec_unique_ids(self.requests()),
            forall|i: int, j: int|
                #![trigger self.dogs()[i], self.dogs()[j]]
                0 <= i < j < self.dogs().len() ==> self.dogs()[i].id != self.dogs()[j].id,
    ;

    /// Insert a new waiting request, under a fresh id, stamped with the
    /// creation instant.
    fn create_walk_request(&mut self, request: WalkRequestCreate) -> (r: Result<String, Error>)
        requires
            old(self).wf(),
        ensures
            final(self).wf(),
            final(self).locations() == old(self).locations(),
            final(self).breeds() == old(self).breeds(),
            final(self).dogs() == old(self).dogs(),
            match r {
                Ok(id) => spec_created(
                    old(self).requests(),
                    final(self).requests(),
                    request@,
                    id@,
                ),
                Err(e) => {
                    &&& final(self).requests() == old(self).requests()
                    &&& (e@.kind == ErrorKind::ValidationError && !spec_create_ok(request@))
                        || e@.kind == ErrorKind::BackendUnavailable
                },
            },
    ;

    /// Read one request by id.
    fn get_walk_request(&self, id: &str) -> (r: Result<WalkRequest, Error>)
        requires
            self.wf(),
        ensures
            match r {
                Ok(req) => {
                    &&& req@.id == id@
                    &&& exists|i: int|
                        0 <= i < self.requests().len() && #[trigger] self.requests()[i] == req@
                },
                Err(e) => (e@.kind == ErrorKind::NotFound && forall|i: int|
                    0 <= i < self.requests().len() ==> (#[trigger] self.requests()[i]).id != id@)
                    || e@.kind == ErrorKind::BackendUnavailable,
            },
    ;

    /// Atomically apply `update` to the first request matching `query`,
    /// returning the post-mutation value; zero matches is `NotFound`.
    fn update_walk_request_by_query(
        &mut self,
        query: WalkRequestQuery,
        update: WalkRequestUpdate,
    ) -> (r: Result<WalkRequest, Error>)
        requires
            old(self).wf(),
        ensures
            final(self).wf(),
            final(self).locations() == old(self).locations(),
            final(self).breeds() == old(self).breeds(),
            final(self).dogs() == old(self).dogs(),
            match r {
                Ok(req) => {
                    &&& spec_query_ok(query@)
                    &&& spec_update_ok(update@)
                    &&& spec_updated_one(
                        old(self).requests(),
                        final(self).requests(),
                        query@,
                        update@,
                        req@,
                    )
                },
                Err(e) => {
                    &&& final(self).requests() == old(self).requests()
                    &&& {
                        ||| (e@.kind == ErrorKind::NotFound && spec_count(
                            old(self).requests(),
                            query@,
                        ) == 0)
                        ||| (e@.kind == ErrorKind::ValidationError && !(spec_query_ok(query@)
                            && spec_update_ok(update@)))
                        ||| e@.kind == ErrorKind::BackendUnavailable
                    }
                },
            },
    ;

    /// Atomically apply `update` to every request matching `query`,
    /// reporting how many matched.
    fn update_walk_requests_by_query(
        &mut self,
        query: WalkRequestQuery,
        update: WalkRequestUpdate,
    ) -> (r: Result<u64, Error>)
        requires
            old(self).wf(),
        ensures
            final(self).wf(),
            final(self).locations() == old(self).locations(),
            final(self).breeds() == old(self).breeds(),
            final(self).dogs() == old(self).dogs(),
            match r {
                Ok(n) => {
                    &&& spec_query_ok(query@)
                    &&& spec_update_ok(update@)
                    &&& n as nat == spec_count(old(self).requests(), query@)
                    &&& final(self).requests() == spec_update_all(
                        old(self).requests(),
                        query@,
                        update@,
                    )
                },
                Err(e) => {
                    &&& final(self).requests() == old(self).requests()
                    &&& {
                        ||| (e@.kind == ErrorKind::ValidationError && !(spec_query_ok(query@)
                            && spec_update_ok(update@)))
                        ||| e@.kind == ErrorKind::BackendUnavailable
                    }
                },
            },
    ;

    /// Query walk requests: filter, annotate with distance when the query
    /// is a proximity query, sort if asked, then paginate.
    fn query_walk_requests(
        &self,
        query: WalkRequestQuery,
        sort_by: Option<SortBy>,
        pagination: Option<Pagination>,
    ) -> (r: Result<Vec<WalkRequest>, Error>)
        requires
            self.wf(),
        ensures
            match r {
                Ok(v) => {
                    &&& spec_query_ok(query@)
                    &&& spec_sort_ok(sort_by.deep_view())
                    &&& spec_pagination_ok(pagination)
                    &&& v.deep_view() == spec_paginate(
                        spec_apply_sort(
                            spec_results(self.requests(), query@),
                            sort_by.deep_view(),
                        ),
                        pagination,
                    )
                },
                Err(e) => {
                    ||| (e@.kind == ErrorKind::ValidationError && !(spec_query_ok(query@)
                        && spec_sort_ok(sort_by.deep_view()) && spec_pagination_ok(pagination)))
                    ||| e@.kind == ErrorKind::BackendUnavailable
                },
            },
    ;

    /// Append one walking-location sample, stamped with the insertion
    /// instant; samples are never updated or deleted.
    fn create_walking_location(&mut self, create: WalkingLocationCreate) -> (r: Result<
        String,
        Error,
    >)
        requires
            old(self).wf(),
        ensures
            final(self).wf(),
            final(self).requests() == old(self).requests(),
            final(self).breeds() == old(self).breeds(),
            final(self).dogs() == old(self).dogs(),
            match r {
                Ok(id) => spec_location_created(
                    old(self).locations(),
                    final(self).locations(),
                    create@,
                    id@,
                ),
                Err(e) => {
                    &&& final(self).locations() == old(self).locations()
                    &&& (e@.kind == ErrorKind::ValidationError && !spec_location_create_ok(
                        create@,
                    )) || e@.kind == ErrorKind::BackendUnavailable
                },
            },
    ;

    /// Insert a new breed under a fresh id.
    fn create_breed(&mut self, breed: &BreedCreate) -> (r: Result<String, Error>)
        requires
            old(self).wf(),
        ensures
            final(self).wf(),
            final(self).requests() == old(self).requests(),
            final(self).locations() == old(self).locations(),
            final(self).dogs() == old(self).dogs(),
            match r {
                Ok(id) => {
                    &&& forall|i: int|
                        0 <= i < old(self).breeds().len() ==> (#[trigger] old(
                            self,
                        ).breeds()[i]).id != id@
                    &&& final(self).breeds() == old(self).breeds().push(
                        spec_new_breed(id@, breed@),
                    )
                },
                Err(e) => final(self).breeds() == old(self).breeds() && e@.kind
                    == ErrorKind::BackendUnavailable,
            },
    ;

    /// Delete every breed under the given id, reporting whether any
    /// existed.
    fn delete_breed(&mut self, id: &str) -> (r: Result<bool, Error>)
        requires
            old(self).wf(),
        ensures
            final(self).wf(),
            final(self).requests() == old(self).requests(),
            final(self).locations() == old(self).locations(),
            final(self).dogs() == old(self).dogs(),
            match r {
                Ok(b) => {
                    &&& final(self).breeds() == spec_remove_breeds(old(self).breeds(), id@)
                    &&& b == spec_breed_exists(old(self).breeds(), id@)
                },
                Err(e) => final(self).breeds() == old(self).breeds() && e@.kind
                    == ErrorKind::BackendUnavailable,
            },
    ;

    /// The breeds satisfying the query, with their total count.
    fn query_breeds(&self, query: &BreedQuery) -> (r: Result<(Vec<Breed>, i64), Error>)
        requires
            self.wf(),
        ensures
            match r {
                Ok(p) => {
                    &&& p.0.deep_view() == spec_filter_breeds(self.breeds(), query@)
                    &&& p.1 as int == spec_filter_breeds(self.breeds(), query@).len()
                },
                Err(e) => e@.kind == ErrorKind::BackendUnavailable,
            },
    ;

    /// Insert a new dog under a fresh id, resolving its breed query to
    /// the first stored breed that satisfies it.
    fn create_dog(&mut self, dog: &DogCreate) -> (r: Result<Dog, Error>)
        requires
            old(self).wf(),
        ensures
            final(self).wf(),
            final(self).requests() == old(self).requests(),
            final(self).locations() == old(self).locations(),
            final(self).breeds() == old(self).breeds(),
            match r {
                Ok(d) => {
                    &&& forall|i: int|
                        0 <= i < old(self).dogs().len() ==> (#[trigger] old(self).dogs()[i]).id
                            != d@.id
                    &&& exists|i: int|
                        #![trigger old(self).breeds()[i]]
                        spec_is_first_breed(old(self).breeds(), dog@.breed, i) && d@
                            == spec_new_dog(d@.id, dog@, old(self).breeds()[i])
                    &&& final(self).dogs() == old(self).dogs().push(d@)
                },
                Err(e) => {
                    &&& final(self).dogs() == old(self).dogs()
                    &&& {
                        ||| (e@.kind == ErrorKind::NotFound && forall|i: int|
                            0 <= i < old(self).breeds().len() ==> !breed_matches(
                                dog@.breed,
                                #[trigger] old(self).breeds()[i],
                            ))
                        ||| e@.kind == ErrorKind::BackendUnavailable
                    }
                },
            },
    ;

    /// Delete every dog under the given id, reporting whether any
    /// existed.
    fn delete_dog(&mut self, id: &str) -> (r: Result<bool, Error>)
        requires
            old(self).wf(),
        ensures
            final(self).wf(),
            final(self).requests() == old(self).requests(),
            final(self).locations() == old(self).locations(),
            final(self).breeds() == old(self).breeds(),
            match r {
                Ok(b) => {
                    &&& final(self).dogs() == spec_remove_dogs(old(self).dogs(), id@)
                    &&& b == spec_dog_exists(old(self).dogs(), id@)
                },
                Err(e) => final(self).dogs() == old(self).dogs() && e@.kind
                    == ErrorKind::BackendUnavailable,
            },
    ;

    /// Apply a partial update to the dog under the given id, reporting
    /// whether anything was modified.
    fn update_dog(&mut self, id: &str, dog: &DogUpdate) -> (r: Result<bool, Error>)
        requires
            old(self).wf(),
        ensures
            final(self).wf(),
            final(self).requests() == old(self).requests(),
            final(self).locations() == old(self).locations(),
            final(self).breeds() == old(self).breeds(),
            match r {
                Ok(b) => {
                    &&& b == (spec_dog_exists(old(self).dogs(), id@)
                        && spec_dog_update_nonempty(dog@))
                    &&& final(self).dogs() == spec_update_dogs(old(self).dogs(), id@, dog@)
                },
                Err(e) => final(self).dogs() == old(self).dogs() && e@.kind
                    == ErrorKind::BackendUnavailable,
            },
    ;

    /// The dogs satisfying the query, paginated.
    fn query_dogs(&self, query: &DogQuery) -> (r: Result<Vec<Dog>, Error>)
        requires
            self.wf(),
        ensures
            match r {
                Ok(v) => {
                    &&& spec_pagination_ok(query@.pagination)
                    &&& v.deep_view() == spec_paginate(
                        spec_filter_dogs(self.dogs(), query@),
                        query@.pagination,
                    )
                },
                Err(e) => {
                    ||| (e@.kind == ErrorKind::ValidationError && !spec_pagination_ok(
                        query@.pagination,
                    ))
                    ||| e@.kind == ErrorKind::BackendUnavailable
                },
            },
    ;

    /// Whether any dog satisfies the query; its pagination plays no part.
    fn exists_dog(&self, query: &DogQuery) -> (r: Result<bool, Error>)
        requires
            self.wf(),
        ensures
            match r {
                Ok(b) => b == spec_any_dog(self.dogs(), query@),
                Err(e) => e@.kind == ErrorKind::BackendUnavailable,
            },
    ;
}

} // verus!
