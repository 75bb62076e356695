//! An in-memory implementation of the persistence port, verified against
//! the port's full contract.  It is the reference store: one process, one
//! collection of walk requests keyed by minted decimal ids, one
//! append-only collection of walking-location samples.

use vstd::pervasive::VecAdditionalExecFns;
use vstd::prelude::*;

use crate::clock;
use crate::entities::{
    Breed, BreedView, Dog, DogView, Gender, WalkRequest, WalkRequestView, WalkingLocation,
    WalkingLocationView,
};
use crate::error::{Error, ErrorKind};
use crate::geo;
use crate::ids;
use crate::repository::{
    breed_matches, contains_all, contains_any, dog_ids, dog_matches, key_before,
    lemma_count_take_succ, lemma_count_zero, remove_str, seq_contains, spec_apply,
    spec_apply_dog_update, spec_breed_exists, spec_count, spec_dog_exists,
    spec_dog_update_nonempty, spec_filter, spec_filter_breeds, spec_filter_dogs,
    spec_gender_of, spec_is_first_breed, spec_is_first_match, spec_matches, spec_new_breed,
    spec_new_dog, spec_new_location, spec_new_request, spec_pagination_ok, spec_query_ok,
    spec_remove_breeds, spec_remove_dogs, spec_results, spec_sort_ok, spec_unique_ids,
    spec_update_all, spec_update_dogs, spec_update_ok, BreedCreate, BreedQuery, DogCreate,
    DogQuery, DogUpdate, Order, Pagination, Repository, SortBy, WalkRequestCreate,
    WalkRequestQuery, WalkRequestUpdate, WalkingLocationCreate,
};

verus! {

// ------------------------------------------------------------------
// String and membership helpers.
// ------------------------------------------------------------------

/// String equality, with its mathematical meaning.
fn string_eq(a: &String, b: &String) -> (r: bool)
    ensures
        r == (a@ == b@),
{
    a.eq(b)
}

/// Equality of a string slice against an owned string.
fn str_eq_string(a: &str, b: &String) -> (r: bool)
    ensures
        r == (a@ == b@),
{
    let owned = a.to_owned();
    owned.eq(b)
}

/// Membership of a string in a vector of strings.
fn vec_contains(v: &Vec<String>, x: &String) -> (r: bool)
    ensures
        r == seq_contains(v.deep_view(), x@),
{
    let mut i: usize = 0;
    while i < v.len()
        invariant
            0 <= i <= v.len(),
            forall|j: int| 0 <= j < i ==> v.deep_view()[j] != x@,
        decreases v.len() - i,
    {
        if string_eq(&v[i], x) {
            assert(v.deep_view()[i as int] == x@);
            return true;
        }
        i += 1;
    }
    false
}

fn vec_contains_all(s: &Vec<String>, xs: &Vec<String>) -> (r: bool)
    ensures
        r == contains_all(s.deep_view(), xs.deep_view()),
{
    let mut i: usize = 0;
    while i < xs.len()
        invariant
            0 <= i <= xs.len(),
            forall|j: int| 0 <= j < i ==> seq_contains(s.deep_view(), #[trigger] xs.deep_view()[j]),
        decreases xs.len() - i,
    {
        if !vec_contains(s, &xs[i]) {
            assert(!seq_contains(s.deep_view(), xs.deep_view()[i as int]));
            return false;
        }
        i += 1;
    }
    true
}

fn vec_contains_any(s: &Vec<String>, xs: &Vec<String>) -> (r: bool)
    ensures
        r == contains_any(s.deep_view(), xs.deep_view()),
{
    let mut i: usize = 0;
    while i < xs.len()
        invariant
            0 <= i <= xs.len(),
            forall|j: int|
                0 <= j < i ==> !seq_contains(s.deep_view(), #[trigger] xs.deep_view()[j]),
        decreases xs.len() - i,
    {
        if vec_contains(s, &xs[i]) {
            assert(seq_contains(s.deep_view(), xs.deep_view()[i as int]));
            return true;
        }
        i += 1;
    }
    false
}

/// Membership of a dog id among a request's embedded dog snapshots.
fn dogs_contain(dogs: &Vec<Dog>, x: &String) -> (r: bool)
    ensures
        r == seq_contains(dog_ids(dogs.deep_view()), x@),
{
    let mut i: usize = 0;
    while i < dogs.len()
        invariant
            0 <= i <= dogs.len(),
            forall|j: int| 0 <= j < i ==> dog_ids(dogs.deep_view())[j] != x@,
        decreases dogs.len() - i,
    {
        if string_eq(&dogs[i].id, x) {
            assert(dog_ids(dogs.deep_view())[i as int] == x@);
            return true;
        }
        i += 1;
    }
    false
}

fn dogs_contain_all(dogs: &Vec<Dog>, xs: &Vec<String>) -> (r: bool)
    ensures
        r == contains_all(dog_ids(dogs.deep_view()), xs.deep_view()),
{
    let mut i: usize = 0;
    while i < xs.len()
        invariant
            0 <= i <= xs.len(),
            forall|j: int|
                0 <= j < i ==> seq_contains(dog_ids(dogs.deep_view()), #[trigger] xs.deep_view()[j]),
        decreases xs.len() - i,
    {
        if !dogs_contain(dogs, &xs[i]) {
            assert(!seq_contains(dog_ids(dogs.deep_view()), xs.deep_view()[i as int]));
            return false;
        }
        i += 1;
    }
    true
}

fn dogs_contain_any(dogs: &Vec<Dog>, xs: &Vec<String>) -> (r: bool)
    ensures
        r == contains_any(dog_ids(dogs.deep_view()), xs.deep_view()),
{
    let mut i: usize = 0;
    while i < xs.len()
        invariant
            0 <= i <= xs.len(),
            forall|j: int|
                0 <= j < i ==> !seq_contains(
                    dog_ids(dogs.deep_view()),
                    #[trigger] xs.deep_view()[j],
                ),
        decreases xs.len() - i,
    {
        if dogs_contain(dogs, &xs[i]) {
            assert(seq_contains(dog_ids(dogs.deep_view()), xs.deep_view()[i as int]));
            return true;
        }
        i += 1;
    }
    false
}

// ------------------------------------------------------------------
// Validation.
// ------------------------------------------------------------------

fn query_ok(query: &WalkRequestQuery) -> (r: bool)
    ensures
        r == spec_query_ok(query@),
{
    match &query.nearby {
        Some(t) => {
            if t.len() != 3 {
                return false;
            }
            geo::coords_ok(t[0], t[1]) && t[2] >= 0
        },
        None => true,
    }
}

fn update_ok(update: &WalkRequestUpdate) -> (r: bool)
    ensures
        r == spec_update_ok(update@),
{
    let lon_ok = match update.longitude {
        Some(x) => -geo::LON_LIMIT <= x && x <= geo::LON_LIMIT,
        None => true,
    };
    let lat_ok = match update.latitude {
        Some(x) => -geo::LAT_LIMIT <= x && x <= geo::LAT_LIMIT,
        None => true,
    };
    lon_ok && lat_ok
}

fn pagination_ok(p: &Option<Pagination>) -> (r: bool)
    ensures
        r == spec_pagination_ok(*p),
{
    match p {
        Some(p) => p.limit >= 0 && p.skip >= 0,
        None => true,
    }
}

fn sort_ok(s: &Option<SortBy>) -> (r: bool)
    ensures
        r == spec_sort_ok(s.deep_view()),
{
    match s {
        Some(s) => str_eq_string("created_at", &s.field),
        None => true,
    }
}

// ------------------------------------------------------------------
// Predicate evaluation.
// ------------------------------------------------------------------

/// Whether a stored request satisfies a well-formed query.
fn query_matches(query: &WalkRequestQuery, r: &WalkRequest) -> (b: bool)
    requires
        spec_query_ok(query@),
        geo::spec_coords_ok(r.longitude as int, r.latitude as int),
    ensures
        b == spec_matches(query@, r@),
{
    if let Some(id) = &query.id {
        if !string_eq(id, &r.id) {
            return false;
        }
    }
    if let Some(ids) = &query.dog_ids_includes_all {
        if !dogs_contain_all(&r.dogs, ids) {
            return false;
        }
    }
    if let Some(ids) = &query.dog_ids_includes_any {
        if !dogs_contain_any(&r.dogs, ids) {
            return false;
        }
    }
    if let Some(w) = &query.accepted_by {
        match &r.accepted_by {
            Some(a) => if !string_eq(w, a) {
                return false;
            },
            None => {
                return false;
            },
        }
    }
    if let Some(w) = &query.accepted_by_neq {
        match &r.accepted_by {
            Some(a) => if string_eq(w, a) {
                return false;
            },
            None => {},
        }
    }
    if let Some(b) = query.accepted_by_is_null {
        if r.accepted_by.is_none() != b {
            return false;
        }
    }
    if let Some(b) = query.canceled_at_is_null {
        if r.canceled_at.is_none() != b {
            return false;
        }
    }
    if let Some(ids) = &query.acceptances_includes_all {
        if !vec_contains_all(&r.acceptances, ids) {
            return false;
        }
    }
    if let Some(ids) = &query.acceptances_includes_any {
        if !vec_contains_any(&r.acceptances, ids) {
            return false;
        }
    }
    if let Some(c) = &query.created_by {
        if !string_eq(c, &r.created_by) {
            return false;
        }
    }
    if let Some(t) = &query.nearby {
        let d = geo::distance_m(t[0], t[1], r.longitude, r.latitude);
        if !(d <= t[2]) {
            return false;
        }
    }
    true
}

// ------------------------------------------------------------------
// Mutation application.
// ------------------------------------------------------------------

/// A vector of strings with every occurrence of `w` removed.
fn remove_all(v: &Vec<String>, w: &String) -> (res: Vec<String>)
    ensures
        res.deep_view() == remove_str(v.deep_view(), w@),
{
    let mut out: Vec<String> = Vec::new();
    let mut i: usize = 0;
    while i < v.len()
        invariant
            0 <= i <= v.len(),
            out.deep_view() == remove_str(v.deep_view().take(i as int), w@),
        decreases v.len() - i,
    {
        proof {
            assert(v.deep_view().take(i + 1).drop_last() =~= v.deep_view().take(i as int));
            assert(v.deep_view().take(i + 1).last() == v.deep_view()[i as int]);
        }
        if !string_eq(&v[i], w) {
            out.push(v[i].clone());
        }
        i += 1;
    }
    proof {
        assert(v.deep_view().take(v.len() as int) =~= v.deep_view());
    }
    out
}

/// The request after a partial update, exactly per the port's mutation
/// semantics.
fn apply_update(update: &WalkRequestUpdate, r: &WalkRequest) -> (res: WalkRequest)
    ensures
        res@ == spec_apply(update@, r@),
{
    let dogs = match &update.dogs {
        Some(d) => d.clone(),
        None => r.dogs.clone(),
    };
    let accepted_by = if update.unset_accepted_by {
        None
    } else {
        match &update.accepted_by {
            Some(w) => Some(w.clone()),
            None => r.accepted_by.clone(),
        }
    };
    let accepted_at = if update.unset_accepted_at {
        None
    } else {
        match update.accepted_at {
            Some(t) => Some(t),
            None => r.accepted_at,
        }
    };
    let mut acceptances = r.acceptances.clone();
    proof {
        assert(acceptances.deep_view() =~= r.acceptances.deep_view());
    }
    if let Some(w) = &update.remove_from_acceptances {
        acceptances = remove_all(&acceptances, w);
    }
    if let Some(w) = &update.add_to_acceptances {
        if !vec_contains(&acceptances, w) {
            acceptances.push(w.clone());
        }
    }
    let res = WalkRequest {
        id: r.id.clone(),
        dogs,
        should_start_after: match update.should_start_after {
            Some(t) => Some(t),
            None => r.should_start_after,
        },
        should_start_before: match update.should_start_before {
            Some(t) => Some(t),
            None => r.should_start_before,
        },
        should_end_after: match update.should_end_after {
            Some(t) => Some(t),
            None => r.should_end_after,
        },
        should_end_before: match update.should_end_before {
            Some(t) => Some(t),
            None => r.should_end_before,
        },
        longitude: match update.longitude {
            Some(x) => x,
            None => r.longitude,
        },
        latitude: match update.latitude {
            Some(x) => x,
            None => r.latitude,
        },
        distance: r.distance,
        canceled_at: match update.canceled_at {
            Some(t) => Some(t),
            None => r.canceled_at,
        },
        accepted_by,
        accepted_at,
        started_at: match update.started_at {
            Some(t) => Some(t),
            None => r.started_at,
        },
        finished_at: match update.finished_at {
            Some(t) => Some(t),
            None => r.finished_at,
        },
        acceptances,
        created_by: r.created_by.clone(),
        created_at: r.created_at,
        updated_at: r.updated_at,
    };
    proof {
        assert(res@.dogs =~= spec_apply(update@, r@).dogs);
        assert(res@.acceptances =~= spec_apply(update@, r@).acceptances);
        assert(res@ =~= spec_apply(update@, r@));
    }
    res
}

// ------------------------------------------------------------------
// Sorting.
// ------------------------------------------------------------------

fn created_le(a: &WalkRequest, b: &WalkRequest) -> (r: bool)
    ensures
        r == (crate::repository::created_key(a@) <= crate::repository::created_key(b@)),
{
    match (a.created_at, b.created_at) {
        (None, _) => true,
        (Some(_), None) => false,
        (Some(x), Some(y)) => x <= y,
    }
}

fn key_before_exec(order: Order, a: &WalkRequest, b: &WalkRequest) -> (r: bool)
    ensures
        r == key_before(order, a@, b@),
{
    match order {
        Order::Asc => created_le(a, b),
        Order::Desc => created_le(b, a),
    }
}

/// Where the insertion lands: before the first element the new record may
/// stand before.
proof fn lemma_insert_sorted_at(
    s: Seq<WalkRequestView>,
    r: WalkRequestView,
    order: Order,
    k: int,
)
    requires
        0 <= k <= s.len(),
        forall|j: int| #![trigger s[j]] 0 <= j < k ==> !key_before(order, r, s[j]),
        k < s.len() ==> key_before(order, r, s[k]),
    ensures
        crate::repository::spec_insert_sorted(s, r, order) == s.take(k) + seq![r] + s.skip(k),
    decreases k,
{
    if k == 0 {
        if s.len() == 0 {
            assert(crate::repository::spec_insert_sorted(s, r, order) =~= s.take(0) + seq![r]
                + s.skip(0));
        } else {
            assert(crate::repository::spec_insert_sorted(s, r, order) =~= s.take(0) + seq![r]
                + s.skip(0));
        }
    } else {
        let d = s.drop_first();
        assert(!key_before(order, r, s[0]));
        assert(forall|j: int| #![trigger d[j]] 0 <= j < k - 1 ==> d[j] == s[j + 1]);
        lemma_insert_sorted_at(d, r, order, k - 1);
        assert(seq![s[0]] + (d.take(k - 1) + seq![r] + d.skip(k - 1)) =~= s.take(k) + seq![r]
            + s.skip(k));
    }
}

/// Insertion sort on the creation timestamp, exactly the port's
/// deterministic sort.
fn insertion_sort(v: Vec<WalkRequest>, order: Order) -> (res: Vec<WalkRequest>)
    ensures
        res.deep_view() == crate::repository::spec_sort(v.deep_view(), order),
{
    let ghost s = v.deep_view();
    let mut out: Vec<WalkRequest> = Vec::new();
    let mut j: usize = 0;
    proof {
        assert(out.deep_view() =~= crate::repository::spec_sort(s.take(0), order));
    }
    while j < v.len()
        invariant
            0 <= j <= v.len(),
            s == v.deep_view(),
            out.deep_view() == crate::repository::spec_sort(s.take(j as int), order),
            out.len() == j,
        decreases v.len() - j,
    {
        let item = v[j].clone();
        let ghost prev = out.deep_view();
        let mut k: usize = 0;
        while k < out.len() && !key_before_exec(order, &item, &out[k])
            invariant
                0 <= k <= out.len(),
                out.deep_view() == prev,
                out.len() == prev.len(),
                item@ == s[j as int],
                forall|m: int| #![trigger prev[m]] 0 <= m < k ==> !key_before(order, item@, prev[m]),
            decreases out.len() - k,
        {
            k += 1;
        }
        proof {
            lemma_insert_sorted_at(prev, item@, order, k as int);
        }
        out.insert(k, item);
        proof {
            assert(out.deep_view() =~= prev.take(k as int) + seq![s[j as int]] + prev.skip(
                k as int,
            ));
            assert(s.take(j + 1).drop_last() =~= s.take(j as int));
            assert(s.take(j + 1).last() == s[j as int]);
            assert(out.deep_view() == crate::repository::spec_insert_sorted(
                crate::repository::spec_sort(s.take(j as int), order),
                s[j as int],
                order,
            ));
        }
        j += 1;
    }
    proof {
        assert(s.take(v.len() as int) =~= s);
    }
    out
}

/// Skip, then limit.
fn paginate(v: Vec<WalkRequest>, p: &Option<Pagination>) -> (res: Vec<WalkRequest>)
    requires
        spec_pagination_ok(*p),
    ensures
        res.deep_view() == crate::repository::spec_paginate(v.deep_view(), *p),
{
    match p {
        None => v,
        Some(p) => {
            let len_u: u64 = v.len() as u64;
            let skip_u: u64 = p.skip as u64;
            if skip_u >= len_u {
                let out: Vec<WalkRequest> = Vec::new();
                proof {
                    assert(out.deep_view() =~= Seq::<WalkRequestView>::empty());
                }
                return out;
            }
            let start: usize = p.skip as usize;
            let limit_u: u64 = p.limit as u64;
            let end: usize = if limit_u >= len_u - skip_u {
                v.len()
            } else {
                start + (p.limit as usize)
            };
            let mut out: Vec<WalkRequest> = Vec::new();
            let mut i: usize = start;
            proof {
                assert(out.deep_view() =~= v.deep_view().subrange(start as int, start as int));
            }
            while i < end
                invariant
                    start <= i <= end <= v.len(),
                    out.deep_view() == v.deep_view().subrange(start as int, i as int),
                decreases end - i,
            {
                let ghost opre = out.deep_view();
                let item = v[i].clone();
                proof {
                    assert(item@ == v.deep_view()[i as int]);
                }
                out.push(item);
                proof {
                    assert(out.deep_view() =~= opre.push(v.deep_view()[i as int]));
                    assert(out.deep_view() =~= v.deep_view().subrange(start as int, i + 1));
                }
                i += 1;
            }
            proof {
                if p.skip + p.limit <= v.deep_view().len() {
                    assert(out.deep_view() == v.deep_view().subrange(
                        p.skip as int,
                        p.skip as int + p.limit as int,
                    ));
                } else {
                    assert(out.deep_view() == v.deep_view().subrange(
                        p.skip as int,
                        v.deep_view().len() as int,
                    ));
                }
            }
            out
        },
    }
}


// ------------------------------------------------------------------
// Reference-data helpers.
// ------------------------------------------------------------------

fn breed_query_matches(q: &BreedQuery, b: &Breed) -> (r: bool)
    ensures
        r == breed_matches(q@, b@),
{
    if let Some(id) = &q.id {
        if !string_eq(id, &b.id) {
            return false;
        }
    }
    if let Some(c) = q.category {
        if !(c == b.category) {
            return false;
        }
    }
    if let Some(n) = &q.name {
        if !string_eq(n, &b.name) {
            return false;
        }
    }
    true
}

fn dog_query_matches(q: &DogQuery, d: &Dog) -> (r: bool)
    ensures
        r == dog_matches(q@, d@),
{
    if let Some(id) = &q.id {
        if !string_eq(id, &d.id) {
            return false;
        }
    }
    if let Some(ids) = &q.id_in {
        if !vec_contains(ids, &d.id) {
            return false;
        }
    }
    if let Some(o) = &q.owner_id {
        if !string_eq(o, &d.owner_id) {
            return false;
        }
    }
    true
}

fn gender_of(g: &String) -> (r: Gender)
    ensures
        r == spec_gender_of(g@),
{
    let male = "Male".to_owned();
    let female = "Female".to_owned();
    if string_eq(g, &male) {
        Gender::Male
    } else if string_eq(g, &female) {
        Gender::Female
    } else {
        Gender::Other
    }
}

fn dog_update_nonempty(u: &DogUpdate) -> (r: bool)
    ensures
        r == spec_dog_update_nonempty(u@),
{
    u.name.is_some() || u.gender.is_some() || u.breed.is_some() || u.birthday.is_some()
        || u.is_sterilized.is_some() || u.introduction.is_some() || u.owner_id.is_some()
        || u.tags.is_some() || u.portrait_id.is_some()
}

/// The dog after a partial update, exactly per the port's semantics.
fn apply_dog_update(u: &DogUpdate, d: &Dog) -> (res: Dog)
    ensures
        res@ == spec_apply_dog_update(u@, d@),
{
    let res = Dog {
        id: d.id.clone(),
        name: match &u.name {
            Some(n) => n.clone(),
            None => d.name.clone(),
        },
        gender: match &u.gender {
            Some(g) => gender_of(g),
            None => d.gender,
        },
        breed: match &u.breed {
            Some(b) => b.clone(),
            None => d.breed.clone(),
        },
        birthday: match u.birthday {
            Some(b) => b,
            None => d.birthday,
        },
        owner_id: match &u.owner_id {
            Some(o) => o.clone(),
            None => d.owner_id.clone(),
        },
        tags: match &u.tags {
            Some(t) => t.clone(),
            None => d.tags.clone(),
        },
        portrait_id: match &u.portrait_id {
            Some(p) => Some(p.clone()),
            None => d.portrait_id.clone(),
        },
    };
    proof {
        assert(res@.tags =~= spec_apply_dog_update(u@, d@).tags);
        assert(res@ =~= spec_apply_dog_update(u@, d@));
    }
    res
}

/// Skip, then limit, over a vector of dogs.
fn paginate_dogs(v: Vec<Dog>, p: &Option<Pagination>) -> (res: Vec<Dog>)
    requires
        spec_pagination_ok(*p),
    ensures
        res.deep_view() == crate::repository::spec_paginate(v.deep_view(), *p),
{
    match p {
        None => v,
        Some(p) => {
            let len_u: u64 = v.len() as u64;
            let skip_u: u64 = p.skip as u64;
            if skip_u >= len_u {
                let out: Vec<Dog> = Vec::new();
                proof {
                    assert(out.deep_view() =~= Seq::<DogView>::empty());
                }
                return out;
            }
            let start: usize = p.skip as usize;
            let limit_u: u64 = p.limit as u64;
            let end: usize = if limit_u >= len_u - skip_u {
                v.len()
            } else {
                start + (p.limit as usize)
            };
            let mut out: Vec<Dog> = Vec::new();
            let mut i: usize = start;
            proof {
                assert(out.deep_view() =~= v.deep_view().subrange(start as int, start as int));
            }
            while i < end
                invariant
                    start <= i <= end <= v.len(),
                    out.deep_view() == v.deep_view().subrange(start as int, i as int),
                decreases end - i,
            {
                let ghost opre = out.deep_view();
                let item = v[i].clone();
                proof {
                    assert(item@ == v.deep_view()[i as int]);
                }
                out.push(item);
                proof {
                    assert(out.deep_view() =~= opre.push(v.deep_view()[i as int]));
                    assert(out.deep_view() =~= v.deep_view().subrange(start as int, i + 1));
                }
                i += 1;
            }
            proof {
                if p.skip + p.limit <= v.deep_view().len() {
                    assert(out.deep_view() == v.deep_view().subrange(
                        p.skip as int,
                        p.skip as int + p.limit as int,
                    ));
                } else {
                    assert(out.deep_view() == v.deep_view().subrange(
                        p.skip as int,
                        v.deep_view().len() as int,
                    ));
                }
            }
            out
        },
    }
}

/// Every record of the removal's result comes from the input and carries
/// another id.
proof fn lemma_remove_breeds_membership(s: Seq<BreedView>, id: Seq<char>)
    ensures
        forall|j: int|
            #![trigger spec_remove_breeds(s, id)[j]]
            0 <= j < spec_remove_breeds(s, id).len() ==> spec_remove_breeds(s, id)[j].id != id
                && exists|i: int| 0 <= i < s.len() && #[trigger] s[i] == spec_remove_breeds(s, id)[j],
    decreases s.len(),
{
    if s.len() > 0 {
        let p = s.drop_last();
        lemma_remove_breeds_membership(p, id);
        assert(forall|i: int| 0 <= i < p.len() ==> #[trigger] p[i] == s[i]);
        let rp = spec_remove_breeds(p, id);
        let rs = spec_remove_breeds(s, id);
        assert forall|j: int|
            #![trigger rs[j]]
            0 <= j < rs.len() implies rs[j].id != id && exists|i: int|
            0 <= i < s.len() && #[trigger] s[i] == rs[j] by {
            if j < rp.len() {
                assert(rs[j] == rp[j]);
                let i = choose|i: int| 0 <= i < p.len() && #[trigger] p[i] == rp[j];
                assert(s[i] == rs[j]);
            } else {
                assert(rs[j] == s[s.len() - 1]);
            }
        }
    }
}

proof fn lemma_remove_dogs_membership(s: Seq<DogView>, id: Seq<char>)
    ensures
        forall|j: int|
            #![trigger spec_remove_dogs(s, id)[j]]
            0 <= j < spec_remove_dogs(s, id).len() ==> spec_remove_dogs(s, id)[j].id != id
                && exists|i: int| 0 <= i < s.len() && #[trigger] s[i] == spec_remove_dogs(s, id)[j],
    decreases s.len(),
{
    if s.len() > 0 {
        let p = s.drop_last();
        lemma_remove_dogs_membership(p, id);
        assert(forall|i: int| 0 <= i < p.len() ==> #[trigger] p[i] == s[i]);
        let rp = spec_remove_dogs(p, id);
        let rs = spec_remove_dogs(s, id);
        assert forall|j: int|
            #![trigger rs[j]]
            0 <= j < rs.len() implies rs[j].id != id && exists|i: int|
            0 <= i < s.len() && #[trigger] s[i] == rs[j] by {
            if j < rp.len() {
                assert(rs[j] == rp[j]);
                let i = choose|i: int| 0 <= i < p.len() && #[trigger] p[i] == rp[j];
                assert(s[i] == rs[j]);
            } else {
                assert(rs[j] == s[s.len() - 1]);
            }
        }
    }
}

/// Removal keeps distinct dog ids distinct.
proof fn lemma_remove_dogs_unique(s: Seq<DogView>, id: Seq<char>)
    requires
        forall|i: int, j: int|
            #![trigger s[i], s[j]]
            0 <= i < j < s.len() ==> s[i].id != s[j].id,
    ensures
        forall|i: int, j: int|
            #![trigger spec_remove_dogs(s, id)[i], spec_remove_dogs(s, id)[j]]
            0 <= i < j < spec_remove_dogs(s, id).len() ==> spec_remove_dogs(s, id)[i].id
                != spec_remove_dogs(s, id)[j].id,
    decreases s.len(),
{
    if s.len() > 0 {
        let p = s.drop_last();
        assert(forall|i: int| 0 <= i < p.len() ==> #[trigger] p[i] == s[i]);
        lemma_remove_dogs_unique(p, id);
        lemma_remove_dogs_membership(p, id);
        let rp = spec_remove_dogs(p, id);
        let rs = spec_remove_dogs(s, id);
        if s.last().id != id {
            assert(rs == rp.push(s.last()));
            assert forall|i: int, j: int|
                #![trigger rs[i], rs[j]]
                0 <= i < j < rs.len() implies rs[i].id != rs[j].id by {
                if j < rp.len() {
                    assert(rs[i] == rp[i] && rs[j] == rp[j]);
                } else {
                    assert(rs[i] == rp[i] && rs[j] == s[s.len() - 1]);
                    let k = choose|k: int| 0 <= k < p.len() && #[trigger] p[k] == rp[i];
                    assert(s[k].id != s[s.len() - 1].id);
                }
            }
        }
    }
}

// ------------------------------------------------------------------
// The store.
// ------------------------------------------------------------------

/// The in-memory persistence port.
pub struct MemoryRepository {
    requests: Vec<WalkRequest>,
    locations: Vec<WalkingLocation>,
    breeds: Vec<Breed>,
    dogs: Vec<Dog>,
    next_request_id: u64,
    next_location_id: u64,
    next_breed_id: u64,
    next_dog_id: u64,
}

impl MemoryRepository {
    /// An empty store.
    pub fn new() -> (r: Self)
        ensures
            r.wf(),
            r.requests() == Seq::<WalkRequestView>::empty(),
            r.locations() == Seq::<WalkingLocationView>::empty(),
            r.breeds() == Seq::<BreedView>::empty(),
            r.dogs() == Seq::<DogView>::empty(),
    {
        let r = MemoryRepository {
            requests: Vec::new(),
            locations: Vec::new(),
            breeds: Vec::new(),
            dogs: Vec::new(),
            next_request_id: 0,
            next_location_id: 0,
            next_breed_id: 0,
            next_dog_id: 0,
        };
        proof {
            assert(r.requests.deep_view() =~= Seq::<WalkRequestView>::empty());
            assert(r.locations.deep_view() =~= Seq::<WalkingLocationView>::empty());
            assert(r.breeds.deep_view() =~= Seq::<BreedView>::empty());
            assert(r.dogs.deep_view() =~= Seq::<DogView>::empty());
        }
        r
    }

    /// Every stored id was minted from a counter value below the next one.
    spec fn ids_minted(self) -> bool {
        forall|i: int|
            0 <= i < self.requests.deep_view().len() ==> exists|k: nat|
                k < self.next_request_id && (#[trigger] self.requests.deep_view()[i]).id
                    == ids::spec_decimal(k)
    }

    /// Every stored breed id was minted from a counter value below the
    /// next one.
    spec fn breed_ids_minted(self) -> bool {
        forall|i: int|
            0 <= i < self.breeds.deep_view().len() ==> exists|k: nat|
                k < self.next_breed_id && (#[trigger] self.breeds.deep_view()[i]).id
                    == ids::spec_decimal(k)
    }

    /// Every stored dog id was minted from a counter value below the next
    /// one.
    spec fn dog_ids_minted(self) -> bool {
        forall|i: int|
            0 <= i < self.dogs.deep_view().len() ==> exists|k: nat|
                k < self.next_dog_id && (#[trigger] self.dogs.deep_view()[i]).id
                    == ids::spec_decimal(k)
    }

    /// No two stored dogs share an id.
    spec fn unique_dog_ids(self) -> bool {
        forall|i: int, j: int|
            #![trigger self.dogs.deep_view()[i], self.dogs.deep_view()[j]]
            0 <= i < j < self.dogs.deep_view().len() ==> self.dogs.deep_view()[i].id
                != self.dogs.deep_view()[j].id
    }

    /// Every stored coordinate pair is in the legal range.
    spec fn coords_stored_ok(self) -> bool {
        forall|i: int|
            0 <= i < self.requests.deep_view().len() ==> geo::spec_coords_ok(
                (#[trigger] self.requests.deep_view()[i]).longitude as int,
                self.requests.deep_view()[i].latitude as int,
            )
    }
}

impl Repository for MemoryRepository {
    closed spec fn wf(&self) -> bool {
        &&& self.ids_minted()
        &&& self.coords_stored_ok()
        &&& spec_unique_ids(self.requests.deep_view())
        &&& self.breed_ids_minted()
        &&& self.dog_ids_minted()
        &&& self.unique_dog_ids()
    }

    closed spec fn requests(&self) -> Seq<WalkRequestView> {
        self.requests.deep_view()
    }

    closed spec fn locations(&self) -> Seq<WalkingLocationView> {
        self.locations.deep_view()
    }

    closed spec fn breeds(&self) -> Seq<BreedView> {
        self.breeds.deep_view()
    }

    closed spec fn dogs(&self) -> Seq<DogView> {
        self.dogs.deep_view()
    }

    proof fn wf_unique_ids(&self) {
    }

    #[verifier::spinoff_prover]
    #[verifier::rlimit(100)]
    fn create_walk_request(&mut self, request: WalkRequestCreate) -> (r: Result<String, Error>) {
        if !geo::coords_ok(request.longitude, request.latitude) {
            return Err(Error::tagged(ErrorKind::ValidationError, "coordinates out of range"));
        }
        if self.next_request_id == u64::MAX {
            return Err(Error::new("id space exhausted"));
        }
        let ghost c = request@;
        let ghost s0 = self.requests.deep_view();
        proof {
            assert(c == request@);
            assert(s0 == old(self).requests());
        }
        let id = ids::decimal_string(self.next_request_id);
        let now = clock::now_millis();
        let req = WalkRequest {
            id: id.clone(),
            dogs: request.dogs,
            should_start_after: request.should_start_after,
            should_start_before: request.should_start_before,
            should_end_after: request.should_end_after,
            should_end_before: request.should_end_before,
            longitude: request.longitude,
            latitude: request.latitude,
            distance: None,
            canceled_at: None,
            accepted_by: None,
            accepted_at: None,
            started_at: None,
            finished_at: None,
            acceptances: Vec::new(),
            created_by: request.created_by,
            created_at: Some(now),
            updated_at: Some(now),
        };
        proof {
            assert(req@.acceptances =~= Seq::<Seq<char>>::empty());
            assert(req@.dogs =~= c.dogs);
            assert(req@ =~= spec_new_request(id@, c, now));
            assert forall|i: int| 0 <= i < s0.len() implies (#[trigger] s0[i]).id != id@ by {
                if s0[i].id == id@ {
                    let k = choose|k: nat|
                        k < self.next_request_id && s0[i].id == ids::spec_decimal(k);
                    ids::lemma_decimal_injective(k, self.next_request_id as nat);
                }
            }
        }
        let ghost old_next = self.next_request_id;
        self.requests.push(req);
        self.next_request_id = self.next_request_id + 1;
        proof {
            let s1 = self.requests.deep_view();
            assert(s1 =~= s0.push(spec_new_request(id@, c, now)));
            assert(0 <= now && self.requests.deep_view() == old(self).requests().push(
                spec_new_request(id@, request@, now),
            ));
            assert forall|i: int|
                0 <= i < self.requests.deep_view().len() implies exists|k: nat|
                k < self.next_request_id && (#[trigger] self.requests.deep_view()[i]).id
                    == ids::spec_decimal(k) by {
                if i < s0.len() {
                    let k = choose|k: nat| k < old_next && s0[i].id == ids::spec_decimal(k);
                    assert(k < self.next_request_id && s1[i].id == ids::spec_decimal(k));
                } else {
                    assert(s1[i].id == ids::spec_decimal(old_next as nat));
                    assert((old_next as nat) < self.next_request_id);
                }
            }
            assert(spec_unique_ids(s1));
            assert forall|i: int|
                0 <= i < self.requests.deep_view().len() implies geo::spec_coords_ok(
                (#[trigger] self.requests.deep_view()[i]).longitude as int,
                self.requests.deep_view()[i].latitude as int,
            ) by {
                if i < s0.len() {
                    assert(s1[i] == s0[i]);
                } else {
                    assert(s1[i] == spec_new_request(id@, c, now));
                }
            }
            assert(self.wf());
            assert(crate::repository::spec_created(
                old(self).requests(),
                self.requests.deep_view(),
                request@,
                id@,
            ));
        }
        Ok(id)
    }

    fn get_walk_request(&self, id: &str) -> (r: Result<WalkRequest, Error>) {
        let mut i: usize = 0;
        while i < self.requests.len()
            invariant
                0 <= i <= self.requests.len(),
                forall|j: int|
                    0 <= j < i ==> (#[trigger] self.requests.deep_view()[j]).id != id@,
            decreases self.requests.len() - i,
        {
            if str_eq_string(id, &self.requests[i].id) {
                let found = self.requests[i].clone();
                assert(self.requests.deep_view()[i as int] == found@);
                return Ok(found);
            }
            i += 1;
        }
        Err(Error::tagged(ErrorKind::NotFound, "walk request not found"))
    }

    fn update_walk_request_by_query(
        &mut self,
        query: WalkRequestQuery,
        update: WalkRequestUpdate,
    ) -> (r: Result<WalkRequest, Error>) {
        if !query_ok(&query) || !update_ok(&update) {
            return Err(Error::tagged(ErrorKind::ValidationError, "malformed query or update"));
        }
        let ghost s0 = self.requests.deep_view();
        let mut i: usize = 0;
        while i < self.requests.len()
            invariant
                0 <= i <= self.requests.len(),
                *self == *old(self),
                s0 == self.requests.deep_view(),
                old(self).wf(),
                spec_query_ok(query@),
                spec_update_ok(update@),
                forall|j: int| 0 <= j < i ==> !spec_matches(query@, #[trigger] s0[j]),
            decreases self.requests.len() - i,
        {
            if query_matches(&query, &self.requests[i]) {
                let updated = apply_update(&update, &self.requests[i]);
                let result = updated.clone();
                let ghost ri = s0[i as int];
                self.requests.set(i, updated);
                proof {
                    let s1 = self.requests.deep_view();
                    assert(s1 =~= s0.update(i as int, spec_apply(update@, ri)));
                    assert(spec_is_first_match(old(self).requests(), query@, i as int)
                        && self.requests.deep_view() == old(self).requests().update(
                        i as int,
                        spec_apply(update@, old(self).requests()[i as int]),
                    ) && result@ == spec_apply(update@, old(self).requests()[i as int]));
                    assert(crate::repository::spec_updated_one(
                        old(self).requests(),
                        self.requests.deep_view(),
                        query@,
                        update@,
                        result@,
                    ));
                    assert forall|j: int| 0 <= j < s1.len() implies (#[trigger] s1[j]).id
                        == s0[j].id by {}
                    assert(spec_unique_ids(s1));
                    assert forall|j: int| 0 <= j < s1.len() implies geo::spec_coords_ok(
                        (#[trigger] s1[j]).longitude as int,
                        s1[j].latitude as int,
                    ) by {
                        assert(geo::spec_coords_ok(s0[j].longitude as int, s0[j].latitude as int));
                    }
                    assert forall|j: int| 0 <= j < s1.len() implies exists|k: nat|
                        k < self.next_request_id && (#[trigger] s1[j]).id == ids::spec_decimal(
                            k,
                        ) by {
                        let k = choose|k: nat|
                            k < old(self).next_request_id && s0[j].id == ids::spec_decimal(k);
                        assert(k < self.next_request_id && s1[j].id == ids::spec_decimal(k));
                    }
                }
                return Ok(result);
            }
            i += 1;
        }
        proof {
            lemma_count_zero(s0, query@);
        }
        Err(Error::tagged(ErrorKind::NotFound, "walk request not found"))
    }

    fn update_walk_requests_by_query(
        &mut self,
        query: WalkRequestQuery,
        update: WalkRequestUpdate,
    ) -> (r: Result<u64, Error>) {
        if !query_ok(&query) || !update_ok(&update) {
            return Err(Error::tagged(ErrorKind::ValidationError, "malformed query or update"));
        }
        let ghost s0 = self.requests.deep_view();
        let mut n: u64 = 0;
        let mut i: usize = 0;
        proof {
            assert(s0.take(0) =~= Seq::<WalkRequestView>::empty());
            assert(s0 == old(self).requests());
            assert forall|j: int| 0 <= j < s0.len() implies geo::spec_coords_ok(
                (#[trigger] s0[j]).longitude as int,
                s0[j].latitude as int,
            ) by {}
        }
        while i < self.requests.len()
            invariant
                0 <= i <= self.requests.len(),
                self.requests.len() == s0.len(),
                self.locations == old(self).locations,
                self.breeds == old(self).breeds,
                self.dogs == old(self).dogs,
                self.next_request_id == old(self).next_request_id,
                self.next_location_id == old(self).next_location_id,
                self.next_breed_id == old(self).next_breed_id,
                self.next_dog_id == old(self).next_dog_id,
                old(self).wf(),
                s0 == old(self).requests(),
                spec_query_ok(query@),
                spec_update_ok(update@),
                n <= i,
                n as nat == spec_count(s0.take(i as int), query@),
                forall|j: int|
                    0 <= j < s0.len() ==> geo::spec_coords_ok(
                        (#[trigger] s0[j]).longitude as int,
                        s0[j].latitude as int,
                    ),
                forall|j: int|
                    i <= j < s0.len() ==> #[trigger] self.requests.deep_view()[j] == s0[j],
                forall|j: int|
                    0 <= j < i ==> #[trigger] self.requests.deep_view()[j] == (if spec_matches(
                        query@,
                        s0[j],
                    ) {
                        spec_apply(update@, s0[j])
                    } else {
                        s0[j]
                    }),
            decreases self.requests.len() - i,
        {
            let ghost pre = self.requests.deep_view();
            proof {
                assert(pre[i as int] == s0[i as int]);
                assert(geo::spec_coords_ok(
                    s0[i as int].longitude as int,
                    s0[i as int].latitude as int,
                ));
            }
            let matched = query_matches(&query, &self.requests[i]);
            if matched {
                let updated = apply_update(&update, &self.requests[i]);
                proof {
                    assert(updated@ == spec_apply(update@, s0[i as int]));
                }
                self.requests.set(i, updated);
                n += 1;
                proof {
                    assert(self.requests.deep_view() =~= pre.update(
                        i as int,
                        spec_apply(update@, s0[i as int]),
                    ));
                }
            }
            proof {
                lemma_count_take_succ(s0, query@, i as int);
                assert forall|j: int|
                    i + 1 <= j < s0.len() implies #[trigger] self.requests.deep_view()[j]
                    == s0[j] by {
                    assert(pre[j] == s0[j]);
                }
            }
            i += 1;
        }
        proof {
            assert(s0.take(s0.len() as int) =~= s0);
            let s1 = self.requests.deep_view();
            assert(s1 =~= spec_update_all(s0, query@, update@));
            assert(self.requests.deep_view() == spec_update_all(
                old(self).requests(),
                query@,
                update@,
            ));
            assert forall|j: int| 0 <= j < s1.len() implies (#[trigger] s1[j]).id == s0[j].id
                by {}
            assert(spec_unique_ids(s1));
            assert forall|j: int| 0 <= j < s1.len() implies geo::spec_coords_ok(
                (#[trigger] s1[j]).longitude as int,
                s1[j].latitude as int,
            ) by {
                assert(geo::spec_coords_ok(s0[j].longitude as int, s0[j].latitude as int));
            }
            assert forall|j: int| 0 <= j < s1.len() implies exists|k: nat|
                k < self.next_request_id && (#[trigger] s1[j]).id == ids::spec_decimal(k) by {
                let k = choose|k: nat|
                    k < old(self).next_request_id && s0[j].id == ids::spec_decimal(k);
                assert(k < self.next_request_id && s1[j].id == ids::spec_decimal(k));
            }
        }
        Ok(n)
    }

    fn query_walk_requests(
        &self,
        query: WalkRequestQuery,
        sort_by: Option<SortBy>,
        pagination: Option<Pagination>,
    ) -> (r: Result<Vec<WalkRequest>, Error>) {
        if !query_ok(&query) || !sort_ok(&sort_by) || !pagination_ok(&pagination) {
            return Err(Error::tagged(ErrorKind::ValidationError, "malformed query"));
        }
        let ghost s = self.requests.deep_view();
        let ghost q = query@;
        let mut out: Vec<WalkRequest> = Vec::new();
        let mut i: usize = 0;
        proof {
            assert(s.take(0) =~= Seq::<WalkRequestView>::empty());
            assert(out.deep_view() =~= spec_results(s.take(0), q));
            assert forall|j: int| 0 <= j < s.len() implies geo::spec_coords_ok(
                (#[trigger] s[j]).longitude as int,
                s[j].latitude as int,
            ) by {}
        }
        while i < self.requests.len()
            invariant
                0 <= i <= self.requests.len(),
                s == self.requests.deep_view(),
                spec_query_ok(q),
                q == query@,
                forall|j: int|
                    0 <= j < s.len() ==> geo::spec_coords_ok(
                        (#[trigger] s[j]).longitude as int,
                        s[j].latitude as int,
                    ),
                out.deep_view() == spec_results(s.take(i as int), q),
            decreases self.requests.len() - i,
        {
            proof {
                assert(s.take(i + 1).drop_last() =~= s.take(i as int));
                assert(s.take(i + 1).last() == s[i as int]);
            }
            let ghost fpre = spec_filter(s.take(i as int), q);
            if query_matches(&query, &self.requests[i]) {
                let mut rec = self.requests[i].clone();
                match &query.nearby {
                    Some(t) => {
                        let d = geo::distance_m(t[0], t[1], rec.longitude, rec.latitude);
                        rec.distance = Some(d);
                    },
                    None => {},
                }
                proof {
                    assert(rec@ =~= crate::repository::spec_annotate(q, s[i as int]));
                }
                let ghost opre = out.deep_view();
                let ghost recv = rec@;
                out.push(rec);
                proof {
                    assert(out.deep_view() =~= opre.push(recv));
                    assert(spec_filter(s.take(i + 1), q) == fpre.push(s[i as int]));
                    assert(out.deep_view() =~= spec_results(s.take(i + 1), q));
                }
            } else {
                proof {
                    assert(spec_filter(s.take(i + 1), q) == fpre);
                    assert(out.deep_view() =~= spec_results(s.take(i + 1), q));
                }
            }
            i += 1;
        }
        proof {
            assert(s.take(self.requests.len() as int) =~= s);
            assert(out.deep_view() == spec_results(s, q));
        }
        let sorted = match &sort_by {
            Some(sb) => insertion_sort(out, sb.order),
            None => out,
        };
        proof {
            assert(sorted.deep_view() == crate::repository::spec_apply_sort(
                spec_results(s, q),
                sort_by.deep_view(),
            ));
        }
        let paged = paginate(sorted, &pagination);
        Ok(paged)
    }

    #[verifier::spinoff_prover]
    #[verifier::rlimit(100)]
    fn create_walking_location(&mut self, create: WalkingLocationCreate) -> (r: Result<
        String,
        Error,
    >) {
        if !geo::coords_ok(create.longitude, create.latitude) {
            return Err(Error::tagged(ErrorKind::ValidationError, "coordinates out of range"));
        }
        if self.next_location_id == u64::MAX {
            return Err(Error::new("id space exhausted"));
        }
        let ghost cv = create@;
        let ghost l0 = self.locations.deep_view();
        proof {
            assert(cv == create@);
            assert(l0 == old(self).locations());
        }
        let id = ids::decimal_string(self.next_location_id);
        let now = clock::now_millis();
        let loc = WalkingLocation {
            id: id.clone(),
            request_id: create.walk_request_id,
            longitude: create.longitude,
            latitude: create.latitude,
            created_at: now,
        };
        proof {
            assert(loc@ =~= spec_new_location(id@, cv, now));
        }
        self.locations.push(loc);
        self.next_location_id = self.next_location_id + 1;
        proof {
            assert(self.locations.deep_view() =~= l0.push(spec_new_location(id@, cv, now)));
            assert(0 <= now && self.locations.deep_view() == old(self).locations().push(
                spec_new_location(id@, create@, now),
            ));
            assert(self.wf());
            assert(crate::repository::spec_location_created(
                old(self).locations(),
                self.locations.deep_view(),
                create@,
                id@,
            ));
        }
        Ok(id)
    }

    fn create_breed(&mut self, breed: &BreedCreate) -> (r: Result<String, Error>) {
        if self.next_breed_id == u64::MAX {
            return Err(Error::new("id space exhausted"));
        }
        let ghost b0 = self.breeds.deep_view();
        proof {
            assert(b0 == old(self).breeds());
        }
        let id = ids::decimal_string(self.next_breed_id);
        let rec = Breed { id: id.clone(), category: breed.category, name: breed.name.clone() };
        proof {
            assert(rec@ =~= spec_new_breed(id@, breed@));
            assert forall|i: int| 0 <= i < b0.len() implies (#[trigger] b0[i]).id != id@ by {
                if b0[i].id == id@ {
                    let k = choose|k: nat|
                        k < self.next_breed_id && b0[i].id == ids::spec_decimal(k);
                    ids::lemma_decimal_injective(k, self.next_breed_id as nat);
                }
            }
        }
        let ghost old_next = self.next_breed_id;
        self.breeds.push(rec);
        self.next_breed_id = self.next_breed_id + 1;
        proof {
            let b1 = self.breeds.deep_view();
            assert(b1 =~= b0.push(spec_new_breed(id@, breed@)));
            assert(self.breeds.deep_view() == old(self).breeds().push(
                spec_new_breed(id@, breed@),
            ));
            assert forall|i: int|
                0 <= i < self.breeds.deep_view().len() implies exists|k: nat|
                k < self.next_breed_id && (#[trigger] self.breeds.deep_view()[i]).id
                    == ids::spec_decimal(k) by {
                if i < b0.len() {
                    let k = choose|k: nat| k < old_next && b0[i].id == ids::spec_decimal(k);
                    assert(k < self.next_breed_id && b1[i].id == ids::spec_decimal(k));
                } else {
                    assert(b1[i].id == ids::spec_decimal(old_next as nat));
                    assert((old_next as nat) < self.next_breed_id);
                }
            }
            assert(self.wf());
        }
        Ok(id)
    }

    fn delete_breed(&mut self, id: &str) -> (r: Result<bool, Error>) {
        let ghost b0 = self.breeds.deep_view();
        proof {
            assert(b0 == old(self).breeds());
        }
        let mut out: Vec<Breed> = Vec::new();
        let mut found = false;
        let mut i: usize = 0;
        proof {
            assert(out.deep_view() =~= spec_remove_breeds(b0.take(0), id@));
        }
        while i < self.breeds.len()
            invariant
                0 <= i <= self.breeds.len(),
                b0 == self.breeds.deep_view(),
                *self == *old(self),
                old(self).wf(),
                out.deep_view() == spec_remove_breeds(b0.take(i as int), id@),
                found == exists|j: int| 0 <= j < i && (#[trigger] b0[j]).id == id@,
            decreases self.breeds.len() - i,
        {
            proof {
                assert(b0.take(i + 1).drop_last() =~= b0.take(i as int));
                assert(b0.take(i + 1).last() == b0[i as int]);
            }
            let ghost opre = out.deep_view();
            if str_eq_string(id, &self.breeds[i].id) {
                found = true;
                assert(b0[i as int].id == id@);
            } else {
                let item = self.breeds[i].clone();
                proof {
                    assert(item@ == b0[i as int]);
                }
                out.push(item);
                proof {
                    assert(out.deep_view() =~= opre.push(b0[i as int]));
                }
            }
            i += 1;
        }
        proof {
            assert(b0.take(self.breeds.len() as int) =~= b0);
        }
        self.breeds = out;
        proof {
            assert(self.breeds.deep_view() == spec_remove_breeds(old(self).breeds(), id@));
            lemma_remove_breeds_membership(b0, id@);
            assert forall|j: int|
                0 <= j < self.breeds.deep_view().len() implies exists|k: nat|
                k < self.next_breed_id && (#[trigger] self.breeds.deep_view()[j]).id
                    == ids::spec_decimal(k) by {
                let i = choose|i: int|
                    0 <= i < b0.len() && #[trigger] b0[i] == spec_remove_breeds(b0, id@)[j];
                let k = choose|k: nat| k < self.next_breed_id && b0[i].id == ids::spec_decimal(k);
                assert(k < self.next_breed_id && self.breeds.deep_view()[j].id
                    == ids::spec_decimal(k));
            }
            assert(self.wf());
            if found {
                assert(spec_breed_exists(b0, id@));
            } else {
                assert(forall|j: int| 0 <= j < b0.len() ==> (#[trigger] b0[j]).id != id@);
            }
        }
        Ok(found)
    }

    fn query_breeds(&self, query: &BreedQuery) -> (r: Result<(Vec<Breed>, i64), Error>) {
        let ghost b0 = self.breeds.deep_view();
        let mut out: Vec<Breed> = Vec::new();
        let mut i: usize = 0;
        proof {
            assert(out.deep_view() =~= spec_filter_breeds(b0.take(0), query@));
        }
        while i < self.breeds.len()
            invariant
                0 <= i <= self.breeds.len(),
                b0 == self.breeds.deep_view(),
                out.deep_view() == spec_filter_breeds(b0.take(i as int), query@),
                out.len() <= i,
            decreases self.breeds.len() - i,
        {
            proof {
                assert(b0.take(i + 1).drop_last() =~= b0.take(i as int));
                assert(b0.take(i + 1).last() == b0[i as int]);
            }
            let ghost opre = out.deep_view();
            if breed_query_matches(query, &self.breeds[i]) {
                let item = self.breeds[i].clone();
                proof {
                    assert(item@ == b0[i as int]);
                }
                out.push(item);
                proof {
                    assert(out.deep_view() =~= opre.push(b0[i as int]));
                }
            }
            i += 1;
        }
        proof {
            assert(b0.take(self.breeds.len() as int) =~= b0);
        }
        if out.len() as u64 > i64::MAX as u64 {
            return Err(Error::new("result does not fit the count"));
        }
        let n = out.len() as i64;
        proof {
            assert(out.deep_view().len() == out.len());
        }
        Ok((out, n))
    }

    fn create_dog(&mut self, dog: &DogCreate) -> (r: Result<Dog, Error>) {
        if self.next_dog_id == u64::MAX {
            return Err(Error::new("id space exhausted"));
        }
        let ghost b0 = self.breeds.deep_view();
        let ghost d0 = self.dogs.deep_view();
        proof {
            assert(b0 == old(self).breeds());
            assert(d0 == old(self).dogs());
        }
        let mut i: usize = 0;
        while i < self.breeds.len()
            invariant
                0 <= i <= self.breeds.len(),
                *self == *old(self),
                old(self).wf(),
                b0 == self.breeds.deep_view(),
                d0 == self.dogs.deep_view(),
                self.next_dog_id < u64::MAX,
                forall|j: int| 0 <= j < i ==> !breed_matches(dog@.breed, #[trigger] b0[j]),
            decreases self.breeds.len() - i,
        {
            if breed_query_matches(&dog.breed, &self.breeds[i]) {
                let breed = self.breeds[i].clone();
                proof {
                    assert(breed@ == b0[i as int]);
                    assert(spec_is_first_breed(b0, dog@.breed, i as int));
                }
                let id = ids::decimal_string(self.next_dog_id);
                let rec = Dog {
                    id: id.clone(),
                    name: dog.name.clone(),
                    gender: gender_of(&dog.gender),
                    breed,
                    birthday: dog.birthday,
                    owner_id: dog.owner_id.clone(),
                    tags: dog.tags.clone(),
                    portrait_id: dog.portrait_id.clone(),
                };
                let result = rec.clone();
                proof {
                    assert(rec@.tags =~= dog@.tags);
                    assert(rec@ =~= spec_new_dog(id@, dog@, b0[i as int]));
                    assert(result@ == rec@ && result@.id == id@);
                    assert forall|j: int| 0 <= j < d0.len() implies (#[trigger] d0[j]).id != id@
                        by {
                        if d0[j].id == id@ {
                            let k = choose|k: nat|
                                k < self.next_dog_id && d0[j].id == ids::spec_decimal(k);
                            ids::lemma_decimal_injective(k, self.next_dog_id as nat);
                        }
                    }
                }
                let ghost old_next = self.next_dog_id;
                self.dogs.push(rec);
                self.next_dog_id = self.next_dog_id + 1;
                proof {
                    let d1 = self.dogs.deep_view();
                    assert(d1 =~= d0.push(spec_new_dog(id@, dog@, b0[i as int])));
                    assert(self.dogs.deep_view() == old(self).dogs().push(result@));
                    assert forall|j: int|
                        0 <= j < self.dogs.deep_view().len() implies exists|k: nat|
                        k < self.next_dog_id && (#[trigger] self.dogs.deep_view()[j]).id
                            == ids::spec_decimal(k) by {
                        if j < d0.len() {
                            let k = choose|k: nat|
                                k < old_next && d0[j].id == ids::spec_decimal(k);
                            assert(k < self.next_dog_id && d1[j].id == ids::spec_decimal(k));
                        } else {
                            assert(d1[j].id == ids::spec_decimal(old_next as nat));
                            assert((old_next as nat) < self.next_dog_id);
                        }
                    }
                    assert(self.unique_dog_ids());
                    assert(self.wf());
                    assert(exists|i: int|
                        #![trigger old(self).breeds()[i]]
                        spec_is_first_breed(old(self).breeds(), dog@.breed, i) && result@
                            == spec_new_dog(result@.id, dog@, old(self).breeds()[i]));
                }
                return Ok(result);
            }
            i += 1;
        }
        Err(Error::tagged(ErrorKind::NotFound, "breed not found"))
    }

    fn delete_dog(&mut self, id: &str) -> (r: Result<bool, Error>) {
        let ghost d0 = self.dogs.deep_view();
        proof {
            assert(d0 == old(self).dogs());
        }
        let mut out: Vec<Dog> = Vec::new();
        let mut found = false;
        let mut i: usize = 0;
        proof {
            assert(out.deep_view() =~= spec_remove_dogs(d0.take(0), id@));
        }
        while i < self.dogs.len()
            invariant
                0 <= i <= self.dogs.len(),
                d0 == self.dogs.deep_view(),
                *self == *old(self),
                old(self).wf(),
                out.deep_view() == spec_remove_dogs(d0.take(i as int), id@),
                found == exists|j: int| 0 <= j < i && (#[trigger] d0[j]).id == id@,
            decreases self.dogs.len() - i,
        {
            proof {
                assert(d0.take(i + 1).drop_last() =~= d0.take(i as int));
                assert(d0.take(i + 1).last() == d0[i as int]);
            }
            let ghost opre = out.deep_view();
            if str_eq_string(id, &self.dogs[i].id) {
                found = true;
                assert(d0[i as int].id == id@);
            } else {
                let item = self.dogs[i].clone();
                proof {
                    assert(item@ == d0[i as int]);
                }
                out.push(item);
                proof {
                    assert(out.deep_view() =~= opre.push(d0[i as int]));
                }
            }
            i += 1;
        }
        proof {
            assert(d0.take(self.dogs.len() as int) =~= d0);
        }
        self.dogs = out;
        proof {
            assert(self.dogs.deep_view() == spec_remove_dogs(old(self).dogs(), id@));
            lemma_remove_dogs_membership(d0, id@);
            let d1 = self.dogs.deep_view();
            assert forall|j: int|
                0 <= j < d1.len() implies exists|k: nat|
                k < self.next_dog_id && (#[trigger] d1[j]).id == ids::spec_decimal(k) by {
                let i = choose|i: int|
                    0 <= i < d0.len() && #[trigger] d0[i] == spec_remove_dogs(d0, id@)[j];
                let k = choose|k: nat| k < self.next_dog_id && d0[i].id == ids::spec_decimal(k);
                assert(k < self.next_dog_id && d1[j].id == ids::spec_decimal(k));
            }
            assert forall|i: int, j: int|
                #![trigger d0[i], d0[j]]
                0 <= i < j < d0.len() implies d0[i].id != d0[j].id by {}
            lemma_remove_dogs_unique(d0, id@);
            assert(self.unique_dog_ids());
            assert(self.wf());
            if found {
                assert(spec_dog_exists(d0, id@));
            } else {
                assert(forall|j: int| 0 <= j < d0.len() ==> (#[trigger] d0[j]).id != id@);
            }
        }
        Ok(found)
    }

    fn update_dog(&mut self, id: &str, dog: &DogUpdate) -> (r: Result<bool, Error>) {
        let ghost d0 = self.dogs.deep_view();
        proof {
            assert(d0 == old(self).dogs());
        }
        let nonempty = dog_update_nonempty(dog);
        let mut found = false;
        let mut i: usize = 0;
        while i < self.dogs.len()
            invariant
                0 <= i <= self.dogs.len(),
                self.dogs.len() == d0.len(),
                self.requests == old(self).requests,
                self.locations == old(self).locations,
                self.breeds == old(self).breeds,
                self.next_request_id == old(self).next_request_id,
                self.next_location_id == old(self).next_location_id,
                self.next_breed_id == old(self).next_breed_id,
                self.next_dog_id == old(self).next_dog_id,
                old(self).wf(),
                d0 == old(self).dogs(),
                found == exists|j: int| 0 <= j < i && (#[trigger] d0[j]).id == id@,
                forall|j: int| i <= j < d0.len() ==> #[trigger] self.dogs.deep_view()[j] == d0[j],
                forall|j: int|
                    0 <= j < i ==> #[trigger] self.dogs.deep_view()[j] == (if d0[j].id == id@ {
                        spec_apply_dog_update(dog@, d0[j])
                    } else {
                        d0[j]
                    }),
            decreases self.dogs.len() - i,
        {
            let ghost pre = self.dogs.deep_view();
            proof {
                assert(pre[i as int] == d0[i as int]);
            }
            if str_eq_string(id, &self.dogs[i].id) {
                let updated = apply_dog_update(dog, &self.dogs[i]);
                proof {
                    assert(updated@ == spec_apply_dog_update(dog@, d0[i as int]));
                }
                self.dogs.set(i, updated);
                found = true;
                proof {
                    assert(self.dogs.deep_view() =~= pre.update(
                        i as int,
                        spec_apply_dog_update(dog@, d0[i as int]),
                    ));
                    assert(d0[i as int].id == id@);
                }
            }
            proof {
                assert forall|j: int|
                    i + 1 <= j < d0.len() implies #[trigger] self.dogs.deep_view()[j] == d0[j] by {
                    assert(pre[j] == d0[j]);
                }
            }
            i += 1;
        }
        proof {
            let d1 = self.dogs.deep_view();
            assert(d1 =~= spec_update_dogs(d0, id@, dog@));
            assert(self.dogs.deep_view() == spec_update_dogs(old(self).dogs(), id@, dog@));
            assert forall|j: int| 0 <= j < d1.len() implies (#[trigger] d1[j]).id == d0[j].id
                by {}
            assert(self.unique_dog_ids());
            assert forall|j: int|
                0 <= j < d1.len() implies exists|k: nat|
                k < self.next_dog_id && (#[trigger] d1[j]).id == ids::spec_decimal(k) by {
                let k = choose|k: nat| k < old(self).next_dog_id && d0[j].id == ids::spec_decimal(k);
                assert(k < self.next_dog_id && d1[j].id == ids::spec_decimal(k));
            }
            assert(self.ids_minted());
            assert(self.coords_stored_ok());
            assert(spec_unique_ids(self.requests.deep_view()));
            assert(self.breed_ids_minted());
            assert(self.dog_ids_minted());
            assert(self.wf());
            if found {
                assert(spec_dog_exists(d0, id@));
            } else {
                assert(forall|j: int| 0 <= j < d0.len() ==> (#[trigger] d0[j]).id != id@);
            }
        }
        Ok(found && nonempty)
    }

    fn query_dogs(&self, query: &DogQuery) -> (r: Result<Vec<Dog>, Error>) {
        if !pagination_ok(&query.pagination) {
            return Err(Error::tagged(ErrorKind::ValidationError, "malformed pagination"));
        }
        let ghost d0 = self.dogs.deep_view();
        let mut out: Vec<Dog> = Vec::new();
        let mut i: usize = 0;
        proof {
            assert(out.deep_view() =~= spec_filter_dogs(d0.take(0), query@));
        }
        while i < self.dogs.len()
            invariant
                0 <= i <= self.dogs.len(),
                d0 == self.dogs.deep_view(),
                out.deep_view() == spec_filter_dogs(d0.take(i as int), query@),
            decreases self.dogs.len() - i,
        {
            proof {
                assert(d0.take(i + 1).drop_last() =~= d0.take(i as int));
                assert(d0.take(i + 1).last() == d0[i as int]);
            }
            let ghost opre = out.deep_view();
            if dog_query_matches(query, &self.dogs[i]) {
                let item = self.dogs[i].clone();
                proof {
                    assert(item@ == d0[i as int]);
                }
                out.push(item);
                proof {
                    assert(out.deep_view() =~= opre.push(d0[i as int]));
                }
            }
            i += 1;
        }
        proof {
            assert(d0.take(self.dogs.len() as int) =~= d0);
        }
        let paged = paginate_dogs(out, &query.pagination);
        Ok(paged)
    }

    fn exists_dog(&self, query: &DogQuery) -> (r: Result<bool, Error>) {
        let ghost d0 = self.dogs.deep_view();
        let mut i: usize = 0;
        while i < self.dogs.len()
            invariant
                0 <= i <= self.dogs.len(),
                d0 == self.dogs.deep_view(),
                forall|j: int| 0 <= j < i ==> !dog_matches(query@, #[trigger] d0[j]),
            decreases self.dogs.len() - i,
        {
            if dog_query_matches(query, &self.dogs[i]) {
                assert(dog_matches(query@, d0[i as int]));
                return Ok(true);
            }
            i += 1;
        }
        Ok(false)
    }
}

} // verus!
