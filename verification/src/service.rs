//! The request lifecycle coordinator.
//!
//! Every mutating verb has one shape: build a predicate stating the
//! required current state, build a mutation, hand both to the persistence
//! port as a single atomic conditional update, and translate "zero records
//! matched" into a typed conflict.  The coordinator never retries: a
//! failed precondition is business-meaningful (someone else won the race,
//! or the state already changed), and a second attempt must re-derive
//! intent.
//!
//! Every verb's predicate includes "not canceled": once `canceled_at` is
//! set the request is terminal and every lifecycle verb against it fails.

use vstd::prelude::*;

use crate::clock;
use crate::entities::{Breed, BreedView, Dog, DogView, WalkRequest, WalkRequestView, WalkingLocationView};
use crate::error::{Error, ErrorKind};
use crate::repository::{
    breed_matches, lemma_id_count_le_one, lemma_update_all_no_match, spec_any_dog,
    spec_breed_exists, spec_count, spec_create_ok, spec_created, spec_dog_exists,
    spec_dog_update_nonempty, spec_filter_breeds, spec_filter_dogs, spec_is_first_breed,
    spec_location_create_ok, spec_location_created, spec_new_breed, spec_new_dog, spec_paginate,
    spec_pagination_ok, spec_query_ok, spec_remove_breeds, spec_results, spec_sort,
    spec_update_all, spec_update_dogs, spec_updated_one, BreedCreate, BreedQuery, DogCreate,
    DogQuery, DogQueryView, DogUpdate, DogUpdateView, Order, Pagination, Repository, SortBy,
    WalkRequestCreate, WalkRequestQuery, WalkRequestQueryView, WalkRequestUpdate,
    WalkRequestUpdateView, WalkingLocationCreate, WalkingLocationCreateView,
};

verus! {

// ------------------------------------------------------------------
// The verbs' predicates and mutations.
// ------------------------------------------------------------------

/// The query with no conditions.
pub open spec fn spec_empty_query() -> WalkRequestQueryView {
    WalkRequestQueryView {
        id: None,
        dog_ids_includes_all: None,
        dog_ids_includes_any: None,
        nearby: None,
        accepted_by: None,
        accepted_by_neq: None,
        accepted_by_is_null: None,
        canceled_at_is_null: None,
        acceptances_includes_all: None,
        acceptances_includes_any: None,
        created_by: None,
    }
}

/// The update that changes nothing.
pub open spec fn spec_empty_update() -> WalkRequestUpdateView {
    WalkRequestUpdateView {
        dogs: None,
        should_start_after: None,
        should_start_before: None,
        should_end_after: None,
        should_end_before: None,
        latitude: None,
        longitude: None,
        accepted_by: None,
        accepted_at: None,
        canceled_at: None,
        started_at: None,
        finished_at: None,
        unset_accepted_by: false,
        unset_accepted_at: false,
        add_to_acceptances: None,
        remove_from_acceptances: None,
    }
}

/// Claim: the request exists, is unclaimed and not canceled.
pub open spec fn spec_claim_query(id: Seq<char>) -> WalkRequestQueryView {
    WalkRequestQueryView {
        id: Some(id),
        accepted_by_is_null: Some(true),
        canceled_at_is_null: Some(true),
        ..spec_empty_query()
    }
}

/// Claim: set the claim fields to the acting walker at the given instant.
pub open spec fn spec_claim_update(walker: Seq<char>, t: i64) -> WalkRequestUpdateView {
    WalkRequestUpdateView {
        accepted_by: Some(walker),
        accepted_at: Some(t),
        ..spec_empty_update()
    }
}

/// Join the bid pool: the request exists and is not canceled.
pub open spec fn spec_join_query(id: Seq<char>) -> WalkRequestQueryView {
    WalkRequestQueryView { id: Some(id), canceled_at_is_null: Some(true), ..spec_empty_query() }
}

/// Join the bid pool: idempotent set-add of the walker.
pub open spec fn spec_join_update(walker: Seq<char>) -> WalkRequestUpdateView {
    WalkRequestUpdateView { add_to_acceptances: Some(walker), ..spec_empty_update() }
}

/// Withdraw a bid: the walker must not be the confirmed claimant.
pub open spec fn spec_withdraw_query(id: Seq<char>, walker: Seq<char>) -> WalkRequestQueryView {
    WalkRequestQueryView {
        id: Some(id),
        accepted_by_neq: Some(walker),
        canceled_at_is_null: Some(true),
        ..spec_empty_query()
    }
}

/// Withdraw a bid: remove the walker from the pool.
pub open spec fn spec_withdraw_update(walker: Seq<char>) -> WalkRequestUpdateView {
    WalkRequestUpdateView { remove_from_acceptances: Some(walker), ..spec_empty_update() }
}

/// Assign from the bid pool: unclaimed, not canceled, and the walker has
/// actually bid.
pub open spec fn spec_assign_query(id: Seq<char>, walker: Seq<char>) -> WalkRequestQueryView {
    WalkRequestQueryView {
        id: Some(id),
        accepted_by_is_null: Some(true),
        canceled_at_is_null: Some(true),
        acceptances_includes_all: Some(seq![walker]),
        ..spec_empty_query()
    }
}

/// The claim is currently held by this walker, and the request is not
/// canceled: the precondition shared by dismiss, resign, cancel-claimed,
/// start and finish.
pub open spec fn spec_claimed_by_query(id: Seq<char>, walker: Seq<char>) -> WalkRequestQueryView {
    WalkRequestQueryView {
        id: Some(id),
        accepted_by: Some(walker),
        canceled_at_is_null: Some(true),
        ..spec_empty_query()
    }
}

/// Dismiss: clear both claim fields.
pub open spec fn spec_dismiss_update() -> WalkRequestUpdateView {
    WalkRequestUpdateView {
        unset_accepted_by: true,
        unset_accepted_at: true,
        ..spec_empty_update()
    }
}

/// Resign: clear both claim fields and leave the bid pool.
pub open spec fn spec_resign_update(walker: Seq<char>) -> WalkRequestUpdateView {
    WalkRequestUpdateView {
        unset_accepted_by: true,
        unset_accepted_at: true,
        remove_from_acceptances: Some(walker),
        ..spec_empty_update()
    }
}

/// Cancel an unclaimed request: unclaimed and not already canceled.
pub open spec fn spec_cancel_unclaimed_query(id: Seq<char>) -> WalkRequestQueryView {
    WalkRequestQueryView {
        id: Some(id),
        accepted_by_is_null: Some(true),
        canceled_at_is_null: Some(true),
        ..spec_empty_query()
    }
}

/// Cancel: stamp the terminal timestamp.
pub open spec fn spec_cancel_update(t: i64) -> WalkRequestUpdateView {
    WalkRequestUpdateView { canceled_at: Some(t), ..spec_empty_update() }
}

/// Start: stamp the start of the walk.
pub open spec fn spec_start_update(t: i64) -> WalkRequestUpdateView {
    WalkRequestUpdateView { started_at: Some(t), ..spec_empty_update() }
}

/// Finish: stamp the end of the walk.
pub open spec fn spec_finish_update(t: i64) -> WalkRequestUpdateView {
    WalkRequestUpdateView { finished_at: Some(t), ..spec_empty_update() }
}

/// Nearby listing: unclaimed requests within `radius` meters of the
/// origin.
pub open spec fn spec_nearby_query(lon: i64, lat: i64, radius: i64) -> WalkRequestQueryView {
    WalkRequestQueryView {
        accepted_by_is_null: Some(true),
        nearby: Some(seq![lon, lat, radius]),
        ..spec_empty_query()
    }
}

/// Owner listing: requests created by this user.
pub open spec fn spec_my_query(user: Seq<char>) -> WalkRequestQueryView {
    WalkRequestQueryView { created_by: Some(user), ..spec_empty_query() }
}

/// The dog update that changes nothing.
pub open spec fn spec_empty_dog_update() -> DogUpdateView {
    DogUpdateView {
        name: None,
        gender: None,
        breed: None,
        birthday: None,
        is_sterilized: None,
        introduction: None,
        owner_id: None,
        tags: None,
        portrait_id: None,
    }
}

/// Set only the portrait reference.
pub open spec fn spec_portrait_update(portrait: Seq<char>) -> DogUpdateView {
    DogUpdateView { portrait_id: Some(portrait), ..spec_empty_dog_update() }
}

/// Owner listing: the dogs this user owns.
pub open spec fn spec_my_dogs_query(owner: Seq<char>, p: Option<Pagination>) -> DogQueryView {
    DogQueryView { id: None, id_in: None, owner_id: Some(owner), pagination: p }
}

/// Ownership check: this dog, owned by this user.
pub open spec fn spec_owner_dog_query(dog: Seq<char>, owner: Seq<char>) -> DogQueryView {
    DogQueryView { id: Some(dog), id_in: None, owner_id: Some(owner), pagination: None }
}

// ------------------------------------------------------------------
// Executable builders for the verbs' values.
// ------------------------------------------------------------------

fn empty_query() -> (q: WalkRequestQuery)
    ensures
        q@ == spec_empty_query(),
{
    let q = WalkRequestQuery {
        id: None,
        dog_ids_includes_all: None,
        dog_ids_includes_any: None,
        nearby: None,
        accepted_by: None,
        accepted_by_neq: None,
        accepted_by_is_null: None,
        canceled_at_is_null: None,
        acceptances_includes_all: None,
        acceptances_includes_any: None,
        created_by: None,
    };
    proof {
        assert(q@ =~= spec_empty_query());
    }
    q
}

fn empty_update() -> (u: WalkRequestUpdate)
    ensures
        u@ == spec_empty_update(),
{
    let u = WalkRequestUpdate {
        dogs: None,
        should_start_after: None,
        should_start_before: None,
        should_end_after: None,
        should_end_before: None,
        latitude: None,
        longitude: None,
        accepted_by: None,
        accepted_at: None,
        canceled_at: None,
        started_at: None,
        finished_at: None,
        unset_accepted_by: false,
        unset_accepted_at: false,
        add_to_acceptances: None,
        remove_from_acceptances: None,
    };
    proof {
        assert(u@ =~= spec_empty_update());
    }
    u
}

fn claim_query(request_id: &str) -> (q: WalkRequestQuery)
    ensures
        q@ == spec_claim_query(request_id@),
{
    let q = WalkRequestQuery {
        id: Some(request_id.to_owned()),
        accepted_by_is_null: Some(true),
        canceled_at_is_null: Some(true),
        ..empty_query()
    };
    proof {
        assert(q@ =~= spec_claim_query(request_id@));
    }
    q
}

fn claim_update(user_id: &str, now: i64) -> (u: WalkRequestUpdate)
    ensures
        u@ == spec_claim_update(user_id@, now),
{
    let u = WalkRequestUpdate {
        accepted_by: Some(user_id.to_owned()),
        accepted_at: Some(now),
        ..empty_update()
    };
    proof {
        assert(u@ =~= spec_claim_update(user_id@, now));
    }
    u
}

fn claimed_by_query(request_id: &str, user_id: &str) -> (q: WalkRequestQuery)
    ensures
        q@ == spec_claimed_by_query(request_id@, user_id@),
{
    let q = WalkRequestQuery {
        id: Some(request_id.to_owned()),
        accepted_by: Some(user_id.to_owned()),
        canceled_at_is_null: Some(true),
        ..empty_query()
    };
    proof {
        assert(q@ =~= spec_claimed_by_query(request_id@, user_id@));
    }
    q
}

// ------------------------------------------------------------------
// The coordinator.
// ------------------------------------------------------------------

/// The coordinator over a persistence port.
pub struct Service<R: Repository> {
    repository: R,
}

impl<R: Repository> Service<R> {
    pub closed spec fn wf(&self) -> bool {
        self.repository.wf()
    }

    pub closed spec fn requests(&self) -> Seq<WalkRequestView> {
        self.repository.requests()
    }

    pub closed spec fn locations(&self) -> Seq<WalkingLocationView> {
        self.repository.locations()
    }

    pub closed spec fn breeds(&self) -> Seq<BreedView> {
        self.repository.breeds()
    }

    pub closed spec fn dogs(&self) -> Seq<DogView> {
        self.repository.dogs()
    }

    pub fn new(repository: R) -> (s: Self)
        ensures
            s.wf() == repository.wf(),
            s.requests() == repository.requests(),
            s.locations() == repository.locations(),
            s.breeds() == repository.breeds(),
            s.dogs() == repository.dogs(),
    {
        Service { repository }
    }

    /// Create a new waiting request.
    pub fn create_walk_request(&mut self, request: WalkRequestCreate) -> (r: Result<String, Error>)
        requires
            old(self).wf(),
        ensures
            final(self).wf(),
            final(self).locations() == old(self).locations(),
            final(self).breeds() == old(self).breeds(),
            final(self).dogs() == old(self).dogs(),
            match r {
                Ok(id) => spec_created(
                    old(self).requests(),
                    final(self).requests(),
                    request@,
                    id@,
                ),
                Err(e) => {
                    &&& final(self).requests() == old(self).requests()
                    &&& (e@.kind == ErrorKind::ValidationError && !spec_create_ok(request@))
                        || e@.kind == ErrorKind::BackendUnavailable
                },
            },
    {
        self.repository.create_walk_request(request)
    }

    /// Read one request by id.
    pub fn get_walk_request(&self, request_id: &str) -> (r: Result<WalkRequest, Error>)
        requires
            self.wf(),
        ensures
            match r {
                Ok(req) => {
                    &&& req@.id == request_id@
                    &&& exists|i: int|
                        0 <= i < self.requests().len() && #[trigger] self.requests()[i] == req@
                },
                Err(e) => (e@.kind == ErrorKind::NotFound && forall|i: int|
                    0 <= i < self.requests().len() ==> (#[trigger] self.requests()[i]).id
                        != request_id@) || e@.kind == ErrorKind::BackendUnavailable,
            },
    {
        self.repository.get_walk_request(request_id)
    }

    /// A walker claims an unclaimed request ("accept").  Exactly one of
    /// many concurrent claims can see the unclaimed state; the others
    /// fail with a precondition conflict.
    pub fn accept(&mut self, request_id: &str, user_id: &str) -> (r: Result<WalkRequest, Error>)
        requires
            old(self).wf(),
        ensures
            final(self).wf(),
            final(self).locations() == old(self).locations(),
            final(self).breeds() == old(self).breeds(),
            final(self).dogs() == old(self).dogs(),
            match r {
                Ok(req) => exists|t: i64|
                    #![trigger spec_claim_update(user_id@, t)]
                    0 <= t && spec_updated_one(
                        old(self).requests(),
                        final(self).requests(),
                        spec_claim_query(request_id@),
                        spec_claim_update(user_id@, t),
                        req@,
                    ),
                Err(e) => {
                    &&& final(self).requests() == old(self).requests()
                    &&& {
                        ||| (e@.kind == ErrorKind::PreconditionFailed && spec_count(
                            old(self).requests(),
                            spec_claim_query(request_id@),
                        ) == 0)
                        ||| e@.kind == ErrorKind::BackendUnavailable
                    }
                },
            },
    {
        let q = claim_query(request_id);
        let now = clock::now_millis();
        let u = claim_update(user_id, now);
        match self.repository.update_walk_request_by_query(q, u) {
            Ok(req) => Ok(req),
            Err(e) => {
                if matches!(e.kind(), ErrorKind::NotFound) {
                    Err(Error::msg("request absent or already claimed"))
                } else {
                    Err(e)
                }
            },
        }
    }

    /// A walker starts the walk they hold the claim on.
    pub fn start_walk(&mut self, request_id: &str, user_id: &str) -> (r: Result<
        WalkRequest,
        Error,
    >)
        requires
            old(self).wf(),
        ensures
            final(self).wf(),
            final(self).locations() == old(self).locations(),
            final(self).breeds() == old(self).breeds(),
            final(self).dogs() == old(self).dogs(),
            match r {
                Ok(req) => exists|t: i64|
                    #![trigger spec_start_update(t)]
                    0 <= t && spec_updated_one(
                        old(self).requests(),
                        final(self).requests(),
                        spec_claimed_by_query(request_id@, user_id@),
                        spec_start_update(t),
                        req@,
                    ),
                Err(e) => {
                    &&& final(self).requests() == old(self).requests()
                    &&& {
                        ||| (e@.kind == ErrorKind::PreconditionFailed && spec_count(
                            old(self).requests(),
                            spec_claimed_by_query(request_id@, user_id@),
                        ) == 0)
                        ||| e@.kind == ErrorKind::BackendUnavailable
                    }
                },
            },
    {
        let q = claimed_by_query(request_id, user_id);
        let now = clock::now_millis();
        let mut u = empty_update();
        u.started_at = Some(now);
        proof {
            assert(u@ =~= spec_start_update(now));
        }
        match self.repository.update_walk_request_by_query(q, u) {
            Ok(req) => Ok(req),
            Err(e) => {
                if matches!(e.kind(), ErrorKind::NotFound) {
                    Err(Error::msg("not the assigned walker or request absent"))
                } else {
                    Err(e)
                }
            },
        }
    }

    /// A walker finishes the walk they hold the claim on.
    pub fn finish_walk(&mut self, request_id: &str, user_id: &str) -> (r: Result<
        WalkRequest,
        Error,
    >)
        requires
            old(self).wf(),
        ensures
            final(self).wf(),
            final(self).locations() == old(self).locations(),
            final(self).breeds() == old(self).breeds(),
            final(self).dogs() == old(self).dogs(),
            match r {
                Ok(req) => exists|t: i64|
                    #![trigger spec_finish_update(t)]
                    0 <= t && spec_updated_one(
                        old(self).requests(),
                        final(self).requests(),
                        spec_claimed_by_query(request_id@, user_id@),
                        spec_finish_update(t),
                        req@,
                    ),
                Err(e) => {
                    &&& final(self).requests() == old(self).requests()
                    &&& {
                        ||| (e@.kind == ErrorKind::PreconditionFailed && spec_count(
                            old(self).requests(),
                            spec_claimed_by_query(request_id@, user_id@),
                        ) == 0)
                        ||| e@.kind == ErrorKind::BackendUnavailable
                    }
                },
            },
    {
        let q = claimed_by_query(request_id, user_id);
        let now = clock::now_millis();
        let mut u = empty_update();
        u.finished_at = Some(now);
        proof {
            assert(u@ =~= spec_finish_update(now));
        }
        match self.repository.update_walk_request_by_query(q, u) {
            Ok(req) => Ok(req),
            Err(e) => {
                if matches!(e.kind(), ErrorKind::NotFound) {
                    Err(Error::msg("not the assigned walker or request absent"))
                } else {
                    Err(e)
                }
            },
        }
    }

    /// A walker joins the bid pool: an idempotent set-add.
    pub fn add_acceptance(&mut self, request_id: &str, user_id: &str) -> (r: Result<(), Error>)
        requires
            old(self).wf(),
        ensures
            final(self).wf(),
            final(self).locations() == old(self).locations(),
            final(self).breeds() == old(self).breeds(),
            final(self).dogs() == old(self).dogs(),
            match r {
                Ok(()) => {
                    &&& spec_count(old(self).requests(), spec_join_query(request_id@)) == 1
                    &&& final(self).requests() == spec_update_all(
                        old(self).requests(),
                        spec_join_query(request_id@),
                        spec_join_update(user_id@),
                    )
                },
                Err(e) => {
                    &&& final(self).requests() == old(self).requests()
                    &&& {
                        ||| (e@.kind == ErrorKind::PreconditionFailed && spec_count(
                            old(self).requests(),
                            spec_join_query(request_id@),
                        ) == 0)
                        ||| e@.kind == ErrorKind::BackendUnavailable
                    }
                },
            },
    {
        proof {
            self.repository.wf_unique_ids();
        }
        let q = WalkRequestQuery {
            id: Some(request_id.to_owned()),
            canceled_at_is_null: Some(true),
            ..empty_query()
        };
        let mut u = empty_update();
        u.add_to_acceptances = Some(user_id.to_owned());
        proof {
            assert(q@ =~= spec_join_query(request_id@));
            assert(u@ =~= spec_join_update(user_id@));
        }
        match self.repository.update_walk_requests_by_query(q, u) {
            Ok(n) => {
                if n == 1 {
                    Ok(())
                } else {
                    proof {
                        lemma_id_count_le_one(
                            old(self).requests(),
                            spec_join_query(request_id@),
                        );
                        lemma_update_all_no_match(
                            old(self).requests(),
                            spec_join_query(request_id@),
                            spec_join_update(user_id@),
                        );
                    }
                    Err(Error::msg("request absent or canceled"))
                }
            },
            Err(e) => Err(e),
        }
    }

    /// A walker withdraws their bid; refused once the owner has confirmed
    /// that walker.
    pub fn remove_acceptance(&mut self, request_id: &str, user_id: &str) -> (r: Result<(), Error>)
        requires
            old(self).wf(),
        ensures
            final(self).wf(),
            final(self).locations() == old(self).locations(),
            final(self).breeds() == old(self).breeds(),
            final(self).dogs() == old(self).dogs(),
            match r {
                Ok(()) => {
                    &&& spec_count(
                        old(self).requests(),
                        spec_withdraw_query(request_id@, user_id@),
                    ) == 1
                    &&& final(self).requests() == spec_update_all(
                        old(self).requests(),
                        spec_withdraw_query(request_id@, user_id@),
                        spec_withdraw_update(user_id@),
                    )
                },
                Err(e) => {
                    &&& final(self).requests() == old(self).requests()
                    &&& {
                        ||| (e@.kind == ErrorKind::PreconditionFailed && spec_count(
                            old(self).requests(),
                            spec_withdraw_query(request_id@, user_id@),
                        ) == 0)
                        ||| e@.kind == ErrorKind::BackendUnavailable
                    }
                },
            },
    {
        proof {
            self.repository.wf_unique_ids();
        }
        let q = WalkRequestQuery {
            id: Some(request_id.to_owned()),
            accepted_by_neq: Some(user_id.to_owned()),
            canceled_at_is_null: Some(true),
            ..empty_query()
        };
        let mut u = empty_update();
        u.remove_from_acceptances = Some(user_id.to_owned());
        proof {
            assert(q@ =~= spec_withdraw_query(request_id@, user_id@));
            assert(u@ =~= spec_withdraw_update(user_id@));
        }
        match self.repository.update_walk_requests_by_query(q, u) {
            Ok(n) => {
                if n == 1 {
                    Ok(())
                } else {
                    proof {
                        lemma_id_count_le_one(
                            old(self).requests(),
                            spec_withdraw_query(request_id@, user_id@),
                        );
                        lemma_update_all_no_match(
                            old(self).requests(),
                            spec_withdraw_query(request_id@, user_id@),
                            spec_withdraw_update(user_id@),
                        );
                    }
                    Err(Error::msg("request absent or already confirmed by owner"))
                }
            },
            Err(e) => Err(e),
        }
    }

    /// The owner assigns a walker out of the bid pool; the walker must
    /// still be in the pool and the request still unclaimed.
    pub fn assign_accepter(&mut self, request_id: &str, user_id: &str) -> (r: Result<(), Error>)
        requires
            old(self).wf(),
        ensures
            final(self).wf(),
            final(self).locations() == old(self).locations(),
            final(self).breeds() == old(self).breeds(),
            final(self).dogs() == old(self).dogs(),
            match r {
                Ok(()) => {
                    &&& spec_count(
                        old(self).requests(),
                        spec_assign_query(request_id@, user_id@),
                    ) == 1
                    &&& exists|t: i64|
                        #![trigger spec_claim_update(user_id@, t)]
                        0 <= t && final(self).requests() == spec_update_all(
                            old(self).requests(),
                            spec_assign_query(request_id@, user_id@),
                            spec_claim_update(user_id@, t),
                        )
                },
                Err(e) => {
                    &&& final(self).requests() == old(self).requests()
                    &&& {
                        ||| (e@.kind == ErrorKind::PreconditionFailed && spec_count(
                            old(self).requests(),
                            spec_assign_query(request_id@, user_id@),
                        ) == 0)
                        ||| e@.kind == ErrorKind::BackendUnavailable
                    }
                },
            },
    {
        proof {
            self.repository.wf_unique_ids();
        }
        let mut pool: Vec<String> = Vec::new();
        pool.push(user_id.to_owned());
        let q = WalkRequestQuery {
            id: Some(request_id.to_owned()),
            accepted_by_is_null: Some(true),
            canceled_at_is_null: Some(true),
            acceptances_includes_all: Some(pool),
            ..empty_query()
        };
        let now = clock::now_millis();
        let u = claim_update(user_id, now);
        proof {
            assert(q@.acceptances_includes_all == Some(seq![user_id@].push(user_id@).drop_last()));
            assert(seq![user_id@].push(user_id@).drop_last() =~= seq![user_id@]);
            assert(q@ =~= spec_assign_query(request_id@, user_id@));
        }
        match self.repository.update_walk_requests_by_query(q, u) {
            Ok(n) => {
                if n == 1 {
                    Ok(())
                } else {
                    proof {
                        lemma_id_count_le_one(
                            old(self).requests(),
                            spec_assign_query(request_id@, user_id@),
                        );
                        lemma_update_all_no_match(
                            old(self).requests(),
                            spec_assign_query(request_id@, user_id@),
                            spec_claim_update(user_id@, now),
                        );
                    }
                    Err(Error::msg("request absent or bid withdrawn"))
                }
            },
            Err(e) => Err(e),
        }
    }

    /// The owner dismisses the current claimant, returning the request to
    /// the waiting state with its bid pool intact.
    pub fn dismiss_accepter(&mut self, request_id: &str, user_id: &str) -> (r: Result<(), Error>)
        requires
            old(self).wf(),
        ensures
            final(self).wf(),
            final(self).locations() == old(self).locations(),
            final(self).breeds() == old(self).breeds(),
            final(self).dogs() == old(self).dogs(),
            match r {
                Ok(()) => {
                    &&& spec_count(
                        old(self).requests(),
                        spec_claimed_by_query(request_id@, user_id@),
                    ) == 1
                    &&& final(self).requests() == spec_update_all(
                        old(self).requests(),
                        spec_claimed_by_query(request_id@, user_id@),
                        spec_dismiss_update(),
                    )
                },
                Err(e) => {
                    &&& final(self).requests() == old(self).requests()
                    &&& {
                        ||| (e@.kind == ErrorKind::PreconditionFailed && spec_count(
                            old(self).requests(),
                            spec_claimed_by_query(request_id@, user_id@),
                        ) == 0)
                        ||| e@.kind == ErrorKind::BackendUnavailable
                    }
                },
            },
    {
        proof {
            self.repository.wf_unique_ids();
        }
        let q = claimed_by_query(request_id, user_id);
        let mut u = empty_update();
        u.unset_accepted_by = true;
        u.unset_accepted_at = true;
        proof {
            assert(u@ =~= spec_dismiss_update());
        }
        match self.repository.update_walk_requests_by_query(q, u) {
            Ok(n) => {
                if n == 1 {
                    Ok(())
                } else {
                    proof {
                        lemma_id_count_le_one(
                            old(self).requests(),
                            spec_claimed_by_query(request_id@, user_id@),
                        );
                        lemma_update_all_no_match(
                            old(self).requests(),
                            spec_claimed_by_query(request_id@, user_id@),
                            spec_dismiss_update(),
                        );
                    }
                    Err(Error::msg("request absent or already vacated"))
                }
            },
            Err(e) => Err(e),
        }
    }

    /// The current claimant resigns, clearing the claim and leaving the
    /// bid pool.
    pub fn resign_acceptance(&mut self, request_id: &str, user_id: &str) -> (r: Result<(), Error>)
        requires
            old(self).wf(),
        ensures
            final(self).wf(),
            final(self).locations() == old(self).locations(),
            final(self).breeds() == old(self).breeds(),
            final(self).dogs() == old(self).dogs(),
            match r {
                Ok(()) => {
                    &&& spec_count(
                        old(self).requests(),
                        spec_claimed_by_query(request_id@, user_id@),
                    ) == 1
                    &&& final(self).requests() == spec_update_all(
                        old(self).requests(),
                        spec_claimed_by_query(request_id@, user_id@),
                        spec_resign_update(user_id@),
                    )
                },
                Err(e) => {
                    &&& final(self).requests() == old(self).requests()
                    &&& {
                        ||| (e@.kind == ErrorKind::PreconditionFailed && spec_count(
                            old(self).requests(),
                            spec_claimed_by_query(request_id@, user_id@),
                        ) == 0)
                        ||| e@.kind == ErrorKind::BackendUnavailable
                    }
                },
            },
    {
        proof {
            self.repository.wf_unique_ids();
        }
        let q = claimed_by_query(request_id, user_id);
        let mut u = empty_update();
        u.unset_accepted_by = true;
        u.unset_accepted_at = true;
        u.remove_from_acceptances = Some(user_id.to_owned());
        proof {
            assert(u@ =~= spec_resign_update(user_id@));
        }
        match self.repository.update_walk_requests_by_query(q, u) {
            Ok(n) => {
                if n == 1 {
                    Ok(())
                } else {
                    proof {
                        lemma_id_count_le_one(
                            old(self).requests(),
                            spec_claimed_by_query(request_id@, user_id@),
                        );
                        lemma_update_all_no_match(
                            old(self).requests(),
                            spec_claimed_by_query(request_id@, user_id@),
                            spec_resign_update(user_id@),
                        );
                    }
                    Err(Error::msg("request absent or already dismissed by owner"))
                }
            },
            Err(e) => Err(e),
        }
    }

    /// The owner cancels a still-unclaimed request.
    pub fn cancel_unaccepted_request(&mut self, request_id: &str) -> (r: Result<(), Error>)
        requires
            old(self).wf(),
        ensures
            final(self).wf(),
            final(self).locations() == old(self).locations(),
            final(self).breeds() == old(self).breeds(),
            final(self).dogs() == old(self).dogs(),
            match r {
                Ok(()) => {
                    &&& spec_count(
                        old(self).requests(),
                        spec_cancel_unclaimed_query(request_id@),
                    ) == 1
                    &&& exists|t: i64|
                        #![trigger spec_cancel_update(t)]
                        0 <= t && final(self).requests() == spec_update_all(
                            old(self).requests(),
                            spec_cancel_unclaimed_query(request_id@),
                            spec_cancel_update(t),
                        )
                },
                Err(e) => {
                    &&& final(self).requests() == old(self).requests()
                    &&& {
                        ||| (e@.kind == ErrorKind::PreconditionFailed && spec_count(
                            old(self).requests(),
                            spec_cancel_unclaimed_query(request_id@),
                        ) == 0)
                        ||| e@.kind == ErrorKind::BackendUnavailable
                    }
                },
            },
    {
        proof {
            self.repository.wf_unique_ids();
        }
        let q = claim_query(request_id);
        let now = clock::now_millis();
        let mut u = empty_update();
        u.canceled_at = Some(now);
        proof {
            assert(q@ =~= spec_cancel_unclaimed_query(request_id@));
            assert(u@ =~= spec_cancel_update(now));
        }
        match self.repository.update_walk_requests_by_query(q, u) {
            Ok(n) => {
                if n == 1 {
                    Ok(())
                } else {
                    proof {
                        lemma_id_count_le_one(
                            old(self).requests(),
                            spec_cancel_unclaimed_query(request_id@),
                        );
                        lemma_update_all_no_match(
                            old(self).requests(),
                            spec_cancel_unclaimed_query(request_id@),
                            spec_cancel_update(now),
                        );
                    }
                    Err(Error::msg("request absent or already claimed"))
                }
            },
            Err(e) => Err(e),
        }
    }

    /// The owner cancels a request currently claimed by the given walker.
    pub fn cancel_accepted_request(&mut self, request_id: &str, user_id: &str) -> (r: Result<
        (),
        Error,
    >)
        requires
            old(self).wf(),
        ensures
            final(self).wf(),
            final(self).locations() == old(self).locations(),
            final(self).breeds() == old(self).breeds(),
            final(self).dogs() == old(self).dogs(),
            match r {
                Ok(()) => {
                    &&& spec_count(
                        old(self).requests(),
                        spec_claimed_by_query(request_id@, user_id@),
                    ) == 1
                    &&& exists|t: i64|
                        #![trigger spec_cancel_update(t)]
                        0 <= t && final(self).requests() == spec_update_all(
                            old(self).requests(),
                            spec_claimed_by_query(request_id@, user_id@),
                            spec_cancel_update(t),
                        )
                },
                Err(e) => {
                    &&& final(self).requests() == old(self).requests()
                    &&& {
                        ||| (e@.kind == ErrorKind::PreconditionFailed && spec_count(
                            old(self).requests(),
                            spec_claimed_by_query(request_id@, user_id@),
                        ) == 0)
                        ||| e@.kind == ErrorKind::BackendUnavailable
                    }
                },
            },
    {
        proof {
            self.repository.wf_unique_ids();
        }
        let q = claimed_by_query(request_id, user_id);
        let now = clock::now_millis();
        let mut u = empty_update();
        u.canceled_at = Some(now);
        proof {
            assert(u@ =~= spec_cancel_update(now));
        }
        match self.repository.update_walk_requests_by_query(q, u) {
            Ok(n) => {
                if n == 1 {
                    Ok(())
                } else {
                    proof {
                        lemma_id_count_le_one(
                            old(self).requests(),
                            spec_claimed_by_query(request_id@, user_id@),
                        );
                        lemma_update_all_no_match(
                            old(self).requests(),
                            spec_claimed_by_query(request_id@, user_id@),
                            spec_cancel_update(now),
                        );
                    }
                    Err(Error::msg("request absent"))
                }
            },
            Err(e) => Err(e),
        }
    }

    /// Append one location sample for a walk in progress.
    pub fn record_walking_location(
        &mut self,
        walk_request_id: &str,
        longitude: i64,
        latitude: i64,
    ) -> (r: Result<String, Error>)
        requires
            old(self).wf(),
        ensures
            final(self).wf(),
            final(self).requests() == old(self).requests(),
            final(self).breeds() == old(self).breeds(),
            final(self).dogs() == old(self).dogs(),
            match r {
                Ok(id) => spec_location_created(
                    old(self).locations(),
                    final(self).locations(),
                    WalkingLocationCreateView { walk_request_id: walk_request_id@, longitude, latitude },
                    id@,
                ),
                Err(e) => {
                    &&& final(self).locations() == old(self).locations()
                    &&& (e@.kind == ErrorKind::ValidationError && !spec_location_create_ok(
                        WalkingLocationCreateView {
                            walk_request_id: walk_request_id@,
                            longitude,
                            latitude,
                        },
                    )) || e@.kind == ErrorKind::BackendUnavailable
                },
            },
    {
        let create = WalkingLocationCreate {
            walk_request_id: walk_request_id.to_owned(),
            longitude,
            latitude,
        };
        proof {
            assert(create@ =~= (WalkingLocationCreateView {
                walk_request_id: walk_request_id@,
                longitude,
                latitude,
            }));
        }
        self.repository.create_walking_location(create)
    }

    /// Unclaimed requests within `radius` meters of the origin, each
    /// annotated with its computed distance, paginated.
    pub fn nearby_walk_requests(
        &self,
        latitute: i64,
        longitude: i64,
        radius: i64,
        pagination: Pagination,
    ) -> (r: Result<Vec<WalkRequest>, Error>)
        requires
            self.wf(),
        ensures
            match r {
                Ok(v) => {
                    &&& spec_query_ok(spec_nearby_query(longitude, latitute, radius))
                    &&& spec_pagination_ok(Some(pagination))
                    &&& v.deep_view() == spec_paginate(
                        spec_results(
                            self.requests(),
                            spec_nearby_query(longitude, latitute, radius),
                        ),
                        Some(pagination),
                    )
                },
                Err(e) => {
                    ||| (e@.kind == ErrorKind::ValidationError && !(spec_query_ok(
                        spec_nearby_query(longitude, latitute, radius),
                    ) && spec_pagination_ok(Some(pagination))))
                    ||| e@.kind == ErrorKind::BackendUnavailable
                },
            },
    {
        let mut triple: Vec<i64> = Vec::new();
        triple.push(longitude);
        triple.push(latitute);
        triple.push(radius);
        let q = WalkRequestQuery {
            accepted_by_is_null: Some(true),
            nearby: Some(triple),
            ..empty_query()
        };
        proof {
            assert(q@.nearby.unwrap() =~= seq![longitude, latitute, radius]);
            assert(q@ =~= spec_nearby_query(longitude, latitute, radius));
        }
        self.repository.query_walk_requests(q, None, Some(pagination))
    }

    /// The requests this user created, newest first, paginated.
    pub fn my_walk_requests(&self, user_id: &str, pagination: Pagination) -> (r: Result<
        Vec<WalkRequest>,
        Error,
    >)
        requires
            self.wf(),
        ensures
            match r {
                Ok(v) => {
                    &&& spec_pagination_ok(Some(pagination))
                    &&& v.deep_view() == spec_paginate(
                        spec_sort(
                            spec_results(self.requests(), spec_my_query(user_id@)),
                            Order::Desc,
                        ),
                        Some(pagination),
                    )
                },
                Err(e) => {
                    ||| (e@.kind == ErrorKind::ValidationError && !spec_pagination_ok(
                        Some(pagination),
                    ))
                    ||| e@.kind == ErrorKind::BackendUnavailable
                },
            },
    {
        let q = WalkRequestQuery { created_by: Some(user_id.to_owned()), ..empty_query() };
        let sort = SortBy { field: "created_at".to_owned(), order: Order::Desc };
        proof {
            assert(q@ =~= spec_my_query(user_id@));
        }
        self.repository.query_walk_requests(q, Some(sort), Some(pagination))
    }

    /// Breeds and dogs are reference data around the core; the
    /// coordinator passes their maintenance straight to the port.
    pub fn create_breed(&mut self, breed: BreedCreate) -> (r: Result<String, Error>)
        requires
            old(self).wf(),
        ensures
            final(self).wf(),
            final(self).requests() == old(self).requests(),
            final(self).locations() == old(self).locations(),
            final(self).dogs() == old(self).dogs(),
            match r {
                Ok(id) => {
                    &&& forall|i: int|
                        0 <= i < old(self).breeds().len() ==> (#[trigger] old(
                            self,
                        ).breeds()[i]).id != id@
                    &&& final(self).breeds() == old(self).breeds().push(
                        spec_new_breed(id@, breed@),
                    )
                },
                Err(e) => final(self).breeds() == old(self).breeds() && e@.kind
                    == ErrorKind::BackendUnavailable,
            },
    {
        self.repository.create_breed(&breed)
    }

    /// Delete a breed by id, reporting whether it existed.
    pub fn delete_breed(&mut self, id: &str) -> (r: Result<bool, Error>)
        requires
            old(self).wf(),
        ensures
            final(self).wf(),
            final(self).requests() == old(self).requests(),
            final(self).locations() == old(self).locations(),
            final(self).dogs() == old(self).dogs(),
            match r {
                Ok(b) => {
                    &&& final(self).breeds() == spec_remove_breeds(old(self).breeds(), id@)
                    &&& b == spec_breed_exists(old(self).breeds(), id@)
                },
                Err(e) => final(self).breeds() == old(self).breeds() && e@.kind
                    == ErrorKind::BackendUnavailable,
            },
    {
        self.repository.delete_breed(id)
    }

    /// The breeds satisfying the query, with their total count.
    pub fn query_breeds(&self, query: &BreedQuery) -> (r: Result<(Vec<Breed>, i64), Error>)
        requires
            self.wf(),
        ensures
            match r {
                Ok(p) => {
                    &&& p.0.deep_view() == spec_filter_breeds(self.breeds(), query@)
                    &&& p.1 as int == spec_filter_breeds(self.breeds(), query@).len()
                },
                Err(e) => e@.kind == ErrorKind::BackendUnavailable,
            },
    {
        self.repository.query_breeds(query)
    }

    /// Register a dog, resolving its breed query against the stored
    /// breeds.
    pub fn create_dog(&mut self, dog: &DogCreate) -> (r: Result<Dog, Error>)
        requires
            old(self).wf(),
        ensures
            final(self).wf(),
            final(self).requests() == old(self).requests(),
            final(self).locations() == old(self).locations(),
            final(self).breeds() == old(self).breeds(),
            match r {
                Ok(d) => {
                    &&& forall|i: int|
                        0 <= i < old(self).dogs().len() ==> (#[trigger] old(self).dogs()[i]).id
                            != d@.id
                    &&& exists|i: int|
                        #![trigger old(self).breeds()[i]]
                        spec_is_first_breed(old(self).breeds(), dog@.breed, i) && d@
                            == spec_new_dog(d@.id, dog@, old(self).breeds()[i])
                    &&& final(self).dogs() == old(self).dogs().push(d@)
                },
                Err(e) => {
                    &&& final(self).dogs() == old(self).dogs()
                    &&& {
                        ||| (e@.kind == ErrorKind::NotFound && forall|i: int|
                            0 <= i < old(self).breeds().len() ==> !breed_matches(
                                dog@.breed,
                                #[trigger] old(self).breeds()[i],
                            ))
                        ||| e@.kind == ErrorKind::BackendUnavailable
                    }
                },
            },
    {
        let res = self.repository.create_dog(dog);
        proof {
            assert(old(self).breeds() == old(self).repository.breeds());
            assert(old(self).dogs() == old(self).repository.dogs());
            if res is Ok {
                let d = res->Ok_0;
                let i = choose|i: int|
                    #![trigger old(self).repository.breeds()[i]]
                    spec_is_first_breed(old(self).repository.breeds(), dog@.breed, i) && d@
                        == spec_new_dog(d@.id, dog@, old(self).repository.breeds()[i]);
                assert(spec_is_first_breed(old(self).breeds(), dog@.breed, i) && d@
                    == spec_new_dog(d@.id, dog@, old(self).breeds()[i]));
            }
        }
        res
    }

    /// Apply a partial update to a dog, reporting whether anything was
    /// modified.
    pub fn update_dog(&mut self, id: &str, dog: &DogUpdate) -> (r: Result<bool, Error>)
        requires
            old(self).wf(),
        ensures
            final(self).wf(),
            final(self).requests() == old(self).requests(),
            final(self).locations() == old(self).locations(),
            final(self).breeds() == old(self).breeds(),
            match r {
                Ok(b) => {
                    &&& b == (spec_dog_exists(old(self).dogs(), id@)
                        && spec_dog_update_nonempty(dog@))
                    &&& final(self).dogs() == spec_update_dogs(old(self).dogs(), id@, dog@)
                },
                Err(e) => final(self).dogs() == old(self).dogs() && e@.kind
                    == ErrorKind::BackendUnavailable,
            },
    {
        self.repository.update_dog(id, dog)
    }

    /// Point a dog at a freshly uploaded portrait.
    pub fn update_dog_portrait(&mut self, id: &str, portrait_id: &str) -> (r: Result<bool, Error>)
        requires
            old(self).wf(),
        ensures
            final(self).wf(),
            final(self).requests() == old(self).requests(),
            final(self).locations() == old(self).locations(),
            final(self).breeds() == old(self).breeds(),
            match r {
                Ok(b) => {
                    &&& b == spec_dog_exists(old(self).dogs(), id@)
                    &&& final(self).dogs() == spec_update_dogs(
                        old(self).dogs(),
                        id@,
                        spec_portrait_update(portrait_id@),
                    )
                },
                Err(e) => final(self).dogs() == old(self).dogs() && e@.kind
                    == ErrorKind::BackendUnavailable,
            },
    {
        let update = DogUpdate {
            name: None,
            gender: None,
            breed: None,
            birthday: None,
            is_sterilized: None,
            introduction: None,
            owner_id: None,
            tags: None,
            portrait_id: Some(portrait_id.to_owned()),
        };
        proof {
            assert(update@ =~= spec_portrait_update(portrait_id@));
        }
        self.repository.update_dog(id, &update)
    }

    /// The dogs this user owns, paginated.
    pub fn my_dogs(&self, owner_id: &str, pagination: Option<Pagination>) -> (r: Result<
        Vec<Dog>,
        Error,
    >)
        requires
            self.wf(),
        ensures
            match r {
                Ok(v) => {
                    &&& spec_pagination_ok(pagination)
                    &&& v.deep_view() == spec_paginate(
                        spec_filter_dogs(
                            self.dogs(),
                            spec_my_dogs_query(owner_id@, pagination),
                        ),
                        pagination,
                    )
                },
                Err(e) => {
                    ||| (e@.kind == ErrorKind::ValidationError && !spec_pagination_ok(pagination))
                    ||| e@.kind == ErrorKind::BackendUnavailable
                },
            },
    {
        let query = DogQuery { id: None, id_in: None, owner_id: Some(owner_id.to_owned()), pagination };
        proof {
            assert(query@ =~= spec_my_dogs_query(owner_id@, pagination));
        }
        self.repository.query_dogs(&query)
    }

    /// The dogs satisfying an arbitrary query, paginated.
    pub fn query_dogs(&self, query: &DogQuery) -> (r: Result<Vec<Dog>, Error>)
        requires
            self.wf(),
        ensures
            match r {
                Ok(v) => {
                    &&& spec_pagination_ok(query@.pagination)
                    &&& v.deep_view() == spec_paginate(
                        spec_filter_dogs(self.dogs(), query@),
                        query@.pagination,
                    )
                },
                Err(e) => {
                    ||| (e@.kind == ErrorKind::ValidationError && !spec_pagination_ok(
                        query@.pagination,
                    ))
                    ||| e@.kind == ErrorKind::BackendUnavailable
                },
            },
    {
        self.repository.query_dogs(query)
    }

    /// Whether this user owns this dog.
    pub fn is_owner_of_the_dog(&self, owner_id: &str, dog_id: &str) -> (r: Result<bool, Error>)
        requires
            self.wf(),
        ensures
            match r {
                Ok(b) => b == spec_any_dog(
                    self.dogs(),
                    spec_owner_dog_query(dog_id@, owner_id@),
                ),
                Err(e) => e@.kind == ErrorKind::BackendUnavailable,
            },
    {
        let query = DogQuery {
            id: Some(dog_id.to_owned()),
            id_in: None,
            owner_id: Some(owner_id.to_owned()),
            pagination: None,
        };
        proof {
            assert(query@ =~= spec_owner_dog_query(dog_id@, owner_id@));
        }
        self.repository.exists_dog(&query)
    }
}

} // verus!
