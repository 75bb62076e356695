//! Value shapes of the marketplace: breeds, dogs, walk requests and
//! walking-location samples, together with their mathematical views.
//!
//! Timestamps are UTC instants in milliseconds since the Unix epoch.
//! Geographic coordinates are degrees scaled by one million (microdegrees),
//! stored as `[longitude, latitude]`; a computed `distance` is in meters and
//! is populated only by proximity queries.

use vstd::prelude::*;

verus! {

/// Size class of a breed.
#[derive(Clone, Copy, PartialEq, Eq, Structural, Debug)]
pub enum Category {
    Small,
    Medium,
    Large,
    Giant,
}

impl Category {
    pub open spec fn spec_name(self) -> Seq<char> {
        match self {
            Category::Small => "Small"@,
            Category::Medium => "Medium"@,
            Category::Large => "Large"@,
            Category::Giant => "Giant"@,
        }
    }

    /// The display label of the category.
    pub fn name(&self) -> (r: String)
        ensures
            r@ == self.spec_name(),
    {
        match self {
            Category::Small => "Small".to_owned(),
            Category::Medium => "Medium".to_owned(),
            Category::Large => "Large".to_owned(),
            Category::Giant => "Giant".to_owned(),
        }
    }
}

#[derive(Clone, Copy, PartialEq, Eq, Structural, Debug)]
pub enum Gender {
    Other,
    Male,
    Female,
}

impl Default for Gender {
    fn default() -> (r: Self)
        ensures
            r == Gender::Other,
    {
        Gender::Other
    }
}

/// Immutable breed reference data.
#[derive(Debug)]
pub struct Breed {
    pub id: String,
    pub category: Category,
    pub name: String,
}

#[verifier::ext_equal]
pub ghost struct BreedView {
    pub id: Seq<char>,
    pub category: Category,
    pub name: Seq<char>,
}

impl View for Breed {
    type V = BreedView;

    open spec fn view(&self) -> BreedView {
        BreedView { id: self.id@, category: self.category, name: self.name@ }
    }
}

impl DeepView for Breed {
    type V = BreedView;

    open spec fn deep_view(&self) -> BreedView {
        self.view()
    }
}

impl Clone for Breed {
    fn clone(&self) -> (r: Self)
        ensures
            r@ == self@,
    {
        Breed { id: self.id.clone(), category: self.category, name: self.name.clone() }
    }
}

/// A dog, owned by exactly one user.  A walk request embeds dogs by value
/// as denormalized snapshots taken at creation time.
#[derive(Debug)]
pub struct Dog {
    pub id: String,
    pub name: String,
    pub gender: Gender,
    pub breed: Breed,
    /// Birthday as a UTC instant in milliseconds.
    pub birthday: i64,
    pub owner_id: String,
    pub tags: Vec<String>,
    pub portrait_id: Option<String>,
}

#[verifier::ext_equal]
pub ghost struct DogView {
    pub id: Seq<char>,
    pub name: Seq<char>,
    pub gender: Gender,
    pub breed: BreedView,
    pub birthday: i64,
    pub owner_id: Seq<char>,
    pub tags: Seq<Seq<char>>,
    pub portrait_id: Option<Seq<char>>,
}

impl View for Dog {
    type V = DogView;

    open spec fn view(&self) -> DogView {
        DogView {
            id: self.id@,
            name: self.name@,
            gender: self.gender,
            breed: self.breed@,
            birthday: self.birthday,
            owner_id: self.owner_id@,
            tags: self.tags.deep_view(),
            portrait_id: self.portrait_id.deep_view(),
        }
    }
}

impl DeepView for Dog {
    type V = DogView;

    open spec fn deep_view(&self) -> DogView {
        self.view()
    }
}

impl Clone for Dog {
    fn clone(&self) -> (r: Self)
        ensures
            r@ == self@,
    {
        let r = Dog {
            id: self.id.clone(),
            name: self.name.clone(),
            gender: self.gender,
            breed: self.breed.clone(),
            birthday: self.birthday,
            owner_id: self.owner_id.clone(),
            tags: self.tags.clone(),
            portrait_id: self.portrait_id.clone(),
        };
        proof {
            assert(r.tags.deep_view() =~= self.tags.deep_view());
            assert(r@ =~= self@);
        }
        r
    }
}

/// Derived lifecycle label of a walk request; computed on read, never stored.
#[derive(Clone, Copy, PartialEq, Eq, Structural, Debug)]
pub enum Status {
    Canceled,
    Accepted,
    Started,
    Finished,
    Waiting,
}

impl Status {
    pub open spec fn spec_name(self) -> Seq<char> {
        match self {
            Status::Canceled => "Canceled"@,
            Status::Accepted => "Accepted"@,
            Status::Started => "Started"@,
            Status::Finished => "Finished"@,
            Status::Waiting => "Waiting"@,
        }
    }

    /// The display label of the status.
    pub fn name(&self) -> (r: String)
        ensures
            r@ == self.spec_name(),
    {
        match self {
            Status::Canceled => "Canceled".to_owned(),
            Status::Accepted => "Accepted".to_owned(),
            Status::Started => "Started".to_owned(),
            Status::Finished => "Finished".to_owned(),
            Status::Waiting => "Waiting".to_owned(),
        }
    }
}

/// A dog owner's request for someone to walk their dogs: the central entity.
///
/// The four `should_*` bounds are preferences, not constraints the core
/// enforces.  `accepted_by`/`accepted_at` carry the current claim;
/// `acceptances` is the bid pool of walkers who expressed interest.
#[derive(Debug)]
pub struct WalkRequest {
    pub id: String,
    pub dogs: Vec<Dog>,
    pub should_start_after: Option<i64>,
    pub should_start_before: Option<i64>,
    pub should_end_after: Option<i64>,
    pub should_end_before: Option<i64>,
    /// Longitude in microdegrees at creation.
    pub longitude: i64,
    /// Latitude in microdegrees at creation.
    pub latitude: i64,
    /// Distance in meters from a query origin; populated only by proximity
    /// queries.
    pub distance: Option<i64>,
    pub canceled_at: Option<i64>,
    pub accepted_by: Option<String>,
    pub accepted_at: Option<i64>,
    pub started_at: Option<i64>,
    pub finished_at: Option<i64>,
    pub acceptances: Vec<String>,
    pub created_by: String,
    pub created_at: Option<i64>,
    pub updated_at: Option<i64>,
}

#[verifier::ext_equal]
pub ghost struct WalkRequestView {
    pub id: Seq<char>,
    pub dogs: Seq<DogView>,
    pub should_start_after: Option<i64>,
    pub should_start_before: Option<i64>,
    pub should_end_after: Option<i64>,
    pub should_end_before: Option<i64>,
    pub longitude: i64,
    pub latitude: i64,
    pub distance: Option<i64>,
    pub canceled_at: Option<i64>,
    pub accepted_by: Option<Seq<char>>,
    pub accepted_at: Option<i64>,
    pub started_at: Option<i64>,
    pub finished_at: Option<i64>,
    pub acceptances: Seq<Seq<char>>,
    pub created_by: Seq<char>,
    pub created_at: Option<i64>,
    pub updated_at: Option<i64>,
}

impl View for WalkRequest {
    type V = WalkRequestView;

    open spec fn view(&self) -> WalkRequestView {
        WalkRequestView {
            id: self.id@,
            dogs: self.dogs.deep_view(),
            should_start_after: self.should_start_after,
            should_start_before: self.should_start_before,
            should_end_after: self.should_end_after,
            should_end_before: self.should_end_before,
            longitude: self.longitude,
            latitude: self.latitude,
            distance: self.distance,
            canceled_at: self.canceled_at,
            accepted_by: self.accepted_by.deep_view(),
            accepted_at: self.accepted_at,
            started_at: self.started_at,
            finished_at: self.finished_at,
            acceptances: self.acceptances.deep_view(),
            created_by: self.created_by@,
            created_at: self.created_at,
            updated_at: self.updated_at,
        }
    }
}

impl DeepView for WalkRequest {
    type V = WalkRequestView;

    open spec fn deep_view(&self) -> WalkRequestView {
        self.view()
    }
}

impl Clone for WalkRequest {
    fn clone(&self) -> (r: Self)
        ensures
            r@ == self@,
    {
        let r = WalkRequest {
            id: self.id.clone(),
            dogs: self.dogs.clone(),
            should_start_after: self.should_start_after,
            should_start_before: self.should_start_before,
            should_end_after: self.should_end_after,
            should_end_before: self.should_end_before,
            longitude: self.longitude,
            latitude: self.latitude,
            distance: self.distance,
            canceled_at: self.canceled_at,
            accepted_by: self.accepted_by.clone(),
            accepted_at: self.accepted_at,
            started_at: self.started_at,
            finished_at: self.finished_at,
            acceptances: self.acceptances.clone(),
            created_by: self.created_by.clone(),
            created_at: self.created_at,
            updated_at: self.updated_at,
        };
        proof {
            assert(r.dogs.deep_view() =~= self.dogs.deep_view());
            assert(r.acceptances.deep_view() =~= self.acceptances.deep_view());
            assert(r@ =~= self@);
        }
        r
    }
}

impl WalkRequestView {
    /// Status derivation, first match in this priority order:
    /// Canceled > Accepted > Started > Finished > Waiting, each keyed on its
    /// timestamp being set.  Note that the order is deliberate: while
    /// `accepted_at` stays set, a request whose walk has started or finished
    /// still reports `Accepted`.
    pub open spec fn spec_status(self) -> Status {
        if self.canceled_at is Some {
            Status::Canceled
        } else if self.accepted_at is Some {
            Status::Accepted
        } else if self.started_at is Some {
            Status::Started
        } else if self.finished_at is Some {
            Status::Finished
        } else {
            Status::Waiting
        }
    }
}

impl WalkRequest {
    /// Derived status; see [`WalkRequestView::spec_status`] for the priority
    /// order.
    pub fn status(&self) -> (s: Status)
        ensures
            s == self@.spec_status(),
    {
        if self.canceled_at.is_some() {
            Status::Canceled
        } else if self.accepted_at.is_some() {
            Status::Accepted
        } else if self.started_at.is_some() {
            Status::Started
        } else if self.finished_at.is_some() {
            Status::Finished
        } else {
            Status::Waiting
        }
    }
}

/// An append-only breadcrumb sample written while a walk is in progress.
/// It references its walk request by id only and is never updated or
/// deleted.
#[derive(Debug)]
pub struct WalkingLocation {
    pub id: String,
    pub request_id: String,
    pub longitude: i64,
    pub latitude: i64,
    pub created_at: i64,
}

#[verifier::ext_equal]
pub ghost struct WalkingLocationView {
    pub id: Seq<char>,
    pub request_id: Seq<char>,
    pub longitude: i64,
    pub latitude: i64,
    pub created_at: i64,
}

impl View for WalkingLocation {
    type V = WalkingLocationView;

    open spec fn view(&self) -> WalkingLocationView {
        WalkingLocationView {
            id: self.id@,
            request_id: self.request_id@,
            longitude: self.longitude,
            latitude: self.latitude,
            created_at: self.created_at,
        }
    }
}

impl DeepView for WalkingLocation {
    type V = WalkingLocationView;

    open spec fn deep_view(&self) -> WalkingLocationView {
        self.view()
    }
}

impl Clone for WalkingLocation {
    fn clone(&self) -> (r: Self)
        ensures
            r@ == self@,
    {
        WalkingLocation {
            id: self.id.clone(),
            request_id: self.request_id.clone(),
            longitude: self.longitude,
            latitude: self.latitude,
            created_at: self.created_at,
        }
    }
}

} // verus!
