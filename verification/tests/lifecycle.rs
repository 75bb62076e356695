//! Scenario tests for the request lifecycle coordinator over the
//! in-memory port.

use little_walk::entities::{Breed, Category, Dog, Gender, Status};
use little_walk::error::ErrorKind;
use little_walk::memory::MemoryRepository;
use little_walk::repository::WalkRequestCreate;
use little_walk::service::Service;

fn new_service() -> Service<MemoryRepository> {
    Service::new(MemoryRepository::new())
}

fn plain_request(created_by: &str, lon: i64, lat: i64) -> WalkRequestCreate {
    WalkRequestCreate {
        dogs: vec![],
        should_start_after: None,
        should_start_before: None,
        should_end_after: None,
        should_end_before: None,
        latitude: lat,
        longitude: lon,
        created_by: created_by.to_string(),
    }
}

#[test]
fn create_starts_waiting_and_unclaimed() {
    let mut svc = new_service();
    let id = svc
        .create_walk_request(plain_request("owner", 1_000_000, 2_000_000))
        .unwrap();
    let req = svc.get_walk_request(&id).unwrap();
    assert_eq!(req.id, id);
    assert_eq!(req.created_by, "owner".to_string());
    assert_eq!(req.accepted_by, None);
    assert_eq!(req.accepted_at, None);
    assert_eq!(req.canceled_at, None);
    assert_eq!(req.started_at, None);
    assert_eq!(req.finished_at, None);
    assert!(req.acceptances.is_empty());
    assert!(req.created_at.is_some());
    assert_eq!(req.status(), Status::Waiting);
}

#[test]
fn created_ids_are_distinct() {
    let mut svc = new_service();
    let a = svc.create_walk_request(plain_request("o", 0, 0)).unwrap();
    let b = svc.create_walk_request(plain_request("o", 0, 0)).unwrap();
    assert_ne!(a, b);
}

#[test]
fn claim_then_rival_claim_then_dismiss_then_claim() {
    // Request A unclaimed; X claims; Y's claim conflicts; the owner
    // dismisses X; Y's claim then succeeds.
    let mut svc = new_service();
    let a = svc.create_walk_request(plain_request("owner", 0, 0)).unwrap();

    let claimed = svc.accept(&a, "walker-x").unwrap();
    assert_eq!(claimed.accepted_by, Some("walker-x".to_string()));
    assert!(claimed.accepted_at.is_some());
    assert_eq!(claimed.status(), Status::Accepted);

    let conflict = svc.accept(&a, "walker-y").unwrap_err();
    assert_eq!(conflict.kind(), ErrorKind::PreconditionFailed);
    assert_eq!(conflict.text(), "request absent or already claimed".to_string());

    svc.dismiss_accepter(&a, "walker-x").unwrap();
    let vacated = svc.get_walk_request(&a).unwrap();
    assert_eq!(vacated.accepted_by, None);
    assert_eq!(vacated.accepted_at, None);

    let reclaimed = svc.accept(&a, "walker-y").unwrap();
    assert_eq!(reclaimed.accepted_by, Some("walker-y".to_string()));
}

#[test]
fn assign_requires_membership_in_bid_pool() {
    // Request B has bids from X and Y.  Assigning Z conflicts; assigning
    // X succeeds.
    let mut svc = new_service();
    let b = svc.create_walk_request(plain_request("owner", 0, 0)).unwrap();
    svc.add_acceptance(&b, "walker-x").unwrap();
    svc.add_acceptance(&b, "walker-y").unwrap();

    let denied = svc.assign_accepter(&b, "walker-z").unwrap_err();
    assert_eq!(denied.kind(), ErrorKind::PreconditionFailed);
    assert_eq!(denied.text(), "request absent or bid withdrawn".to_string());

    svc.assign_accepter(&b, "walker-x").unwrap();
    let req = svc.get_walk_request(&b).unwrap();
    assert_eq!(req.accepted_by, Some("walker-x".to_string()));
    assert!(req.accepted_at.is_some());
}

#[test]
fn join_is_idempotent() {
    let mut svc = new_service();
    let id = svc.create_walk_request(plain_request("owner", 0, 0)).unwrap();
    svc.add_acceptance(&id, "walker-x").unwrap();
    svc.add_acceptance(&id, "walker-x").unwrap();
    let req = svc.get_walk_request(&id).unwrap();
    let count = req
        .acceptances
        .iter()
        .filter(|w| w.as_str() == "walker-x")
        .count();
    assert_eq!(count, 1);
}

#[test]
fn withdraw_removes_bid_but_not_for_the_claimant() {
    let mut svc = new_service();
    let id = svc.create_walk_request(plain_request("owner", 0, 0)).unwrap();
    svc.add_acceptance(&id, "walker-x").unwrap();
    svc.add_acceptance(&id, "walker-y").unwrap();
    svc.assign_accepter(&id, "walker-x").unwrap();

    // The confirmed claimant may not simply withdraw their bid.
    let denied = svc.remove_acceptance(&id, "walker-x").unwrap_err();
    assert_eq!(denied.kind(), ErrorKind::PreconditionFailed);
    assert_eq!(
        denied.text(),
        "request absent or already confirmed by owner".to_string()
    );

    // Another bidder still can.
    svc.remove_acceptance(&id, "walker-y").unwrap();
    let req = svc.get_walk_request(&id).unwrap();
    assert_eq!(req.acceptances, vec!["walker-x".to_string()]);
}

#[test]
fn resign_and_dismiss_both_vacate_the_claim() {
    let mut svc = new_service();

    // Resignation clears the claim and leaves the pool.
    let a = svc.create_walk_request(plain_request("owner", 0, 0)).unwrap();
    svc.add_acceptance(&a, "walker-x").unwrap();
    svc.assign_accepter(&a, "walker-x").unwrap();
    svc.resign_acceptance(&a, "walker-x").unwrap();
    let after_resign = svc.get_walk_request(&a).unwrap();
    assert_eq!(after_resign.accepted_by, None);
    assert_eq!(after_resign.accepted_at, None);
    assert!(after_resign.acceptances.is_empty());
    let again = svc.resign_acceptance(&a, "walker-x").unwrap_err();
    assert_eq!(again.kind(), ErrorKind::PreconditionFailed);

    // Dismissal clears the claim but keeps the pool.
    let b = svc.create_walk_request(plain_request("owner", 0, 0)).unwrap();
    svc.add_acceptance(&b, "walker-y").unwrap();
    svc.assign_accepter(&b, "walker-y").unwrap();
    svc.dismiss_accepter(&b, "walker-y").unwrap();
    let after_dismiss = svc.get_walk_request(&b).unwrap();
    assert_eq!(after_dismiss.accepted_by, None);
    assert_eq!(after_dismiss.accepted_at, None);
    assert_eq!(after_dismiss.acceptances, vec!["walker-y".to_string()]);
    let again = svc.dismiss_accepter(&b, "walker-y").unwrap_err();
    assert_eq!(again.kind(), ErrorKind::PreconditionFailed);
    assert_eq!(again.text(), "request absent or already vacated".to_string());
}

#[test]
fn cancel_is_terminal_for_every_verb() {
    let mut svc = new_service();
    let id = svc.create_walk_request(plain_request("owner", 0, 0)).unwrap();
    svc.cancel_unaccepted_request(&id).unwrap();
    let req = svc.get_walk_request(&id).unwrap();
    assert!(req.canceled_at.is_some());
    assert_eq!(req.status(), Status::Canceled);

    assert_eq!(
        svc.accept(&id, "w").unwrap_err().kind(),
        ErrorKind::PreconditionFailed
    );
    assert_eq!(
        svc.add_acceptance(&id, "w").unwrap_err().kind(),
        ErrorKind::PreconditionFailed
    );
    assert_eq!(
        svc.remove_acceptance(&id, "w").unwrap_err().kind(),
        ErrorKind::PreconditionFailed
    );
    assert_eq!(
        svc.assign_accepter(&id, "w").unwrap_err().kind(),
        ErrorKind::PreconditionFailed
    );
    assert_eq!(
        svc.dismiss_accepter(&id, "w").unwrap_err().kind(),
        ErrorKind::PreconditionFailed
    );
    assert_eq!(
        svc.resign_acceptance(&id, "w").unwrap_err().kind(),
        ErrorKind::PreconditionFailed
    );
    assert_eq!(
        svc.cancel_unaccepted_request(&id).unwrap_err().kind(),
        ErrorKind::PreconditionFailed
    );
    assert_eq!(
        svc.cancel_accepted_request(&id, "w").unwrap_err().kind(),
        ErrorKind::PreconditionFailed
    );
    assert_eq!(
        svc.start_walk(&id, "w").unwrap_err().kind(),
        ErrorKind::PreconditionFailed
    );
    assert_eq!(
        svc.finish_walk(&id, "w").unwrap_err().kind(),
        ErrorKind::PreconditionFailed
    );
}

#[test]
fn cancel_unclaimed_conflicts_once_claimed() {
    let mut svc = new_service();
    let id = svc.create_walk_request(plain_request("owner", 0, 0)).unwrap();
    svc.accept(&id, "walker-x").unwrap();
    let denied = svc.cancel_unaccepted_request(&id).unwrap_err();
    assert_eq!(denied.kind(), ErrorKind::PreconditionFailed);
    assert_eq!(denied.text(), "request absent or already claimed".to_string());

    // The claimed form of cancel works, naming the current walker.
    svc.cancel_accepted_request(&id, "walker-x").unwrap();
    assert_eq!(
        svc.get_walk_request(&id).unwrap().status(),
        Status::Canceled
    );
}

#[test]
fn start_and_finish_require_the_assigned_walker() {
    let mut svc = new_service();
    let id = svc.create_walk_request(plain_request("owner", 0, 0)).unwrap();
    svc.accept(&id, "walker-x").unwrap();

    let denied = svc.start_walk(&id, "walker-y").unwrap_err();
    assert_eq!(denied.kind(), ErrorKind::PreconditionFailed);
    assert_eq!(
        denied.text(),
        "not the assigned walker or request absent".to_string()
    );

    let started = svc.start_walk(&id, "walker-x").unwrap();
    assert!(started.started_at.is_some());

    let finished = svc.finish_walk(&id, "walker-x").unwrap();
    assert!(finished.finished_at.is_some());
}

#[test]
fn status_priority_reports_accepted_while_claim_is_held() {
    // The derived status tests the timestamps in the order
    // Canceled > Accepted > Started > Finished > Waiting, so while the
    // claim is held a started (or even finished) walk still reports
    // Accepted.
    let mut svc = new_service();
    let id = svc.create_walk_request(plain_request("owner", 0, 0)).unwrap();
    svc.accept(&id, "walker-x").unwrap();
    let started = svc.start_walk(&id, "walker-x").unwrap();
    assert!(started.started_at.is_some());
    assert_eq!(started.status(), Status::Accepted);
    let finished = svc.finish_walk(&id, "walker-x").unwrap();
    assert_eq!(finished.status(), Status::Accepted);
    assert_eq!(finished.status().name(), "Accepted".to_string());

    // Once the claim is vacated, the started timestamp shows through.
    svc.dismiss_accepter(&id, "walker-x").unwrap();
    assert_eq!(svc.get_walk_request(&id).unwrap().status(), Status::Started);
}

#[test]
fn get_absent_request_is_not_found() {
    let svc = new_service();
    let err = svc.get_walk_request("missing").unwrap_err();
    assert_eq!(err.kind(), ErrorKind::NotFound);
}

#[test]
fn record_walking_location_appends_and_validates() {
    let mut svc = new_service();
    let id = svc.create_walk_request(plain_request("owner", 0, 0)).unwrap();
    svc.accept(&id, "walker-x").unwrap();
    let sample = svc.record_walking_location(&id, 1_000, 2_000).unwrap();
    assert!(!sample.is_empty());

    let bad = svc
        .record_walking_location(&id, 200_000_000, 0)
        .unwrap_err();
    assert_eq!(bad.kind(), ErrorKind::ValidationError);
}

#[test]
fn embedded_dog_snapshots_are_stored_by_value() {
    let dog = Dog {
        id: "dog-1".to_string(),
        name: "Rex".to_string(),
        gender: Gender::Male,
        breed: Breed {
            id: "breed-1".to_string(),
            category: Category::Large,
            name: "Labrador".to_string(),
        },
        birthday: 1_600_000_000_000,
        owner_id: "owner".to_string(),
        tags: vec!["calm".to_string()],
        portrait_id: None,
    };
    let mut svc = new_service();
    let create = WalkRequestCreate {
        dogs: vec![dog],
        should_start_after: Some(10),
        should_start_before: Some(20),
        should_end_after: None,
        should_end_before: None,
        latitude: 0,
        longitude: 0,
        created_by: "owner".to_string(),
    };
    let id = svc.create_walk_request(create).unwrap();
    let req = svc.get_walk_request(&id).unwrap();
    assert_eq!(req.dogs.len(), 1);
    assert_eq!(req.dogs[0].name, "Rex".to_string());
    assert_eq!(req.dogs[0].breed.name, "Labrador".to_string());
    assert_eq!(req.dogs[0].breed.category.name(), "Large".to_string());
    assert_eq!(req.dogs[0].tags, vec!["calm".to_string()]);
    assert_eq!(req.should_start_after, Some(10));
    assert_eq!(req.should_start_before, Some(20));
}

#[test]
fn create_rejects_out_of_range_coordinates() {
    let mut svc = new_service();
    let err = svc
        .create_walk_request(plain_request("owner", 181_000_000, 0))
        .unwrap_err();
    assert_eq!(err.kind(), ErrorKind::ValidationError);
}
