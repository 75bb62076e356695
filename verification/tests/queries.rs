//! Tests for the read paths: proximity search, owner listing, sorting
//! and pagination, and the port-level query language.

use little_walk::error::ErrorKind;
use little_walk::memory::MemoryRepository;
use little_walk::repository::{
    Pagination, Repository, WalkRequestCreate, WalkRequestQuery, WalkRequestUpdate,
};
use little_walk::service::Service;

fn new_service() -> Service<MemoryRepository> {
    Service::new(MemoryRepository::new())
}

fn request_at(created_by: &str, lon: i64, lat: i64) -> WalkRequestCreate {
    WalkRequestCreate {
        dogs: vec![],
        should_start_after: None,
        should_start_before: None,
        should_end_after: None,
        should_end_before: None,
        latitude: lat,
        longitude: lon,
        created_by: created_by.to_string(),
    }
}

fn empty_query() -> WalkRequestQuery {
    WalkRequestQuery {
        id: None,
        dog_ids_includes_all: None,
        dog_ids_includes_any: None,
        nearby: None,
        accepted_by: None,
        accepted_by_neq: None,
        accepted_by_is_null: None,
        canceled_at_is_null: None,
        acceptances_includes_all: None,
        acceptances_includes_any: None,
        created_by: None,
    }
}

fn empty_update() -> WalkRequestUpdate {
    WalkRequestUpdate {
        dogs: None,
        should_start_after: None,
        should_start_before: None,
        should_end_after: None,
        should_end_before: None,
        latitude: None,
        longitude: None,
        accepted_by: None,
        accepted_at: None,
        canceled_at: None,
        started_at: None,
        finished_at: None,
        unset_accepted_by: false,
        unset_accepted_at: false,
        add_to_acceptances: None,
        remove_from_acceptances: None,
    }
}

fn page(limit: i64, skip: i64) -> Pagination {
    Pagination { limit, skip }
}

#[test]
fn nearby_includes_close_and_excludes_far() {
    // C at (0,0), D at (10,10) degrees; a 1000 m radius around the
    // origin returns C and not D.
    let mut svc = new_service();
    let c = svc.create_walk_request(request_at("owner", 0, 0)).unwrap();
    let _d = svc
        .create_walk_request(request_at("owner", 10_000_000, 10_000_000))
        .unwrap();

    let found = svc.nearby_walk_requests(0, 0, 1_000, page(10, 0)).unwrap();
    assert_eq!(found.len(), 1);
    assert_eq!(found[0].id, c);
    assert_eq!(found[0].distance, Some(0));
}

#[test]
fn nearby_annotates_computed_distance() {
    // One degree of longitude is 111,319 m in the port's metric.
    let mut svc = new_service();
    svc.create_walk_request(request_at("owner", 1_000_000, 0))
        .unwrap();
    let found = svc
        .nearby_walk_requests(0, 0, 200_000, page(10, 0))
        .unwrap();
    assert_eq!(found.len(), 1);
    assert_eq!(found[0].distance, Some(111_319));

    // (10,10) degrees from the origin: 1,574,288 m.
    let mut svc2 = new_service();
    svc2.create_walk_request(request_at("owner", 10_000_000, 10_000_000))
        .unwrap();
    let found2 = svc2
        .nearby_walk_requests(0, 0, 2_000_000, page(10, 0))
        .unwrap();
    assert_eq!(found2[0].distance, Some(1_574_288));
}

#[test]
fn nearby_excludes_claimed_requests() {
    let mut svc = new_service();
    let a = svc.create_walk_request(request_at("owner", 0, 0)).unwrap();
    let b = svc.create_walk_request(request_at("owner", 1_000, 0)).unwrap();
    svc.accept(&a, "walker-x").unwrap();

    let found = svc.nearby_walk_requests(0, 0, 10_000, page(10, 0)).unwrap();
    assert_eq!(found.len(), 1);
    assert_eq!(found[0].id, b);
}

#[test]
fn nearby_radius_is_a_hard_edge() {
    // 5000 microdegrees east is 556 m out: inside a 556 m radius, outside
    // a 555 m radius.
    let mut svc = new_service();
    svc.create_walk_request(request_at("owner", 5_000, 0)).unwrap();
    let inside = svc.nearby_walk_requests(0, 0, 556, page(10, 0)).unwrap();
    assert_eq!(inside.len(), 1);
    assert_eq!(inside[0].distance, Some(556));
    let outside = svc.nearby_walk_requests(0, 0, 555, page(10, 0)).unwrap();
    assert!(outside.is_empty());
}

#[test]
fn my_walk_requests_filters_by_owner_and_sorts_newest_first() {
    let mut svc = new_service();
    let a = svc.create_walk_request(request_at("alice", 0, 0)).unwrap();
    let _b = svc.create_walk_request(request_at("bob", 0, 0)).unwrap();
    let c = svc.create_walk_request(request_at("alice", 0, 0)).unwrap();

    let mine = svc.my_walk_requests("alice", page(10, 0)).unwrap();
    assert_eq!(mine.len(), 2);
    for req in &mine {
        assert_eq!(req.created_by, "alice".to_string());
    }
    // Newest first: creation timestamps are non-decreasing, so the later
    // record may not sort after the earlier one.
    assert!(mine[0].created_at.unwrap() >= mine[1].created_at.unwrap());
    let ids: Vec<&str> = mine.iter().map(|r| r.id.as_str()).collect();
    assert!(ids.contains(&a.as_str()));
    assert!(ids.contains(&c.as_str()));
}

#[test]
fn pagination_skips_and_limits() {
    let mut svc = new_service();
    for _ in 0..5 {
        svc.create_walk_request(request_at("alice", 0, 0)).unwrap();
    }
    assert_eq!(svc.my_walk_requests("alice", page(2, 0)).unwrap().len(), 2);
    assert_eq!(svc.my_walk_requests("alice", page(10, 3)).unwrap().len(), 2);
    assert_eq!(svc.my_walk_requests("alice", page(10, 5)).unwrap().len(), 0);
    assert_eq!(svc.my_walk_requests("alice", page(0, 0)).unwrap().len(), 0);
}

#[test]
fn negative_pagination_is_a_validation_error() {
    let svc = new_service();
    let err = svc.my_walk_requests("alice", page(-1, 0)).unwrap_err();
    assert_eq!(err.kind(), ErrorKind::ValidationError);
    let err = svc.nearby_walk_requests(0, 0, 10, page(1, -3)).unwrap_err();
    assert_eq!(err.kind(), ErrorKind::ValidationError);
}

#[test]
fn malformed_proximity_triple_is_a_validation_error() {
    // The port itself rejects a proximity clause that is not exactly
    // [origin-longitude, origin-latitude, radius].
    let mut repo = MemoryRepository::new();
    let mut query = empty_query();
    query.nearby = Some(vec![0, 0]);
    let err = repo
        .query_walk_requests(query, None, None)
        .unwrap_err();
    assert_eq!(err.kind(), ErrorKind::ValidationError);

    let mut query = empty_query();
    query.nearby = Some(vec![0, 0, -5]);
    let err = repo
        .query_walk_requests(query, None, None)
        .unwrap_err();
    assert_eq!(err.kind(), ErrorKind::ValidationError);

    let mut update = empty_update();
    update.latitude = Some(95_000_000);
    let err = repo
        .update_walk_requests_by_query(empty_query(), update)
        .unwrap_err();
    assert_eq!(err.kind(), ErrorKind::ValidationError);
}

#[test]
fn port_queries_filter_by_bid_pool_and_claimant() {
    let mut svc = new_service();
    let a = svc.create_walk_request(request_at("owner", 0, 0)).unwrap();
    let b = svc.create_walk_request(request_at("owner", 0, 0)).unwrap();
    svc.add_acceptance(&a, "walker-x").unwrap();
    svc.accept(&b, "walker-y").unwrap();

    let unclaimed = svc.nearby_walk_requests(0, 0, 1_000, page(10, 0)).unwrap();
    assert_eq!(unclaimed.len(), 1);
    assert_eq!(unclaimed[0].id, a);
    assert_eq!(unclaimed[0].acceptances, vec!["walker-x".to_string()]);
}
