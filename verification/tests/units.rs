//! Unit tests for the leaf pieces: integer geometry, id rendering,
//! entity labels and the error type.

use little_walk::entities::{Category, Gender, Status, WalkRequest};
use little_walk::error::{Error, ErrorKind};
use little_walk::geo;
use little_walk::ids;

#[test]
fn isqrt_brackets_the_root() {
    assert_eq!(geo::isqrt(0), 0);
    assert_eq!(geo::isqrt(1), 1);
    assert_eq!(geo::isqrt(3), 1);
    assert_eq!(geo::isqrt(4), 2);
    assert_eq!(geo::isqrt(99), 9);
    assert_eq!(geo::isqrt(100), 10);
    assert_eq!(geo::isqrt(200_000_000_000_000), 14_142_135);
    assert_eq!(geo::isqrt(u64::MAX), 4_294_967_295);
}

#[test]
fn distance_scales_degrees_to_meters() {
    assert_eq!(geo::distance_m(0, 0, 0, 0), 0);
    assert_eq!(geo::distance_m(0, 0, 1_000_000, 0), 111_319);
    assert_eq!(geo::distance_m(0, 0, 0, 1_000_000), 111_319);
    assert_eq!(geo::distance_m(0, 0, 10_000_000, 10_000_000), 1_574_288);
    assert_eq!(geo::distance_m(10_000_000, 10_000_000, 0, 0), 1_574_288);
    assert_eq!(geo::distance_m(2_000_000, 1_000_000, 2_000_000, 1_000_000), 0);
}

#[test]
fn coordinate_range_check() {
    assert!(geo::coords_ok(180_000_000, 90_000_000));
    assert!(geo::coords_ok(-180_000_000, -90_000_000));
    assert!(!geo::coords_ok(180_000_001, 0));
    assert!(!geo::coords_ok(0, -90_000_001));
}

#[test]
fn decimal_ids_render_and_stay_distinct() {
    assert_eq!(ids::decimal_string(0), "0".to_string());
    assert_eq!(ids::decimal_string(7), "7".to_string());
    assert_eq!(ids::decimal_string(10), "10".to_string());
    assert_eq!(ids::decimal_string(1_234_567_890), "1234567890".to_string());
    assert_eq!(
        ids::decimal_string(u64::MAX),
        "18446744073709551615".to_string()
    );
    assert_ne!(ids::decimal_string(12), ids::decimal_string(21));
}

#[test]
fn category_and_status_labels() {
    assert_eq!(Category::Small.name(), "Small".to_string());
    assert_eq!(Category::Medium.name(), "Medium".to_string());
    assert_eq!(Category::Large.name(), "Large".to_string());
    assert_eq!(Category::Giant.name(), "Giant".to_string());
    assert_eq!(Status::Canceled.name(), "Canceled".to_string());
    assert_eq!(Status::Waiting.name(), "Waiting".to_string());
}

#[test]
fn gender_defaults_to_other() {
    assert_eq!(Gender::default(), Gender::Other);
}

#[test]
fn status_priority_order() {
    let mut req = WalkRequest {
        id: "1".to_string(),
        dogs: vec![],
        should_start_after: None,
        should_start_before: None,
        should_end_after: None,
        should_end_before: None,
        longitude: 0,
        latitude: 0,
        distance: None,
        canceled_at: None,
        accepted_by: None,
        accepted_at: None,
        started_at: None,
        finished_at: None,
        acceptances: vec![],
        created_by: "o".to_string(),
        created_at: Some(1),
        updated_at: Some(1),
    };
    assert_eq!(req.status(), Status::Waiting);
    req.finished_at = Some(4);
    assert_eq!(req.status(), Status::Finished);
    req.started_at = Some(3);
    assert_eq!(req.status(), Status::Started);
    req.accepted_at = Some(2);
    assert_eq!(req.status(), Status::Accepted);
    req.canceled_at = Some(5);
    assert_eq!(req.status(), Status::Canceled);
}

#[test]
fn error_constructors_tag_their_kinds() {
    let e = Error::new("backend broke");
    assert_eq!(e.kind(), ErrorKind::BackendUnavailable);
    assert_eq!(e.text(), "backend broke".to_string());
    assert_eq!(e.cause_text(), None);

    let e = Error::new("backend broke").with_cause("socket closed");
    assert_eq!(e.kind(), ErrorKind::BackendUnavailable);
    assert_eq!(e.cause_text(), Some("socket closed".to_string()));

    let e = Error::msg("already claimed");
    assert_eq!(e.kind(), ErrorKind::PreconditionFailed);
    assert_eq!(e.text(), "already claimed".to_string());

    let e = Error::from_error("low-level text");
    assert_eq!(e.kind(), ErrorKind::BackendUnavailable);
    assert_eq!(e.text(), "low-level text".to_string());

    let e = Error::wrap("io failure", "could not store sample");
    assert_eq!(e.kind(), ErrorKind::BackendUnavailable);
    assert_eq!(e.text(), "could not store sample".to_string());
    assert_eq!(e.cause_text(), Some("io failure".to_string()));

    let e = Error::tagged(ErrorKind::NotFound, "no such walk");
    assert_eq!(e.kind(), ErrorKind::NotFound);
    let cloned = e.clone();
    assert_eq!(cloned.kind(), ErrorKind::NotFound);
    assert_eq!(cloned.text(), "no such walk".to_string());
}
