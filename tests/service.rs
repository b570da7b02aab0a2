use feedback_crud::model::{Feedback, Rating, Timestamp};
use feedback_crud::schema::{CreateFeedbackSchema, FilterOptions, UpdateFeedbackSchema};
use feedback_crud::service::{
    classify_create_error, classify_read_error, classify_reread_error, create_feedback, create_feedback_with,
    delete_feedback, edit_feedback, edit_feedback_at, get_feedback, list_feedbacks,
    next_update_stamp, not_found_message, require_affected, ServiceError,
};
use feedback_crud::store::{FeedbackTable, StoreError};

fn body(name: &str, rating: f32) -> CreateFeedbackSchema {
    CreateFeedbackSchema {
        name: name.to_string(),
        email: format!("{}@example.com", name),
        feedback: format!("feedback from {}", name),
        rating: Rating { bits: rating.to_bits() },
        status: Some("pending".to_string()),
    }
}

fn at(micros: i64) -> Timestamp {
    Timestamp { micros }
}

fn ids(rows: &[Feedback]) -> Vec<String> {
    rows.iter().map(|f| f.id.clone()).collect()
}

#[test]
fn create_sets_created_at_and_no_updated_at() {
    let mut t = FeedbackTable::new();
    let f = create_feedback_with(&mut t, "a1".to_string(), &body("ann", 4.5), at(100)).unwrap();
    assert_eq!(f.id, "a1");
    assert_eq!(f.name, "ann");
    assert_eq!(f.email, "ann@example.com");
    assert_eq!(f.feedback, "feedback from ann");
    assert_eq!(f32::from_bits(f.rating.bits), 4.5);
    assert_eq!(f.status, None);
    assert_eq!(f.created_at, Some(at(100)));
    assert_eq!(f.updated_at, None);
    assert_eq!(t.len(), 1);
}

#[test]
fn get_after_create_returns_created_record() {
    let mut t = FeedbackTable::new();
    let f = create_feedback_with(&mut t, "a1".to_string(), &body("ann", 3.0), at(7)).unwrap();
    let g = get_feedback(&t, "a1").unwrap();
    assert_eq!(g.id, f.id);
    assert_eq!(g.name, f.name);
    assert_eq!(g.email, f.email);
    assert_eq!(g.feedback, f.feedback);
    assert_eq!(g.rating, f.rating);
    assert_eq!(g.status, f.status);
    assert_eq!(g.created_at, f.created_at);
    assert_eq!(g.updated_at, f.updated_at);
}

#[test]
fn empty_update_only_advances_updated_at() {
    let mut t = FeedbackTable::new();
    create_feedback_with(&mut t, "a1".to_string(), &body("ann", 3.0), at(10)).unwrap();
    let u1 = edit_feedback_at(&mut t, "a1", &UpdateFeedbackSchema::empty(), at(50)).unwrap();
    assert_eq!(u1.updated_at, Some(at(50)));
    // A clock that reads the same instant again still moves the stamp forward.
    let u2 = edit_feedback_at(&mut t, "a1", &UpdateFeedbackSchema::empty(), at(50)).unwrap();
    assert_eq!(u2.updated_at, Some(at(51)));
    // So does a clock that went backwards.
    let u3 = edit_feedback_at(&mut t, "a1", &UpdateFeedbackSchema::empty(), at(20)).unwrap();
    assert_eq!(u3.updated_at, Some(at(52)));
    assert_eq!(u3.name, "ann");
    assert_eq!(u3.email, "ann@example.com");
    assert_eq!(u3.feedback, "feedback from ann");
    assert_eq!(f32::from_bits(u3.rating.bits), 3.0);
    assert_eq!(u3.status, None);
    assert_eq!(u3.created_at, Some(at(10)));
}

#[test]
fn rating_update_changes_only_rating() {
    let mut t = FeedbackTable::new();
    create_feedback_with(&mut t, "a1".to_string(), &body("ann", 3.0), at(10)).unwrap();
    let mut u = UpdateFeedbackSchema::empty();
    u.rating = Some(Rating { bits: 1.5f32.to_bits() });
    let f = edit_feedback_at(&mut t, "a1", &u, at(30)).unwrap();
    assert_eq!(f32::from_bits(f.rating.bits), 1.5);
    assert_eq!(f.updated_at, Some(at(30)));
    assert_eq!(f.name, "ann");
    assert_eq!(f.email, "ann@example.com");
    assert_eq!(f.feedback, "feedback from ann");
    assert_eq!(f.status, None);
    assert_eq!(f.created_at, Some(at(10)));
    let g = get_feedback(&t, "a1").unwrap();
    assert_eq!(g.rating, f.rating);
    assert_eq!(g.updated_at, Some(at(30)));
}

#[test]
fn update_sets_given_fields_and_status() {
    let mut t = FeedbackTable::new();
    create_feedback_with(&mut t, "a1".to_string(), &body("ann", 3.0), at(10)).unwrap();
    let u = UpdateFeedbackSchema {
        name: Some("anna".to_string()),
        email: None,
        feedback: Some("changed".to_string()),
        rating: None,
        status: Some("reviewed".to_string()),
    };
    let f = edit_feedback_at(&mut t, "a1", &u, at(11)).unwrap();
    assert_eq!(f.name, "anna");
    assert_eq!(f.email, "ann@example.com");
    assert_eq!(f.feedback, "changed");
    assert_eq!(f.status, Some("reviewed".to_string()));
}

#[test]
fn update_missing_is_not_found() {
    let mut t = FeedbackTable::new();
    let r = edit_feedback_at(&mut t, "nope", &UpdateFeedbackSchema::empty(), at(1));
    assert!(matches!(r, Err(ServiceError::NotFound)));
    assert_eq!(t.len(), 0);
}

#[test]
fn delete_then_get_is_not_found() {
    let mut t = FeedbackTable::new();
    create_feedback_with(&mut t, "a1".to_string(), &body("ann", 3.0), at(10)).unwrap();
    create_feedback_with(&mut t, "b2".to_string(), &body("bob", 2.0), at(11)).unwrap();
    assert!(delete_feedback(&mut t, "a1").is_ok());
    assert!(matches!(get_feedback(&t, "a1"), Err(ServiceError::NotFound)));
    assert_eq!(get_feedback(&t, "b2").unwrap().name, "bob");
    assert_eq!(t.len(), 1);
}

#[test]
fn delete_missing_is_not_found() {
    let mut t = FeedbackTable::new();
    create_feedback_with(&mut t, "a1".to_string(), &body("ann", 3.0), at(10)).unwrap();
    assert!(matches!(delete_feedback(&mut t, "zz"), Err(ServiceError::NotFound)));
    assert_eq!(t.len(), 1);
}

#[test]
fn duplicate_id_is_conflict() {
    let mut t = FeedbackTable::new();
    create_feedback_with(&mut t, "a1".to_string(), &body("ann", 3.0), at(10)).unwrap();
    let r = create_feedback_with(&mut t, "a1".to_string(), &body("bob", 1.0), at(20));
    assert!(matches!(r, Err(ServiceError::Conflict)));
    assert_eq!(t.len(), 1);
    assert_eq!(get_feedback(&t, "a1").unwrap().name, "ann");
}

#[test]
fn list_pages_in_id_order() {
    let mut t = FeedbackTable::new();
    for (id, name) in [("id2", "b"), ("id3", "c"), ("id1", "a")] {
        create_feedback_with(&mut t, id.to_string(), &body(name, 1.0), at(1)).unwrap();
    }
    let p1 = list_feedbacks(&t, &FilterOptions { page: Some(1), limit: Some(2) });
    assert_eq!(p1.results, 2);
    assert_eq!(ids(&p1.feedbacks), vec!["id1", "id2"]);
    let p2 = list_feedbacks(&t, &FilterOptions { page: Some(2), limit: Some(2) });
    assert_eq!(p2.results, 1);
    assert_eq!(ids(&p2.feedbacks), vec!["id3"]);
    let p3 = list_feedbacks(&t, &FilterOptions { page: Some(3), limit: Some(2) });
    assert_eq!(p3.results, 0);
}

#[test]
fn list_defaults_and_page_zero() {
    let mut t = FeedbackTable::new();
    for i in 0..12 {
        let id = format!("k{:02}", i);
        create_feedback_with(&mut t, id, &body("x", 1.0), at(1)).unwrap();
    }
    let all = list_feedbacks(&t, &FilterOptions::default());
    assert_eq!(all.results, 10);
    assert_eq!(all.feedbacks[0].id, "k00");
    assert_eq!(all.feedbacks[9].id, "k09");
    let zero = list_feedbacks(&t, &FilterOptions { page: Some(0), limit: Some(3) });
    assert_eq!(ids(&zero.feedbacks), vec!["k00", "k01", "k02"]);
    let huge = list_feedbacks(&t, &FilterOptions { page: Some(usize::MAX), limit: Some(usize::MAX) });
    assert_eq!(huge.results, 0);
}

#[test]
fn list_empty_table() {
    let t = FeedbackTable::new();
    let p = list_feedbacks(&t, &FilterOptions::default());
    assert_eq!(p.results, 0);
    assert!(p.feedbacks.is_empty());
}

#[test]
fn get_missing_is_not_found() {
    let t = FeedbackTable::new();
    let r = get_feedback(&t, "8e0c7a52-6d1f-4e57-9a54-3f5a0f1b2c3d");
    assert!(matches!(r, Err(ServiceError::NotFound)));
}

#[test]
fn create_assigns_distinct_uuid_ids() {
    let mut t = FeedbackTable::new();
    let a = create_feedback(&mut t, &body("ann", 1.0)).unwrap();
    let b = create_feedback(&mut t, &body("bob", 2.0)).unwrap();
    assert_ne!(a.id, b.id);
    for id in [&a.id, &b.id] {
        assert_eq!(id.len(), 36);
        assert!(uuid::Uuid::parse_str(id).is_ok());
    }
    assert!(a.created_at.unwrap().micros > 1_600_000_000_000_000);
    assert_eq!(a.updated_at, None);
    assert_eq!(t.len(), 2);
}

#[test]
fn edit_uses_current_time() {
    let mut t = FeedbackTable::new();
    create_feedback_with(&mut t, "a1".to_string(), &body("ann", 3.0), at(10)).unwrap();
    let f = edit_feedback(&mut t, "a1", &UpdateFeedbackSchema::empty()).unwrap();
    assert!(f.updated_at.unwrap().micros > 1_600_000_000_000_000);
    let g = edit_feedback(&mut t, "a1", &UpdateFeedbackSchema::empty()).unwrap();
    assert!(g.updated_at.unwrap().micros > f.updated_at.unwrap().micros);
    assert_eq!(g.name, f.name);
    assert!(matches!(
        edit_feedback(&mut t, "b", &UpdateFeedbackSchema::empty()),
        Err(ServiceError::NotFound)
    ));
}

#[test]
fn error_classification() {
    assert!(matches!(classify_create_error(StoreError::UniqueViolation), ServiceError::Conflict));
    match classify_create_error(StoreError::Other("disk full".to_string())) {
        ServiceError::Internal(m) => assert_eq!(m, "disk full"),
        other => panic!("unexpected {:?}", other),
    }
    assert!(matches!(classify_create_error(StoreError::RowNotFound), ServiceError::Internal(_)));
    assert!(matches!(classify_read_error(StoreError::RowNotFound), ServiceError::NotFound));
    assert!(matches!(classify_read_error(StoreError::UniqueViolation), ServiceError::Internal(_)));
    match classify_reread_error(StoreError::RowNotFound) {
        ServiceError::Internal(m) => assert_eq!(m, "row not found"),
        other => panic!("unexpected {:?}", other),
    }
    assert!(matches!(require_affected(0), Err(ServiceError::NotFound)));
    assert!(require_affected(3).is_ok());
}

#[test]
fn status_codes_and_messages() {
    assert_eq!(ServiceError::NotFound.status_code(), 404);
    assert_eq!(ServiceError::Conflict.status_code(), 409);
    assert_eq!(ServiceError::Internal(String::new()).status_code(), 500);
    assert!(ServiceError::NotFound.is_client_failure());
    assert!(!ServiceError::Internal(String::new()).is_client_failure());
    assert_eq!(not_found_message("abc"), "Feedback with ID: abc not found");
}

#[test]
fn stamp_rule() {
    assert_eq!(next_update_stamp(None, at(5)), at(5));
    assert_eq!(next_update_stamp(Some(at(3)), at(5)), at(5));
    assert_eq!(next_update_stamp(Some(at(5)), at(5)), at(6));
    assert_eq!(next_update_stamp(Some(at(i64::MAX)), at(5)), at(i64::MAX));
}
