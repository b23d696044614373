use domain_registry::errors::{AppError, ErrorBody};
use domain_registry::handlers::{add_domains, check_health, get_domain, get_domains};
use domain_registry::models::{Domain, DomainStatus, HealthResponse};
use domain_registry::state::AppState;
use domain_registry::tasks::cleanup_expired_domains;
use domain_registry::time::Timestamp;

fn record(id: i32, name: &str, duration: i32) -> Domain {
    Domain { id, name: name.to_string(), duration }
}

fn secs(seconds: u64) -> Timestamp {
    Timestamp::from_parts(seconds, 0)
}

#[test]
fn health_probe_answers_its_fixed_text() {
    assert_eq!(
        check_health(),
        (200, HealthResponse { status: "I am healthier than you BROther".to_string() })
    );
}

#[test]
fn add_domains_answers_created_with_the_record() {
    let mut state = AppState::new();
    assert_eq!(
        add_domains(&mut state, record(1, "example.com", 60), secs(0)),
        Ok((201, record(1, "example.com", 60)))
    );
    assert_eq!(state.len(), 1);
}

#[test]
fn add_domains_answers_conflict_for_a_taken_key() {
    let mut state = AppState::new();
    assert!(add_domains(&mut state, record(1, "example.com", 60), secs(0)).is_ok());
    let again = add_domains(&mut state, record(1, "other.org", 5), secs(1));
    assert_eq!(again, Err(AppError::Conflict("Domain ID 1 already exists".to_string())));
    assert_eq!(again.unwrap_err().into_response().0, 409);
    assert_eq!(get_domains(&state, secs(1)), (200, vec![record(1, "example.com", 60)]));
}

#[test]
fn get_domains_lists_live_records_only() {
    let mut state = AppState::new();
    assert_eq!(get_domains(&state, secs(0)), (200, vec![]));
    assert!(add_domains(&mut state, record(1, "a", 1), secs(0)).is_ok());
    assert!(add_domains(&mut state, record(2, "b", 3), secs(0)).is_ok());
    let (status, mut both) = get_domains(&state, secs(0));
    both.sort_by_key(|r| r.id);
    assert_eq!(status, 200);
    assert_eq!(both, vec![record(1, "a", 1), record(2, "b", 3)]);
    assert_eq!(get_domains(&state, secs(1)), (200, vec![record(2, "b", 3)]));
    assert_eq!(get_domains(&state, secs(3)), (200, vec![]));
}

#[test]
fn get_domain_answers_ok_with_the_remaining_seconds() {
    let mut state = AppState::new();
    assert!(add_domains(&mut state, record(5, "e", 90), secs(10)).is_ok());
    assert_eq!(
        get_domain(&state, 5, Timestamp::from_parts(40, 1)),
        Ok((
            200,
            DomainStatus { id: 5, name: "e".to_string(), duration: 90, remaining_seconds: 59 }
        ))
    );
}

#[test]
fn get_domain_answers_not_found_for_absent_and_expired_alike() {
    let mut state = AppState::new();
    assert!(add_domains(&mut state, record(5, "e", 2), secs(0)).is_ok());
    let expired = get_domain(&state, 5, secs(2));
    assert_eq!(expired, Err(AppError::NotFound("Domain ID 5 not found".to_string())));
    assert_eq!(cleanup_expired_domains(&mut state, secs(2)).len(), 1);
    let absent = get_domain(&state, 5, secs(2));
    assert_eq!(absent, expired);
    assert_eq!(
        absent.unwrap_err().into_response(),
        (404, ErrorBody { error: "Domain ID 5 not found".to_string() })
    );
}

#[test]
fn cleanup_counts_what_it_removed() {
    let mut state = AppState::new();
    assert_eq!(cleanup_expired_domains(&mut state, secs(0)).len(), 0);
    for id in 0..10 {
        assert!(add_domains(&mut state, record(id, "n", id), secs(0)).is_ok());
    }
    assert_eq!(cleanup_expired_domains(&mut state, secs(0)).len(), 1);
    assert_eq!(state.len(), 9);
    assert_eq!(cleanup_expired_domains(&mut state, secs(4)).len(), 4);
    assert_eq!(state.len(), 5);
    assert_eq!(cleanup_expired_domains(&mut state, secs(4)).len(), 0);
    assert_eq!(cleanup_expired_domains(&mut state, secs(100)).len(), 5);
    assert_eq!(state.len(), 0);
}

#[test]
fn cleanup_then_reinsert_under_the_freed_key() {
    let mut state = AppState::new();
    assert!(add_domains(&mut state, record(1, "a", 2), secs(0)).is_ok());
    assert!(get_domains(&state, secs(0)).1.contains(&record(1, "a", 2)));
    assert_eq!(get_domains(&state, secs(3)), (200, vec![]));
    assert_eq!(get_domain(&state, 1, secs(3)), Err(AppError::not_found(1)));
    assert_eq!(cleanup_expired_domains(&mut state, secs(3)).len(), 1);
    assert_eq!(
        add_domains(&mut state, record(1, "b", 5), secs(3)),
        Ok((201, record(1, "b", 5)))
    );
    assert_eq!(get_domain(&state, 1, secs(3)).unwrap().1.remaining_seconds, 5);
}
