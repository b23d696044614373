use domain_registry::errors::{
    AppError, ErrorBody, STATUS_CONFLICT, STATUS_CREATED, STATUS_INTERNAL_SERVER_ERROR,
    STATUS_NOT_FOUND, STATUS_OK,
};
use domain_registry::text::append_decimal;

#[test]
fn status_numbers() {
    assert_eq!(STATUS_OK, 200);
    assert_eq!(STATUS_CREATED, 201);
    assert_eq!(STATUS_NOT_FOUND, 404);
    assert_eq!(STATUS_CONFLICT, 409);
    assert_eq!(STATUS_INTERNAL_SERVER_ERROR, 500);
}

#[test]
fn conflict_names_the_key() {
    assert_eq!(
        AppError::conflict(42),
        AppError::Conflict("Domain ID 42 already exists".to_string())
    );
    assert_eq!(
        AppError::conflict(i32::MIN),
        AppError::Conflict("Domain ID -2147483648 already exists".to_string())
    );
    assert_eq!(
        AppError::conflict(0),
        AppError::Conflict(format!("Domain ID {} already exists", 0))
    );
}

#[test]
fn not_found_names_the_key() {
    assert_eq!(AppError::not_found(42), AppError::NotFound("Domain ID 42 not found".to_string()));
    assert_eq!(
        AppError::not_found(-5),
        AppError::NotFound(format!("Domain ID {} not found", -5))
    );
}

#[test]
fn lock_failure_is_an_internal_error() {
    assert_eq!(AppError::lock_poisoned(), AppError::Internal("Mutex Poisoned".to_string()));
    assert_eq!(
        AppError::lock_poisoned().into_response(),
        (500, ErrorBody { error: "Mutex Poisoned".to_string() })
    );
}

#[test]
fn each_error_is_answered_with_its_status_and_message() {
    assert_eq!(
        AppError::NotFound("gone".to_string()).into_response(),
        (404, ErrorBody { error: "gone".to_string() })
    );
    assert_eq!(
        AppError::Conflict("taken".to_string()).into_response(),
        (409, ErrorBody { error: "taken".to_string() })
    );
    assert_eq!(
        AppError::Internal("Mutex Poisoned".to_string()).into_response(),
        (500, ErrorBody { error: "Mutex Poisoned".to_string() })
    );
    assert_eq!(
        AppError::conflict(7).into_response(),
        (409, ErrorBody { error: "Domain ID 7 already exists".to_string() })
    );
    assert_eq!(
        AppError::not_found(7).into_response(),
        (404, ErrorBody { error: "Domain ID 7 not found".to_string() })
    );
}

#[test]
fn decimal_text_matches_the_standard_rendering() {
    let samples = [
        0, 1, -1, 9, 10, 11, 99, 100, 101, 12345, -12345, 1_000_000_000, 2_147_483_647,
        -2_147_483_647, -2_147_483_648, 2_000_000_009, -10, -100,
    ];
    for n in samples {
        let mut text = String::from("n=");
        append_decimal(&mut text, n);
        assert_eq!(text, format!("n={}", n));
    }
}

#[test]
fn decimal_text_appends_to_what_is_there() {
    let mut text = String::new();
    append_decimal(&mut text, 7);
    append_decimal(&mut text, -8);
    append_decimal(&mut text, 90);
    assert_eq!(text, "7-890");
}
